//! The module registry: which directory implements which namespace prefix.

use crate::textmap::TextMap;
use vstd::prelude::*;

verus! {

/// The registered modules. Its view maps each registered prefix, in its
/// written form, to the module's base directory.
pub struct ModuleRegistry {
    modules: TextMap<String>,
}

impl View for ModuleRegistry {
    type V = Map<Seq<char>, Seq<char>>;

    closed spec fn view(&self) -> Map<Seq<char>, Seq<char>> {
        self.modules@
    }
}

/// The registry after `prefix` was offered with `directory`: a prefix that is
/// already registered keeps the directory it has.
pub open spec fn registered(
    registry: Map<Seq<char>, Seq<char>>,
    prefix: Seq<char>,
    directory: Seq<char>,
) -> Map<Seq<char>, Seq<char>> {
    if registry.contains_key(prefix) {
        registry
    } else {
        registry.insert(prefix, directory)
    }
}

impl ModuleRegistry {
    /// A registry without modules.
    pub fn new() -> (registry: Self)
        ensures
            registry@ == Map::<Seq<char>, Seq<char>>::empty(),
    {
        ModuleRegistry { modules: TextMap::new() }
    }

    /// Registers the module that implements `prefix` in `directory`. Returns
    /// whether the entry was added: an entry once written is never changed,
    /// so a prefix that is registered already is left as it is.
    pub fn register(&mut self, prefix: String, directory: String) -> (added: bool)
        ensures
            added == !old(self)@.contains_key(prefix@),
            final(self)@ == registered(old(self)@, prefix@, directory@),
            forall|p: Seq<char>| #[trigger]
                old(self)@.contains_key(p) ==> final(self)@.contains_key(p) && final(self)@[p]
                    == old(self)@[p],
    {
        if self.modules.contains_key(prefix.as_str()) {
            false
        } else {
            self.modules.insert(prefix, directory);
            true
        }
    }

    /// The base directory of the module registered under `prefix`, if there
    /// is one.
    pub fn directory_of(&self, prefix: &str) -> (directory: Option<&String>)
        ensures
            match directory {
                Some(d) => self@.contains_key(prefix@) && d@ == self@[prefix@],
                None => !self@.contains_key(prefix@),
            },
    {
        self.modules.get(prefix)
    }

    /// Whether a module is registered under `prefix`.
    pub fn contains(&self, prefix: &str) -> (present: bool)
        ensures
            present == self@.contains_key(prefix@),
    {
        self.modules.contains_key(prefix)
    }
}

} // verus!
