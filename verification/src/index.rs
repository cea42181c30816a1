//! The class index: a cache from qualified names to symbol tables that is
//! filled on demand.
//!
//! Resolving a name that is not cached takes two steps with file work in
//! between. `begin` answers from the cache or names the file in which the
//! class is expected; whoever owns the file system looks at that file and
//! reports a [`FileOutcome`]; `finish` records a parsed table and gives the
//! result. `resolve` runs the three in one call, with the file work handed in
//! as a function. Only successes are cached, and what is cached stays.

use crate::name::{rendering, QualifiedName};
use crate::registry::ModuleRegistry;
use crate::resolver::{
    ancestor, ancestor_registered, class_file_path, lemma_longest_prefix_preferred,
    lemma_miss_iff_no_ancestor_registered, locate_module, resolve_module,
};
use crate::symbols::{SymbolTable, SymbolTableView};
use crate::textmap::TextMap;
use vstd::prelude::*;

verus! {

/// Why a name did not resolve. Each of these means "no definition found".
#[derive(Clone, Copy, Debug, PartialEq, Eq, Structural)]
pub enum ResolveError {
    /// No registered module prefix is an ancestor of the name.
    LookupMiss,
    /// A module matched, but the class file is not there.
    FileMissing,
    /// The class file is there, but does not parse into the expected class.
    ParseFailure,
}

/// What looking at a class file gave.
#[derive(Debug)]
pub enum FileOutcome {
    /// There is no file at the path.
    Missing,
    /// The file does not parse into the expected class.
    Unparsable,
    /// The file parsed into this table.
    Parsed(SymbolTable),
}

/// The model of a [`FileOutcome`].
pub enum FileOutcomeView {
    Missing,
    Unparsable,
    Parsed(SymbolTableView),
}

impl View for FileOutcome {
    type V = FileOutcomeView;

    open spec fn view(&self) -> FileOutcomeView {
        match self {
            FileOutcome::Missing => FileOutcomeView::Missing,
            FileOutcome::Unparsable => FileOutcomeView::Unparsable,
            FileOutcome::Parsed(table) => FileOutcomeView::Parsed(table@),
        }
    }
}

/// The first step of a resolution.
#[derive(Debug)]
pub enum Lookup {
    /// The name is cached: this is its table, and no file work is needed.
    Cached(SymbolTable),
    /// The name is not cached; its class is expected in the file at this
    /// path.
    Probe(String),
    /// The name is not cached and belongs to no registered module.
    Miss,
}

/// The model of a [`Lookup`].
pub enum LookupView {
    Cached(SymbolTableView),
    Probe(Seq<char>),
    Miss,
}

impl View for Lookup {
    type V = LookupView;

    open spec fn view(&self) -> LookupView {
        match self {
            Lookup::Cached(table) => LookupView::Cached(table@),
            Lookup::Probe(path) => LookupView::Probe(path@),
            Lookup::Miss => LookupView::Miss,
        }
    }
}

/// The model of a resolution's result.
pub open spec fn result_view(result: Result<SymbolTable, ResolveError>) -> Result<
    SymbolTableView,
    ResolveError,
> {
    match result {
        Ok(table) => Ok(table@),
        Err(error) => Err(error),
    }
}

/// The cached classes. Its view maps the written form of each cached name to
/// the table of its class.
pub struct ClassIndex {
    classes: TextMap<SymbolTable>,
}

impl View for ClassIndex {
    type V = Map<Seq<char>, SymbolTableView>;

    closed spec fn view(&self) -> Map<Seq<char>, SymbolTableView> {
        self.classes@
    }
}

/// The first step for `name`: the cached table if there is one, else the
/// class file of the module that owns the name, else a miss.
pub open spec fn plan(
    cache: Map<Seq<char>, SymbolTableView>,
    registry: Map<Seq<char>, Seq<char>>,
    name: Seq<Seq<char>>,
) -> LookupView {
    if cache.contains_key(rendering(name)) {
        LookupView::Cached(cache[rendering(name)])
    } else {
        match locate_module(registry, name) {
            Some(found) => LookupView::Probe(class_file_path(found.directory, found.suffix)),
            None => LookupView::Miss,
        }
    }
}

/// The last step for `name`: a parsed table is cached under the name, in
/// place of what was there, and returned; a file that is missing or does not
/// parse leaves the cache as it is.
pub open spec fn settle(
    cache: Map<Seq<char>, SymbolTableView>,
    name: Seq<Seq<char>>,
    outcome: FileOutcomeView,
) -> (Map<Seq<char>, SymbolTableView>, Result<SymbolTableView, ResolveError>) {
    match outcome {
        FileOutcomeView::Missing => (cache, Err(ResolveError::FileMissing)),
        FileOutcomeView::Unparsable => (cache, Err(ResolveError::ParseFailure)),
        FileOutcomeView::Parsed(table) => (cache.insert(rendering(name), table), Ok(table)),
    }
}

/// A whole resolution of `name`, where looking at the class file would give
/// `outcome`: the cache afterwards and the result. The file is looked at
/// only where the first step asks for it.
pub open spec fn resolution(
    cache: Map<Seq<char>, SymbolTableView>,
    registry: Map<Seq<char>, Seq<char>>,
    name: Seq<Seq<char>>,
    outcome: FileOutcomeView,
) -> (Map<Seq<char>, SymbolTableView>, Result<SymbolTableView, ResolveError>) {
    match plan(cache, registry, name) {
        LookupView::Cached(table) => (cache, Ok(table)),
        LookupView::Miss => (cache, Err(ResolveError::LookupMiss)),
        LookupView::Probe(_) => settle(cache, name, outcome),
    }
}

impl ClassIndex {
    /// An index with nothing cached.
    pub fn new() -> (index: Self)
        ensures
            index@ == Map::<Seq<char>, SymbolTableView>::empty(),
    {
        ClassIndex { classes: TextMap::new() }
    }

    /// The cached table of `name`, if it is cached.
    pub fn get(&self, name: &QualifiedName) -> (table: Option<&SymbolTable>)
        ensures
            match table {
                Some(t) => self@.contains_key(rendering(name@)) && t@ == self@[rendering(name@)],
                None => !self@.contains_key(rendering(name@)),
            },
    {
        self.classes.get(name.as_str())
    }

    /// Caches `table` under `name`, in place of what was cached there.
    pub fn insert(&mut self, name: &QualifiedName, table: SymbolTable)
        ensures
            final(self)@ == old(self)@.insert(rendering(name@), table@),
    {
        self.classes.insert(name.as_str().to_owned(), table);
    }

    /// The first step of resolving `name`. Nothing is changed and no file is
    /// looked at.
    pub fn begin(&self, registry: &ModuleRegistry, name: &QualifiedName) -> (step: Lookup)
        ensures
            step@ == plan(self@, registry@, name@),
    {
        match self.classes.get(name.as_str()) {
            Some(table) => Lookup::Cached(table.clone()),
            None => match resolve_module(registry, name) {
                Some(found) => Lookup::Probe(found.class_file()),
                None => Lookup::Miss,
            },
        }
    }

    /// The last step of resolving `name`, given what looking at its class
    /// file gave.
    pub fn finish(&mut self, name: &QualifiedName, outcome: FileOutcome) -> (result: Result<
        SymbolTable,
        ResolveError,
    >)
        ensures
            (final(self)@, result_view(result)) == settle(old(self)@, name@, outcome@),
    {
        match outcome {
            FileOutcome::Missing => Err(ResolveError::FileMissing),
            FileOutcome::Unparsable => Err(ResolveError::ParseFailure),
            FileOutcome::Parsed(table) => {
                self.classes.insert(name.as_str().to_owned(), table.clone());
                Ok(table)
            },
        }
    }

    /// Resolves `name`: from the cache where it is cached; else through the
    /// registry and `probe`, which is handed the path of the class file and
    /// says what is there. `probe` is called at most once, and only for a
    /// name that is not cached and has a registered ancestor.
    pub fn resolve<F: FnOnce(&str) -> FileOutcome>(
        &mut self,
        registry: &ModuleRegistry,
        name: &QualifiedName,
        probe: F,
    ) -> (result: Result<SymbolTable, ResolveError>)
        requires
            plan(old(self)@, registry@, name@) matches LookupView::Probe(expected) ==> forall|
                path: &str,
            |
                path@ == expected ==> call_requires(probe, (path,)),
        ensures
            match plan(old(self)@, registry@, name@) {
                LookupView::Cached(table) => final(self)@ == old(self)@ && result_view(result)
                    == Ok::<SymbolTableView, ResolveError>(table),
                LookupView::Miss => final(self)@ == old(self)@ && result_view(result) == Err::<
                    SymbolTableView,
                    ResolveError,
                >(ResolveError::LookupMiss),
                LookupView::Probe(expected) => exists|path: &str, outcome: FileOutcome|
                    path@ == expected && call_ensures(probe, (path,), outcome) && (
                        final(self)@,
                        result_view(result),
                    ) == settle(old(self)@, name@, outcome@),
            },
            exists|outcome: FileOutcomeView|
                (final(self)@, result_view(result)) == #[trigger] resolution(
                    old(self)@,
                    registry@,
                    name@,
                    outcome,
                ),
    {
        let ghost before = self@;
        match self.begin(registry, name) {
            Lookup::Cached(table) => {
                assert((before, Ok::<SymbolTableView, ResolveError>(table@)) == resolution(
                    before,
                    registry@,
                    name@,
                    FileOutcomeView::Missing,
                ));
                Ok(table)
            },
            Lookup::Miss => {
                assert((before, Err::<SymbolTableView, ResolveError>(ResolveError::LookupMiss))
                    == resolution(before, registry@, name@, FileOutcomeView::Missing));
                Err(ResolveError::LookupMiss)
            },
            Lookup::Probe(path) => {
                let outcome = probe(path.as_str());
                let ghost seen = outcome@;
                let result = self.finish(name, outcome);
                assert((self@, result_view(result)) == resolution(before, registry@, name@, seen));
                result
            },
        }
    }
}

/// A name that is not cached and has no registered ancestor does not
/// resolve: the result is a lookup miss whatever is on disk, and nothing is
/// cached.
pub proof fn lemma_no_ancestor_gives_lookup_miss(
    cache: Map<Seq<char>, SymbolTableView>,
    registry: Map<Seq<char>, Seq<char>>,
    name: Seq<Seq<char>>,
    outcome: FileOutcomeView,
)
    requires
        !cache.contains_key(rendering(name)),
        forall|kept: int| !ancestor_registered(registry, name, kept),
    ensures
        plan(cache, registry, name) == LookupView::Miss,
        resolution(cache, registry, name, outcome) == (
            cache,
            Err::<SymbolTableView, ResolveError>(ResolveError::LookupMiss),
        ),
{
    lemma_miss_iff_no_ancestor_registered(registry, name);
}

/// A name that is not cached and whose longest registered ancestor is made
/// of its first `kept` segments is looked for in one file: the remaining
/// segments below that module's directory, the last as a class file.
pub proof fn lemma_probe_path(
    cache: Map<Seq<char>, SymbolTableView>,
    registry: Map<Seq<char>, Seq<char>>,
    name: Seq<Seq<char>>,
    kept: int,
)
    requires
        !cache.contains_key(rendering(name)),
        ancestor_registered(registry, name, kept),
        forall|longer: int| kept < longer ==> !ancestor_registered(registry, name, longer),
    ensures
        plan(cache, registry, name) == LookupView::Probe(
            class_file_path(registry[ancestor(name, kept)], name.skip(kept)),
        ),
{
    lemma_longest_prefix_preferred(registry, name, kept);
}

/// A name that has resolved stays resolved: whatever becomes of its file and
/// of the registry, resolving it again gives the same table and leaves the
/// cache as it is.
pub proof fn lemma_resolved_name_stays_resolved(
    cache: Map<Seq<char>, SymbolTableView>,
    registry: Map<Seq<char>, Seq<char>>,
    name: Seq<Seq<char>>,
    outcome: FileOutcomeView,
    later_registry: Map<Seq<char>, Seq<char>>,
    later_outcome: FileOutcomeView,
)
    requires
        resolution(cache, registry, name, outcome).1 is Ok,
    ensures
        resolution(
            resolution(cache, registry, name, outcome).0,
            later_registry,
            name,
            later_outcome,
        ) == resolution(cache, registry, name, outcome),
{
}

/// A resolution that fails leaves the cache as it is.
pub proof fn lemma_failure_caches_nothing(
    cache: Map<Seq<char>, SymbolTableView>,
    registry: Map<Seq<char>, Seq<char>>,
    name: Seq<Seq<char>>,
    outcome: FileOutcomeView,
)
    requires
        resolution(cache, registry, name, outcome).1 is Err,
    ensures
        resolution(cache, registry, name, outcome).0 == cache,
{
}

/// Nothing leaves the cache and nothing in it changes: what was cached
/// before a resolution is cached after it, with the same table.
pub proof fn lemma_cache_only_grows(
    cache: Map<Seq<char>, SymbolTableView>,
    registry: Map<Seq<char>, Seq<char>>,
    name: Seq<Seq<char>>,
    outcome: FileOutcomeView,
    key: Seq<char>,
)
    requires
        cache.contains_key(key),
    ensures
        resolution(cache, registry, name, outcome).0.contains_key(key),
        resolution(cache, registry, name, outcome).0[key] == cache[key],
{
}

/// A name without a cached table resolves exactly when it has a registered
/// ancestor and its class file is there and parses; each failure tells which
/// of these was missing.
pub proof fn lemma_uncached_resolution(
    cache: Map<Seq<char>, SymbolTableView>,
    registry: Map<Seq<char>, Seq<char>>,
    name: Seq<Seq<char>>,
    outcome: FileOutcomeView,
)
    requires
        !cache.contains_key(rendering(name)),
    ensures
        resolution(cache, registry, name, outcome).1 == if locate_module(registry, name) is None {
            Err::<SymbolTableView, ResolveError>(ResolveError::LookupMiss)
        } else {
            match outcome {
                FileOutcomeView::Missing => Err(ResolveError::FileMissing),
                FileOutcomeView::Unparsable => Err(ResolveError::ParseFailure),
                FileOutcomeView::Parsed(table) => Ok(table),
            }
        },
{
}

} // verus!
