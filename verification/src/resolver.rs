//! The namespace resolver: from a qualified name and the module registry to
//! the module that owns the name and the path of the class file inside it.
//!
//! The search drops trailing segments one at a time and looks the remaining
//! leading segments up in the registry, so the longest registered ancestor
//! wins. The segments that were dropped name the file below the module's
//! directory.

use crate::name::{rendering, separator, QualifiedName};
use crate::registry::ModuleRegistry;
use crate::text::{copy_from, find_last, join, join_prefix, last_position, lemma_last_position};
use vstd::prelude::*;

verus! {

/// The model of a [`ModuleMatch`].
pub struct ModuleMatchView {
    /// Base directory of the module that owns the name.
    pub directory: Seq<char>,
    /// The segments of the name that follow the module's prefix.
    pub suffix: Seq<Seq<char>>,
}

/// The module found for a name: its base directory, and the trailing segments
/// of the name that the module's prefix does not cover. There is at least one
/// such segment.
#[derive(Debug)]
pub struct ModuleMatch {
    directory: String,
    suffix: Vec<String>,
}

impl View for ModuleMatch {
    type V = ModuleMatchView;

    closed spec fn view(&self) -> ModuleMatchView {
        ModuleMatchView { directory: self.directory@, suffix: self.suffix.deep_view() }
    }
}

/// The written form of the first `kept` segments of `name`: an ancestor of
/// the name where `kept` is less than the number of segments.
pub open spec fn ancestor(name: Seq<Seq<char>>, kept: int) -> Seq<char> {
    rendering(name.take(kept))
}

/// Whether the ancestor made of the first `kept` segments is registered.
pub open spec fn ancestor_registered(
    registry: Map<Seq<char>, Seq<char>>,
    name: Seq<Seq<char>>,
    kept: int,
) -> bool {
    0 <= kept < name.len() && registry.contains_key(ancestor(name, kept))
}

/// The greatest number of leading segments below `limit` that form a
/// registered ancestor.
pub open spec fn longest_match_below(
    registry: Map<Seq<char>, Seq<char>>,
    name: Seq<Seq<char>>,
    limit: int,
) -> Option<int>
    decreases limit,
{
    if limit <= 0 {
        None
    } else if registry.contains_key(ancestor(name, limit - 1)) {
        Some(limit - 1)
    } else {
        longest_match_below(registry, name, limit - 1)
    }
}

/// The module that owns `name`: the one registered under the longest
/// ancestor of the name, with the segments that follow that ancestor.
pub open spec fn locate_module(
    registry: Map<Seq<char>, Seq<char>>,
    name: Seq<Seq<char>>,
) -> Option<ModuleMatchView> {
    match longest_match_below(registry, name, name.len() as int) {
        Some(kept) => Some(
            ModuleMatchView { directory: registry[ancestor(name, kept)], suffix: name.skip(kept) },
        ),
        None => None,
    }
}

/// What `longest_match_below` finds is registered and nothing longer below
/// the limit is; it finds nothing only where nothing below the limit is
/// registered.
pub proof fn lemma_longest_match_below(
    registry: Map<Seq<char>, Seq<char>>,
    name: Seq<Seq<char>>,
    limit: int,
)
    requires
        limit <= name.len(),
    ensures
        match longest_match_below(registry, name, limit) {
            Some(kept) => ancestor_registered(registry, name, kept) && kept < limit && forall|
                longer: int,
            |
                kept < longer < limit ==> !ancestor_registered(registry, name, longer),
            None => forall|kept: int| kept < limit ==> !ancestor_registered(registry, name, kept),
        },
    decreases limit,
{
    if limit > 0 && !registry.contains_key(ancestor(name, limit - 1)) {
        lemma_longest_match_below(registry, name, limit - 1);
    }
}

/// A name none of whose ancestors is registered belongs to no module, and
/// only such a name.
pub proof fn lemma_miss_iff_no_ancestor_registered(
    registry: Map<Seq<char>, Seq<char>>,
    name: Seq<Seq<char>>,
)
    ensures
        locate_module(registry, name) is None <==> forall|kept: int|
            !ancestor_registered(registry, name, kept),
{
    lemma_longest_match_below(registry, name, name.len() as int);
    if locate_module(registry, name) is Some {
        let kept = longest_match_below(registry, name, name.len() as int)->0;
        assert(ancestor_registered(registry, name, kept));
    }
}

/// Of the registered ancestors of a name the longest decides: the match
/// strips no more segments than any registered ancestor leaves over, and it
/// is the module of `kept` itself where no longer ancestor is registered.
pub proof fn lemma_longest_prefix_preferred(
    registry: Map<Seq<char>, Seq<char>>,
    name: Seq<Seq<char>>,
    kept: int,
)
    requires
        ancestor_registered(registry, name, kept),
    ensures
        locate_module(registry, name) is Some,
        locate_module(registry, name)->0.suffix.len() <= name.len() - kept,
        (forall|longer: int| kept < longer ==> !ancestor_registered(registry, name, longer))
            ==> locate_module(registry, name) == Some(
            ModuleMatchView { directory: registry[ancestor(name, kept)], suffix: name.skip(kept) },
        ),
{
    lemma_longest_match_below(registry, name, name.len() as int);
    match longest_match_below(registry, name, name.len() as int) {
        Some(found) => {
            assert(found >= kept);
            if forall|longer: int| kept < longer ==> !ancestor_registered(registry, name, longer) {
                assert(ancestor_registered(registry, name, found));
                assert(found == kept);
            }
        },
        None => {},
    }
}

/// Finds the module that owns `name`.
pub fn resolve_module(registry: &ModuleRegistry, name: &QualifiedName) -> (found: Option<
    ModuleMatch,
>)
    ensures
        match found {
            Some(m) => locate_module(registry@, name@) == Some(m@),
            None => locate_module(registry@, name@) is None,
        },
{
    let segments = name.segments();
    let mut kept: usize = segments.len();
    while kept > 0
        invariant
            kept <= segments.len(),
            segments.deep_view() == name@,
            longest_match_below(registry@, name@, name@.len() as int) == longest_match_below(
                registry@,
                name@,
                kept as int,
            ),
        decreases kept,
    {
        kept = kept - 1;
        proof {
            reveal_strlit("\\");
            assert("\\"@ =~= separator());
        }
        let prefix = join_prefix(segments, kept, "\\");
        match registry.directory_of(prefix.as_str()) {
            Some(directory) => {
                let suffix = copy_from(segments, kept);
                assert(suffix.len() == suffix.deep_view().len());
                return Some(ModuleMatch { directory: directory.clone(), suffix });
            },
            None => {},
        }
    }
    None
}

/// A file name without its extension: what stands before the last dot, or
/// the whole name where there is no dot.
pub open spec fn stem(file_name: Seq<char>) -> Seq<char> {
    match last_position(file_name, '.') {
        Some(dot) => file_name.take(dot),
        None => file_name,
    }
}

/// The name of the class file for the last segment of a name: the segment
/// with its extension, if it seems to have one, replaced by that of class
/// files.
pub open spec fn class_file_name(segment: Seq<char>) -> Seq<char> {
    stem(segment) + ".php"@
}

/// The path of the class file for a name whose module lies in `directory`
/// and whose segments after the module's prefix are `suffix`: each segment
/// is a component below the directory, the last one as a class file name.
pub open spec fn class_file_path(directory: Seq<char>, suffix: Seq<Seq<char>>) -> Seq<char>
    recommends
        suffix.len() > 0,
{
    join(seq![directory] + suffix.drop_last() + seq![class_file_name(suffix.last())], "/"@)
}

/// A last segment that ends in a dot and an extension gets that extension
/// replaced, not another one added.
pub proof fn lemma_extension_replaced(base: Seq<char>, extension: Seq<char>)
    requires
        !extension.contains('.'),
    ensures
        class_file_name(base + seq!['.'] + extension) == base + ".php"@,
{
    let segment = base + seq!['.'] + extension;
    lemma_last_position(segment, '.');
    let dot = base.len() as int;
    assert(segment[dot] == '.');
    match last_position(segment, '.') {
        Some(found) => {
            if found > dot {
                assert(extension[found - dot - 1] == '.');
                assert(extension.contains('.'));
            }
            assert(found == dot);
            assert(segment.take(dot) =~= base);
        },
        None => {
            assert(segment.contains('.'));
        },
    }
}

/// A segment without a dot gets the extension of class files added.
pub proof fn lemma_extension_added(segment: Seq<char>)
    requires
        !segment.contains('.'),
    ensures
        class_file_name(segment) == segment + ".php"@,
{
    lemma_last_position(segment, '.');
}

/// The class file path ends in a slash and the class file name of the last
/// segment.
pub proof fn lemma_class_file_path_ends_in_file_name(
    directory: Seq<char>,
    suffix: Seq<Seq<char>>,
)
    requires
        suffix.len() > 0,
    ensures
        class_file_path(directory, suffix) == join(seq![directory] + suffix.drop_last(), "/"@)
            + "/"@ + class_file_name(suffix.last()),
{
    let above = seq![directory] + suffix.drop_last();
    let all = above + seq![class_file_name(suffix.last())];
    assert(all.drop_last() =~= above);
}

impl ModuleMatch {
    #[verifier::type_invariant]
    spec fn has_suffix(&self) -> bool {
        self.suffix.len() > 0
    }

    /// Base directory of the module.
    pub fn directory(&self) -> (directory: &str)
        ensures
            directory@ == self@.directory,
    {
        self.directory.as_str()
    }

    /// The segments of the name after the module's prefix, first to last.
    pub fn suffix(&self) -> (suffix: &Vec<String>)
        ensures
            suffix.deep_view() == self@.suffix,
            suffix.len() > 0,
    {
        proof {
            use_type_invariant(self);
        }
        &self.suffix
    }

    /// The path at which the class file is expected.
    pub fn class_file(&self) -> (path: String)
        ensures
            path@ == class_file_path(self@.directory, self@.suffix),
    {
        proof {
            use_type_invariant(self);
        }
        let last = self.suffix.len() - 1;
        let ghost suffix = self.suffix.deep_view();
        let ghost above = seq![self.directory@] + suffix.drop_last();
        let mut path = self.directory.clone();
        let mut i: usize = 0;
        proof {
            assert((seq![self.directory@] + suffix.take(0)) =~= seq![self.directory@]);
        }
        while i < last
            invariant
                i <= last,
                last == self.suffix.len() - 1,
                suffix == self.suffix.deep_view(),
                path@ == join(seq![self.directory@] + suffix.take(i as int), "/"@),
            decreases last - i,
        {
            proof {
                let before = seq![self.directory@] + suffix.take(i as int);
                let after = seq![self.directory@] + suffix.take(i + 1);
                assert(after.drop_last() =~= before);
                assert(after.last() == self.suffix[i as int]@);
            }
            path.append("/");
            path.append(self.suffix[i].as_str());
            i = i + 1;
        }
        let segment = self.suffix[last].as_str();
        proof {
            lemma_last_position(segment@, '.');
        }
        let kept = match find_last(segment, '.') {
            Some(dot) => segment.substring_char(0, dot),
            None => segment,
        };
        path.append("/");
        path.append(kept);
        path.append(".php");
        proof {
            assert(suffix.take(last as int) =~= suffix.drop_last());
            assert(suffix.last() == segment@);
            assert(kept@ =~= stem(segment@));
            lemma_class_file_path_ends_in_file_name(self.directory@, suffix);
            assert(path@ =~= join(above, "/"@) + "/"@ + class_file_name(segment@));
        }
        path
    }
}

} // verus!
