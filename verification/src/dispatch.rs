//! The resolution dispatcher: from the reference under the cursor to the
//! location of the definition.
//!
//! A reference names a class, or a method or a constant of a class. The class
//! is resolved through the class index. A member that the class does not
//! declare is no failure: the answer is then the class itself, which is still
//! the most useful place to jump to.

use crate::index::{
    plan, result_view, settle, ClassIndex, FileOutcome, LookupView, ResolveError,
};
use crate::name::{rendering, QualifiedName};
use crate::registry::{registered, ModuleRegistry};
use crate::symbols::{SourceRange, SymbolTable, SymbolTableView};
use vstd::prelude::*;

verus! {

/// The symbol that a reference extractor found at a position of a document.
#[derive(Debug)]
pub enum ReferenceQuery {
    /// A class.
    Class(QualifiedName),
    /// A method of a class, by its name.
    Method(QualifiedName, String),
    /// A constant of a class, by its name.
    Constant(QualifiedName, String),
}

/// The model of a [`ReferenceQuery`].
pub enum ReferenceQueryView {
    Class(Seq<Seq<char>>),
    Method(Seq<Seq<char>>, Seq<char>),
    Constant(Seq<Seq<char>>, Seq<char>),
}

impl View for ReferenceQuery {
    type V = ReferenceQueryView;

    open spec fn view(&self) -> ReferenceQueryView {
        match self {
            ReferenceQuery::Class(class) => ReferenceQueryView::Class(class@),
            ReferenceQuery::Method(class, method) => ReferenceQueryView::Method(class@, method@),
            ReferenceQuery::Constant(class, constant) => ReferenceQueryView::Constant(
                class@,
                constant@,
            ),
        }
    }
}

impl ReferenceQueryView {
    /// The class that the reference is about.
    pub open spec fn class(self) -> Seq<Seq<char>> {
        match self {
            ReferenceQueryView::Class(class) => class,
            ReferenceQueryView::Method(class, _) => class,
            ReferenceQueryView::Constant(class, _) => class,
        }
    }
}

impl ReferenceQuery {
    /// The class that the reference is about.
    pub fn class(&self) -> (class: &QualifiedName)
        ensures
            class@ == self@.class(),
    {
        match self {
            ReferenceQuery::Class(class) => class,
            ReferenceQuery::Method(class, _) => class,
            ReferenceQuery::Constant(class, _) => class,
        }
    }
}

/// A place in the code base: a file and a span in it.
#[derive(Debug)]
pub struct Location {
    pub uri: String,
    pub range: SourceRange,
}

/// The model of a [`Location`].
pub struct LocationView {
    pub uri: Seq<char>,
    pub range: SourceRange,
}

impl View for Location {
    type V = LocationView;

    open spec fn view(&self) -> LocationView {
        LocationView { uri: self.uri@, range: self.range }
    }
}

impl DeepView for Location {
    type V = LocationView;

    open spec fn deep_view(&self) -> LocationView {
        self@
    }
}

/// The span that answers `query` in the table of its class: the span of the
/// member where the class declares it, the span of the class otherwise.
pub open spec fn target_range(table: SymbolTableView, query: ReferenceQueryView) -> SourceRange {
    match query {
        ReferenceQueryView::Class(_) => table.range,
        ReferenceQueryView::Method(_, method) => if table.methods.contains_key(method) {
            table.methods[method]
        } else {
            table.range
        },
        ReferenceQueryView::Constant(_, constant) => if table.constants.contains_key(constant) {
            table.constants[constant]
        } else {
            table.range
        },
    }
}

/// The location that answers `query` in the table of its class.
pub open spec fn definition(table: SymbolTableView, query: ReferenceQueryView) -> LocationView {
    LocationView { uri: table.uri, range: target_range(table, query) }
}

/// The locations that answer a definition query: one where there is a
/// reference and its class resolved, none otherwise.
pub open spec fn answer(
    query: Option<ReferenceQueryView>,
    resolved: Result<SymbolTableView, ResolveError>,
) -> Seq<LocationView> {
    match (query, resolved) {
        (Some(q), Ok(table)) => seq![definition(table, q)],
        _ => Seq::empty(),
    }
}

/// Asking for a member that the class does not declare gives the span of the
/// class, as asking for the class does.
pub proof fn lemma_unknown_member_falls_back(table: SymbolTableView, query: ReferenceQueryView)
    requires
        match query {
            ReferenceQueryView::Class(_) => true,
            ReferenceQueryView::Method(_, method) => !table.methods.contains_key(method),
            ReferenceQueryView::Constant(_, constant) => !table.constants.contains_key(constant),
        },
    ensures
        target_range(table, query) == table.range,
        definition(table, query) == definition(table, ReferenceQueryView::Class(query.class())),
{
}

/// An answer holds at most one location, and it holds one exactly when
/// there is a reference and its class resolved.
pub proof fn lemma_answer_cardinality(
    query: Option<ReferenceQueryView>,
    resolved: Result<SymbolTableView, ResolveError>,
)
    ensures
        answer(query, resolved).len() <= 1,
        answer(query, resolved).len() == 1 <==> query is Some && resolved is Ok,
{
}

/// The location that answers `query` in the table of its class.
pub fn locate(table: &SymbolTable, query: &ReferenceQuery) -> (location: Location)
    ensures
        location@ == definition(table@, query@),
{
    let member = match query {
        ReferenceQuery::Class(_) => None,
        ReferenceQuery::Method(_, method) => table.method(method.as_str()),
        ReferenceQuery::Constant(_, constant) => table.constant(constant.as_str()),
    };
    let range = match member {
        Some(range) => range,
        None => table.range(),
    };
    Location { uri: table.uri().to_owned(), range }
}

/// The module registry and the class index of one server, and the queries
/// that go through both.
pub struct Indexer {
    modules: ModuleRegistry,
    classes: ClassIndex,
}

/// The model of an [`Indexer`].
pub struct IndexerView {
    /// The registered modules: written prefix to base directory.
    pub modules: Map<Seq<char>, Seq<char>>,
    /// The cached classes: written name to table.
    pub classes: Map<Seq<char>, SymbolTableView>,
}

impl View for Indexer {
    type V = IndexerView;

    closed spec fn view(&self) -> IndexerView {
        IndexerView { modules: self.modules@, classes: self.classes@ }
    }
}

impl Indexer {
    /// An indexer that knows no module and no class.
    pub fn new() -> (indexer: Self)
        ensures
            indexer@.modules == Map::<Seq<char>, Seq<char>>::empty(),
            indexer@.classes == Map::<Seq<char>, SymbolTableView>::empty(),
    {
        Indexer { modules: ModuleRegistry::new(), classes: ClassIndex::new() }
    }

    /// The module registry.
    pub fn modules(&self) -> (modules: &ModuleRegistry)
        ensures
            modules@ == self@.modules,
    {
        &self.modules
    }

    /// The class index.
    pub fn classes(&self) -> (classes: &ClassIndex)
        ensures
            classes@ == self@.classes,
    {
        &self.classes
    }

    /// Registers the module that implements `prefix` in `directory`, unless
    /// the prefix is registered already. Returns whether it was added.
    pub fn register_module(&mut self, prefix: String, directory: String) -> (added: bool)
        ensures
            added == !old(self)@.modules.contains_key(prefix@),
            final(self)@.modules == registered(old(self)@.modules, prefix@, directory@),
            final(self)@.classes == old(self)@.classes,
    {
        self.modules.register(prefix, directory)
    }

    /// Resolves a class: see [`ClassIndex::resolve`].
    pub fn resolve_class<F: FnOnce(&str) -> FileOutcome>(
        &mut self,
        name: &QualifiedName,
        probe: F,
    ) -> (result: Result<SymbolTable, ResolveError>)
        requires
            plan(old(self)@.classes, old(self)@.modules, name@) matches LookupView::Probe(
                expected,
            ) ==> forall|path: &str| path@ == expected ==> call_requires(probe, (path,)),
        ensures
            final(self)@.modules == old(self)@.modules,
            match plan(old(self)@.classes, old(self)@.modules, name@) {
                LookupView::Cached(table) => final(self)@.classes == old(self)@.classes
                    && result_view(result) == Ok::<SymbolTableView, ResolveError>(table),
                LookupView::Miss => final(self)@.classes == old(self)@.classes
                    && result_view(result) == Err::<SymbolTableView, ResolveError>(
                    ResolveError::LookupMiss,
                ),
                LookupView::Probe(expected) => exists|path: &str, outcome: FileOutcome|
                    path@ == expected && call_ensures(probe, (path,), outcome) && (
                        final(self)@.classes,
                        result_view(result),
                    ) == settle(old(self)@.classes, name@, outcome@),
            },
    {
        self.classes.resolve(&self.modules, name, probe)
    }

    /// The second half of a definition query, for a caller that resolved the
    /// class itself: the answer to `query` given how its class resolved. A
    /// table that resolved is cached under the name of the class once more.
    pub fn conclude(
        &mut self,
        query: &ReferenceQuery,
        resolved: Result<SymbolTable, ResolveError>,
    ) -> (locations: Vec<Location>)
        ensures
            locations.deep_view() == answer(Some(query@), result_view(resolved)),
            final(self)@.modules == old(self)@.modules,
            final(self)@.classes == match resolved {
                Ok(table) => old(self)@.classes.insert(rendering(query@.class()), table@),
                Err(_) => old(self)@.classes,
            },
    {
        let mut locations: Vec<Location> = Vec::new();
        match resolved {
            Ok(table) => {
                locations.push(locate(&table, query));
                self.classes.insert(query.class(), table);
                assert(locations.deep_view() =~= seq![definition(table@, query@)]);
            },
            Err(_) => {
                assert(locations.deep_view() =~= Seq::<LocationView>::empty());
            },
        }
        locations
    }

    /// Answers a definition query. `query` is what the reference extractor
    /// found at the position asked for, `None` where it found no reference.
    /// `probe` looks at a class file, as in [`ClassIndex::resolve`].
    ///
    /// The answer is empty where there is no reference or its class does not
    /// resolve; else it is the one location of the member asked for, or of
    /// the class where the class declares no such member.
    pub fn resolve_definition<F: FnOnce(&str) -> FileOutcome>(
        &mut self,
        query: Option<&ReferenceQuery>,
        probe: F,
    ) -> (locations: Vec<Location>)
        requires
            query matches Some(q) ==> (plan(
                old(self)@.classes,
                old(self)@.modules,
                q@.class(),
            ) matches LookupView::Probe(expected) ==> forall|path: &str|
                path@ == expected ==> call_requires(probe, (path,))),
        ensures
            final(self)@.modules == old(self)@.modules,
            match query {
                None => final(self)@.classes == old(self)@.classes
                    && locations.deep_view() == Seq::<LocationView>::empty(),
                Some(q) => match plan(
                    old(self)@.classes,
                    old(self)@.modules,
                    q@.class(),
                ) {
                    LookupView::Cached(table) => {
                        &&& final(self)@.classes == old(self)@.classes
                        &&& locations.deep_view() == seq![definition(table, q@)]
                    },
                    LookupView::Miss => {
                        &&& final(self)@.classes == old(self)@.classes
                        &&& locations.deep_view() == Seq::<LocationView>::empty()
                    },
                    LookupView::Probe(expected) => exists|path: &str, outcome: FileOutcome|
                        {
                            &&& path@ == expected
                            &&& call_ensures(probe, (path,), outcome)
                            &&& final(self)@.classes == settle(
                                old(self)@.classes,
                                q@.class(),
                                outcome@,
                            ).0
                            &&& locations.deep_view() == answer(
                                Some(q@),
                                settle(old(self)@.classes, q@.class(), outcome@).1,
                            )
                        },
                },
            },
    {
        match query {
            None => {
                let locations: Vec<Location> = Vec::new();
                assert(locations.deep_view() =~= Seq::<LocationView>::empty());
                locations
            },
            Some(q) => {
                let ghost before = self@.classes;
                let resolved = self.resolve_class(q.class(), probe);
                let ghost between = self@.classes;
                let ghost seen = result_view(resolved);
                let locations = self.conclude(q, resolved);
                proof {
                    match seen {
                        Ok(table) => {
                            assert(between.contains_key(rendering(q@.class())));
                            assert(between[rendering(q@.class())] == table);
                            assert(between.insert(rendering(q@.class()), table) =~= between);
                        },
                        Err(_) => {},
                    }
                }
                locations
            },
        }
    }
}

} // verus!
