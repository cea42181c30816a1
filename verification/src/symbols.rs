//! What is known of one parsed class: where it stands and where its methods
//! and constants stand.

use crate::textmap::TextMap;
use vstd::prelude::*;

verus! {

/// A place in a document: zero-based line, and column within the line.
#[derive(Clone, Copy, Debug, PartialEq, Eq, Structural)]
pub struct Position {
    pub line: u32,
    pub character: u32,
}

/// A span of a document, from `start` to `end`.
#[derive(Clone, Copy, Debug, PartialEq, Eq, Structural)]
pub struct SourceRange {
    pub start: Position,
    pub end: Position,
}

impl View for SourceRange {
    type V = SourceRange;

    open spec fn view(&self) -> SourceRange {
        *self
    }
}

/// A method or a constant: its name and the span of its declaration.
#[derive(Debug)]
pub struct Symbol {
    pub name: String,
    pub range: SourceRange,
}

/// The model of a [`SymbolTable`].
pub struct SymbolTableView {
    /// Location of the file that holds the class.
    pub uri: Seq<char>,
    /// Span of the whole class definition.
    pub range: SourceRange,
    /// Span of each method, by method name.
    pub methods: Map<Seq<char>, SourceRange>,
    /// Span of each constant, by constant name.
    pub constants: Map<Seq<char>, SourceRange>,
}

/// The parsed shape of one class definition.
#[derive(Debug)]
pub struct SymbolTable {
    uri: String,
    range: SourceRange,
    methods: TextMap<SourceRange>,
    constants: TextMap<SourceRange>,
}

impl View for SymbolTable {
    type V = SymbolTableView;

    closed spec fn view(&self) -> SymbolTableView {
        SymbolTableView {
            uri: self.uri@,
            range: self.range,
            methods: self.methods@,
            constants: self.constants@,
        }
    }
}

impl SymbolTable {
    /// The table of a class in the file at `uri` whose definition spans
    /// `range`, with no members yet.
    pub fn new(uri: String, range: SourceRange) -> (table: Self)
        ensures
            table@ == (SymbolTableView {
                uri: uri@,
                range: range,
                methods: Map::empty(),
                constants: Map::empty(),
            }),
    {
        SymbolTable { uri, range, methods: TextMap::new(), constants: TextMap::new() }
    }

    /// Records a method. A method recorded earlier under the same name is
    /// replaced.
    pub fn add_method(&mut self, method: Symbol)
        ensures
            final(self)@ == (SymbolTableView {
                methods: old(self)@.methods.insert(method.name@, method.range),
                ..old(self)@
            }),
    {
        self.methods.insert(method.name, method.range);
    }

    /// Records a constant. A constant recorded earlier under the same name is
    /// replaced.
    pub fn add_constant(&mut self, constant: Symbol)
        ensures
            final(self)@ == (SymbolTableView {
                constants: old(self)@.constants.insert(constant.name@, constant.range),
                ..old(self)@
            }),
    {
        self.constants.insert(constant.name, constant.range);
    }

    /// Location of the file that holds the class.
    pub fn uri(&self) -> (uri: &str)
        ensures
            uri@ == self@.uri,
    {
        self.uri.as_str()
    }

    /// Span of the whole class definition.
    pub fn range(&self) -> (range: SourceRange)
        ensures
            range == self@.range,
    {
        self.range
    }

    /// Span of the method called `name`, if the class declares one.
    pub fn method(&self, name: &str) -> (range: Option<SourceRange>)
        ensures
            range == if self@.methods.contains_key(name@) {
                Some(self@.methods[name@])
            } else {
                None
            },
    {
        match self.methods.get(name) {
            Some(range) => Some(*range),
            None => None,
        }
    }

    /// Span of the constant called `name`, if the class declares one.
    pub fn constant(&self, name: &str) -> (range: Option<SourceRange>)
        ensures
            range == if self@.constants.contains_key(name@) {
                Some(self@.constants[name@])
            } else {
                None
            },
    {
        match self.constants.get(name) {
            Some(range) => Some(*range),
            None => None,
        }
    }
}

impl Clone for SymbolTable {
    fn clone(&self) -> (copy: Self)
        ensures
            copy@ == self@,
    {
        SymbolTable {
            uri: self.uri.clone(),
            range: self.range,
            methods: self.methods.clone(),
            constants: self.constants.clone(),
        }
    }
}

} // verus!
