use magento2_ls::symbols::{Position, SourceRange, Symbol, SymbolTable};

fn lines(first: u32, last: u32) -> SourceRange {
    SourceRange {
        start: Position { line: first, character: 0 },
        end: Position { line: last, character: 1 },
    }
}

fn symbol(name: &str, first: u32, last: u32) -> Symbol {
    Symbol { name: name.to_string(), range: lines(first, last) }
}

#[test]
fn new_table_has_location_and_no_members() {
    let table = SymbolTable::new("file:///src/A.php".to_string(), lines(3, 40));
    assert_eq!(table.uri(), "file:///src/A.php");
    assert_eq!(table.range(), lines(3, 40));
    assert_eq!(table.method("getName"), None);
    assert_eq!(table.constant("LIMIT"), None);
}

#[test]
fn recorded_members_are_found_by_name() {
    let mut table = SymbolTable::new("file:///src/A.php".to_string(), lines(3, 40));
    table.add_method(symbol("getName", 10, 13));
    table.add_method(symbol("setName", 15, 18));
    table.add_constant(symbol("LIMIT", 5, 5));
    assert_eq!(table.method("getName"), Some(lines(10, 13)));
    assert_eq!(table.method("setName"), Some(lines(15, 18)));
    assert_eq!(table.method("getname"), None);
    assert_eq!(table.constant("LIMIT"), Some(lines(5, 5)));
    assert_eq!(table.constant("OTHER"), None);
    assert_eq!(table.uri(), "file:///src/A.php");
    assert_eq!(table.range(), lines(3, 40));
}

#[test]
fn methods_and_constants_are_kept_apart() {
    let mut table = SymbolTable::new("file:///src/A.php".to_string(), lines(1, 9));
    table.add_method(symbol("name", 2, 3));
    table.add_constant(symbol("NAME", 4, 4));
    assert_eq!(table.constant("name"), None);
    assert_eq!(table.method("NAME"), None);
    table.add_constant(symbol("name", 5, 5));
    assert_eq!(table.method("name"), Some(lines(2, 3)));
    assert_eq!(table.constant("name"), Some(lines(5, 5)));
}

#[test]
fn member_recorded_twice_keeps_the_later_range() {
    let mut table = SymbolTable::new("file:///src/A.php".to_string(), lines(1, 30));
    table.add_method(symbol("run", 2, 3));
    table.add_method(symbol("stop", 4, 5));
    table.add_method(symbol("run", 20, 25));
    assert_eq!(table.method("run"), Some(lines(20, 25)));
    assert_eq!(table.method("stop"), Some(lines(4, 5)));
}

#[test]
fn clone_is_an_equal_and_independent_table() {
    let mut table = SymbolTable::new("file:///src/A.php".to_string(), lines(3, 40));
    table.add_method(symbol("getName", 10, 13));
    table.add_constant(symbol("LIMIT", 5, 5));
    let mut copy = table.clone();
    assert_eq!(copy.uri(), table.uri());
    assert_eq!(copy.range(), table.range());
    assert_eq!(copy.method("getName"), Some(lines(10, 13)));
    assert_eq!(copy.constant("LIMIT"), Some(lines(5, 5)));
    copy.add_method(symbol("extra", 20, 21));
    assert_eq!(copy.method("extra"), Some(lines(20, 21)));
    assert_eq!(table.method("extra"), None);
}
