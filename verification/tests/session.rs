use magento2_ls::dispatch::{Indexer, ReferenceQuery};
use magento2_ls::index::FileOutcome;
use magento2_ls::name::QualifiedName;
use magento2_ls::session::{scan_roots, serve, Incoming, Reaction};
use magento2_ls::symbols::{Position, SourceRange, Symbol, SymbolTable};

fn lines(first: u32, last: u32) -> SourceRange {
    SourceRange {
        start: Position { line: first, character: 0 },
        end: Position { line: last, character: 0 },
    }
}

fn product_files(path: &str) -> FileOutcome {
    if path == "/src/Catalog/Model/Product.php" {
        let mut table =
            SymbolTable::new("file:///src/Catalog/Model/Product.php".to_string(), lines(3, 40));
        table.add_method(Symbol { name: "getName".to_string(), range: lines(10, 13) });
        FileOutcome::Parsed(table)
    } else {
        FileOutcome::Missing
    }
}

fn catalog_indexer() -> Indexer {
    let mut indexer = Indexer::new();
    indexer.register_module("App\\Catalog".to_string(), "/src/Catalog".to_string());
    indexer
}

fn strings(items: &[&str]) -> Vec<String> {
    items.iter().map(|s| s.to_string()).collect()
}

#[test]
fn scan_roots_puts_the_initial_root_before_the_folders() {
    assert_eq!(
        scan_roots(Some("/work".to_string()), Some(strings(&["/a", "/b"]))),
        strings(&["/work", "/a", "/b"])
    );
}

#[test]
fn scan_roots_takes_what_is_there() {
    assert_eq!(scan_roots(None, None), Vec::<String>::new());
    assert_eq!(scan_roots(Some("/work".to_string()), None), strings(&["/work"]));
    assert_eq!(scan_roots(None, Some(strings(&["/a", "/b"]))), strings(&["/a", "/b"]));
    assert_eq!(scan_roots(Some("/work".to_string()), Some(Vec::new())), strings(&["/work"]));
}

#[test]
fn scan_roots_scans_a_folder_named_twice_twice() {
    assert_eq!(
        scan_roots(Some("/work".to_string()), Some(strings(&["/work", "/a", "/a"]))),
        strings(&["/work", "/work", "/a", "/a"])
    );
}

#[test]
fn shutdown_stops_the_loop() {
    let mut indexer = catalog_indexer();
    assert!(matches!(serve(&mut indexer, Incoming::Shutdown, product_files), Reaction::Stop));
}

#[test]
fn other_messages_are_passed_over() {
    let mut indexer = catalog_indexer();
    for incoming in [Incoming::OtherRequest, Incoming::Response, Incoming::Notification] {
        let mut calls = 0;
        let reaction = serve(&mut indexer, incoming, |_| {
            calls += 1;
            FileOutcome::Missing
        });
        assert!(matches!(reaction, Reaction::Ignore));
        assert_eq!(calls, 0);
    }
}

#[test]
fn definition_query_is_answered_with_the_location() {
    let mut indexer = catalog_indexer();
    let query = ReferenceQuery::Method(
        QualifiedName::parse("App\\Catalog\\Model\\Product"),
        "getName".to_string(),
    );
    match serve(&mut indexer, Incoming::Definition(Some(query)), product_files) {
        Reaction::Reply(found) => {
            assert_eq!(found.len(), 1);
            assert_eq!(found[0].uri, "file:///src/Catalog/Model/Product.php");
            assert_eq!(found[0].range, lines(10, 13));
        }
        other => panic!("expected a reply, got {:?}", other),
    }
}

#[test]
fn definition_query_without_result_is_answered_with_an_empty_list() {
    let mut indexer = catalog_indexer();
    match serve(&mut indexer, Incoming::Definition(None), product_files) {
        Reaction::Reply(found) => assert!(found.is_empty()),
        other => panic!("expected a reply, got {:?}", other),
    }
    let query = ReferenceQuery::Class(QualifiedName::parse("App\\Other\\Thing"));
    match serve(&mut indexer, Incoming::Definition(Some(query)), product_files) {
        Reaction::Reply(found) => assert!(found.is_empty()),
        other => panic!("expected a reply, got {:?}", other),
    }
}
