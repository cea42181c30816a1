use magento2_ls::dispatch::{locate, Indexer, Location, ReferenceQuery};
use magento2_ls::index::{FileOutcome, ResolveError};
use magento2_ls::name::QualifiedName;
use magento2_ls::symbols::{Position, SourceRange, Symbol, SymbolTable};

fn lines(first: u32, last: u32) -> SourceRange {
    SourceRange {
        start: Position { line: first, character: 0 },
        end: Position { line: last, character: 0 },
    }
}

const PRODUCT: &str = "App\\Catalog\\Model\\Product";
const PRODUCT_URI: &str = "file:///src/Catalog/Model/Product.php";

fn product_table() -> SymbolTable {
    let mut table = SymbolTable::new(PRODUCT_URI.to_string(), lines(3, 40));
    table.add_method(Symbol { name: "getName".to_string(), range: lines(10, 13) });
    table.add_constant(Symbol { name: "TYPE".to_string(), range: lines(5, 5) });
    table
}

fn product_files(path: &str) -> FileOutcome {
    if path == "/src/Catalog/Model/Product.php" {
        FileOutcome::Parsed(product_table())
    } else {
        FileOutcome::Missing
    }
}

fn catalog_indexer() -> Indexer {
    let mut indexer = Indexer::new();
    assert!(indexer.register_module("App\\Catalog".to_string(), "/src/Catalog".to_string()));
    indexer
}

fn class(name: &str) -> ReferenceQuery {
    ReferenceQuery::Class(QualifiedName::parse(name))
}

fn method(name: &str, member: &str) -> ReferenceQuery {
    ReferenceQuery::Method(QualifiedName::parse(name), member.to_string())
}

fn constant(name: &str, member: &str) -> ReferenceQuery {
    ReferenceQuery::Constant(QualifiedName::parse(name), member.to_string())
}

fn places(found: &[Location]) -> Vec<(String, SourceRange)> {
    found.iter().map(|l| (l.uri.clone(), l.range)).collect()
}

#[test]
fn class_reference_resolves_to_class_range() {
    let mut indexer = catalog_indexer();
    let found = indexer.resolve_definition(Some(&class(PRODUCT)), product_files);
    assert_eq!(places(&found), vec![(PRODUCT_URI.to_string(), lines(3, 40))]);
}

#[test]
fn method_reference_resolves_to_method_range() {
    let mut indexer = catalog_indexer();
    let found = indexer.resolve_definition(Some(&method(PRODUCT, "getName")), product_files);
    assert_eq!(places(&found), vec![(PRODUCT_URI.to_string(), lines(10, 13))]);
}

#[test]
fn missing_method_falls_back_to_class_range() {
    let mut indexer = catalog_indexer();
    let found = indexer.resolve_definition(Some(&method(PRODUCT, "missingMethod")), product_files);
    assert_eq!(places(&found), vec![(PRODUCT_URI.to_string(), lines(3, 40))]);
    let found = indexer.resolve_definition(Some(&method(PRODUCT, "doesNotExist")), product_files);
    assert_eq!(places(&found), vec![(PRODUCT_URI.to_string(), lines(3, 40))]);
}

#[test]
fn constant_reference_resolves_like_a_method_reference() {
    let mut indexer = catalog_indexer();
    let found = indexer.resolve_definition(Some(&constant(PRODUCT, "TYPE")), product_files);
    assert_eq!(places(&found), vec![(PRODUCT_URI.to_string(), lines(5, 5))]);
    let found = indexer.resolve_definition(Some(&constant(PRODUCT, "OTHER")), product_files);
    assert_eq!(places(&found), vec![(PRODUCT_URI.to_string(), lines(3, 40))]);
    let found = indexer.resolve_definition(Some(&constant(PRODUCT, "getName")), product_files);
    assert_eq!(places(&found), vec![(PRODUCT_URI.to_string(), lines(3, 40))]);
}

#[test]
fn class_without_registered_ancestor_yields_empty() {
    let mut indexer = catalog_indexer();
    let found = indexer.resolve_definition(Some(&class("App\\Other\\Thing")), product_files);
    assert!(found.is_empty());
}

#[test]
fn no_reference_yields_empty_and_looks_at_no_file() {
    let mut indexer = catalog_indexer();
    let mut calls = 0;
    let found = indexer.resolve_definition(None, |_| {
        calls += 1;
        FileOutcome::Missing
    });
    assert!(found.is_empty());
    assert_eq!(calls, 0);
}

#[test]
fn missing_or_unparsable_file_yields_empty() {
    let mut indexer = catalog_indexer();
    let found = indexer.resolve_definition(Some(&class("App\\Catalog\\Model\\Gone")), product_files);
    assert!(found.is_empty());
    let found = indexer.resolve_definition(Some(&method(PRODUCT, "getName")), |_| FileOutcome::Unparsable);
    assert!(found.is_empty());
    assert!(indexer.classes().get(&QualifiedName::parse(PRODUCT)).is_none());
}

#[test]
fn resolved_class_is_cached_under_its_name() {
    let mut indexer = catalog_indexer();
    indexer.resolve_definition(Some(&method(PRODUCT, "getName")), product_files);
    let cached = indexer.classes().get(&QualifiedName::parse(PRODUCT)).unwrap();
    assert_eq!(cached.uri(), PRODUCT_URI);
    let mut calls = 0;
    let found = indexer.resolve_definition(Some(&class(PRODUCT)), |_| {
        calls += 1;
        FileOutcome::Missing
    });
    assert_eq!(calls, 0);
    assert_eq!(places(&found), vec![(PRODUCT_URI.to_string(), lines(3, 40))]);
}

#[test]
fn locate_picks_the_member_or_the_class() {
    let table = product_table();
    assert_eq!(locate(&table, &class(PRODUCT)).range, lines(3, 40));
    assert_eq!(locate(&table, &method(PRODUCT, "getName")).range, lines(10, 13));
    assert_eq!(locate(&table, &method(PRODUCT, "TYPE")).range, lines(3, 40));
    assert_eq!(locate(&table, &constant(PRODUCT, "TYPE")).range, lines(5, 5));
    assert_eq!(locate(&table, &constant(PRODUCT, "NONE")).uri, PRODUCT_URI);
}

#[test]
fn conclude_answers_and_caches_a_resolved_table() {
    let mut indexer = Indexer::new();
    let query = method(PRODUCT, "getName");
    let found = indexer.conclude(&query, Ok(product_table()));
    assert_eq!(places(&found), vec![(PRODUCT_URI.to_string(), lines(10, 13))]);
    assert!(indexer.classes().get(&QualifiedName::parse(PRODUCT)).is_some());
}

#[test]
fn conclude_answers_nothing_for_each_failure() {
    for error in [ResolveError::LookupMiss, ResolveError::FileMissing, ResolveError::ParseFailure] {
        let mut indexer = Indexer::new();
        let found = indexer.conclude(&class(PRODUCT), Err(error));
        assert!(found.is_empty());
        assert!(indexer.classes().get(&QualifiedName::parse(PRODUCT)).is_none());
    }
}

#[test]
fn resolve_class_reports_each_failure() {
    let mut indexer = catalog_indexer();
    let name = QualifiedName::parse(PRODUCT);
    let other = QualifiedName::parse("App\\Other\\Thing");
    assert_eq!(indexer.resolve_class(&other, product_files).err(), Some(ResolveError::LookupMiss));
    assert_eq!(indexer.resolve_class(&name, |_| FileOutcome::Missing).err(), Some(ResolveError::FileMissing));
    assert_eq!(indexer.resolve_class(&name, |_| FileOutcome::Unparsable).err(), Some(ResolveError::ParseFailure));
    assert_eq!(indexer.resolve_class(&name, product_files).unwrap().range(), lines(3, 40));
}

#[test]
fn register_module_keeps_the_first_directory() {
    let mut indexer = catalog_indexer();
    assert!(!indexer.register_module("App\\Catalog".to_string(), "/elsewhere".to_string()));
    assert_eq!(indexer.modules().directory_of("App\\Catalog"), Some(&"/src/Catalog".to_string()));
    let found = indexer.resolve_definition(Some(&class(PRODUCT)), product_files);
    assert_eq!(found.len(), 1);
}

#[test]
fn query_class_names_the_class_of_every_kind() {
    assert_eq!(class(PRODUCT).class().as_str(), PRODUCT);
    assert_eq!(method(PRODUCT, "getName").class().as_str(), PRODUCT);
    assert_eq!(constant(PRODUCT, "TYPE").class().as_str(), PRODUCT);
}
