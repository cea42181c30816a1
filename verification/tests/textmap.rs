use magento2_ls::textmap::TextMap;

#[test]
fn new_map_holds_nothing() {
    let map: TextMap<u32> = TextMap::new();
    assert!(!map.contains_key("a"));
    assert_eq!(map.get("a"), None);
    assert_eq!(map.get(""), None);
}

#[test]
fn inserted_value_is_found_under_its_key() {
    let mut map: TextMap<u32> = TextMap::new();
    map.insert("a".to_string(), 1);
    map.insert("b".to_string(), 2);
    assert_eq!(map.get("a"), Some(&1));
    assert_eq!(map.get("b"), Some(&2));
    assert_eq!(map.get("c"), None);
    assert!(map.contains_key("a"));
    assert!(!map.contains_key("c"));
}

#[test]
fn insert_replaces_the_value_of_a_known_key() {
    let mut map: TextMap<u32> = TextMap::new();
    map.insert("a".to_string(), 1);
    map.insert("b".to_string(), 2);
    map.insert("a".to_string(), 3);
    assert_eq!(map.get("a"), Some(&3));
    assert_eq!(map.get("b"), Some(&2));
    map.insert("b".to_string(), 4);
    map.insert("a".to_string(), 5);
    assert_eq!(map.get("a"), Some(&5));
    assert_eq!(map.get("b"), Some(&4));
}

#[test]
fn empty_text_is_a_key_like_any_other() {
    let mut map: TextMap<u32> = TextMap::new();
    map.insert(String::new(), 7);
    assert_eq!(map.get(""), Some(&7));
    assert_eq!(map.get(" "), None);
}

#[test]
fn keys_are_told_apart_by_every_character() {
    let mut map: TextMap<u32> = TextMap::new();
    map.insert("Vendor\\Module".to_string(), 1);
    assert_eq!(map.get("Vendor\\Modul"), None);
    assert_eq!(map.get("Vendor\\Module\\"), None);
    assert_eq!(map.get("vendor\\Module"), None);
    assert_eq!(map.get("Vendor\\Module"), Some(&1));
}

#[test]
fn clone_holds_the_same_entries_and_is_independent() {
    let mut map: TextMap<u32> = TextMap::new();
    map.insert("a".to_string(), 1);
    map.insert("b".to_string(), 2);
    let mut copy = map.clone();
    assert_eq!(copy.get("a"), Some(&1));
    assert_eq!(copy.get("b"), Some(&2));
    copy.insert("a".to_string(), 9);
    assert_eq!(copy.get("a"), Some(&9));
    assert_eq!(map.get("a"), Some(&1));
}
