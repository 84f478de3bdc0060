use sqs_replayer_lambda::string_map::StringMap;

#[test]
fn a_new_map_is_empty() {
    let map: StringMap<u32> = StringMap::new();
    assert!(map.is_empty());
    assert_eq!(map.len(), 0);
    assert_eq!(map.get(""), None);
}

#[test]
fn later_values_replace_earlier_ones() {
    let mut map = StringMap::new();
    map.insert("a".to_string(), 1);
    map.insert("b".to_string(), 2);
    map.insert("a".to_string(), 3);
    assert_eq!(map.len(), 2);
    assert!(!map.is_empty());
    assert_eq!(map.get("a"), Some(&3));
    assert_eq!(map.get("b"), Some(&2));
    assert_eq!(map.get("c"), None);
    assert!(map.contains_key("a"));
    assert!(!map.contains_key("A"));
}

#[test]
fn entries_keep_the_order_of_their_keys() {
    let mut map = StringMap::new();
    map.insert("x".to_string(), 1);
    map.insert("a".to_string(), 2);
    map.insert("x".to_string(), 3);
    assert_eq!(map.entry(0), (&"x".to_string(), &3));
    assert_eq!(map.entry(1), (&"a".to_string(), &2));
}

#[test]
fn a_cloned_map_stands_by_itself() {
    let mut map = StringMap::new();
    map.insert("a".to_string(), "1".to_string());
    let copy = map.clone();
    map.insert("a".to_string(), "2".to_string());
    assert_eq!(copy.get("a").map(String::as_str), Some("1"));
    assert_eq!(map.get("a").map(String::as_str), Some("2"));
}
