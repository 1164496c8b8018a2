//! The map with text keys.

use matrix_rtc::table::TextMap;

#[test]
fn the_order_lists_every_key_once() {
    let mut map: TextMap<u64> = TextMap::new();
    map.insert("b".to_owned(), 1);
    map.insert("a".to_owned(), 2);
    map.insert("b".to_owned(), 3);

    let listed: Vec<(&str, u64)> = (0..map.len())
        .map(|i| (map.key_at(i), *map.value_at(i)))
        .collect();

    assert_eq!(listed, vec![("b", 3), ("a", 2)]);
    assert!(map.contains_key("a"));
    assert!(!map.contains_key("c"));
}

#[test]
fn only_recent_times_are_kept() {
    let mut map: TextMap<u64> = TextMap::new();
    map.insert("old".to_owned(), 9);
    map.insert("edge".to_owned(), 10);
    map.drop_older(20, 10);
    assert_eq!(map.get("old"), None);
    assert_eq!(map.get("edge"), Some(&10));
}
