use liquidation_monitor::string_map::{key_order, same, KeyOrder, StringMap};

#[test]
fn key_order_is_the_order_of_strings() {
    assert_eq!(key_order("a", "b"), KeyOrder::Before);
    assert_eq!(key_order("b", "a"), KeyOrder::After);
    assert_eq!(key_order("abc", "abc"), KeyOrder::Same);
    assert_eq!(key_order("", "a"), KeyOrder::Before);
    assert_eq!(key_order("ab", "abc"), KeyOrder::Before);
    assert_eq!(key_order("abd", "abc"), KeyOrder::After);
    assert_eq!(key_order("Z", "a"), KeyOrder::Before);
    assert_eq!(key_order("z", "é"), KeyOrder::Before);
    assert_eq!(key_order("", ""), KeyOrder::Same);
}

#[test]
fn key_order_agrees_with_std() {
    let words = ["", "terra1", "terra10", "terra2", "Terra", "é", "e", "zz", "z"];
    for a in words {
        for b in words {
            let expected = if a < b {
                KeyOrder::Before
            } else if a == b {
                KeyOrder::Same
            } else {
                KeyOrder::After
            };
            assert_eq!(key_order(a, b), expected);
        }
    }
}

#[test]
fn same_tells_equal_strings() {
    assert!(same("terra", "terra"));
    assert!(!same("terra", "terr"));
    assert!(!same("terra", "terrb"));
}

#[test]
fn an_empty_map_holds_nothing() {
    let map: StringMap<u8> = StringMap::new();
    assert_eq!(map.len(), 0);
    assert_eq!(map.get("a"), None);
    assert!(!map.contains_key("a"));
    assert_eq!(map.index_of("a"), None);
}

#[test]
fn insert_keeps_the_keys_in_order() {
    let mut map: StringMap<u8> = StringMap::new();
    map.insert("m".to_string(), 1);
    map.insert("a".to_string(), 2);
    map.insert("z".to_string(), 3);
    map.insert("c".to_string(), 4);
    assert_eq!(map.len(), 4);
    assert_eq!(map.key_at(0), "a");
    assert_eq!(map.key_at(1), "c");
    assert_eq!(map.key_at(2), "m");
    assert_eq!(map.key_at(3), "z");
    assert_eq!(*map.value_at(0), 2);
    assert_eq!(*map.value_at(1), 4);
    assert_eq!(*map.value_at(2), 1);
    assert_eq!(*map.value_at(3), 3);
}

#[test]
fn insert_replaces_the_value_of_a_key() {
    let mut map: StringMap<u8> = StringMap::new();
    map.insert("a".to_string(), 1);
    map.insert("b".to_string(), 2);
    map.insert("a".to_string(), 3);
    assert_eq!(map.len(), 2);
    assert_eq!(map.get("a"), Some(&3));
    assert_eq!(map.get("b"), Some(&2));
}

#[test]
fn get_finds_what_was_inserted() {
    let mut map: StringMap<u32> = StringMap::new();
    for i in 0..100u32 {
        map.insert(format!("key{}", (i * 37) % 100), i);
    }
    assert_eq!(map.len(), 100);
    for i in 0..100u32 {
        assert_eq!(map.get(&format!("key{}", (i * 37) % 100)), Some(&i));
    }
    assert_eq!(map.get("key100"), None);
    for i in 1..map.len() {
        assert!(map.key_at(i - 1) < map.key_at(i));
    }
}

#[test]
fn index_of_gives_the_place_of_a_key() {
    let mut map: StringMap<u8> = StringMap::new();
    map.insert("b".to_string(), 1);
    map.insert("a".to_string(), 2);
    assert_eq!(map.index_of("a"), Some(0));
    assert_eq!(map.index_of("b"), Some(1));
    assert_eq!(map.index_of("c"), None);
    assert!(map.contains_key("b"));
}

#[test]
fn value_at_mut_changes_one_value() {
    let mut map: StringMap<u8> = StringMap::new();
    map.insert("a".to_string(), 1);
    map.insert("b".to_string(), 2);
    *map.value_at_mut(1) = 9;
    assert_eq!(map.get("a"), Some(&1));
    assert_eq!(map.get("b"), Some(&9));
}

#[test]
fn duplicate_and_clone_copy_the_entries() {
    let mut map: StringMap<u8> = StringMap::new();
    map.insert("b".to_string(), 1);
    map.insert("a".to_string(), 2);
    let copy = map.duplicate();
    assert_eq!(copy, map);
    let clone = map.clone();
    assert_eq!(clone, map);
    map.insert("c".to_string(), 3);
    assert_eq!(copy.len(), 2);
    assert_ne!(copy, map);
}
