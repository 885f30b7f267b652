use eternal::string_map::StringMap;

fn key(s: &str) -> String {
    s.to_string()
}

#[test]
fn new_map_is_empty() {
    let map: StringMap<u64> = StringMap::new();
    assert_eq!(map.len(), 0);
    assert!(map.is_empty());
    assert!(!map.contains_key(&key("a")));
    assert_eq!(map.get(&key("a")), None);
    assert!(map.keys().is_empty());
}

#[test]
fn insert_adds_and_replaces() {
    let mut map: StringMap<u64> = StringMap::new();
    assert_eq!(map.insert(key("a"), 1), None);
    assert_eq!(map.insert(key("b"), 2), None);
    assert_eq!(map.insert(key("a"), 3), Some(1));
    assert_eq!(map.len(), 2);
    assert!(!map.is_empty());
    assert_eq!(map.get(&key("a")), Some(&3));
    assert_eq!(map.get(&key("b")), Some(&2));
    assert_eq!(map.get(&key("c")), None);
    assert!(map.contains_key(&key("b")));
}

#[test]
fn keys_keep_the_order_of_first_insertion() {
    let mut map: StringMap<u64> = StringMap::new();
    map.insert(key("zeta"), 1);
    map.insert(key("alpha"), 2);
    map.insert(key("mid"), 3);
    map.insert(key("zeta"), 4);
    assert_eq!(map.keys(), vec![key("zeta"), key("alpha"), key("mid")]);
    assert_eq!(map.key_at(1), "alpha");
    assert_eq!(*map.value_at(0), 4);
    assert_eq!(*map.value_at(2), 3);
}

#[test]
fn get_mut_changes_the_stored_value() {
    let mut map: StringMap<u64> = StringMap::new();
    map.insert(key("a"), 1);
    map.insert(key("b"), 2);
    *map.get_mut(&key("b")).unwrap() += 40;
    assert!(map.get_mut(&key("c")).is_none());
    assert_eq!(map.get(&key("a")), Some(&1));
    assert_eq!(map.get(&key("b")), Some(&42));
    *map.value_at_mut(0) = 9;
    assert_eq!(map.get(&key("a")), Some(&9));
}

#[test]
fn keys_are_compared_by_their_characters() {
    let mut map: StringMap<u64> = StringMap::new();
    map.insert(key(""), 1);
    map.insert(key("a"), 2);
    map.insert(key("A"), 3);
    map.insert(key("a "), 4);
    assert_eq!(map.len(), 4);
    assert_eq!(map.get(&key("")), Some(&1));
    assert_eq!(map.get(&key("A")), Some(&3));
}

#[test]
fn duplicate_with_copies_every_entry() {
    let mut map: StringMap<String> = StringMap::new();
    map.insert(key("k1"), key("v1"));
    map.insert(key("k2"), key("v2"));
    let copy = map.duplicate_with(|v: &String| v.clone());
    map.insert(key("k1"), key("changed"));
    assert_eq!(copy.keys(), vec![key("k1"), key("k2")]);
    assert_eq!(copy.get(&key("k1")), Some(&key("v1")));
    assert_eq!(copy.get(&key("k2")), Some(&key("v2")));
    assert_eq!(map.get(&key("k1")), Some(&key("changed")));
}
