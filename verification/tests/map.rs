use playerctl_rust_wrapper::TextMap;

#[test]
fn a_new_map_is_empty() {
    let map: TextMap<u64> = TextMap::new();
    assert_eq!(map.len(), 0);
    assert!(!map.contains_key("mpv"));
    assert!(map.get("mpv").is_none());
    assert!(map.into_entries().is_empty());
}

#[test]
fn insert_adds_a_key() {
    let mut map: TextMap<u64> = TextMap::new();
    assert_eq!(map.insert("mpv".to_string(), 1), None);
    assert_eq!(map.insert("firefox".to_string(), 2), None);
    assert_eq!(map.len(), 2);
    assert_eq!(map.get("mpv"), Some(&1));
    assert_eq!(map.get("firefox"), Some(&2));
    assert_eq!(map.get("vlc"), None);
    assert!(map.contains_key("firefox"));
    assert!(!map.contains_key("Firefox"));
}

#[test]
fn insert_replaces_the_value_of_a_key() {
    let mut map: TextMap<u64> = TextMap::new();
    map.insert("mpv".to_string(), 1);
    map.insert("firefox".to_string(), 2);
    assert_eq!(map.insert("mpv".to_string(), 3), Some(1));
    assert_eq!(map.len(), 2);
    assert_eq!(map.get("mpv"), Some(&3));
    assert_eq!(map.get("firefox"), Some(&2));
}

#[test]
fn the_entries_hold_each_key_once() {
    let mut map: TextMap<u64> = TextMap::new();
    map.insert("mpv".to_string(), 1);
    map.insert("firefox".to_string(), 2);
    map.insert("mpv".to_string(), 3);
    map.insert("".to_string(), 4);
    let mut entries = map.into_entries();
    entries.sort();
    assert_eq!(
        entries,
        vec![("".to_string(), 4), ("firefox".to_string(), 2), ("mpv".to_string(), 3)]
    );
}

#[test]
fn maps_with_the_same_entries_are_equal() {
    let mut one: TextMap<u64> = TextMap::new();
    one.insert("mpv".to_string(), 1);
    one.insert("firefox".to_string(), 2);
    let mut other: TextMap<u64> = TextMap::new();
    other.insert("firefox".to_string(), 5);
    other.insert("mpv".to_string(), 1);
    assert!(one != other);
    other.insert("firefox".to_string(), 2);
    assert!(one == other);
    assert!(other == one);
    assert!(TextMap::<u64>::new() == TextMap::new());
}

#[test]
fn maps_with_other_keys_are_not_equal() {
    let mut one: TextMap<u64> = TextMap::new();
    one.insert("mpv".to_string(), 1);
    let mut other: TextMap<u64> = TextMap::new();
    assert!(one != other);
    assert!(other != one);
    other.insert("vlc".to_string(), 1);
    assert!(one != other);
    other.insert("mpv".to_string(), 1);
    assert!(one != other);
    assert!(other != one);
    one.insert("vlc".to_string(), 1);
    assert!(one == other);
}
