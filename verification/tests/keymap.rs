use shader_reflect::KeyMap;

#[test]
fn keymap_insert_and_get() {
    let mut m: KeyMap<u32> = KeyMap::new();
    assert!(m.is_empty());
    assert_eq!(m.get(7), None);
    m.insert(7, 70);
    m.insert(3, 30);
    m.insert(11, 110);
    assert_eq!(m.len(), 3);
    assert!(!m.is_empty());
    assert!(m.contains_key(3));
    assert!(!m.contains_key(4));
    assert_eq!(m.get(7), Some(&70));
    assert_eq!(m.get(3), Some(&30));
    assert_eq!(m.get(11), Some(&110));
}

#[test]
fn keymap_insert_replaces_equal_keys() {
    let mut m: KeyMap<u32> = KeyMap::new();
    m.insert(5, 1);
    m.insert(5, 2);
    assert_eq!(m.len(), 1);
    assert_eq!(m.get(5), Some(&2));
}

#[test]
fn keymap_entries_are_sorted_by_key() {
    let mut m: KeyMap<u32> = KeyMap::new();
    m.insert(9, 90);
    m.insert(1, 10);
    m.insert(4, 40);
    let mut keys = Vec::new();
    let mut i = 0;
    while i < m.len() {
        keys.push(m.entry_at(i).0);
        i += 1;
    }
    assert_eq!(keys, vec![1, 4, 9]);

    // The entry order does not depend on the insertion order.
    let mut n: KeyMap<u32> = KeyMap::new();
    n.insert(4, 40);
    n.insert(9, 90);
    n.insert(1, 10);
    let mut keys2 = Vec::new();
    let mut j = 0;
    while j < n.len() {
        keys2.push(n.entry_at(j).0);
        j += 1;
    }
    assert_eq!(keys, keys2);
}
