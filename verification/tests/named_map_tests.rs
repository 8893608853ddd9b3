use sop_builds::named_map::NamedMap;

#[test]
fn insert_then_get() {
    let mut m: NamedMap<u32> = NamedMap::new();
    assert_eq!(m.len(), 0);
    assert!(!m.contains_key("a"));
    m.insert("a".to_string(), 1);
    m.insert("b".to_string(), 2);
    assert_eq!(m.get("a"), Some(&1));
    assert_eq!(m.get("b"), Some(&2));
    assert!(m.contains_key("b"));
    assert_eq!(m.len(), 2);
}

#[test]
fn insert_replaces_in_place() {
    let mut m: NamedMap<u32> = NamedMap::new();
    m.insert("a".to_string(), 1);
    m.insert("b".to_string(), 2);
    m.insert("a".to_string(), 5);
    assert_eq!(m.len(), 2);
    assert_eq!(m.get("a"), Some(&5));
    let keys: Vec<&str> = m.entries().iter().map(|e| e.0.as_str()).collect();
    assert_eq!(keys, vec!["a", "b"]);
}

#[test]
fn clone_keeps_keys_values_and_order() {
    let mut m: NamedMap<u32> = NamedMap::new();
    m.insert("b".to_string(), 2);
    m.insert("a".to_string(), 1);
    let c = m.clone();
    assert_eq!(c.len(), 2);
    assert_eq!(c.get("a"), Some(&1));
    let keys: Vec<&str> = c.entries().iter().map(|e| e.0.as_str()).collect();
    assert_eq!(keys, vec!["b", "a"]);
}
