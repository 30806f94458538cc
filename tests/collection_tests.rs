use timeless::collection::DataCollection;

#[test]
fn empty_collection() {
    let c: DataCollection<u32> = DataCollection::new();
    assert_eq!(c.len(), 0);
    assert!(c.is_empty());
    assert!(c.get("a").is_none());
}

#[test]
fn insert_get_and_upsert_in_place() {
    let mut c: DataCollection<u32> = DataCollection::new();
    c.insert("a".to_string(), 1);
    c.insert("b".to_string(), 2);
    c.insert("a".to_string(), 3);
    assert_eq!(c.len(), 2);
    assert!(!c.is_empty());
    assert_eq!(c.get("a"), Some(&3));
    assert_eq!(c.get("b"), Some(&2));
    assert_eq!(c.values(), vec![&3, &2]);
}

#[test]
fn remove_returns_value_and_keeps_order() {
    let mut c: DataCollection<u32> = DataCollection::new();
    c.insert("a".to_string(), 1);
    c.insert("b".to_string(), 2);
    c.insert("c".to_string(), 3);
    assert_eq!(c.remove("b"), Some(2));
    assert_eq!(c.values(), vec![&1, &3]);
    assert_eq!(c.remove("b"), None);
    assert_eq!(c.len(), 2);
}

#[test]
fn removing_absent_key_keeps_timestamp() {
    let mut c: DataCollection<u32> = DataCollection::from_items(vec![("a".to_string(), 1)], 7);
    assert_eq!(c.remove("zzz"), None);
    assert_eq!(c.last_updated(), 7);
    assert_eq!(c.len(), 1);
}

#[test]
fn from_items_later_duplicate_wins() {
    let c = DataCollection::from_items(
        vec![("a".to_string(), 1u32), ("b".to_string(), 2), ("a".to_string(), 9)],
        5,
    );
    assert_eq!(c.len(), 2);
    assert_eq!(c.get("a"), Some(&9));
    assert_eq!(c.last_updated(), 5);
    let keys: Vec<&str> = c.items().iter().map(|e| e.0.as_str()).collect();
    assert_eq!(keys, vec!["a", "b"]);
}
