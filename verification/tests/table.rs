use handy_core::table::StringTable;

#[test]
fn keeps_the_order_of_first_insertion() {
    let mut table = StringTable::new();
    assert_eq!(table.insert("b".to_string(), 1), None);
    assert_eq!(table.insert("a".to_string(), 2), None);
    assert_eq!(table.insert("b".to_string(), 3), Some(1));
    assert_eq!(table.len(), 2);
    assert_eq!(table.key_at(0), "b");
    assert_eq!(*table.value_at(0), 3);
    assert_eq!(table.key_at(1), "a");
    assert_eq!(table.get("a"), Some(&2));
    assert_eq!(table.get("c"), None);
}

#[test]
fn removes_and_drains() {
    let mut table = StringTable::new();
    for (key, value) in [("a", 1), ("b", 2), ("c", 3)] {
        table.insert(key.to_string(), value);
    }
    assert_eq!(table.remove("b"), Some(2));
    assert_eq!(table.remove("b"), None);
    assert_eq!(table.get("b"), None);
    assert_eq!(table.get("c"), Some(&3));
    assert_eq!(table.drain(), vec![1, 3]);
    assert_eq!(table.len(), 0);
    assert_eq!(table.get("a"), None);
}
