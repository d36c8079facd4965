use phoenix_protocol::keyed::KeyedTable;
use phoenix_protocol::text::push_decimal;

#[test]
fn table_insert_get_remove() {
    let mut t: KeyedTable<u32> = KeyedTable::new();
    assert_eq!(t.len(), 0);
    t.insert("a".to_string(), 1);
    t.insert("b".to_string(), 2);
    t.insert("a".to_string(), 3);
    assert_eq!(t.len(), 2);
    assert_eq!(t.get("a"), Some(&3));
    assert_eq!(t.key_at(0), "a");
    assert_eq!(*t.value_at(1), 2);
    assert!(t.contains_key("b"));
    assert_eq!(t.remove("a"), Some(3));
    assert_eq!(t.remove("a"), None);
    assert_eq!(t.key_at(0), "b");
    t.clear();
    assert_eq!(t.len(), 0);
    assert!(!t.contains_key("b"));
}

#[test]
fn decimal_text() {
    let mut s = String::from("n=");
    push_decimal(&mut s, 0);
    push_decimal(&mut s, 1203);
    push_decimal(&mut s, usize::MAX);
    assert_eq!(s, format!("n=01203{}", usize::MAX));
}
