use message_bus::table::Table;
use message_bus::text::{decimal_text, same_text};

#[test]
fn decimal_of_numbers() {
    for n in [0, 7, 10, 99, 100, 1234567890, -1, -10, i64::MAX, i64::MIN] {
        assert_eq!(decimal_text(n), format!("{}", n));
    }
    assert_eq!(decimal_text(i64::MIN), "-9223372036854775808");
}

#[test]
fn texts_are_compared_whole() {
    assert!(same_text("", ""));
    assert!(same_text("/caf\u{e9}", "/caf\u{e9}"));
    assert!(!same_text("/a", "/b"));
    assert!(!same_text("/a", "/ab"));
}

#[test]
fn table_keeps_one_value_per_key() {
    let mut table: Table<i64> = Table::new();
    table.insert(String::from("a"), 1);
    table.insert(String::from("b"), 2);
    table.insert(String::from("a"), 3);
    assert_eq!(table.get("a"), Some(&3));
    assert_eq!(table.get("b"), Some(&2));
    assert_eq!(table.get("c"), None);
    table.remove("a");
    table.remove("c");
    assert_eq!(table.get("a"), None);
    let copy = table.clone();
    assert_eq!(copy.entries().len(), 1);
    assert_eq!(table.into_entries(), vec![(String::from("b"), 2)]);
}
