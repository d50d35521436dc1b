use watchdog::table::Table;

fn sample() -> Table<u32> {
    let mut table = Table::new();
    table.insert("one".to_string(), 1);
    table.insert("two".to_string(), 2);
    table.insert("three".to_string(), 3);
    table
}

#[test]
fn empty_table_has_nothing() {
    let table: Table<u32> = Table::new();
    assert_eq!(table.len(), 0);
    assert!(table.get("one").is_none());
    assert!(table.position("").is_none());
}

#[test]
fn values_are_found_by_name() {
    let table = sample();
    assert_eq!(table.len(), 3);
    assert_eq!(table.get("two"), Some(&2));
    assert_eq!(table.get("four"), None);
    assert_eq!(table.position("three"), Some(2));
}

#[test]
fn entries_keep_their_order() {
    let table = sample();
    let names: Vec<&str> = (0..table.len()).map(|i| table.name_at(i).as_str()).collect();
    assert_eq!(names, ["one", "two", "three"]);
    assert_eq!(*table.value_at(1), 2);
}

#[test]
fn a_name_occurs_once() {
    let mut table = sample();
    table.insert("two".to_string(), 22);
    assert_eq!(table.len(), 3);
    assert_eq!(table.get("two"), Some(&22));
    assert_eq!(table.position("two"), Some(1));
    assert_eq!(table.get("one"), Some(&1));
}
