use enoki_core::{MushroomEntry, MushroomPath, MushroomTable, MushroomValue};

fn entry(path: &str, v: i64) -> MushroomEntry {
    MushroomEntry::new(MushroomValue::Int(v), MushroomPath::parse(path), None)
}

fn value_at(t: &MushroomTable, path: &str) -> Option<MushroomValue> {
    t.get_entry(&MushroomPath::parse(path)).map(|e| e.get_value())
}

#[test]
fn same_path_replaces_in_place() {
    let mut t = MushroomTable::new(0);
    t.add_entry(entry("/a", 1));
    t.add_entry(entry("/a", 2));
    assert_eq!(t.len(), 1);
    assert_eq!(value_at(&t, "/a"), Some(MushroomValue::Int(2)));
}

#[test]
fn replacement_keeps_the_index() {
    let mut t = MushroomTable::new(0);
    t.add_entry(entry("/a", 1));
    t.add_entry(entry("/b", 2));
    t.add_entry(entry("/a", 3));
    let paths: Vec<String> = t.get_entries().iter().map(|e| e.get_path().to_string()).collect();
    assert_eq!(paths, vec!["/a".to_string(), "/b".to_string()]);
    assert_eq!(t.get_entries()[0].get_value(), MushroomValue::Int(3));
}

#[test]
fn lookups_on_a_table() {
    let mut t = MushroomTable::new(9);
    assert!(t.is_empty());
    t.add_entry(MushroomEntry::new(MushroomValue::Boolean(true), MushroomPath::parse("/flag"), Some(77)));
    assert!(!t.is_empty());
    assert!(t.has_entry(&MushroomPath::parse("/flag")));
    assert!(!t.has_entry(&MushroomPath::parse("/other")));
    let e = t.get_entry(&MushroomPath::parse("/flag")).unwrap();
    assert_eq!(e.get_timestamp(), Some(77));
    assert_eq!(e.get_path().to_string(), "/flag");
    assert_eq!(t.get_entry(&MushroomPath::parse("/other")), None);
    assert_eq!(t.get_timestamp(), 9);
}

#[test]
fn new_from_entries_keeps_the_last_of_a_path() {
    let t = MushroomTable::new_from_entries(5, vec![entry("/a", 1), entry("/b", 2), entry("/a", 3)]);
    assert_eq!(t.len(), 2);
    assert_eq!(value_at(&t, "/a"), Some(MushroomValue::Int(3)));
    assert_eq!(t.get_timestamp(), 5);
}

#[test]
fn merge_replaces_adds_and_keeps() {
    let mut a = MushroomTable::new_from_entries(1, vec![entry("/a", 1), entry("/b", 2)]);
    let b = MushroomTable::new_from_entries(2, vec![entry("/b", 20), entry("/c", 30)]);
    a.update_all(&b);
    assert_eq!(a.len(), 3);
    assert_eq!(value_at(&a, "/a"), Some(MushroomValue::Int(1)));
    assert_eq!(value_at(&a, "/b"), Some(MushroomValue::Int(20)));
    assert_eq!(value_at(&a, "/c"), Some(MushroomValue::Int(30)));
    assert_eq!(a.get_timestamp(), 2);
}

#[test]
fn merge_is_associative_and_right_biased() {
    let a = MushroomTable::new_from_entries(1, vec![entry("/a", 1), entry("/s", 1)]);
    let b = MushroomTable::new_from_entries(2, vec![entry("/b", 2), entry("/s", 2)]);
    let c = MushroomTable::new_from_entries(3, vec![entry("/c", 3), entry("/s", 3)]);
    let mut left = a.duplicate();
    left.update_all(&b);
    left.update_all(&c);
    let mut bc = b.duplicate();
    bc.update_all(&c);
    let mut right = a.duplicate();
    right.update_all(&bc);
    assert_eq!(left.get_entries(), right.get_entries());
    assert_eq!(left.get_timestamp(), 3);
    assert_eq!(right.get_timestamp(), 3);
    assert_eq!(value_at(&left, "/s"), Some(MushroomValue::Int(3)));
}

#[test]
fn merging_an_empty_table_changes_only_the_timestamp() {
    let mut a = MushroomTable::new_from_entries(1, vec![entry("/a", 1)]);
    let before = a.duplicate();
    a.update_all(&MushroomTable::new(44));
    assert_eq!(a.get_entries(), before.get_entries());
    assert_eq!(a.get_timestamp(), 44);
}

#[test]
fn update_entries_and_timestamp_separately() {
    let mut a = MushroomTable::new(1);
    let b = MushroomTable::new_from_entries(8, vec![entry("/z", 26)]);
    a.update_entries(&b);
    assert_eq!(a.get_timestamp(), 1);
    assert_eq!(a.len(), 1);
    a.update_timestamp(&b);
    assert_eq!(a.get_timestamp(), 8);
}
