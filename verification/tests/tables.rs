use stackvm::table::Table;

#[test]
fn new_table_is_empty() {
    let t: Table<u32> = Table::new();
    assert_eq!(t.len(), 0);
    assert_eq!(t.keys().len(), 0);
    assert!(t.get(&"a".to_string()).is_none());
}

#[test]
fn set_then_get() {
    let mut t: Table<u32> = Table::new();
    t.set("a".to_string(), 1);
    assert_eq!(t.get(&"a".to_string()), Some(&1));
    assert!(t.get(&"b".to_string()).is_none());
}

#[test]
fn keys_come_in_insertion_order() {
    let mut t: Table<u32> = Table::new();
    t.set("zeta".to_string(), 1);
    t.set("alpha".to_string(), 2);
    t.set("mid".to_string(), 3);
    assert_eq!(t.keys(), vec!["zeta".to_string(), "alpha".to_string(), "mid".to_string()]);
}

#[test]
fn set_on_a_name_that_is_there_keeps_its_place() {
    let mut t: Table<u32> = Table::new();
    t.set("a".to_string(), 1);
    t.set("b".to_string(), 2);
    t.set("a".to_string(), 3);
    assert_eq!(t.len(), 2);
    assert_eq!(t.keys(), vec!["a".to_string(), "b".to_string()]);
    assert_eq!(t.get(&"a".to_string()), Some(&3));
    assert_eq!(t.find(&"a".to_string()), Some(0));
    assert_eq!(t.find(&"b".to_string()), Some(1));
    assert_eq!(t.find(&"c".to_string()), None);
}

#[test]
fn a_name_that_is_absent_differs_from_one_that_holds_nothing() {
    let mut t: Table<Option<u32>> = Table::new();
    t.set("a".to_string(), None);
    assert_eq!(t.get(&"a".to_string()), Some(&None));
    assert_eq!(t.get(&"b".to_string()), None);
}
