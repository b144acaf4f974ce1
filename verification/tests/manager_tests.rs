use expenses::manager::init_manager;

#[test]
fn adds_reads_edits_and_removes_expenses() {
    let mut manager = init_manager(":memory:").unwrap();
    manager.create_expenses_table();
    manager.add_expense("Coffee", 5);
    manager.add_expense("Rent", -700);
    let rows = manager.get_expenses().unwrap();
    assert_eq!(rows.len(), 2);
    assert_eq!(rows[0].try_get_string("name"), Some("Coffee".to_string()));
    assert_eq!(rows[0].try_get_i64("amount"), Some(5));
    assert_eq!(rows[1].try_get_i64("amount"), Some(-700));
    assert_eq!(rows[1].try_get_i64("id"), Some(2));

    manager.edit_expense("1", &["name", "Tea"]);
    manager.edit_expense("2", &["amount", "650"]);
    let one = manager.get_single_expense("1").unwrap();
    assert_eq!(one.try_get_string("name"), Some("Tea".to_string()));
    let two = manager.get_single_expense("2").unwrap();
    assert_eq!(two.try_get_i64("amount"), Some(650));

    assert!(manager.remove_expense("1").is_ok());
    let rows = manager.get_expenses().unwrap();
    assert_eq!(rows.len(), 1);
    assert_eq!(rows[0].try_get_string("name"), Some("Rent".to_string()));
    assert!(manager.get_single_expense("1").is_err());
}

#[test]
fn a_name_with_a_quote_breaks_its_statement() {
    let mut manager = init_manager(":memory:").unwrap();
    manager.create_expenses_table();
    manager.add_expense("Joe's lunch", 3);
    assert_eq!(manager.get_expenses().unwrap().len(), 0);
}

#[test]
fn reconnecting_replaces_the_database() {
    let mut manager = init_manager(":memory:").unwrap();
    manager.create_expenses_table();
    manager.add_expense("Coffee", 5);
    assert!(manager.reconnect("bad\0path").is_err());
    assert_eq!(manager.get_expenses().unwrap().len(), 1);
    assert!(manager.reconnect(":memory:").is_ok());
    assert!(manager.get_expenses().is_err());
}

#[test]
fn removing_from_a_missing_table_reports_the_error() {
    let mut manager = init_manager(":memory:").unwrap();
    assert!(manager.remove_expense("1").is_err());
    assert!(init_manager("x\0y").is_err());
}
