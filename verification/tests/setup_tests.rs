use expenses::db::DbError;
use expenses::setup::{
    database_path, expenses_dir, open_new_database, prepare_status, prepare_step, PrepareAction,
    PrepareEvent,
};

#[test]
fn places_the_database_under_home() {
    assert_eq!(expenses_dir("/home/ann"), "/home/ann/expenses");
    assert_eq!(database_path("/home/ann"), "/home/ann/expenses/db.sqlite");
    assert_eq!(database_path(""), "/expenses/db.sqlite");
}

#[test]
fn loads_the_database_or_else_creates_it() {
    assert_eq!(prepare_step(PrepareEvent::FileMissing), PrepareAction::CreateDirectory);
    assert_eq!(prepare_step(PrepareEvent::Opened), PrepareAction::UseManager);
    assert_eq!(prepare_step(PrepareEvent::OpenFailed), PrepareAction::CreateDirectory);
    assert_eq!(prepare_step(PrepareEvent::DirectoryCreated), PrepareAction::CreateFile);
    assert_eq!(prepare_step(PrepareEvent::DirectoryFailed), PrepareAction::GiveUp);
    assert_eq!(prepare_step(PrepareEvent::FileDone), PrepareAction::OpenAndCreateTable);
}

#[test]
fn a_new_database_has_an_empty_expense_table() {
    let mut manager = open_new_database(":memory:").unwrap();
    assert_eq!(manager.get_expenses().unwrap().len(), 0);
    manager.add_expense("Tea", 2);
    let rows = manager.get_expenses().unwrap();
    assert_eq!(rows.len(), 1);
    assert_eq!(rows[0].columns, vec!["id".to_string(), "name".to_string(), "amount".to_string()]);
}

#[test]
fn a_new_database_at_a_bad_path_is_refused() {
    assert_eq!(
        open_new_database("a\0b").err(),
        Some(DbError::Sqlite("failed to process a path".to_string()))
    );
}

#[test]
fn tells_the_user_what_happens_to_the_database() {
    assert_eq!(
        prepare_status(PrepareAction::UseManager),
        Some("Loaded the expenses database.".to_string())
    );
    assert_eq!(
        prepare_status(PrepareAction::CreateDirectory),
        Some("Creating the expenses database...".to_string())
    );
    assert_eq!(
        prepare_status(PrepareAction::GiveUp),
        Some("Cannot create the expenses database.".to_string())
    );
    assert_eq!(prepare_status(PrepareAction::CreateFile), None);
    assert_eq!(prepare_status(PrepareAction::OpenAndCreateTable), None);
}
