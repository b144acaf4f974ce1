use expenses::sql::{
    create_table_statement, delete_statement, insert_statement, select_all_statement,
    select_limit_statement, update_statement, Columns,
};

fn expense_columns() -> Columns {
    let mut columns = Columns::new();
    assert_eq!(columns.insert("id", "INTEGER PRIMARY KEY".to_string()), None);
    assert_eq!(columns.insert("name", "TEXT".to_string()), None);
    assert_eq!(columns.insert("amount", "INTEGER".to_string()), None);
    columns
}

#[test]
fn builds_create_table_statement() {
    let columns = expense_columns();
    assert_eq!(columns.len(), 3);
    assert_eq!(
        create_table_statement("expenses", &columns),
        "CREATE TABLE expenses(id INTEGER PRIMARY KEY, name TEXT, amount INTEGER);"
    );
}

#[test]
fn create_table_without_columns_loses_two_characters() {
    let columns = Columns::new();
    assert_eq!(create_table_statement("expenses", &columns), "CREATE TABLE expense);");
}

#[test]
fn inserting_a_known_column_replaces_it_in_place() {
    let mut columns = expense_columns();
    assert_eq!(columns.insert("name", "TEXT NOT NULL".to_string()), Some("TEXT".to_string()));
    assert_eq!(columns.len(), 3);
    assert_eq!(
        create_table_statement("t", &columns),
        "CREATE TABLE t(id INTEGER PRIMARY KEY, name TEXT NOT NULL, amount INTEGER);"
    );
}

#[test]
fn builds_select_statements() {
    assert_eq!(select_all_statement("expenses"), "SELECT * FROM expenses;");
    assert_eq!(
        select_limit_statement("expenses", "3", 1),
        "SELECT * FROM expenses WHERE id = 3 LIMIT 1"
    );
    assert_eq!(
        select_limit_statement("e", "x", -20),
        "SELECT * FROM e WHERE id = x LIMIT -20"
    );
}

#[test]
fn builds_insert_statement() {
    let columns = vec!["name", "amount"];
    let values = vec!["'Tea'".to_string(), "3".to_string()];
    assert_eq!(
        insert_statement("expenses", &columns, &values),
        "INSERT INTO expenses (name, amount)\nVALUES ('Tea', 3);"
    );
}

#[test]
fn builds_update_and_delete_statements() {
    assert_eq!(
        update_statement("expenses", "4", &["amount", "12"]),
        "UPDATE expenses SET amount = 12 WHERE id = 4"
    );
    assert_eq!(delete_statement("expenses", "id = 4"), "DELETE FROM expenses WHERE id = 4");
}
