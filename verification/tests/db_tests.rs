use expenses::connection::ErrorReport;
use expenses::db::{
    absorb_step, column_names_of, label_rows, last_row, new_db_conn, to_db_error, DbError, RowData,
    StepOutcome, Value,
};
use expenses::sql::Columns;

fn row(id: i64, name: &str, amount: i64) -> RowData {
    RowData {
        columns: vec!["id".to_string(), "name".to_string(), "amount".to_string()],
        values: vec![Value::Integer(id), Value::String(name.to_string()), Value::Integer(amount)],
    }
}

fn items_table_columns() -> Columns {
    let mut columns = Columns::new();
    columns.insert("id", "INTEGER PRIMARY KEY".to_string());
    columns.insert("label", "TEXT".to_string());
    columns.insert("price", "INTEGER".to_string());
    columns
}

#[test]
fn writes_then_reads_rows() {
    let mut db = new_db_conn(":memory:").unwrap();
    assert_eq!(db.create_table("items", items_table_columns()), Ok(()));
    assert_eq!(
        db.insert_into("items", vec!["label", "price"], vec!["'pen'".to_string(), "3".to_string()]),
        Ok(())
    );
    assert_eq!(
        db.insert_into("items", vec!["label", "price"], vec!["'ink'".to_string(), "9".to_string()]),
        Ok(())
    );
    let rows = db.select_from("items").unwrap();
    assert_eq!(rows.len(), 2);
    assert_eq!(rows[0].columns, vec!["id".to_string(), "label".to_string(), "price".to_string()]);
    assert_eq!(
        rows[0].values,
        vec![Value::Integer(1), Value::String("pen".to_string()), Value::Integer(3)]
    );
    assert_eq!(rows[1].try_get_string("label"), Some("ink".to_string()));
    assert_eq!(rows[1].try_get_i64("price"), Some(9));
    assert_eq!(rows[1].try_get_i64("label"), None);
    assert_eq!(rows[1].try_get_i64_at(0), Some(2));
}

#[test]
fn selects_one_row_by_id() {
    let mut db = new_db_conn(":memory:").unwrap();
    db.create_table("items", items_table_columns()).unwrap();
    db.insert_into("items", vec!["label", "price"], vec!["'pen'".to_string(), "3".to_string()])
        .unwrap();
    let one = db.select_from_limit("items", "1", 1).unwrap();
    assert_eq!(one.try_get_string("label"), Some("pen".to_string()));
    assert_eq!(db.select_from_limit("items", "2", 1), Err(DbError::NoRows));
}

#[test]
fn updates_and_deletes_rows() {
    let mut db = new_db_conn(":memory:").unwrap();
    db.create_table("items", items_table_columns()).unwrap();
    db.insert_into("items", vec!["label", "price"], vec!["'pen'".to_string(), "3".to_string()])
        .unwrap();
    assert_eq!(db.update_where("items", "1", &["price", "4"]), Ok(()));
    assert_eq!(db.select_from("items").unwrap()[0].try_get_i64("price"), Some(4));
    assert_eq!(db.delete_from("items", "id = 1"), Ok(()));
    assert_eq!(db.select_from("items").unwrap().len(), 0);
}

#[test]
fn reports_database_errors() {
    let mut db = new_db_conn(":memory:").unwrap();
    assert!(matches!(db.select_from("missing"), Err(DbError::Sqlite(_))));
    assert!(matches!(db.delete_from("missing", "id = 1"), Err(DbError::Sqlite(_))));
    assert!(matches!(db.select_from_limit("missing", "1", 1), Err(DbError::Sqlite(_))));
    assert!(matches!(db.create_table("bad\0name", items_table_columns()), Err(DbError::Sqlite(_))));
    assert!(matches!(new_db_conn("a\0b"), Err(DbError::Sqlite(_))));
    db.create_table("items", items_table_columns()).unwrap();
    assert!(matches!(db.select_from("items\0"), Err(DbError::Sqlite(_))));
    assert!(matches!(db.select_from_limit("items", "1\0", 1), Err(DbError::Sqlite(_))));
}

#[test]
fn last_row_is_the_last_row() {
    assert_eq!(last_row(vec![]), Err(DbError::NoRows));
    assert_eq!(last_row(vec![row(1, "a", 2), row(3, "b", 4)]), Ok(row(3, "b", 4)));
    assert_eq!(last_row(vec![row(5, "c", 6)]), Ok(row(5, "c", 6)));
}

#[test]
fn words_each_kind_of_report() {
    let report = |code: Option<isize>, message: Option<&str>| ErrorReport {
        code,
        message: message.map(|m| m.to_string()),
    };
    assert_eq!(
        to_db_error(report(Some(1), Some("no such table: t"))),
        DbError::Sqlite("no such table: t (code 1)".to_string())
    );
    assert_eq!(
        to_db_error(report(Some(14), None)),
        DbError::Sqlite("an SQLite error (code 14)".to_string())
    );
    assert_eq!(
        to_db_error(report(None, Some("failed to process a string"))),
        DbError::Sqlite("failed to process a string".to_string())
    );
    assert_eq!(to_db_error(report(None, None)), DbError::Sqlite("an SQLite error".to_string()));
}

#[test]
fn a_missing_directory_does_not_open() {
    assert!(matches!(
        new_db_conn("/nonexistent-dir-for-expenses/db.sqlite"),
        Err(DbError::Sqlite(_))
    ));
}

#[test]
fn a_repeated_column_name_reads_its_last_occurrence() {
    let r = RowData {
        columns: vec!["x".to_string(), "x".to_string()],
        values: vec![Value::Integer(1), Value::Integer(2)],
    };
    assert_eq!(r.position("x"), Some(1));
    assert_eq!(r.position("y"), None);
    assert_eq!(r.try_get_i64("x"), Some(2));
}

#[test]
fn words_errors_as_sqlite_does() {
    let mut db = new_db_conn(":memory:").unwrap();
    assert_eq!(
        db.select_from("missing"),
        Err(DbError::Sqlite("no such table: missing (code 1)".to_string()))
    );
    assert_eq!(
        db.select_from("a\0b"),
        Err(DbError::Sqlite("failed to process a string".to_string()))
    );
    assert_eq!(
        new_db_conn("a\0b").err(),
        Some(DbError::Sqlite("failed to process a path".to_string()))
    );
}

#[test]
fn a_step_that_fails_ends_the_read_with_its_error() {
    let mut db = new_db_conn(":memory:").unwrap();
    db.create_table("items", items_table_columns()).unwrap();
    db.insert_into("items", vec!["label", "price"], vec!["'pen'".to_string(), "3".to_string()])
        .unwrap();
    let failing = "items WHERE abs(-9223372036854775808) > 0";
    assert_eq!(
        db.select_from(failing),
        Err(DbError::Sqlite("integer overflow (code 1)".to_string()))
    );
    assert!(matches!(db.select_from_limit(failing, "1", 1), Err(DbError::Sqlite(_))));
    assert_eq!(db.select_from("items").unwrap().len(), 1);
}

#[test]
fn takes_in_one_step_at_a_time() {
    let mut rows: Vec<Vec<Value>> = vec![vec![Value::Integer(1)]];
    assert_eq!(absorb_step(&mut rows, StepOutcome::Row(vec![Value::Integer(2)])), None);
    assert_eq!(rows, vec![vec![Value::Integer(1)], vec![Value::Integer(2)]]);
    assert_eq!(absorb_step(&mut rows, StepOutcome::Done), Some(Ok(())));
    assert_eq!(rows.len(), 2);
    let report = ErrorReport { code: Some(5), message: Some("database is locked".to_string()) };
    assert_eq!(
        absorb_step(&mut rows, StepOutcome::Failed(report)),
        Some(Err(DbError::Sqlite("database is locked (code 5)".to_string())))
    );
    assert_eq!(rows.len(), 2);
}

#[test]
fn names_columns_from_the_table_listing() {
    let info = vec![
        vec![Value::Integer(0), Value::String("amount".to_string()), Value::String("INTEGER".to_string())],
        vec![Value::Integer(1), Value::String("id".to_string()), Value::String("INTEGER".to_string())],
    ];
    assert_eq!(column_names_of(&info), Ok(vec!["amount".to_string(), "id".to_string()]));
    assert_eq!(column_names_of(&vec![]), Ok(vec![]));
    assert_eq!(column_names_of(&vec![vec![Value::Integer(0)]]), Err(DbError::ColumnsMismatch));
    assert_eq!(
        column_names_of(&vec![vec![Value::Integer(0), Value::Null]]),
        Err(DbError::ColumnsMismatch)
    );
}

#[test]
fn labels_rows_with_the_column_names() {
    let names = vec!["a".to_string(), "b".to_string()];
    assert_eq!(
        label_rows(&names, vec![vec![Value::Integer(1), Value::Null]]),
        Ok(vec![RowData { columns: names.clone(), values: vec![Value::Integer(1), Value::Null] }])
    );
    assert_eq!(label_rows(&names, vec![vec![Value::Integer(1)]]), Err(DbError::ColumnsMismatch));
    assert_eq!(label_rows(&names, vec![]), Ok(vec![]));
}

#[test]
fn reads_columns_in_the_order_the_table_has_them() {
    let mut db = new_db_conn(":memory:").unwrap();
    let mut columns = Columns::new();
    columns.insert("amount", "INTEGER".to_string());
    columns.insert("id", "INTEGER PRIMARY KEY".to_string());
    columns.insert("name", "TEXT".to_string());
    db.create_table("expenses", columns).unwrap();
    db.insert_into("expenses", vec!["name", "amount"], vec!["'Lunch'".to_string(), "12".to_string()])
        .unwrap();
    let rows = db.select_from("expenses").unwrap();
    assert_eq!(rows[0].columns, vec!["amount".to_string(), "id".to_string(), "name".to_string()]);
    assert_eq!(rows[0].try_get_i64("amount"), Some(12));
    assert_eq!(rows[0].try_get_string("name"), Some("Lunch".to_string()));
}
