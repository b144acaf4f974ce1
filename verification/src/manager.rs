//! The expense manager: the expense table and the statements that read and
//! change it.

use vstd::prelude::*;
use vstd::string::*;
use crate::connection::{DB, path_refusal, string_refusal};
use crate::db::{
    DbError, RowData, StepOutcome, finished_read, new_db_conn, row_labelled, rows_labelled,
    rows_read,
};
use crate::sql::{
    Columns, column_clause, column_clauses, create_table_sql, delete_sql, without_last, insert_sql, select_all_sql, select_limit_sql,
    table_info_sql, update_sql,
};
use crate::text::{decimal, i32_to_string, str_equal, str_views_of, views_of};

verus! {

/// The name of the expense table.
pub open spec fn expense_table() -> Seq<char> {
    "expenses"@
}

/// The columns of the expense table: an integer key, a name and an amount.
pub open spec fn expense_columns() -> Seq<(Seq<char>, Seq<char>)> {
    seq![("id"@, "INTEGER PRIMARY KEY"@), ("name"@, "TEXT"@), ("amount"@, "INTEGER"@)]
}

/// The name as it stands in SQL: between single quotes.
pub open spec fn quoted(name: Seq<char>) -> Seq<char> {
    "'"@ + name + "'"@
}

/// The value that editing `column` writes: a name is quoted, an amount is
/// written as given.
pub open spec fn edited_value(column: Seq<char>, value: Seq<char>) -> Seq<char> {
    if column == "name"@ {
        quoted(value)
    } else {
        value
    }
}

/// Keeps the expenses in the database it is connected to.
pub struct Manager {
    db: DB,
}

impl Manager {
    /// The statements handed to the database, oldest first.
    pub closed spec fn issued(&self) -> Seq<Seq<char>> {
        self.db.issued()
    }

    /// The path of the database the manager is connected to.
    pub closed spec fn path(&self) -> Seq<char> {
        self.db.path()
    }

    /// Creates the expense table. What the database answers is not
    /// reported.
    pub fn create_expenses_table(&mut self)
        ensures
            final(self).issued() == old(self).issued().push(
                create_table_sql(expense_table(), expense_columns()),
            ),
            final(self).issued().last()
                == "CREATE TABLE expenses(id INTEGER PRIMARY KEY, name TEXT, amount INTEGER);"@,
            final(self).path() == old(self).path(),
    {
        proof {
            law_expense_table_statement();
        }
        let mut columns = Columns::new();
        proof {
            reveal_strlit("id");
            reveal_strlit("name");
            reveal_strlit("amount");
            assert("id"@.len() == 2);
            assert("name"@.len() == 4);
            assert("amount"@.len() == 6);
        }
        let id_options = String::from_str("INTEGER PRIMARY KEY");
        let name_options = String::from_str("TEXT");
        let amount_options = String::from_str("INTEGER");
        let ghost (a, b, c) = (id_options@, name_options@, amount_options@);
        columns.insert("id", id_options);
        assert(columns.entries() =~= seq![("id"@, a)]);
        columns.insert("name", name_options);
        assert(columns.entries() =~= seq![("id"@, a), ("name"@, b)]);
        columns.insert("amount", amount_options);
        assert(columns.entries() =~= expense_columns());
        let _ = self.db.create_table("expenses", columns);
    }

    /// Adds an expense named `name` of `amount`. The name goes into the
    /// statement between single quotes and as it is otherwise. What the
    /// database answers is not reported.
    pub fn add_expense(&mut self, name: &str, amount: i32)
        ensures
            final(self).issued() == old(self).issued().push(
                insert_sql(
                    expense_table(),
                    seq!["name"@, "amount"@],
                    seq![quoted(name@), decimal(amount as int)],
                ),
            ),
            final(self).path() == old(self).path(),
    {
        let columns = vec!["name", "amount"];
        let mut name_value = String::from_str("'");
        name_value.append(name);
        name_value.append("'");
        let values = vec![name_value, i32_to_string(amount)];
        assert(str_views_of(columns@) =~= seq!["name"@, "amount"@]);
        assert(views_of(values@) =~= seq![quoted(name@), decimal(amount as int)]);
        let _ = self.db.insert_into("expenses", columns, values);
    }

    /// Reads every expense, after listing the expense table's columns: the
    /// rows the query's steps gave, in order, to the end of its result, each
    /// under the names the listing gave.
    pub fn get_expenses(&mut self) -> (r: Result<Vec<RowData>, DbError>)
        ensures
            final(self).issued() == old(self).issued().push(table_info_sql(expense_table())).push(
                select_all_sql(expense_table()),
            ),
            final(self).path() == old(self).path(),
            r matches Ok(rows) ==> exists|info: Seq<StepOutcome>, data: Seq<StepOutcome>|
                #![trigger finished_read(info, table_info_sql(expense_table())), finished_read(data, select_all_sql(expense_table()))]
                finished_read(info, table_info_sql(expense_table())) && finished_read(
                    data,
                    select_all_sql(expense_table()),
                ) && rows_labelled(rows@, rows_read(info), rows_read(data)),
            r matches Err(e) ==> e is Sqlite || e is ColumnsMismatch || e is TooManyRows,
            r matches Ok(rows) ==> forall|i: int|
                0 <= i < rows@.len() ==> (#[trigger] rows@[i]).well_formed(),
            r matches Ok(rows) ==> forall|i: int, j: int|
                0 <= i < rows@.len() && 0 <= j < rows@.len() ==> (#[trigger] rows@[i]).columns@ == (
                #[trigger] rows@[j]).columns@,
    {
        self.db.select_from("expenses")
    }

    /// Reads the expense whose `id` is `expense_id`, after listing the
    /// expense table's columns: the last row the query's steps gave, under
    /// the names the listing gave; `NoRows` where the steps gave none.
    pub fn get_single_expense(&mut self, expense_id: &str) -> (r: Result<RowData, DbError>)
        ensures
            final(self).issued() == old(self).issued().push(table_info_sql(expense_table())).push(
                select_limit_sql(expense_table(), expense_id@, 1),
            ),
            final(self).path() == old(self).path(),
            r matches Ok(row) ==> exists|info: Seq<StepOutcome>, data: Seq<StepOutcome>|
                #![trigger finished_read(info, table_info_sql(expense_table())), finished_read(data, select_limit_sql(expense_table(), expense_id@, 1))]
                finished_read(info, table_info_sql(expense_table())) && finished_read(
                    data,
                    select_limit_sql(expense_table(), expense_id@, 1),
                ) && rows_read(data).len() > 0 && row_labelled(
                    row,
                    rows_read(info),
                    rows_read(data).last(),
                ),
            r is Err && r->Err_0 is NoRows ==> exists|data: Seq<StepOutcome>|
                #[trigger] finished_read(data, select_limit_sql(expense_table(), expense_id@, 1))
                    && rows_read(data).len() == 0,
            select_limit_sql(expense_table(), expense_id@, 1).contains('\u{0}') ==> r is Err
                && r->Err_0.says(string_refusal()),
            r matches Ok(row) ==> row.well_formed(),
    {
        self.db.select_from_limit("expenses", expense_id, 1)
    }

    /// Sets the column `to_set[0]` of the expense `expense_id` to
    /// `to_set[1]`, quoted where the column is the name. What the database
    /// answers is not reported.
    pub fn edit_expense(&mut self, expense_id: &str, to_set: &[&str; 2])
        ensures
            final(self).issued() == old(self).issued().push(
                update_sql(
                    expense_table(),
                    expense_id@,
                    to_set@[0]@,
                    edited_value(to_set@[0]@, to_set@[1]@),
                ),
            ),
            final(self).path() == old(self).path(),
    {
        let field_val = if str_equal(to_set[0], "name") {
            let mut v = String::from_str("'");
            v.append(to_set[1]);
            v.append("'");
            v
        } else {
            String::from_str(to_set[1])
        };
        let fields: [&str; 2] = [to_set[0], field_val.as_str()];
        self.db.update_where("expenses", expense_id, &fields);
    }

    /// Removes the expense whose `id` is `expense_id`; the caller reports
    /// the database's error, if any.
    pub fn remove_expense(&mut self, expense_id: &str) -> (r: Result<(), DbError>)
        ensures
            final(self).issued() == old(self).issued().push(
                delete_sql(expense_table(), "id = "@ + expense_id@),
            ),
            final(self).path() == old(self).path(),
            delete_sql(expense_table(), "id = "@ + expense_id@).contains('\u{0}') ==> r is Err
                && r->Err_0.says(string_refusal()),
            r matches Err(e) ==> e is Sqlite,
    {
        let mut filter = String::from_str("id = ");
        filter.append(expense_id);
        self.db.delete_from("expenses", filter.as_str())
    }

    /// Connects to the database at `path` in place of the current one;
    /// where that fails the manager is left as it was and the error comes
    /// back for the caller to report.
    pub fn reconnect(&mut self, path: &str) -> (r: Result<(), DbError>)
        ensures
            r is Ok ==> final(self).issued() == Seq::<Seq<char>>::empty() && final(self).path()
                == path@,
            r is Err ==> *final(self) == *old(self),
            path@.contains('\u{0}') ==> r is Err && r->Err_0.says(path_refusal()),
            r matches Err(e) ==> e is Sqlite,
    {
        match new_db_conn(path) {
            Ok(db) => {
                self.db = db;
                Ok(())
            },
            Err(e) => Err(e),
        }
    }
}

/// Opens the expense database at `path`.
pub fn init_manager(path: &str) -> (r: Result<Manager, DbError>)
    ensures
        r matches Ok(m) ==> m.issued() == Seq::<Seq<char>>::empty() && m.path() == path@,
        path@.contains('\u{0}') ==> r is Err && r->Err_0.says(path_refusal()),
        r matches Err(e) ==> e is Sqlite,
{
    let db = new_db_conn(path)?;
    Ok(Manager { db })
}

/// The expense table is created with exactly three columns: an integer key
/// `id`, a plain text `name` and an integer `amount`, with no other
/// constraint, so any number of expenses may share a name.
pub proof fn law_expense_table_statement()
    ensures
        create_table_sql(expense_table(), expense_columns())
            == "CREATE TABLE expenses(id INTEGER PRIMARY KEY, name TEXT, amount INTEGER);"@,
{
    reveal_strlit("expenses");
    reveal_strlit("id");
    reveal_strlit("name");
    reveal_strlit("amount");
    reveal_strlit("INTEGER PRIMARY KEY");
    reveal_strlit("TEXT");
    reveal_strlit("INTEGER");
    reveal_strlit(" ");
    reveal_strlit(", ");
    reveal_strlit("CREATE TABLE ");
    reveal_strlit("(");
    reveal_strlit(");");
    reveal_strlit("CREATE TABLE expenses(id INTEGER PRIMARY KEY, name TEXT, amount INTEGER);");
    let cols = expense_columns();
    assert(cols.drop_last().drop_last().drop_last() =~= Seq::<(Seq<char>, Seq<char>)>::empty());
    assert(cols.drop_last().drop_last().last() == cols[0]);
    assert(cols.drop_last().last() == cols[1]);
    assert(cols.last() == cols[2]);
    let c0 = cols.drop_last().drop_last();
    let c1 = cols.drop_last();
    assert(column_clauses(c0.drop_last()) == Seq::<char>::empty());
    assert(column_clauses(c0) =~= column_clause(cols[0]));
    assert(column_clauses(c1) =~= column_clause(cols[0]) + column_clause(cols[1]));
    let clauses = column_clauses(cols);
    assert(clauses =~= column_clause(cols[0]) + column_clause(cols[1]) + column_clause(cols[2]));
    let whole = "CREATE TABLE "@ + "expenses"@ + "("@ + clauses;
    assert(without_last(without_last(whole)) + ");"@
        =~= "CREATE TABLE expenses(id INTEGER PRIMARY KEY, name TEXT, amount INTEGER);"@);
}

} // verus!
