//! The database layer: the statements handed to SQLite, and the rows read
//! back from it as plain values.

use vstd::prelude::*;
use vstd::string::*;
use crate::connection::{
    DB, ErrorReport, column_count, column_value, done, execute, on_row, path_refusal, prepare,
    read_value, result_width, sql_of, step, string_refusal,
};
use crate::sql::{
    Columns, create_table_sql, create_table_statement, delete_sql, delete_statement, insert_sql,
    insert_statement, select_all_sql, select_all_statement, select_limit_sql,
    select_limit_statement, table_info_sql, table_info_statement, update_sql, update_statement,
};
use crate::text::{decimal, i64_to_string, str_views_of, views_of};

verus! {

/// A value read from a column. A floating-point value is kept only as the
/// fact that the column held one.
#[derive(Debug, PartialEq, Eq)]
pub enum Value {
    Binary(Vec<u8>),
    Float,
    Integer(i64),
    String(String),
    Null,
}

/// A row read from the database, as plain values: the names of its columns
/// and, at the same positions, their values.
#[derive(Debug, PartialEq, Eq)]
pub struct RowData {
    pub columns: Vec<String>,
    pub values: Vec<Value>,
}

/// An error reported by the database.
#[derive(Debug, PartialEq, Eq)]
pub enum DbError {
    /// SQLite refused or failed; the text is the error as SQLite words it.
    Sqlite(String),
    /// A query that had to give a row gave none.
    NoRows,
    /// A result's rows did not have the columns that the table lists.
    ColumnsMismatch,
    /// A result had more rows than a vector can hold.
    TooManyRows,
}

impl DbError {
    /// Whether this is an SQLite error worded `text`.
    pub open spec fn says(self, text: Seq<char>) -> bool {
        self matches DbError::Sqlite(t) && t@ == text
    }
}

/// An SQLite error as its `Display` words it: the message followed by the
/// code in brackets; a generic phrase in place of a missing message.
pub open spec fn error_text_of(code: Option<isize>, message: Option<Seq<char>>) -> Seq<char> {
    match (code, message) {
        (Some(c), Some(m)) => m + " (code "@ + decimal(c as int) + ")"@,
        (Some(c), None) => "an SQLite error (code "@ + decimal(c as int) + ")"@,
        (None, Some(m)) => m,
        (None, None) => "an SQLite error"@,
    }
}

/// The words of an error report, as SQLite's crate words the error.
pub open spec fn report_text(report: ErrorReport) -> Seq<char> {
    error_text_of(
        report.code,
        match report.message {
            Some(m) => Some(m@),
            None => None,
        },
    )
}

/// The library's error for an error that SQLite's crate reported: the
/// error worded as the crate words it.
pub fn to_db_error(report: ErrorReport) -> (e: DbError)
    ensures
        e.says(report_text(report)),
{
    match (report.code, report.message) {
        (Some(c), Some(m)) => {
            let mut text = m;
            text.append(" (code ");
            let c_text = i64_to_string(c as i64);
            text.append(c_text.as_str());
            text.append(")");
            DbError::Sqlite(text)
        },
        (Some(c), None) => {
            let mut text = String::from_str("an SQLite error (code ");
            let c_text = i64_to_string(c as i64);
            text.append(c_text.as_str());
            text.append(")");
            DbError::Sqlite(text)
        },
        (None, Some(m)) => DbError::Sqlite(m),
        (None, None) => DbError::Sqlite(String::from_str("an SQLite error")),
    }
}

/// The integer a value holds, if it holds one (what reading an `i64` from
/// a column gives).
pub open spec fn integer_of(v: Value) -> Option<i64> {
    match v {
        Value::Integer(i) => Some(i),
        _ => None,
    }
}

/// The text a value holds, if it holds text (what reading a `String` from
/// a column gives).
pub open spec fn text_of(v: Value) -> Option<Seq<char>> {
    match v {
        Value::String(s) => Some(s@),
        _ => None,
    }
}

/// The position that a column name stands for: its last occurrence among
/// the names, as in a map built from the names in order.
pub open spec fn column_position(names: Seq<Seq<char>>, name: Seq<char>) -> Option<int>
    decreases names.len(),
{
    if names.len() == 0 {
        None
    } else if names.last() == name {
        Some(names.len() - 1)
    } else {
        column_position(names.drop_last(), name)
    }
}

proof fn lemma_column_position_bounds(names: Seq<Seq<char>>, name: Seq<char>)
    ensures
        column_position(names, name) matches Some(p) ==> 0 <= p < names.len() && names[p] == name,
    decreases names.len(),
{
    if names.len() > 0 && names.last() != name {
        lemma_column_position_bounds(names.drop_last(), name);
    }
}

impl RowData {
    /// One value per column.
    pub open spec fn well_formed(&self) -> bool {
        self.columns@.len() == self.values@.len()
    }

    /// The names of the columns.
    pub open spec fn names(&self) -> Seq<Seq<char>> {
        views_of(self.columns@)
    }

    /// Whether the row has a column named `name`.
    pub open spec fn has_column(&self, name: Seq<char>) -> bool {
        column_position(self.names(), name) is Some
    }

    /// The value in the column named `name`.
    pub open spec fn value_of(&self, name: Seq<char>) -> Value {
        self.values@[column_position(self.names(), name)->Some_0]
    }

    /// The position of the column named `column`.
    pub fn position(&self, column: &str) -> (p: Option<usize>)
        ensures
            p matches Some(i) ==> column_position(self.names(), column@) == Some(i as int),
            p is None ==> column_position(self.names(), column@) is None,
    {
        let key = String::from_str(column);
        let mut i = self.columns.len();
        assert(self.names().take(i as int) =~= self.names());
        while i > 0
            invariant
                i <= self.columns@.len(),
                key@ == column@,
                column_position(self.names(), column@) == column_position(
                    self.names().take(i as int),
                    column@,
                ),
            decreases i,
        {
            proof {
                let part = self.names().take(i as int);
                assert(part.drop_last() =~= self.names().take(i - 1));
                assert(part.last() == self.columns@[i - 1]@);
            }
            if self.columns[i - 1] == key {
                return Some(i - 1);
            }
            i = i - 1;
        }
        None
    }

    /// Reads the column named `column` as an `i64`, as `Row::try_get` does:
    /// `None` unless it holds an integer. The column must exist (reading a
    /// missing one panics).
    pub fn try_get_i64(&self, column: &str) -> (r: Option<i64>)
        requires
            self.well_formed(),
            self.has_column(column@),
        ensures
            r == integer_of(self.value_of(column@)),
    {
        proof {
            lemma_column_position_bounds(self.names(), column@);
        }
        let p = self.position(column).unwrap();
        match &self.values[p] {
            Value::Integer(v) => Some(*v),
            _ => None,
        }
    }

    /// Reads the column named `column` as a `String`, as `Row::try_get`
    /// does: `None` unless it holds text. The column must exist.
    pub fn try_get_string(&self, column: &str) -> (r: Option<String>)
        requires
            self.well_formed(),
            self.has_column(column@),
        ensures
            r is Some <==> text_of(self.value_of(column@)) is Some,
            r matches Some(t) ==> Some(t@) == text_of(self.value_of(column@)),
    {
        proof {
            lemma_column_position_bounds(self.names(), column@);
        }
        let p = self.position(column).unwrap();
        match &self.values[p] {
            Value::String(t) => Some(t.clone()),
            _ => None,
        }
    }

    /// Reads the column at `index` as an `i64`, as `Row::try_get` does:
    /// `None` unless it holds an integer. The index must be in the row.
    pub fn try_get_i64_at(&self, index: usize) -> (r: Option<i64>)
        requires
            index < self.values@.len(),
        ensures
            r == integer_of(self.values@[index as int]),
    {
        match &self.values[index] {
            Value::Integer(v) => Some(*v),
            _ => None,
        }
    }
}

fn copy_strings(v: &Vec<String>) -> (c: Vec<String>)
    ensures
        c@ == v@,
{
    let mut c = Vec::new();
    let mut i: usize = 0;
    while i < v.len()
        invariant
            i <= v@.len(),
            c@ == v@.take(i as int),
        decreases v@.len() - i,
    {
        c.push(v[i].clone());
        i = i + 1;
        assert(c@ =~= v@.take(i as int));
    }
    assert(v@.take(v@.len() as int) =~= v@);
    c
}

/// What one step of a query gave, as plain values.
#[derive(Debug, PartialEq, Eq)]
pub enum StepOutcome {
    /// The result is done.
    Done,
    /// The step, or reading a value of its row, failed.
    Failed(ErrorReport),
    /// A row, with the values of its columns in order.
    Row(Vec<Value>),
}

/// Whether `outcome` is what a step that left `statement` as it stands
/// gave: the end of a done result, or a row the statement stands on, with
/// the value of each of its columns. A failure fits any statement.
pub open spec fn outcome_fits(statement: sqlite::Statement, outcome: StepOutcome) -> bool {
    match outcome {
        StepOutcome::Done => done(statement),
        StepOutcome::Row(values) => on_row(statement) && values@.len() == result_width(statement)
            && forall|i: int|
            0 <= i < values@.len() ==> #[trigger] values@[i] == column_value(statement, i),
        StepOutcome::Failed(_) => true,
    }
}

/// Whether `outcome` is what a step of a statement compiled from `sql`
/// gave.
pub open spec fn outcome_seen(outcome: StepOutcome, sql: Seq<char>) -> bool {
    exists|statement: sqlite::Statement|
        sql_of(statement) == sql && #[trigger] outcome_fits(statement, outcome)
}

/// The values of a row outcome; nothing for another outcome.
pub open spec fn row_values_of(outcome: StepOutcome) -> Seq<Value> {
    match outcome {
        StepOutcome::Row(values) => values@,
        _ => Seq::empty(),
    }
}

/// Whether `steps` are the outcomes, in order, of reading a statement
/// compiled from `sql` until the last of them: each was seen, and every
/// one but the last gave a row.
pub open spec fn read_steps(steps: Seq<StepOutcome>, sql: Seq<char>) -> bool {
    &&& steps.len() > 0
    &&& forall|k: int| 0 <= k < steps.len() ==> outcome_seen(#[trigger] steps[k], sql)
    &&& forall|k: int| 0 <= k < steps.len() - 1 ==> (#[trigger] steps[k]) is Row
}

/// Whether `steps` read a statement compiled from `sql` to the end of its
/// result.
pub open spec fn finished_read(steps: Seq<StepOutcome>, sql: Seq<char>) -> bool {
    read_steps(steps, sql) && steps.last() is Done
}

/// The values of the rows that `steps` gave, in order: all outcomes but
/// the last.
pub open spec fn rows_read(steps: Seq<StepOutcome>) -> Seq<Seq<Value>> {
    Seq::new((steps.len() - 1) as nat, |k: int| row_values_of(steps[k]))
}

/// Whether `row` is `values` under the column names that `info`, the rows
/// of `PRAGMA table_info`, list.
pub open spec fn row_labelled(row: RowData, info: Seq<Seq<Value>>, values: Seq<Value>) -> bool {
    &&& row.values@ == values
    &&& row.columns@.len() == info.len()
    &&& forall|j: int| 0 <= j < info.len() ==> Some(#[trigger] row.columns@[j]@) == listed_name(info[j])
}

/// Whether `rows` are the rows `data`, in order, each under the column
/// names that `info` lists.
pub open spec fn rows_labelled(rows: Seq<RowData>, info: Seq<Seq<Value>>, data: Seq<Seq<Value>>) -> bool {
    &&& rows.len() == data.len()
    &&& forall|k: int| 0 <= k < rows.len() ==> row_labelled(#[trigger] rows[k], info, data[k])
}

/// One step of a query: the row the statement then stands on, with the
/// value of each of its columns, or the end of the result, or the error.
fn next_outcome(statement: &mut sqlite::Statement) -> (o: StepOutcome)
    ensures
        sql_of(*final(statement)) == sql_of(*old(statement)),
        outcome_fits(*final(statement), o),
{
    match step(statement) {
        Err(report) => StepOutcome::Failed(report),
        Ok(false) => StepOutcome::Done,
        Ok(true) => {
            let width = column_count(statement);
            let mut values: Vec<Value> = Vec::new();
            let mut i: usize = 0;
            while i < width
                invariant
                    i <= width,
                    on_row(*statement),
                    sql_of(*statement) == sql_of(*old(statement)),
                    width == result_width(*statement),
                    values@.len() == i,
                    forall|k: int| 0 <= k < i ==> #[trigger] values@[k] == column_value(*statement, k),
                decreases width - i,
            {
                match read_value(statement, i) {
                    Ok(v) => values.push(v),
                    Err(report) => {
                        return StepOutcome::Failed(report);
                    },
                }
                i = i + 1;
            }
            StepOutcome::Row(values)
        },
    }
}

/// Takes in the outcome of one step of a query: a row joins `rows` and
/// reading goes on (`None`); the end of the result finishes the read
/// (`Some(Ok(()))`); a failure finishes it with the error, worded as
/// SQLite's crate words it. Only a row changes `rows`.
pub fn absorb_step(rows: &mut Vec<Vec<Value>>, step: StepOutcome) -> (r: Option<Result<(), DbError>>)
    ensures
        match step {
            StepOutcome::Done => r == Some(Ok::<(), DbError>(())) && final(rows)@ == old(rows)@,
            StepOutcome::Failed(report) => r matches Some(Err(e)) && e.says(report_text(report))
                && final(rows)@ == old(rows)@,
            StepOutcome::Row(values) => r is None && final(rows)@ == old(rows)@.push(values),
        },
{
    match step {
        StepOutcome::Done => Some(Ok(())),
        StepOutcome::Failed(report) => Some(Err(to_db_error(report))),
        StepOutcome::Row(values) => {
            rows.push(values);
            None
        },
    }
}

/// Reads the rows of a compiled query, one step at a time, each as the
/// values of its columns, and gives back, as a ghost, the outcomes of the
/// steps taken. Reading stops when the result is done, at the first step
/// that fails, whose error comes back, or when the vector of rows can hold
/// no more. Which rows come depends on the database; those that come back
/// are the rows the steps gave, in order.
fn read_all(statement: sqlite::Statement) -> (r: (Result<Vec<Vec<Value>>, DbError>, Ghost<Seq<StepOutcome>>))
    ensures
        read_steps(r.1@, sql_of(statement)),
        r.0 matches Ok(rows) ==> finished_read(r.1@, sql_of(statement)) && rows@.len() == rows_read(
            r.1@,
        ).len() && forall|k: int| 0 <= k < rows@.len() ==> (#[trigger] rows@[k])@ == rows_read(r.1@)[k],
        r.0 matches Err(e) ==> e is TooManyRows || (r.1@.last() matches StepOutcome::Failed(report)
            && e.says(report_text(report))),
        r.0 matches Err(e) ==> e is Sqlite || e is TooManyRows,
{
    let ghost sql = sql_of(statement);
    let mut live = statement;
    let mut rows: Vec<Vec<Value>> = Vec::new();
    let ghost mut steps: Seq<StepOutcome> = Seq::empty();
    while rows.len() < usize::MAX
        invariant
            sql == sql_of(statement),
            sql_of(live) == sql,
            steps.len() == rows@.len(),
            forall|k: int| 0 <= k < steps.len() ==> outcome_seen(#[trigger] steps[k], sql),
            forall|k: int| 0 <= k < steps.len() ==> (#[trigger] steps[k]) is Row,
            forall|k: int| 0 <= k < steps.len() ==> (#[trigger] rows@[k])@ == row_values_of(steps[k]),
        decreases usize::MAX - rows@.len(),
    {
        let outcome = next_outcome(&mut live);
        let ghost seen = outcome;
        proof {
            assert(outcome_fits(live, seen));
            assert(outcome_seen(seen, sql));
        }
        let ghost before = rows@;
        let absorbed = absorb_step(&mut rows, outcome);
        proof {
            steps = steps.push(seen);
        }
        match absorbed {
            None => {
                assert(rows@ == before.push(rows@.last()));
                assert forall|k: int| 0 <= k < steps.len() implies (#[trigger] rows@[k])@
                    == row_values_of(steps[k]) by {
                    if k < steps.len() - 1 {
                        assert(rows@[k] == before[k]);
                    }
                }
            },
            Some(Ok(())) => {
                proof {
                    let kept = steps.drop_last();
                    assert(kept =~= steps.take(steps.len() - 1));
                    assert forall|k: int| 0 <= k < rows@.len() implies (#[trigger] rows@[k])@
                        == rows_read(steps)[k] by {
                        assert(steps[k] == kept[k]);
                    }
                }
                return (Ok(rows), Ghost(steps));
            },
            Some(Err(e)) => {
                return (Err(e), Ghost(steps));
            },
        }
    }
    (Err(DbError::TooManyRows), Ghost(steps))
}

/// The name a row of `PRAGMA table_info` gives: the text in its second
/// column.
pub open spec fn listed_name(info_row: Seq<Value>) -> Option<Seq<char>> {
    if info_row.len() > 1 {
        text_of(info_row[1])
    } else {
        None
    }
}

/// The column names that the rows of `PRAGMA table_info` list, in order;
/// `ColumnsMismatch` where a row gives no name.
pub fn column_names_of(info: &Vec<Vec<Value>>) -> (r: Result<Vec<String>, DbError>)
    ensures
        r is Ok <==> forall|k: int| 0 <= k < info@.len() ==> (#[trigger] listed_name(info@[k]@)) is Some,
        r matches Ok(names) ==> names@.len() == info@.len() && forall|k: int|
            0 <= k < info@.len() ==> Some(#[trigger] names@[k]@) == listed_name(info@[k]@),
        r matches Err(e) ==> e is ColumnsMismatch,
{
    let mut names: Vec<String> = Vec::new();
    let mut k: usize = 0;
    while k < info.len()
        invariant
            k <= info@.len(),
            names@.len() == k,
            forall|j: int| 0 <= j < k ==> (#[trigger] listed_name(info@[j]@)) is Some,
            forall|j: int| 0 <= j < k ==> Some(#[trigger] names@[j]@) == listed_name(info@[j]@),
        decreases info@.len() - k,
    {
        let row = &info[k];
        if row.len() > 1 {
            match &row[1] {
                Value::String(name) => {
                    names.push(name.clone());
                },
                _ => {
                    assert(listed_name(info@[k as int]@) is None);
                    return Err(DbError::ColumnsMismatch);
                },
            }
        } else {
            assert(listed_name(info@[k as int]@) is None);
            return Err(DbError::ColumnsMismatch);
        }
        k = k + 1;
    }
    Ok(names)
}

/// The rows of `raw`, each labelled with the column names `names`;
/// `ColumnsMismatch` where a row has another number of values than there
/// are names.
pub fn label_rows(names: &Vec<String>, raw: Vec<Vec<Value>>) -> (r: Result<Vec<RowData>, DbError>)
    ensures
        r is Ok <==> forall|k: int| 0 <= k < raw@.len() ==> (#[trigger] raw@[k])@.len() == names@.len(),
        r matches Ok(rows) ==> rows@.len() == raw@.len() && forall|k: int|
            0 <= k < raw@.len() ==> (#[trigger] rows@[k]).columns@ == names@ && rows@[k].values@
                == raw@[k]@,
        r matches Err(e) ==> e is ColumnsMismatch,
{
    let ghost all = raw@;
    let mut rest = raw;
    let mut rows: Vec<RowData> = Vec::new();
    let n = rest.len();
    let mut i: usize = 0;
    while i < n
        invariant
            i <= n,
            n == all.len(),
            all == raw@,
            rest@ == all.skip(i as int),
            rows@.len() == i,
            forall|k: int| 0 <= k < i ==> (#[trigger] all[k])@.len() == names@.len(),
            forall|k: int|
                0 <= k < i ==> (#[trigger] rows@[k]).columns@ == names@ && rows@[k].values@ == all[k]@,
        decreases n - i,
    {
        let values = rest.remove(0);
        assert(values == all[i as int]);
        if values.len() != names.len() {
            assert(raw@[i as int]@.len() != names@.len());
            return Err(DbError::ColumnsMismatch);
        }
        rows.push(RowData { columns: copy_strings(names), values });
        i = i + 1;
        assert(rest@ =~= all.skip(i as int));
    }
    Ok(rows)
}
/// The last of `rows`, as `Iterator::last` gives it; `NoRows` where there
/// is none.
pub fn last_row(rows: Vec<RowData>) -> (r: Result<RowData, DbError>)
    ensures
        rows@.len() == 0 ==> r == Err::<RowData, DbError>(DbError::NoRows),
        rows@.len() > 0 ==> r == Ok::<RowData, DbError>(rows@.last()),
{
    let mut rows = rows;
    match rows.pop() {
        Some(row) => Ok(row),
        None => Err(DbError::NoRows),
    }
}

/// Rows labelled by `label_rows` from the column names a listing gave and
/// the values a query gave are the query's rows under the listing's names.
proof fn lemma_labelled(
    labelled: Result<Vec<RowData>, DbError>,
    names: Seq<String>,
    raw: Seq<Vec<Value>>,
    info: Seq<StepOutcome>,
    data: Seq<StepOutcome>,
)
    requires
        names.len() == rows_read(info).len(),
        forall|j: int| 0 <= j < names.len() ==> Some(#[trigger] names[j]@) == listed_name(rows_read(info)[j]),
        raw.len() == rows_read(data).len(),
        forall|k: int| 0 <= k < raw.len() ==> (#[trigger] raw[k])@ == rows_read(data)[k],
        labelled matches Ok(rows) ==> rows@.len() == raw.len() && forall|k: int|
            0 <= k < raw.len() ==> (#[trigger] rows@[k]).columns@ == names && rows@[k].values@ == raw[k]@,
    ensures
        labelled matches Ok(rows) ==> rows_labelled(rows@, rows_read(info), rows_read(data)),
{
    if let Ok(rows) = labelled {
        assert forall|k: int| 0 <= k < rows@.len() implies row_labelled(
            #[trigger] rows@[k],
            rows_read(info),
            rows_read(data)[k],
        ) by {
            assert(rows@[k].columns@ == names);
            assert(raw[k]@ == rows_read(data)[k]);
        }
    }
}

impl DB {
    /// Lists the columns of `table_name`, handing the database
    /// `PRAGMA table_info(table_name);`, and gives back, as a ghost, the
    /// outcomes of the steps of that read. A table that does not exist
    /// lists none.
    fn table_columns(&mut self, table_name: &str) -> (r: (Result<Vec<String>, DbError>, Ghost<Seq<StepOutcome>>))
        ensures
            final(self).issued() == old(self).issued().push(table_info_sql(table_name@)),
            final(self).path() == old(self).path(),
            table_info_sql(table_name@).contains('\u{0}') ==> r.0 is Err && r.0->Err_0.says(
                string_refusal(),
            ),
            r.0 matches Ok(names) ==> finished_read(r.1@, table_info_sql(table_name@))
                && names@.len() == rows_read(r.1@).len() && forall|j: int|
                0 <= j < names@.len() ==> Some(#[trigger] names@[j]@) == listed_name(rows_read(r.1@)[j]),
            r.0 matches Err(e) ==> e is Sqlite || e is ColumnsMismatch || e is TooManyRows,
    {
        let statement = table_info_statement(table_name);
        match prepare(self, statement.as_str()) {
            Ok(prepared) => {
                let (info, steps) = read_all(prepared);
                match info {
                    Ok(info) => (column_names_of(&info), steps),
                    Err(e) => (Err(e), steps),
                }
            },
            Err(report) => (Err(to_db_error(report)), Ghost(Seq::empty())),
        }
    }

    /// Creates `table_name` with `columns`, handing the database
    /// `CREATE TABLE table_name(name options, ...);`.
    pub fn create_table(&mut self, table_name: &str, columns: Columns) -> (r: Result<(), DbError>)
        ensures
            final(self).issued() == old(self).issued().push(
                create_table_sql(table_name@, columns.entries()),
            ),
            final(self).path() == old(self).path(),
            create_table_sql(table_name@, columns.entries()).contains('\u{0}') ==> r is Err && r->Err_0.says(string_refusal()),
            r matches Err(e) ==> e is Sqlite,
    {
        let statement = create_table_statement(table_name, &columns);
        match execute(self, statement.as_str()) {
            Ok(()) => Ok(()),
            Err(report) => Err(to_db_error(report)),
        }
    }

    /// Reads every row of `table_name`, handing the database
    /// `PRAGMA table_info(table_name);` to learn the names of its columns,
    /// then `SELECT * FROM table_name;`. The rows that come back are those
    /// the query's steps gave, in order, to the end of its result, each
    /// under the names that the listing's steps gave. An error comes back
    /// where the query does not compile, a step fails, or the rows do not
    /// have the columns that the table lists; the query's error comes first.
    pub fn select_from(&mut self, table_name: &str) -> (r: Result<Vec<RowData>, DbError>)
        ensures
            final(self).issued() == old(self).issued().push(table_info_sql(table_name@)).push(
                select_all_sql(table_name@),
            ),
            final(self).path() == old(self).path(),
            select_all_sql(table_name@).contains('\u{0}') ==> r is Err && r->Err_0.says(
                string_refusal(),
            ),
            r matches Ok(rows) ==> exists|info: Seq<StepOutcome>, data: Seq<StepOutcome>|
                #![trigger finished_read(info, table_info_sql(table_name@)), finished_read(data, select_all_sql(table_name@))]
                finished_read(info, table_info_sql(table_name@)) && finished_read(
                    data,
                    select_all_sql(table_name@),
                ) && rows_labelled(rows@, rows_read(info), rows_read(data)),
            r matches Ok(rows) ==> forall|i: int|
                0 <= i < rows@.len() ==> (#[trigger] rows@[i]).well_formed(),
            r matches Ok(rows) ==> forall|i: int, j: int|
                0 <= i < rows@.len() && 0 <= j < rows@.len() ==> (#[trigger] rows@[i]).columns@ == (
                #[trigger] rows@[j]).columns@,
            r matches Err(e) ==> e is Sqlite || e is ColumnsMismatch || e is TooManyRows,
    {
        let (names, Ghost(info)) = self.table_columns(table_name);
        let statement = select_all_statement(table_name);
        let (selected, Ghost(data)) = match prepare(self, statement.as_str()) {
            Ok(prepared) => read_all(prepared),
            Err(report) => (Err(to_db_error(report)), Ghost(Seq::empty())),
        };
        match selected {
            Err(e) => Err(e),
            Ok(raw) => match names {
                Err(e) => Err(e),
                Ok(names) => {
                    let labelled = label_rows(&names, raw);
                    proof {
                        lemma_labelled(labelled, names@, raw@, info, data);
                    }
                    labelled
                },
            },
        }
    }

    /// Reads the last row of `table_name` whose `id` is `id`, among at most
    /// `limit` of them, handing the database `PRAGMA table_info(table_name);`
    /// then `SELECT * FROM table_name WHERE id = id LIMIT limit`. The row
    /// that comes back is the last that the query's steps gave, to the end
    /// of its result, under the names the listing gave; `NoRows` where the
    /// steps gave none. Errors as for `select_from`.
    pub fn select_from_limit(&mut self, table_name: &str, id: &str, limit: i32) -> (r: Result<
        RowData,
        DbError,
    >)
        ensures
            final(self).issued() == old(self).issued().push(table_info_sql(table_name@)).push(
                select_limit_sql(table_name@, id@, limit as int),
            ),
            final(self).path() == old(self).path(),
            select_limit_sql(table_name@, id@, limit as int).contains('\u{0}') ==> r is Err
                && r->Err_0.says(string_refusal()),
            r matches Ok(row) ==> exists|info: Seq<StepOutcome>, data: Seq<StepOutcome>|
                #![trigger finished_read(info, table_info_sql(table_name@)), finished_read(data, select_limit_sql(table_name@, id@, limit as int))]
                finished_read(info, table_info_sql(table_name@)) && finished_read(
                    data,
                    select_limit_sql(table_name@, id@, limit as int),
                ) && rows_read(data).len() > 0 && row_labelled(
                    row,
                    rows_read(info),
                    rows_read(data).last(),
                ),
            r is Err && r->Err_0 is NoRows ==> exists|data: Seq<StepOutcome>|
                #[trigger] finished_read(data, select_limit_sql(table_name@, id@, limit as int))
                    && rows_read(data).len() == 0,
            r matches Ok(row) ==> row.well_formed(),
            r matches Err(e) ==> e is Sqlite || e is ColumnsMismatch || e is TooManyRows
                || e is NoRows,
    {
        let (names, Ghost(info)) = self.table_columns(table_name);
        let statement = select_limit_statement(table_name, id, limit);
        let (selected, Ghost(data)) = match prepare(self, statement.as_str()) {
            Ok(prepared) => read_all(prepared),
            Err(report) => (Err(to_db_error(report)), Ghost(Seq::empty())),
        };
        match selected {
            Err(e) => Err(e),
            Ok(raw) => match names {
                Err(e) => Err(e),
                Ok(names) => {
                    let labelled = label_rows(&names, raw);
                    proof {
                        lemma_labelled(labelled, names@, raw@, info, data);
                    }
                    match labelled {
                        Ok(rows) => {
                            let ghost all = rows@;
                            let last = last_row(rows);
                            proof {
                                if all.len() > 0 {
                                    assert(row_labelled(all[all.len() - 1], rows_read(info), rows_read(data)[all.len() - 1]));
                                }
                            }
                            last
                        },
                        Err(e) => Err(e),
                    }
                },
            },
        }
    }

    /// Inserts one row holding `values` in `columns`, handing the database
    /// `INSERT INTO table_name (columns...)` and `VALUES (values...);`.
    pub fn insert_into(&mut self, table_name: &str, columns: Vec<&str>, values: Vec<String>) -> (r:
        Result<(), DbError>)
        ensures
            final(self).issued() == old(self).issued().push(
                insert_sql(table_name@, str_views_of(columns@), views_of(values@)),
            ),
            final(self).path() == old(self).path(),
            insert_sql(table_name@, str_views_of(columns@), views_of(values@)).contains('\u{0}')
                ==> r is Err && r->Err_0.says(string_refusal()),
            r matches Err(e) ==> e is Sqlite,
    {
        let statement = insert_statement(table_name, &columns, &values);
        match execute(self, statement.as_str()) {
            Ok(()) => Ok(()),
            Err(report) => Err(to_db_error(report)),
        }
    }

    /// Sets `to_set[0]` to `to_set[1]` in the rows whose `id` is `id`,
    /// handing the database `UPDATE table_name SET a = b WHERE id = id`.
    pub fn update_where(&mut self, table_name: &str, id: &str, to_set: &[&str; 2]) -> (r: Result<
        (),
        DbError,
    >)
        ensures
            final(self).issued() == old(self).issued().push(
                update_sql(table_name@, id@, to_set@[0]@, to_set@[1]@),
            ),
            final(self).path() == old(self).path(),
            update_sql(table_name@, id@, to_set@[0]@, to_set@[1]@).contains('\u{0}') ==> r is Err && r->Err_0.says(string_refusal()),
            r matches Err(e) ==> e is Sqlite,
    {
        let statement = update_statement(table_name, id, to_set);
        match execute(self, statement.as_str()) {
            Ok(()) => Ok(()),
            Err(report) => Err(to_db_error(report)),
        }
    }

    /// Deletes the rows that `filter` picks, handing the database
    /// `DELETE FROM table_name WHERE filter`. The caller reports an error.
    pub fn delete_from(&mut self, table_name: &str, filter: &str) -> (r: Result<(), DbError>)
        ensures
            final(self).issued() == old(self).issued().push(delete_sql(table_name@, filter@)),
            final(self).path() == old(self).path(),
            delete_sql(table_name@, filter@).contains('\u{0}') ==> r is Err && r->Err_0.says(string_refusal()),
            r matches Err(e) ==> e is Sqlite,
    {
        let statement = delete_statement(table_name, filter);
        match execute(self, statement.as_str()) {
            Ok(()) => Ok(()),
            Err(report) => Err(to_db_error(report)),
        }
    }
}

/// Opens the expense database at `path`. The connection is to the
/// database at `path`, and no statement has been handed to it yet.
pub fn new_db_conn(path: &str) -> (r: Result<DB, DbError>)
    ensures
        r matches Ok(db) ==> db.issued() == Seq::<Seq<char>>::empty() && db.path() == path@,
        path@.contains('\u{0}') ==> r is Err && r->Err_0.says(path_refusal()),
        r matches Err(e) ==> e is Sqlite,
{
    match DB::open(path) {
        Ok(db) => Ok(db),
        Err(report) => Err(to_db_error(report)),
    }
}

} // verus!
