//! The connection to SQLite. Every statement reaches SQLite through the
//! trusted items here, and the log of what was handed over is written here
//! alone: the rest of the library can read it but not change it.

use vstd::prelude::*;
use crate::db::Value;

verus! {

#[verifier::external_type_specification]
#[verifier::external_body]
pub struct ExConnection(sqlite::Connection);

#[verifier::external_type_specification]
#[verifier::external_body]
pub struct ExSqliteError(sqlite::Error);

#[verifier::external_type_specification]
#[verifier::external_body]
pub struct ExStatement<'l>(sqlite::Statement<'l>);

/// An error as SQLite's crate reports it: a result code and a message,
/// each where there is one.
#[derive(Debug, PartialEq, Eq)]
pub struct ErrorReport {
    pub code: Option<isize>,
    pub message: Option<String>,
}

/// The message of the error that a statement holding a NUL character gets:
/// the crate cannot make a C string of it.
pub open spec fn string_refusal() -> Seq<char> {
    "failed to process a string"@
}

/// The message of the error that a path holding a NUL character gets.
pub open spec fn path_refusal() -> Seq<char> {
    "failed to process a path"@
}

/// Whether `report` is the crate's own refusal worded `message`: no result
/// code, since SQLite never saw the request.
pub open spec fn refusal(report: ErrorReport, message: Seq<char>) -> bool {
    &&& report.code is None
    &&& report.message matches Some(m) && m@ == message
}

/// The path of the database that a connection was opened on.
pub uninterp spec fn opened_path(connection: sqlite::Connection) -> Seq<char>;

/// The SQL text a statement was compiled from.
pub uninterp spec fn sql_of(statement: sqlite::Statement) -> Seq<char>;

/// Whether a compiled statement stands on a row of its result.
pub uninterp spec fn on_row(statement: sqlite::Statement) -> bool;

/// Whether a compiled statement has come to the end of its result.
pub uninterp spec fn done(statement: sqlite::Statement) -> bool;

/// The number of columns of a compiled statement's result, as the
/// statement stands. A step may change it: SQLite compiles a statement anew
/// after the schema changes.
pub uninterp spec fn result_width(statement: sqlite::Statement) -> nat;

/// The value in column `i` of the row a compiled statement stands on.
pub uninterp spec fn column_value(statement: sqlite::Statement, i: int) -> Value;

/// A connection to the expense database, with the log of the statements
/// handed to it.
pub struct DB {
    connection: sqlite::Connection,
    issued: Ghost<Seq<Seq<char>>>,
}

impl DB {
    /// The statements handed to the connection, oldest first. A statement
    /// holding a NUL character is among them, though the crate refuses it
    /// before SQLite sees it.
    pub closed spec fn issued(&self) -> Seq<Seq<char>> {
        self.issued@
    }

    /// The path of the database the connection is to.
    pub closed spec fn path(&self) -> Seq<char> {
        opened_path(self.connection)
    }

    /// Opens the database at `path`, with an empty log.
    pub fn open(path: &str) -> (r: Result<DB, ErrorReport>)
        ensures
            r matches Ok(db) ==> db.issued() == Seq::<Seq<char>>::empty() && db.path() == path@,
            path@.contains('\u{0}') ==> r is Err && refusal(r->Err_0, path_refusal()),
    {
        match conn(path) {
            Ok(connection) => Ok(DB { connection, issued: Ghost(Seq::empty()) }),
            Err(report) => Err(report),
        }
    }
}

/// `sqlite::open`: opens, creating it if needed, the database at `path` for
/// reading and writing. Stated: a connection that comes back is one to the
/// database at `path`; a path holding a NUL character is refused with the
/// crate's own error, before SQLite sees it. Whether any other path opens
/// depends on the file system and is not stated.
#[verifier::external_body]
fn conn(path: &str) -> (r: Result<sqlite::Connection, ErrorReport>)
    ensures
        r matches Ok(c) ==> opened_path(c) == path@,
        path@.contains('\u{0}') ==> r is Err && refusal(r->Err_0, path_refusal()),
{
    match sqlite::open(path) {
        Ok(c) => Ok(c),
        Err(e) => Err(ErrorReport { code: e.code, message: e.message }),
    }
}

/// `Connection::execute` on the connection of `db`: hands `statement` to
/// SQLite and runs it without reading rows. Stated: `statement` is the one
/// handed over, so it joins the log of `db`, whose connection stays the
/// same; a statement holding a NUL character is refused with the crate's
/// own error before SQLite sees it. Whether any other statement succeeds,
/// and what it does to the database, depends on the database and is not
/// stated.
#[verifier::external_body]
pub(crate) fn execute(db: &mut DB, statement: &str) -> (r: Result<(), ErrorReport>)
    ensures
        final(db).issued() == old(db).issued().push(statement@),
        final(db).path() == old(db).path(),
        statement@.contains('\u{0}') ==> r is Err && refusal(r->Err_0, string_refusal()),
{
    match db.connection.execute(statement) {
        Ok(()) => Ok(()),
        Err(e) => Err(ErrorReport { code: e.code, message: e.message }),
    }
}

/// `Connection::prepare` on the connection of `db`: hands `statement` to
/// SQLite to compile. Stated as for `execute`: `statement` joins the log
/// of `db`, and one holding a NUL character is refused. Whether any other statement compiles
/// depends on the database and is not stated.
#[verifier::external_body]
pub(crate) fn prepare<'l>(db: &'l mut DB, statement: &str) -> (r: Result<
    sqlite::Statement<'l>,
    ErrorReport,
>)
    ensures
        final(db).issued() == old(db).issued().push(statement@),
        final(db).path() == old(db).path(),
        statement@.contains('\u{0}') ==> r is Err && refusal(r->Err_0, string_refusal()),
        r matches Ok(s) ==> sql_of(s) == statement@,
{
    match db.connection.prepare(statement) {
        Ok(s) => Ok(s),
        Err(e) => Err(ErrorReport { code: e.code, message: e.message }),
    }
}

/// `Statement::next`: one step of the statement. `true` where it stands on
/// a row then, `false` where the result is done. Stated: after `true` the
/// statement stands on a row, after `false` its result is done, and its
/// SQL text stays the same (SQLite keeps it when it compiles the statement
/// anew). Which rows come, and whether a step fails, depends on the
/// database and is not stated.
#[verifier::external_body]
pub(crate) fn step(statement: &mut sqlite::Statement) -> (r: Result<bool, ErrorReport>)
    ensures
        r == Ok::<bool, ErrorReport>(true) ==> on_row(*final(statement)),
        r == Ok::<bool, ErrorReport>(false) ==> done(*final(statement)),
        sql_of(*final(statement)) == sql_of(*old(statement)),
{
    match statement.next() {
        Ok(sqlite::State::Row) => Ok(true),
        Ok(sqlite::State::Done) => Ok(false),
        Err(e) => Err(ErrorReport { code: e.code, message: e.message }),
    }
}

/// `Statement::column_count`: the number of columns of the result, as the
/// statement stands.
#[verifier::external_body]
pub(crate) fn column_count(statement: &sqlite::Statement) -> (n: usize)
    ensures
        n == result_width(*statement),
{
    statement.column_count()
}

/// `Statement::read::<Value>`: the value in column `i` of the row the
/// statement stands on, which must be one of its columns (the crate asserts
/// so). Stated: a value that comes back is the one in that column. Reading
/// text fails only where SQLite cannot give it, which is not stated.
#[verifier::external_body]
pub(crate) fn read_value(statement: &sqlite::Statement, i: usize) -> (r: Result<Value, ErrorReport>)
    requires
        on_row(*statement),
        i < result_width(*statement),
    ensures
        r matches Ok(v) ==> v == column_value(*statement, i as int),
{
    match statement.read::<sqlite::Value>(i) {
        Ok(sqlite::Value::Binary(b)) => Ok(Value::Binary(b)),
        Ok(sqlite::Value::Float(_)) => Ok(Value::Float),
        Ok(sqlite::Value::Integer(n)) => Ok(Value::Integer(n)),
        Ok(sqlite::Value::String(s)) => Ok(Value::String(s)),
        Ok(sqlite::Value::Null) => Ok(Value::Null),
        Err(e) => Err(ErrorReport { code: e.code, message: e.message }),
    }
}

} // verus!
