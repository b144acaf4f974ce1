//! Getting the expense database ready: where it lives under the home
//! directory, and what to do, step by step, to load it or else create it.
//! The file-system work itself is left to the caller.

use vstd::prelude::*;
use vstd::string::*;
use crate::connection::path_refusal;
use crate::db::DbError;
use crate::manager::{Manager, expense_columns, expense_table, init_manager};
use crate::sql::create_table_sql;

verus! {

/// The directory that holds the expense database, under `home`.
pub open spec fn expenses_dir_spec(home: Seq<char>) -> Seq<char> {
    home + "/expenses"@
}

/// The path of the expense database, under `home`.
pub open spec fn database_path_spec(home: Seq<char>) -> Seq<char> {
    expenses_dir_spec(home) + "/db.sqlite"@
}

/// The directory that holds the expense database: `home/expenses`.
pub fn expenses_dir(home: &str) -> (dir: String)
    ensures
        dir@ == expenses_dir_spec(home@),
{
    let mut dir = String::from_str(home);
    dir.append("/expenses");
    dir
}

/// The path of the expense database: `home/expenses/db.sqlite`.
pub fn database_path(home: &str) -> (path: String)
    ensures
        path@ == database_path_spec(home@),
{
    let mut path = expenses_dir(home);
    path.append("/db.sqlite");
    path
}

/// What happened at the last step of getting the database ready.
#[derive(Clone, Copy, Debug, PartialEq, Eq)]
pub enum PrepareEvent {
    /// There is no database file at the path yet.
    FileMissing,
    /// The database at the path opened.
    Opened,
    /// The database at the path did not open.
    OpenFailed,
    /// The directory that is to hold the database was made (or was there).
    DirectoryCreated,
    /// The directory could not be made.
    DirectoryFailed,
    /// The attempt to create the database file is over, whatever came of it.
    FileDone,
}

/// What to do next to get the database ready.
#[derive(Clone, Copy, Debug, PartialEq, Eq)]
pub enum PrepareAction {
    /// Use the database that opened.
    UseManager,
    /// Make the directory that is to hold the database.
    CreateDirectory,
    /// Create the database file, reporting a failure and going on.
    CreateFile,
    /// Open the new database and create the expense table in it.
    OpenAndCreateTable,
    /// Give up: there is no database to use.
    GiveUp,
}

/// Load the database or else create it: an existing database is used as
/// it is; where there is no database file, or the database does not open,
/// its directory is made, then its file, then it is opened and given the
/// expense table; where the directory cannot be made, there is nothing to
/// use.
pub open spec fn prepare_next(event: PrepareEvent) -> PrepareAction {
    match event {
        PrepareEvent::FileMissing => PrepareAction::CreateDirectory,
        PrepareEvent::Opened => PrepareAction::UseManager,
        PrepareEvent::OpenFailed => PrepareAction::CreateDirectory,
        PrepareEvent::DirectoryCreated => PrepareAction::CreateFile,
        PrepareEvent::DirectoryFailed => PrepareAction::GiveUp,
        PrepareEvent::FileDone => PrepareAction::OpenAndCreateTable,
    }
}

/// The next thing to do to get the database ready, after `event`.
pub fn prepare_step(event: PrepareEvent) -> (action: PrepareAction)
    ensures
        action == prepare_next(event),
{
    match event {
        PrepareEvent::FileMissing => PrepareAction::CreateDirectory,
        PrepareEvent::Opened => PrepareAction::UseManager,
        PrepareEvent::OpenFailed => PrepareAction::CreateDirectory,
        PrepareEvent::DirectoryCreated => PrepareAction::CreateFile,
        PrepareEvent::DirectoryFailed => PrepareAction::GiveUp,
        PrepareEvent::FileDone => PrepareAction::OpenAndCreateTable,
    }
}

/// What the user is told as an action begins: that the database was
/// loaded, that it is being created, or that it cannot be; nothing for the
/// steps in between.
pub open spec fn status_of(action: PrepareAction) -> Option<Seq<char>> {
    match action {
        PrepareAction::UseManager => Some("Loaded the expenses database."@),
        PrepareAction::CreateDirectory => Some("Creating the expenses database..."@),
        PrepareAction::GiveUp => Some("Cannot create the expenses database."@),
        _ => None,
    }
}

/// The status line to show as `action` begins, if any.
pub fn prepare_status(action: PrepareAction) -> (text: Option<String>)
    ensures
        text is Some <==> status_of(action) is Some,
        text matches Some(t) ==> Some(t@) == status_of(action),
{
    match action {
        PrepareAction::UseManager => Some(String::from_str("Loaded the expenses database.")),
        PrepareAction::CreateDirectory => Some(String::from_str("Creating the expenses database...")),
        PrepareAction::GiveUp => Some(String::from_str("Cannot create the expenses database.")),
        _ => None,
    }
}

/// Opens the database just created at `path` and creates the expense table
/// in it. The manager that comes back is connected to `path` and has handed
/// its database only the statement that creates the table.
pub fn open_new_database(path: &str) -> (r: Result<Manager, DbError>)
    ensures
        r matches Ok(m) ==> m.path() == path@ && m.issued() == seq![
            create_table_sql(expense_table(), expense_columns()),
        ],
        path@.contains('\u{0}') ==> r is Err && r->Err_0.says(path_refusal()),
        r matches Err(e) ==> e is Sqlite,
{
    match init_manager(path) {
        Ok(manager) => {
            let mut manager = manager;
            manager.create_expenses_table();
            assert(manager.issued() =~= seq![create_table_sql(expense_table(), expense_columns())]);
            Ok(manager)
        },
        Err(e) => Err(e),
    }
}

} // verus!
