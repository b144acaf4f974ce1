# expenses

A terminal expense tracker whose core is verified with Verus. Expenses (a
name and an amount) live in an SQLite database at
`$HOME/expenses/db.sqlite`; the main menu shows the total of all expenses,
and screens add, view, edit and remove them.

Layout:

- `src/` — the verified library.
  - `text.rs`: decimal formatting and parsing, trimming, joining, widths.
  - `sql.rs`: the SQL statements, each built to an exact specification.
  - `connection.rs`: the SQLite connection behind trusted wrappers of the
    `sqlite` crate; every statement passed to the connection is recorded in
    a ghost log by the wrapper that passes it (one holding a NUL character
    too, though the crate refuses it before SQLite sees it), and only this
    module can write the log.
  - `db.rs`: the statements of each operation, and the rows read back one
    step at a time as plain values, labelled with the table's columns.
  - `manager.rs`: the expense table and the statements that read and
    change it.
  - `menus.rs`: what each key does in each screen, and what each screen
    shows.
  - `setup.rs`: where the database lives, and the steps that load it or
    else create it.
- `app/` — the program: terminal input and output (through `console`), the
  file system, and the loops that hand each key or line to the library.
- `tests/` — tests of the library, run against a real SQLite database in
  memory.
