//! The SQL statements the library hands to its database, each built from
//! its parts exactly as the statement's spec function describes.

use vstd::prelude::*;
use vstd::string::*;
use crate::text::{decimal, i32_to_string, join_strings, join_strs, joined, str_views_of, views_of};

verus! {

/// `String::pop` removes the last character of the string and returns it,
/// or returns `None` and leaves the string as it is when it is empty.
pub assume_specification[ std::string::String::pop ](s: &mut std::string::String) -> (c: Option<char>)
    ensures
        old(s)@.len() == 0 ==> c is None && final(s)@ == old(s)@,
        old(s)@.len() > 0 ==> c == Some(old(s)@.last()) && final(s)@ == old(s)@.drop_last(),
;

/// `s` without its last character; `s` itself when it is empty.
pub open spec fn without_last(s: Seq<char>) -> Seq<char> {
    if s.len() > 0 {
        s.drop_last()
    } else {
        s
    }
}

/// Column definitions of a table: each column's name with its type and
/// constraints. No name occurs twice; a name keeps the place where it was
/// first inserted.
pub struct Columns {
    entries: Vec<(String, String)>,
}

/// Whether no name occurs twice among the entries.
pub open spec fn distinct_names(entries: Seq<(Seq<char>, Seq<char>)>) -> bool {
    forall|i: int, j: int|
        0 <= i < entries.len() && 0 <= j < entries.len() && i != j ==> #[trigger] entries[i].0
            != #[trigger] entries[j].0
}

/// Whether `entries` define a column named `name`.
pub open spec fn has_column(entries: Seq<(Seq<char>, Seq<char>)>, name: Seq<char>) -> bool {
    exists|i: int| 0 <= i < entries.len() && #[trigger] entries[i].0 == name
}

impl Columns {
    /// The definitions, in order: pairs of a column name and its options.
    pub closed spec fn entries(&self) -> Seq<(Seq<char>, Seq<char>)> {
        self.entries@.map_values(|e: (String, String)| (e.0@, e.1@))
    }

    #[verifier::type_invariant]
    closed spec fn names_are_distinct(&self) -> bool {
        distinct_names(self.entries())
    }

    /// No column definitions.
    pub fn new() -> (c: Columns)
        ensures
            c.entries() == Seq::<(Seq<char>, Seq<char>)>::empty(),
            distinct_names(c.entries()),
    {
        let c = Columns { entries: Vec::new() };
        assert(c.entries() =~= Seq::<(Seq<char>, Seq<char>)>::empty());
        c
    }

    /// The number of columns.
    pub fn len(&self) -> (n: usize)
        ensures
            n == self.entries().len(),
    {
        self.entries.len()
    }

    /// Defines the column `name` with `options`, as a map's `insert` does:
    /// an existing definition of `name` is replaced in place and its options
    /// returned; a new name is appended.
    pub fn insert(&mut self, name: &str, options: String) -> (previous: Option<String>)
        ensures
            distinct_names(final(self).entries()),
            match previous {
                Some(prev) => exists|i: int|
                    0 <= i < old(self).entries().len() && old(self).entries()[i].0 == name@
                        && prev@ == old(self).entries()[i].1 && final(self).entries()
                        == old(self).entries().update(i, (name@, options@)),
                None => !has_column(old(self).entries(), name@) && final(self).entries()
                    == old(self).entries().push((name@, options@)),
            },
    {
        proof {
            use_type_invariant(&*self);
        }
        let key = String::from_str(name);
        let n = self.entries.len();
        let mut i: usize = 0;
        while i < n
            invariant
                i <= n,
                n == self.entries@.len(),
                key@ == name@,
                self.entries@ == old(self).entries@,
                distinct_names(self.entries()),
                forall|k: int| 0 <= k < i ==> self.entries@[k].0@ != name@,
            decreases n - i,
        {
            if self.entries[i].0 == key {
                let ghost before = self.entries();
                let mut entries = Vec::new();
                std::mem::swap(&mut entries, &mut self.entries);
                let old_entry = entries.remove(i);
                entries.insert(i, (key, options));
                assert(entries@.map_values(|e: (String, String)| (e.0@, e.1@)) =~= before.update(
                    i as int,
                    (name@, options@),
                ));
                assert(distinct_names(before.update(i as int, (name@, options@)))) by {
                    assert forall|a: int, b: int|
                        0 <= a < before.len() && 0 <= b < before.len() && a != b implies #[trigger] before.update(
                        i as int,
                        (name@, options@),
                    )[a].0 != #[trigger] before.update(i as int, (name@, options@))[b].0 by {
                        assert(before[i as int].0 == name@);
                    }
                }
                self.entries = entries;
                assert(before == old(self).entries());
                assert(before[i as int].1 == old_entry.1@);
                assert(before[i as int].0 == name@);
                assert(self.entries() == before.update(i as int, (name@, options@)));
                return Some(old_entry.1);
            }
            i = i + 1;
        }
        let ghost before = self.entries();
        assert(!has_column(before, name@)) by {
            if has_column(before, name@) {
                let k = choose|k: int| 0 <= k < before.len() && #[trigger] before[k].0 == name@;
                assert(self.entries@[k].0@ == name@);
            }
        }
        let mut entries = Vec::new();
        std::mem::swap(&mut entries, &mut self.entries);
        entries.push((key, options));
        assert(entries@.map_values(|e: (String, String)| (e.0@, e.1@)) =~= before.push(
            (name@, options@),
        ));
        assert(distinct_names(before.push((name@, options@)))) by {
            assert forall|a: int, b: int|
                0 <= a < before.len() + 1 && 0 <= b < before.len() + 1 && a != b implies #[trigger] before.push(
                (name@, options@),
            )[a].0 != #[trigger] before.push((name@, options@))[b].0 by {
                if a == before.len() {
                    assert(before[b].0 != name@);
                } else if b == before.len() {
                    assert(before[a].0 != name@);
                }
            }
        }
        self.entries = entries;
        None
    }
}

/// One column's clause in a `CREATE TABLE` statement: `name options, `.
pub open spec fn column_clause(entry: (Seq<char>, Seq<char>)) -> Seq<char> {
    entry.0 + " "@ + entry.1 + ", "@
}

/// The clauses of all columns, one after the other.
pub open spec fn column_clauses(entries: Seq<(Seq<char>, Seq<char>)>) -> Seq<char>
    decreases entries.len(),
{
    if entries.len() == 0 {
        Seq::empty()
    } else {
        column_clauses(entries.drop_last()) + column_clause(entries.last())
    }
}

/// `CREATE TABLE table(a A, b B);`: the column clauses after
/// `CREATE TABLE table(`, with the last two characters taken off and `);`
/// put in their place.
pub open spec fn create_table_sql(table: Seq<char>, entries: Seq<(Seq<char>, Seq<char>)>) -> Seq<
    char,
> {
    without_last(without_last("CREATE TABLE "@ + table + "("@ + column_clauses(entries))) + ");"@
}

/// `SELECT * FROM table;`
pub open spec fn select_all_sql(table: Seq<char>) -> Seq<char> {
    "SELECT * FROM "@ + table + ";"@
}

/// `PRAGMA table_info(table);`: one row per column of `table`, in order,
/// the column's name second.
pub open spec fn table_info_sql(table: Seq<char>) -> Seq<char> {
    "PRAGMA table_info("@ + table + ");"@
}

/// `SELECT * FROM table WHERE id = id LIMIT limit`
pub open spec fn select_limit_sql(table: Seq<char>, id: Seq<char>, limit: int) -> Seq<char> {
    "SELECT * FROM "@ + table + " WHERE id = "@ + id + " LIMIT "@ + decimal(limit)
}

/// `INSERT INTO table (a, b)` and, on the next line, `VALUES (x, y);`
pub open spec fn insert_sql(table: Seq<char>, columns: Seq<Seq<char>>, values: Seq<Seq<char>>) -> Seq<
    char,
> {
    "INSERT INTO "@ + table + " ("@ + joined(columns, ", "@) + ")\nVALUES ("@ + joined(
        values,
        ", "@,
    ) + ");"@
}

/// `UPDATE table SET column = value WHERE id = id`
pub open spec fn update_sql(table: Seq<char>, id: Seq<char>, column: Seq<char>, value: Seq<char>) -> Seq<
    char,
> {
    "UPDATE "@ + table + " SET "@ + column + " = "@ + value + " WHERE id = "@ + id
}

/// `DELETE FROM table WHERE filter`
pub open spec fn delete_sql(table: Seq<char>, filter: Seq<char>) -> Seq<char> {
    "DELETE FROM "@ + table + " WHERE "@ + filter
}

/// The statement that creates `table_name` with `columns`.
pub fn create_table_statement(table_name: &str, columns: &Columns) -> (s: String)
    ensures
        s@ == create_table_sql(table_name@, columns.entries()),
{
    let mut s = String::from_str("CREATE TABLE ");
    s.append(table_name);
    s.append("(");
    let ghost start = s@;
    let n = columns.entries.len();
    let mut i: usize = 0;
    while i < n
        invariant
            i <= n,
            n == columns.entries().len(),
            s@ == start + column_clauses(columns.entries().take(i as int)),
        decreases n - i,
    {
        let ghost taken = columns.entries().take(i as int);
        s.append(columns.entries[i].0.as_str());
        s.append(" ");
        s.append(columns.entries[i].1.as_str());
        s.append(", ");
        proof {
            let next = columns.entries().take(i + 1);
            assert(next.drop_last() =~= taken);
            assert(next.last() == columns.entries()[i as int]);
        }
        i = i + 1;
    }
    assert(columns.entries().take(n as int) =~= columns.entries());
    s.pop();
    s.pop();
    s.append(");");
    s
}

/// The statement that reads all rows of `table_name`.
pub fn select_all_statement(table_name: &str) -> (s: String)
    ensures
        s@ == select_all_sql(table_name@),
{
    let mut s = String::from_str("SELECT * FROM ");
    s.append(table_name);
    s.append(";");
    s
}

/// The statement that lists the columns of `table_name`.
pub fn table_info_statement(table_name: &str) -> (s: String)
    ensures
        s@ == table_info_sql(table_name@),
{
    let mut s = String::from_str("PRAGMA table_info(");
    s.append(table_name);
    s.append(");");
    s
}

/// The statement that reads at most `limit` rows of `table_name` whose
/// `id` is `id`.
pub fn select_limit_statement(table_name: &str, id: &str, limit: i32) -> (s: String)
    ensures
        s@ == select_limit_sql(table_name@, id@, limit as int),
{
    let mut s = String::from_str("SELECT * FROM ");
    s.append(table_name);
    s.append(" WHERE id = ");
    s.append(id);
    s.append(" LIMIT ");
    let l = i32_to_string(limit);
    s.append(l.as_str());
    s
}

/// The statement that inserts one row holding `values` in `columns`.
pub fn insert_statement(table_name: &str, columns: &Vec<&str>, values: &Vec<String>) -> (s: String)
    ensures
        s@ == insert_sql(table_name@, str_views_of(columns@), views_of(values@)),
{
    let mut s = String::from_str("INSERT INTO ");
    s.append(table_name);
    s.append(" (");
    let mut columns_string = join_strs(columns, ", ");
    columns_string.append(")\nVALUES (");
    s.append(columns_string.as_str());
    let mut values_string = join_strings(values, ", ");
    values_string.append(");");
    s.append(values_string.as_str());
    s
}

/// The statement that sets `to_set[0]` to `to_set[1]` in the rows of
/// `table_name` whose `id` is `id`.
pub fn update_statement(table_name: &str, id: &str, to_set: &[&str; 2]) -> (s: String)
    ensures
        s@ == update_sql(table_name@, id@, to_set@[0]@, to_set@[1]@),
{
    let mut s = String::from_str("UPDATE ");
    s.append(table_name);
    s.append(" SET ");
    s.append(to_set[0]);
    s.append(" = ");
    s.append(to_set[1]);
    s.append(" WHERE id = ");
    s.append(id);
    s
}

/// The statement that deletes the rows of `table_name` that `filter` picks.
pub fn delete_statement(table_name: &str, filter: &str) -> (s: String)
    ensures
        s@ == delete_sql(table_name@, filter@),
{
    let mut s = String::from_str("DELETE FROM ");
    s.append(table_name);
    s.append(" WHERE ");
    s.append(filter);
    s
}

} // verus!
