//! The decisions of the terminal menus: which option a key selects, what a
//! screen shows, and what the add-expense form asks for next. Reading keys
//! and lines and printing are left to the caller.

use vstd::prelude::*;
use vstd::string::*;
use vstd::utf8::{is_ascii_chars, is_ascii_chars_encode_utf8};
use crate::db::{RowData, integer_of, text_of};
use crate::manager::Manager;
use crate::text::{
    decimal, digit_char, i32_to_string, lemma_utf8_len_concat, utf8_len, utf8_len_within, i64_to_string, join_strings, joined, parse_i32, parse_i32_spec, spaces,
    spaces_spec, str_equal, trim, trimmed, views_of,
};

verus! {

/// A key the menus react to; any other key is `Other`.
#[derive(Clone, Copy, Debug, PartialEq, Eq)]
pub enum KeyInput {
    ArrowUp,
    ArrowDown,
    Enter,
    Escape,
    /// The letter `q`, which closes the list of expenses to edit.
    LetterQ,
    Other,
}

/// Whether a key closes the list of expenses to edit: `Escape` or `q`.
pub open spec fn closes_edit_list(key: KeyInput) -> bool {
    key is Escape || key is LetterQ
}

/// An entry of the main menu.
#[derive(Clone, Copy, Debug, PartialEq, Eq)]
pub enum Function {
    Add,
    View,
    Edit,
    Remove,
    Quit,
}

/// The main-menu entry that an option number, as text, stands for.
pub open spec fn function_of(input: Seq<char>) -> Option<Function> {
    if input == "1"@ {
        Some(Function::Add)
    } else if input == "2"@ {
        Some(Function::View)
    } else if input == "3"@ {
        Some(Function::Edit)
    } else if input == "4"@ {
        Some(Function::Remove)
    } else if input == "5"@ {
        Some(Function::Quit)
    } else {
        None
    }
}

/// The main-menu entry for `input`: `"1"` to `"5"` stand for add, view,
/// edit, remove and quit; anything else for none.
pub fn parse_input(input: &str) -> (f: Option<Function>)
    ensures
        f == function_of(input@),
{
    if str_equal(input, "1") {
        Some(Function::Add)
    } else if str_equal(input, "2") {
        Some(Function::View)
    } else if str_equal(input, "3") {
        Some(Function::Edit)
    } else if str_equal(input, "4") {
        Some(Function::Remove)
    } else if str_equal(input, "5") {
        Some(Function::Quit)
    } else {
        None
    }
}

/// Where a key moves a selection at `idx` in a list whose last position is
/// `max_idx`: up moves only from above 1, down stops at `max_idx`.
pub open spec fn moved(key: KeyInput, idx: int, max_idx: usize) -> int {
    match key {
        KeyInput::ArrowUp => if idx > 1 {
            idx - 1
        } else {
            idx
        },
        KeyInput::ArrowDown => if idx != (max_idx as i32) as int {
            idx + 1
        } else {
            idx
        },
        _ => idx,
    }
}

/// Whether moving down from `idx` would step past the largest `i32`.
pub open spec fn moves_past_max(key: KeyInput, idx: i32, max_idx: usize) -> bool {
    key is ArrowDown && idx != max_idx as i32 && idx == i32::MAX
}

/// One key in a list selection: the new position and, for `Enter`, the
/// position chosen.
pub fn select(key: &KeyInput, idx: i32, max_idx: usize) -> (r: (i32, Option<i32>))
    requires
        !moves_past_max(*key, idx, max_idx),
    ensures
        r.0 == moved(*key, idx as int, max_idx),
        r.1 == (if *key is Enter {
            Some(idx)
        } else {
            None::<i32>
        }),
{
    match key {
        KeyInput::ArrowUp => {
            if idx > 1 {
                (idx - 1, None)
            } else {
                (idx, None)
            }
        },
        KeyInput::ArrowDown => {
            if idx != max_idx as i32 {
                (idx + 1, None)
            } else {
                (idx, None)
            }
        },
        KeyInput::Enter => (idx, Some(idx)),
        _ => (idx, None),
    }
}

/// The menu's lines with option `n` (counted from 1) trimmed and shown in
/// reverse colours.
pub open spec fn highlighted(options: Seq<Seq<char>>, n: int) -> Seq<Seq<char>> {
    options.update(n - 1, "\x1b[43m\x1b[30m"@ + trimmed(options[n - 1]) + "\x1b[0m"@)
}

/// The entries of the main menu, in order.
pub open spec fn menu_entries() -> Seq<Seq<char>> {
    seq!["Add expense"@, "View expenses"@, "Edit expense"@, "Remove expense"@, "Quit"@]
}

/// The main-menu entry at position `k` (counted from 1).
pub open spec fn entry_at(k: int) -> Function {
    if k == 1 {
        Function::Add
    } else if k == 2 {
        Function::View
    } else if k == 3 {
        Function::Edit
    } else if k == 4 {
        Function::Remove
    } else {
        Function::Quit
    }
}

/// The option number that choosing in the main menu gives back names the
/// entry at that position: `parse_input` of the chosen text never fails
/// on the five entries.
pub proof fn lemma_chosen_names_entry(k: i32)
    requires
        1 <= k <= 5,
    ensures
        function_of(decimal(k as int)) == Some(entry_at(k as int)),
{
    reveal_strlit("1");
    reveal_strlit("2");
    reveal_strlit("3");
    reveal_strlit("4");
    reveal_strlit("5");
    let d = decimal(k as int);
    assert(d =~= seq![digit_char(k as int)]);
    assert("1"@[0] == '1' && "2"@[0] == '2' && "3"@[0] == '3' && "4"@[0] == '4' && "5"@[0] == '5');
    assert(d[0] as int == 48 + k);
    if k == 1 {
        assert(d =~= "1"@);
    } else if k == 2 {
        assert(d =~= "2"@);
    } else if k == 3 {
        assert(d =~= "3"@);
    } else if k == 4 {
        assert(d =~= "4"@);
    } else {
        assert(d =~= "5"@);
    }
}

/// Keys keep a selection within `0..=max_idx`, and at 1 or above once it
/// is there.
pub proof fn lemma_moved_within(key: KeyInput, idx: int, max_idx: usize)
    requires
        0 <= idx <= max_idx <= i32::MAX,
    ensures
        0 <= moved(key, idx, max_idx) <= max_idx,
        idx >= 1 ==> moved(key, idx, max_idx) >= 1,
{
    assert((max_idx as i32) as int == max_idx);
}

/// What a key does in the main menu.
#[derive(Debug, PartialEq, Eq)]
pub enum MenuKey {
    /// The selection moved; the menu is to be shown again with these lines.
    Redraw(Vec<String>),
    /// Nothing changes.
    Unchanged,
    /// The selected option is chosen; its number, as text.
    Chosen(String),
}

/// The main menu: its options, which of them is selected (counted from 1),
/// and the expense manager the menu acts on.
pub struct Menu {
    pub selected: i32,
    pub options: Vec<String>,
    pub manager: Manager,
}

impl Menu {
    /// The selection is one of the options.
    pub open spec fn well_formed(&self) -> bool {
        1 <= self.selected <= self.options@.len() <= i32::MAX
    }

    /// A menu of the five entries with the first one selected.
    pub fn new(manager: Manager) -> (menu: Menu)
        ensures
            menu.selected == 1,
            views_of(menu.options@) == menu_entries(),
            menu.manager == manager,
            menu.well_formed(),
    {
        let options = vec![
            String::from_str("Add expense"),
            String::from_str("View expenses"),
            String::from_str("Edit expense"),
            String::from_str("Remove expense"),
            String::from_str("Quit"),
        ];
        assert(views_of(options@) =~= menu_entries());
        Menu { options, selected: 1, manager }
    }

    /// Selects option `option_number` (counted from 1) and gives the menu's
    /// lines with that option highlighted.
    pub fn highlight(&mut self, option_number: i32) -> (lines: Vec<String>)
        requires
            1 <= option_number <= old(self).options@.len(),
        ensures
            final(self).selected == option_number,
            final(self).options == old(self).options,
            final(self).manager == old(self).manager,
            views_of(lines@) == highlighted(views_of(old(self).options@), option_number as int),
    {
        let mut lines = Vec::new();
        let n = self.options.len();
        let k = (option_number - 1) as usize;
        let mut i: usize = 0;
        while i < n
            invariant
                i <= n,
                n == self.options@.len(),
                k < n,
                k == option_number - 1,
                lines@.len() == i,
                views_of(lines@) == highlighted(views_of(self.options@), option_number as int).take(
                    i as int,
                ),
            decreases n - i,
        {
            let ghost before = lines@;
            let ghost target = highlighted(views_of(self.options@), option_number as int);
            if i == k {
                let mut line = String::from_str("\x1b[43m\x1b[30m");
                let t = trim(self.options[i].as_str());
                line.append(t.as_str());
                line.append("\x1b[0m");
                lines.push(line);
            } else {
                lines.push(self.options[i].clone());
            }
            assert(lines@ == before.push(lines@[i as int]));
            assert(lines@[i as int]@ == target[i as int]);
            assert forall|j: int| 0 <= j < i implies views_of(lines@)[j] == target[j] by {
                assert(lines@[j] == before[j]);
                assert(views_of(before)[j] == target.take(i as int)[j]);
            }
            i = i + 1;
            assert(views_of(lines@) =~= highlighted(views_of(self.options@), option_number as int).take(
                i as int,
            ));
        }
        assert(highlighted(views_of(self.options@), option_number as int).take(n as int)
            =~= highlighted(views_of(self.options@), option_number as int));
        self.selected = option_number;
        lines
    }

    /// What `key` does in the main menu: up and down move the selection
    /// within the options and redraw the menu; `Enter` chooses the selected
    /// option; any other key does nothing. The selection must be one the
    /// menu can be drawn with only where a key moves it (drawing it
    /// otherwise fails).
    pub fn select_menu_option(&mut self, key: &KeyInput) -> (r: MenuKey)
        requires
            old(self).options@.len() <= i32::MAX,
            *key is ArrowUp && old(self).selected > 1 ==> old(self).selected - 1
                <= old(self).options@.len(),
            *key is ArrowDown && old(self).selected != old(self).options@.len() ==> 0
                <= old(self).selected < old(self).options@.len(),
        ensures
            old(self).well_formed() ==> final(self).well_formed(),
            final(self).options == old(self).options,
            final(self).manager == old(self).manager,
            final(self).selected == moved(*key, old(self).selected as int, old(self).options@.len() as usize),
            match r {
                MenuKey::Redraw(lines) => final(self).selected != old(self).selected && views_of(lines@)
                    == highlighted(views_of(old(self).options@), final(self).selected as int),
                MenuKey::Unchanged => final(self).selected == old(self).selected && !(*key is Enter),
                MenuKey::Chosen(text) => *key is Enter && text@ == decimal(old(self).selected as int),
            },
            (*key is Enter) == (r is Chosen),
            final(self).selected != old(self).selected <==> r is Redraw,
    {
        let max_idx = self.options.len();
        match key {
            KeyInput::ArrowUp => {
                if self.selected > 1 {
                    let idx = self.selected - 1;
                    MenuKey::Redraw(self.highlight(idx))
                } else {
                    MenuKey::Unchanged
                }
            },
            KeyInput::ArrowDown => {
                if self.selected != max_idx as i32 {
                    let idx = self.selected + 1;
                    MenuKey::Redraw(self.highlight(idx))
                } else {
                    MenuKey::Unchanged
                }
            },
            KeyInput::Enter => MenuKey::Chosen(i32_to_string(self.selected)),
            _ => MenuKey::Unchanged,
        }
    }
}

/// The main menu's text: its lines, one per line, then, after a blank
/// line, the total of all expenses, then a carriage return.
pub open spec fn menu_text(lines: Seq<Seq<char>>, total: int) -> Seq<char> {
    joined(lines, "\n"@) + "\n\nTOTAL: "@ + decimal(total) + "\r"@
}

/// The text that shows the main menu's lines with `total`, the total of
/// all expenses, below them.
pub fn show_menu(menu: &Vec<String>, total: i32) -> (text: String)
    ensures
        text@ == menu_text(views_of(menu@), total as int),
{
    let mut text = join_strings(menu, "\n");
    text.append("\n\nTOTAL: ");
    let amount = i32_to_string(total);
    text.append(amount.as_str());
    text.append("\r");
    text
}


/// Whether a row has one value per column and a column named `amount`.
pub open spec fn has_amount(row: RowData) -> bool {
    row.well_formed() && row.has_column("amount"@)
}

/// The amount a row's `amount` column holds, cut to an `i32` as `as i32`
/// cuts it; 0 where the column holds no integer.
pub open spec fn amount_of(row: RowData) -> int {
    match integer_of(row.value_of("amount"@)) {
        Some(v) => (v as i32) as int,
        None => 0,
    }
}

/// The sum of the amounts of `rows`.
pub open spec fn total_of(rows: Seq<RowData>) -> int
    decreases rows.len(),
{
    if rows.len() == 0 {
        0
    } else {
        total_of(rows.drop_last()) + amount_of(rows.last())
    }
}

/// Whether every partial sum of the amounts fits in an `i32`.
pub open spec fn totals_fit(rows: Seq<RowData>) -> bool {
    forall|k: int| 0 <= k <= rows.len() ==> i32::MIN <= #[trigger] total_of(rows.take(k)) <= i32::MAX
}

/// The total of all expenses: the sum of the integers in each row's
/// `amount` column, each cut to an `i32`, a row without an integer there
/// counting 0. Every row has an `amount` column (reading a missing column
/// panics), and no partial sum leaves the `i32` range (the sum would
/// overflow).
pub fn expenses_total(expenses: &[RowData]) -> (total: i32)
    requires
        forall|i: int| 0 <= i < expenses@.len() ==> has_amount(#[trigger] expenses@[i]),
        totals_fit(expenses@),
    ensures
        total == total_of(expenses@),
{
    let mut total: i32 = 0;
    let mut i: usize = 0;
    while i < expenses.len()
        invariant
            i <= expenses@.len(),
            forall|j: int| 0 <= j < expenses@.len() ==> has_amount(#[trigger] expenses@[j]),
            totals_fit(expenses@),
            total == total_of(expenses@.take(i as int)),
        decreases expenses@.len() - i,
    {
        assert(has_amount(expenses@[i as int]));
        let amount: i32 = match expenses[i].try_get_i64("amount") {
            Some(v) => v as i32,
            None => 0,
        };
        proof {
            let next = expenses@.take(i + 1);
            assert(next.drop_last() =~= expenses@.take(i as int));
            assert(next.last() == expenses@[i as int]);
            assert(i32::MIN <= total_of(expenses@.take(i + 1)) <= i32::MAX);
        }
        total = total + amount;
        i = i + 1;
    }
    assert(expenses@.take(expenses@.len() as int) =~= expenses@);
    total
}

/// The text of a row's `name` column; empty where it holds no text.
pub open spec fn name_part(row: RowData) -> Seq<char> {
    match text_of(row.value_of("name"@)) {
        Some(n) => n,
        None => Seq::empty(),
    }
}

/// An expense as one line: its name, then its amount aligned so that the
/// line is 60 bytes long; only the name where the amount is no integer.
pub open spec fn expense_line(row: RowData) -> Seq<char> {
    match integer_of(row.value_of("amount"@)) {
        Some(a) => name_part(row) + spaces_spec(
            (60 - (utf8_len(name_part(row)) + utf8_len(decimal(a as int)))) as nat,
        ) + decimal(a as int),
        None => name_part(row),
    }
}

/// The row has `name` and `amount` columns to read.
pub open spec fn readable_expense(row: RowData) -> bool {
    row.well_formed() && row.has_column("name"@) && row.has_column("amount"@)
}

/// The name and amount of the row take at most 60 bytes (else the padding
/// would be negative).
pub open spec fn line_fits(row: RowData) -> bool {
    integer_of(row.value_of("amount"@)) matches Some(a) ==> utf8_len(name_part(row)) + utf8_len(
        decimal(a as int),
    ) <= 60
}

/// An expense line whose amount is an integer is 60 bytes long: the
/// padding lines the amounts up at the end of the line.
pub proof fn lemma_expense_line_width(row: RowData)
    requires
        line_fits(row),
        integer_of(row.value_of("amount"@)) is Some,
    ensures
        utf8_len(expense_line(row)) == 60,
{
    let a = integer_of(row.value_of("amount"@))->Some_0;
    let name = name_part(row);
    let digits = decimal(a as int);
    let k = (60 - (utf8_len(name) + utf8_len(digits))) as nat;
    let pad = spaces_spec(k);
    assert(is_ascii_chars(pad));
    is_ascii_chars_encode_utf8(pad);
    lemma_utf8_len_concat(name, pad);
    lemma_utf8_len_concat(name + pad, digits);
}

/// Whether the row has `name` and `amount` columns to read.
pub fn readable_row(row: &RowData) -> (b: bool)
    ensures
        b == readable_expense(*row),
{
    row.columns.len() == row.values.len() && row.position("name").is_some() && row.position(
        "amount",
    ).is_some()
}

/// Whether the row's name and amount take at most 60 bytes.
pub fn line_fits_row(row: &RowData) -> (b: bool)
    requires
        readable_expense(*row),
    ensures
        b == line_fits(*row),
{
    match row.try_get_i64("amount") {
        None => true,
        Some(amount) => {
            let name_len: usize = match row.try_get_string("name") {
                Some(name) => match utf8_len_within(name.as_str(), 60) {
                    Some(k) => k,
                    None => {
                        proof {
                            let d = decimal(amount as int);
                            assert(utf8_len(d) >= 0);
                        }
                        return false;
                    },
                },
                None => {
                    assert(utf8_len(Seq::<char>::empty()) == 0);
                    0
                },
            };
            let digits = i64_to_string(amount);
            utf8_len_within(digits.as_str(), 60 - name_len).is_some()
        },
    }
}

/// Whether the expense list can show `expenses` with `highlight_idx`
/// marked (unless `no_highlight`): every row is readable and fits, and a
/// marked position is one of the rows.
pub fn showable(expenses: &[RowData], highlight_idx: i32, no_highlight: bool) -> (b: bool)
    ensures
        b == ((forall|i: int|
            0 <= i < expenses@.len() ==> readable_expense(#[trigger] expenses@[i]) && line_fits(
                expenses@[i],
            )) && (!no_highlight && expenses@.len() > 0 ==> 0 <= highlight_idx < expenses@.len())),
{
    let mut i: usize = 0;
    while i < expenses.len()
        invariant
            i <= expenses@.len(),
            forall|j: int|
                0 <= j < i ==> readable_expense(#[trigger] expenses@[j]) && line_fits(expenses@[j]),
        decreases expenses@.len() - i,
    {
        if !readable_row(&expenses[i]) || !line_fits_row(&expenses[i]) {
            assert(!(readable_expense(expenses@[i as int]) && line_fits(expenses@[i as int])));
            return false;
        }
        i = i + 1;
    }
    no_highlight || expenses.len() == 0 || (0 <= highlight_idx && (highlight_idx as usize)
        < expenses.len())
}

/// Whether every row has an `amount` column and no partial sum of the
/// amounts leaves the `i32` range.
pub fn summable(expenses: &[RowData]) -> (b: bool)
    ensures
        b == ((forall|i: int| 0 <= i < expenses@.len() ==> has_amount(#[trigger] expenses@[i]))
            && totals_fit(expenses@)),
{
    let mut total: i64 = 0;
    let mut i: usize = 0;
    assert(total_of(expenses@.take(0)) == 0);
    while i < expenses.len()
        invariant
            i <= expenses@.len(),
            forall|j: int| 0 <= j < i ==> has_amount(#[trigger] expenses@[j]),
            forall|k: int| 0 <= k <= i ==> i32::MIN <= #[trigger] total_of(expenses@.take(k)) <= i32::MAX,
            total == total_of(expenses@.take(i as int)),
        decreases expenses@.len() - i,
    {
        if expenses[i].columns.len() != expenses[i].values.len() || expenses[i].position(
            "amount",
        ).is_none() {
            assert(!has_amount(expenses@[i as int]));
            return false;
        }
        let amount: i32 = match expenses[i].try_get_i64("amount") {
            Some(v) => v as i32,
            None => 0,
        };
        proof {
            let next = expenses@.take(i + 1);
            assert(next.drop_last() =~= expenses@.take(i as int));
            assert(next.last() == expenses@[i as int]);
        }
        total = total + amount as i64;
        i = i + 1;
        if total < i32::MIN as i64 || total > i32::MAX as i64 {
            assert(!(i32::MIN <= total_of(expenses@.take(i as int)) <= i32::MAX));
            return false;
        }
    }
    true
}

/// Whether every row has an `id` column.
pub fn identifiable(expenses: &[RowData]) -> (b: bool)
    ensures
        b == (forall|i: int|
            0 <= i < expenses@.len() ==> (#[trigger] expenses@[i]).well_formed() && expenses@[i].has_column(
                "id"@,
            )),
{
    let mut i: usize = 0;
    while i < expenses.len()
        invariant
            i <= expenses@.len(),
            forall|j: int|
                0 <= j < i ==> (#[trigger] expenses@[j]).well_formed() && expenses@[j].has_column(
                    "id"@,
                ),
        decreases expenses@.len() - i,
    {
        if expenses[i].columns.len() != expenses[i].values.len() || expenses[i].position(
            "id",
        ).is_none() {
            assert(!(expenses@[i as int].well_formed() && expenses@[i as int].has_column("id"@)));
            return false;
        }
        i = i + 1;
    }
    true
}

/// Whether the row holds text in its `name` column and an integer in its
/// `amount` column.
pub fn has_name_and_amount(row: &RowData) -> (b: bool)
    ensures
        b == (readable_expense(*row) && text_of(row.value_of("name"@)) is Some && integer_of(
            row.value_of("amount"@),
        ) is Some),
{
    readable_row(row) && row.try_get_string("name").is_some() && row.try_get_i64("amount").is_some()
}

/// The lines of the expense rows, in order.
pub open spec fn expense_lines(rows: Seq<RowData>) -> Seq<Seq<char>> {
    rows.map_values(|r: RowData| expense_line(r))
}

fn expense_line_of(row: &RowData) -> (line: String)
    requires
        readable_expense(*row),
        line_fits(*row),
    ensures
        line@ == expense_line(*row),
{
    let mut line = String::new();
    match row.try_get_string("name") {
        Some(name) => line.append(name.as_str()),
        None => {},
    }
    assert(line@ == name_part(*row));
    match row.try_get_i64("amount") {
        Some(amount) => {
            let amount_text = i64_to_string(amount);
            let used = line.as_str().len() + amount_text.as_str().len();
            let padding = spaces(60 - used);
            line.append(padding.as_str());
            line.append(amount_text.as_str());
        },
        None => {},
    }
    line
}

/// The expenses as lines, one per row, in order. Every row has `name` and
/// `amount` columns, and no line's name and amount exceed 60 bytes.
pub fn get_expenses_vec(expenses: &[RowData]) -> (lines: Vec<String>)
    requires
        forall|i: int|
            0 <= i < expenses@.len() ==> readable_expense(#[trigger] expenses@[i]) && line_fits(
                expenses@[i],
            ),
    ensures
        views_of(lines@) == expense_lines(expenses@),
{
    let mut lines: Vec<String> = Vec::new();
    let mut i: usize = 0;
    while i < expenses.len()
        invariant
            i <= expenses@.len(),
            forall|j: int|
                0 <= j < expenses@.len() ==> readable_expense(#[trigger] expenses@[j]) && line_fits(
                    expenses@[j],
                ),
            lines@.len() == i,
            views_of(lines@) == expense_lines(expenses@.take(i as int)),
        decreases expenses@.len() - i,
    {
        let ghost before = lines@;
        let line = expense_line_of(&expenses[i]);
        lines.push(line);
        proof {
            let target = expense_lines(expenses@.take(i + 1));
            assert forall|j: int| 0 <= j < i implies views_of(lines@)[j] == target[j] by {
                assert(lines@[j] == before[j]);
                assert(views_of(before)[j] == expense_lines(expenses@.take(i as int))[j]);
            }
        }
        i = i + 1;
        assert(views_of(lines@) =~= expense_lines(expenses@.take(i as int)));
    }
    assert(expenses@.take(expenses@.len() as int) =~= expenses@);
    lines
}

/// A line shown in reverse colours.
pub open spec fn marked_line(line: Seq<char>) -> Seq<char> {
    "\x1b[43m\x1b[30m "@ + line + " \x1b[0m"@
}

/// The heading of the expense list.
pub open spec fn expense_heading() -> Seq<char> {
    "\x1b[4mName"@ + spaces_spec(50) + "Amount\x1b[0m\n"@
}

/// The lines shown for `rows`, the one at `highlight_idx` marked unless
/// `no_highlight`.
pub open spec fn shown_lines(rows: Seq<RowData>, highlight_idx: int, no_highlight: bool) -> Seq<
    Seq<char>,
> {
    let lines = expense_lines(rows);
    if !no_highlight && lines.len() > 0 {
        lines.update(highlight_idx, marked_line(lines[highlight_idx]))
    } else {
        lines
    }
}

/// The text of the expense list: the heading, an empty line, then the lines
/// (or a note that there are no expenses), and a line break.
pub open spec fn expense_list_text(rows: Seq<RowData>, highlight_idx: int, no_highlight: bool) -> Seq<
    char,
> {
    let shown = shown_lines(rows, highlight_idx, no_highlight);
    expense_heading() + "\n"@ + (if shown.len() == 0 {
        "\x1b[31mNo expenses\x1b[0m"@
    } else {
        joined(shown, "\n"@)
    }) + "\n"@
}

/// The text that shows the expenses, with the one at `highlight_idx` marked
/// unless `no_highlight`. Where one is marked, `highlight_idx` is one of
/// the rows.
pub fn show_expenses(expenses: &[RowData], highlight_idx: i32, no_highlight: bool) -> (text: String)
    requires
        forall|i: int|
            0 <= i < expenses@.len() ==> readable_expense(#[trigger] expenses@[i]) && line_fits(
                expenses@[i],
            ),
        !no_highlight && expenses@.len() > 0 ==> 0 <= highlight_idx < expenses@.len(),
    ensures
        text@ == expense_list_text(expenses@, highlight_idx as int, no_highlight),
{
    let mut rows = get_expenses_vec(expenses);
    let ghost lines = expense_lines(expenses@);
    if !no_highlight && rows.len() > 0 {
        let k = highlight_idx as usize;
        let mut marked = String::from_str("\x1b[43m\x1b[30m ");
        marked.append(rows[k].as_str());
        marked.append(" \x1b[0m");
        rows.set(k, marked);
        assert(views_of(rows@) =~= lines.update(k as int, marked_line(lines[k as int])));
    }
    let mut text = String::from_str("\x1b[4mName");
    let padding = spaces(50);
    text.append(padding.as_str());
    text.append("Amount\x1b[0m\n");
    text.append("\n");
    if rows.len() == 0 {
        text.append("\x1b[31mNo expenses\x1b[0m");
    } else {
        let body = join_strings(&rows, "\n");
        text.append(body.as_str());
    }
    text.append("\n");
    text
}

/// The ids of the rows whose `id` column holds an integer, as decimal
/// text, in order.
pub open spec fn expense_ids(rows: Seq<RowData>) -> Seq<Seq<char>>
    decreases rows.len(),
{
    if rows.len() == 0 {
        Seq::empty()
    } else {
        let rest = expense_ids(rows.drop_last());
        match integer_of(rows.last().value_of("id"@)) {
            Some(id) => rest.push(decimal(id as int)),
            None => rest,
        }
    }
}

/// Where every row's `id` holds an integer, the ids line up with the rows:
/// the id at a position is that of the row shown there.
pub proof fn lemma_ids_line_up(rows: Seq<RowData>)
    requires
        forall|i: int| 0 <= i < rows.len() ==> integer_of(#[trigger] rows[i].value_of("id"@)) is Some,
    ensures
        expense_ids(rows).len() == rows.len(),
        forall|i: int|
            0 <= i < rows.len() ==> #[trigger] expense_ids(rows)[i] == decimal(
                integer_of(rows[i].value_of("id"@))->Some_0 as int,
            ),
    decreases rows.len(),
{
    if rows.len() > 0 {
        let init = rows.drop_last();
        assert forall|i: int| 0 <= i < init.len() implies integer_of(#[trigger] init[i].value_of("id"@)) is Some by {
            assert(init[i] == rows[i]);
        }
        lemma_ids_line_up(init);
        assert(integer_of(rows[rows.len() - 1].value_of("id"@)) is Some);
        assert forall|i: int| 0 <= i < rows.len() implies #[trigger] expense_ids(rows)[i] == decimal(
            integer_of(rows[i].value_of("id"@))->Some_0 as int,
        ) by {
            if i < init.len() {
                assert(init[i] == rows[i]);
            }
        }
    }
}

/// The ids of the expenses, as text; rows whose `id` holds no integer are
/// skipped. Every row has an `id` column.
pub fn get_expense_ids(expenses: &[RowData]) -> (ids: Vec<String>)
    requires
        forall|i: int|
            0 <= i < expenses@.len() ==> (#[trigger] expenses@[i]).well_formed() && expenses@[i].has_column(
                "id"@,
            ),
    ensures
        views_of(ids@) == expense_ids(expenses@),
{
    let mut ids: Vec<String> = Vec::new();
    let mut i: usize = 0;
    while i < expenses.len()
        invariant
            i <= expenses@.len(),
            forall|j: int|
                0 <= j < expenses@.len() ==> (#[trigger] expenses@[j]).well_formed()
                    && expenses@[j].has_column("id"@),
            views_of(ids@) == expense_ids(expenses@.take(i as int)),
        decreases expenses@.len() - i,
    {
        proof {
            let next = expenses@.take(i + 1);
            assert(next.drop_last() =~= expenses@.take(i as int));
            assert(next.last() == expenses@[i as int]);
        }
        match expenses[i].try_get_i64("id") {
            Some(id) => {
                ids.push(i64_to_string(id));
            },
            None => {},
        }
        i = i + 1;
        assert(views_of(ids@) =~= expense_ids(expenses@.take(i as int)));
    }
    assert(expenses@.take(expenses@.len() as int) =~= expenses@);
    ids
}

/// The name of an expense and its amount as text. The row holds text in
/// its `name` column and an integer in its `amount` column.
pub fn get_name_amount(expense: &RowData) -> (fields: [String; 2])
    requires
        readable_expense(*expense),
        text_of(expense.value_of("name"@)) is Some,
        integer_of(expense.value_of("amount"@)) is Some,
    ensures
        Some(fields@[0]@) == text_of(expense.value_of("name"@)),
        fields@[1]@ == decimal(integer_of(expense.value_of("amount"@))->Some_0 as int),
{
    let name = expense.try_get_string("name").unwrap();
    let amount = expense.try_get_i64("amount").unwrap();
    [name, i64_to_string(amount)]
}

/// What a key does in a list of expenses.
#[derive(Debug, PartialEq, Eq)]
pub enum ListStep {
    /// Leave the list.
    Exit,
    /// Stay, with this position marked.
    Stay(i32),
    /// Act on the expense with this id; the mark goes back to the top.
    Chosen(String),
}

/// A key in the list of expenses to edit: `Escape` or `q` leaves; `Enter` picks
/// the marked expense, which must be one of the ids (the list is indexed
/// before it is checked), and acts on it where the list is not empty;
/// other keys move the mark within `expenses_len`.
pub fn edit_list_step(key: &KeyInput, highlight_idx: i32, expense_ids: &Vec<String>, expenses_len: usize) -> (r: ListStep)
    requires
        !moves_past_max(*key, highlight_idx, expenses_len),
        *key is Enter ==> 0 <= highlight_idx < expense_ids@.len(),
    ensures
        closes_edit_list(*key) <==> r is Exit,
        *key is Enter && expenses_len > 0 ==> (r matches ListStep::Chosen(id) && id@
            == expense_ids@[highlight_idx as int]@),
        *key is Enter && expenses_len == 0 ==> r == ListStep::Stay(highlight_idx),
        !closes_edit_list(*key) && !(*key is Enter) ==> r == ListStep::Stay(
            moved(*key, highlight_idx as int, expenses_len) as i32,
        ),
{
    let (idx, chosen) = select(key, highlight_idx, expenses_len);
    match key {
        KeyInput::Escape | KeyInput::LetterQ => {
            return ListStep::Exit;
        },
        _ => {},
    }
    match chosen {
        Some(item_idx) => {
            let expense_id = expense_ids[item_idx as usize].clone();
            if expenses_len > 0 {
                ListStep::Chosen(expense_id)
            } else {
                ListStep::Stay(idx)
            }
        },
        None => ListStep::Stay(idx),
    }
}

/// A key in the list of expenses to remove: `Escape` leaves; `Enter` picks
/// the marked id where there is one, which the mark must then point at;
/// other keys move the mark within the ids.
pub fn remove_list_step(key: &KeyInput, highlight_idx: i32, expense_ids: &Vec<String>) -> (r: ListStep)
    requires
        !moves_past_max(*key, highlight_idx, expense_ids@.len() as usize),
        *key is Enter && expense_ids@.len() > 0 ==> 0 <= highlight_idx < expense_ids@.len(),
    ensures
        *key is Escape ==> r is Exit,
        *key is Enter && expense_ids@.len() > 0 ==> (r matches ListStep::Chosen(id) && id@
            == expense_ids@[highlight_idx as int]@),
        *key is Enter && expense_ids@.len() == 0 ==> r == ListStep::Stay(highlight_idx),
        !(*key is Escape) && !(*key is Enter) ==> r == ListStep::Stay(
            moved(*key, highlight_idx as int, expense_ids@.len() as usize) as i32,
        ),
{
    let expenses_len = expense_ids.len();
    let (idx, chosen) = select(key, highlight_idx, expenses_len);
    if let KeyInput::Escape = key {
        return ListStep::Exit;
    }
    match chosen {
        Some(item_idx) => {
            if expenses_len > 0 {
                ListStep::Chosen(expense_ids[item_idx as usize].clone())
            } else {
                ListStep::Stay(idx)
            }
        },
        None => ListStep::Stay(idx),
    }
}

/// A field shown in light colours where it is the marked one.
pub open spec fn field_shown(field: Seq<char>, marked: bool) -> Seq<char> {
    if marked {
        "\x1b[47m"@ + field + "\x1b[0m"@
    } else {
        field
    }
}

/// The text of the edit screen: the name, then the amount on the next line,
/// the one at `highlight` marked.
pub open spec fn expense_view_text(name: Seq<char>, amount: Seq<char>, highlight: int) -> Seq<char> {
    " "@ + field_shown(name, highlight == 0) + " \n "@ + field_shown(amount, highlight == 1)
}

/// The edit screen for an expense's name and amount, with field
/// `highlight` (0 or 1) marked.
pub fn expense_view(expense: &[String; 2], highlight: i32) -> (text: String)
    requires
        0 <= highlight < 2,
    ensures
        text@ == expense_view_text(expense@[0]@, expense@[1]@, highlight as int),
{
    let mut text = String::from_str(" ");
    if highlight == 0 {
        text.append("\x1b[47m");
        text.append(expense[0].as_str());
        text.append("\x1b[0m");
    } else {
        text.append(expense[0].as_str());
    }
    text.append(" \n ");
    if highlight == 1 {
        text.append("\x1b[47m");
        text.append(expense[1].as_str());
        text.append("\x1b[0m");
    } else {
        text.append(expense[1].as_str());
    }
    text
}

/// The column that edit field `field` stands for: 0 is the name, any other
/// the amount.
pub fn field_column(field: i32) -> (column: &'static str)
    ensures
        column@ == (if field == 0 {
            "name"@
        } else {
            "amount"@
        }),
{
    if field == 0 {
        "name"
    } else {
        "amount"
    }
}

/// Where the add-expense form stands within one round of questions.
#[derive(Clone, Copy, Debug, PartialEq, Eq)]
pub enum AddStage {
    /// At the start of a round.
    Top,
    /// Reading the name failed in this round.
    NameFailed,
    /// Reading the amount failed in this round.
    AmountFailed,
}

/// What the add-expense form does next.
#[derive(Clone, Copy, Debug, PartialEq, Eq)]
pub enum AddPrompt {
    /// Ask for the name.
    Name,
    /// Ask for the amount.
    Amount,
    /// Add the expense.
    Submit,
}

/// The form's next step: a round asks for the name while it is empty, then
/// for the amount while it is 0, and otherwise adds the expense; a failed
/// read goes on to the next question of the round, the last one to adding.
pub open spec fn prompt_for(name: Seq<char>, amount: i32, stage: AddStage) -> AddPrompt {
    match stage {
        AddStage::Top => if name.len() == 0 {
            AddPrompt::Name
        } else if amount == 0 {
            AddPrompt::Amount
        } else {
            AddPrompt::Submit
        },
        AddStage::NameFailed => if amount == 0 {
            AddPrompt::Amount
        } else {
            AddPrompt::Submit
        },
        AddStage::AmountFailed => AddPrompt::Submit,
    }
}

/// The name a line of input gives: empty where it is only whitespace.
pub open spec fn name_from(input: Seq<char>) -> Seq<char> {
    if trimmed(input).len() == 0 {
        Seq::empty()
    } else {
        input
    }
}

/// The amount a line of input gives: the `i32` it reads as, else 0.
pub open spec fn amount_from(input: Seq<char>) -> i32 {
    match parse_i32_spec(input) {
        Some(v) => v,
        None => 0,
    }
}

/// The add-expense form: the name and amount entered so far.
pub struct AddForm {
    pub name: String,
    pub amount: i32,
    pub stage: AddStage,
}

impl AddForm {
    /// The step the form takes next.
    pub open spec fn next_prompt(&self) -> AddPrompt {
        prompt_for(self.name@, self.amount, self.stage)
    }

    /// The name is empty or holds more than whitespace.
    pub open spec fn name_ok(&self) -> bool {
        self.name@.len() == 0 || trimmed(self.name@).len() > 0
    }

    /// An empty form at the start of a round.
    pub fn new() -> (form: AddForm)
        ensures
            form.name@.len() == 0,
            form.amount == 0,
            form.stage is Top,
            form.name_ok(),
    {
        AddForm { name: String::new(), amount: 0, stage: AddStage::Top }
    }

    /// The step the form takes next.
    pub fn prompt(&self) -> (p: AddPrompt)
        ensures
            p == self.next_prompt(),
    {
        match self.stage {
            AddStage::Top => {
                if self.name.as_str().is_empty() {
                    AddPrompt::Name
                } else if self.amount == 0 {
                    AddPrompt::Amount
                } else {
                    AddPrompt::Submit
                }
            },
            AddStage::NameFailed => {
                if self.amount == 0 {
                    AddPrompt::Amount
                } else {
                    AddPrompt::Submit
                }
            },
            AddStage::AmountFailed => AddPrompt::Submit,
        }
    }

    /// Takes the answer to the question the form asked: the line read, or
    /// `None` where reading failed. A line starts a new round; a failure
    /// goes on within the round.
    pub fn answer(&mut self, input: Option<String>)
        requires
            !(old(self).next_prompt() is Submit),
        ensures
            old(self).name_ok() ==> final(self).name_ok(),
            old(self).next_prompt() is Name ==> final(self).amount == old(self).amount && match input {
                Some(line) => final(self).name@ == name_from(line@) && final(self).stage is Top,
                None => final(self).name@ == old(self).name@ && final(self).stage is NameFailed,
            },
            old(self).next_prompt() is Amount ==> final(self).name@ == old(self).name@ && match input {
                Some(line) => final(self).amount == amount_from(line@) && final(self).stage is Top,
                None => final(self).amount == old(self).amount && final(self).stage is AmountFailed,
            },
    {
        let asked = self.prompt();
        match asked {
            AddPrompt::Name => {
                match input {
                    Some(line) => {
                        let t = trim(line.as_str());
                        if t.as_str().is_empty() {
                            self.name = String::new();
                        } else {
                            self.name = line;
                        }
                        self.stage = AddStage::Top;
                    },
                    None => {
                        self.stage = AddStage::NameFailed;
                    },
                }
            },
            _ => {
                match input {
                    Some(line) => {
                        self.amount = match parse_i32(line.as_str()) {
                            Some(v) => v,
                            None => 0,
                        };
                        self.stage = AddStage::Top;
                    },
                    None => {
                        self.stage = AddStage::AmountFailed;
                    },
                }
            },
        }
    }
}

/// A round that reaches adding the expense has a name and a non-zero
/// amount; only a failed read adds without them.
pub proof fn lemma_submit_has_name_and_amount(form: AddForm)
    requires
        form.stage is Top,
        form.next_prompt() is Submit,
    ensures
        form.name@.len() > 0,
        form.amount != 0,
{
}

/// Whether the add screen goes on after its first question: unless a line
/// was read and it is not `a`.
pub fn add_gate(input: &Option<String>) -> (go_on: bool)
    ensures
        go_on == match input {
            Some(line) => line@ == "a"@,
            None => true,
        },
{
    match input {
        Some(line) => str_equal(line.as_str(), "a"),
        None => true,
    }
}

/// The total of no expenses is 0, and adding an expense to a list adds its
/// amount to the total, whatever the other expenses hold: the total is the
/// sum of every row's amount.
pub proof fn law_total_adds_every_amount(rows: Seq<RowData>, row: RowData)
    ensures
        total_of(Seq::<RowData>::empty()) == 0,
        total_of(rows.push(row)) == total_of(rows) + amount_of(row),
{
    assert(rows.push(row).drop_last() =~= rows);
}

/// At the start of a round, a form with a name and a non-zero amount,
/// negative ones included, goes on to adding the expense; one without a
/// name asks for it, and one with a name but a zero amount asks for the
/// amount.
pub proof fn law_complete_form_is_added(form: AddForm)
    requires
        form.stage is Top,
    ensures
        form.name@.len() > 0 && form.amount != 0 ==> form.next_prompt() == AddPrompt::Submit,
        form.name@.len() == 0 ==> form.next_prompt() == AddPrompt::Name,
        form.name@.len() > 0 && form.amount == 0 ==> form.next_prompt() == AddPrompt::Amount,
{
}

/// The list of expenses shows one line per row, in order, joined by line
/// breaks between the heading and the final line break: the line of each
/// row, marked exactly at `highlight_idx` unless `no_highlight`. With no
/// rows it says that there are none.
pub proof fn law_list_shows_every_row(rows: Seq<RowData>, highlight_idx: int, no_highlight: bool)
    requires
        !no_highlight && rows.len() > 0 ==> 0 <= highlight_idx < rows.len(),
    ensures
        rows.len() > 0 ==> expense_list_text(rows, highlight_idx, no_highlight) == expense_heading()
            + "\n"@ + joined(
            Seq::new(
                rows.len(),
                |k: int|
                    if !no_highlight && k == highlight_idx {
                        marked_line(expense_line(rows[k]))
                    } else {
                        expense_line(rows[k])
                    },
            ),
            "\n"@,
        ) + "\n"@,
        rows.len() == 0 ==> expense_list_text(rows, highlight_idx, no_highlight) == expense_heading()
            + "\n"@ + "\x1b[31mNo expenses\x1b[0m"@ + "\n"@,
{
    let lines = Seq::new(
        rows.len(),
        |k: int|
            if !no_highlight && k == highlight_idx {
                marked_line(expense_line(rows[k]))
            } else {
                expense_line(rows[k])
            },
    );
    assert(shown_lines(rows, highlight_idx, no_highlight) =~= lines);
}

} // verus!
