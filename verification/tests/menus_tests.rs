use expenses::db::{RowData, Value};
use expenses::manager::init_manager;
use expenses::menus::{
    add_gate, edit_list_step, expense_view, expenses_total, field_column, get_expense_ids,
    get_expenses_vec, get_name_amount, has_name_and_amount, identifiable, parse_input,
    readable_row, remove_list_step, select, show_expenses, show_menu, showable, summable,
    AddForm, AddPrompt, AddStage, Function, KeyInput, ListStep, Menu, MenuKey,
};

fn row(id: Value, name: Value, amount: Value) -> RowData {
    RowData {
        columns: vec!["id".to_string(), "name".to_string(), "amount".to_string()],
        values: vec![id, name, amount],
    }
}

fn expense(id: i64, name: &str, amount: i64) -> RowData {
    row(Value::Integer(id), Value::String(name.to_string()), Value::Integer(amount))
}

fn new_menu() -> Menu {
    Menu::new(init_manager(":memory:").unwrap())
}

#[test]
fn parses_main_menu_entries() {
    assert_eq!(parse_input("1"), Some(Function::Add));
    assert_eq!(parse_input("2"), Some(Function::View));
    assert_eq!(parse_input("3"), Some(Function::Edit));
    assert_eq!(parse_input("4"), Some(Function::Remove));
    assert_eq!(parse_input("5"), Some(Function::Quit));
    assert_eq!(parse_input("6"), None);
    assert_eq!(parse_input(""), None);
    assert_eq!(parse_input(" 1"), None);
}

#[test]
fn a_new_menu_selects_its_first_entry() {
    let menu = new_menu();
    assert_eq!(menu.selected, 1);
    assert_eq!(
        menu.options,
        vec!["Add expense", "View expenses", "Edit expense", "Remove expense", "Quit"]
    );
}

#[test]
fn highlights_the_selected_entry() {
    let mut menu = new_menu();
    let lines = menu.highlight(2);
    assert_eq!(menu.selected, 2);
    assert_eq!(
        lines,
        vec![
            "Add expense",
            "\x1b[43m\x1b[30mView expenses\x1b[0m",
            "Edit expense",
            "Remove expense",
            "Quit"
        ]
    );
    assert_eq!(
        show_menu(&lines, 12),
        "Add expense\n\x1b[43m\x1b[30mView expenses\x1b[0m\nEdit expense\nRemove expense\nQuit\n\nTOTAL: 12\r"
    );
    assert_eq!(show_menu(&vec!["A".to_string()], -3), "A\n\nTOTAL: -3\r");
}

#[test]
fn highlighting_trims_the_entry() {
    let mut menu = new_menu();
    menu.options[0] = "  Add  ".to_string();
    assert_eq!(menu.highlight(1)[0], "\x1b[43m\x1b[30mAdd\x1b[0m");
    assert_eq!(menu.options[0], "  Add  ");
}

#[test]
fn arrows_move_the_main_menu_selection_within_its_entries() {
    let mut menu = new_menu();
    assert_eq!(menu.select_menu_option(&KeyInput::ArrowUp), MenuKey::Unchanged);
    assert_eq!(menu.selected, 1);
    match menu.select_menu_option(&KeyInput::ArrowDown) {
        MenuKey::Redraw(lines) => assert_eq!(lines[1], "\x1b[43m\x1b[30mView expenses\x1b[0m"),
        other => panic!("unexpected {:?}", other),
    }
    assert_eq!(menu.selected, 2);
    for _ in 0..10 {
        menu.select_menu_option(&KeyInput::ArrowDown);
    }
    assert_eq!(menu.selected, 5);
    assert_eq!(menu.select_menu_option(&KeyInput::ArrowDown), MenuKey::Unchanged);
    assert_eq!(menu.select_menu_option(&KeyInput::Other), MenuKey::Unchanged);
    assert_eq!(menu.select_menu_option(&KeyInput::Escape), MenuKey::Unchanged);
    assert_eq!(menu.select_menu_option(&KeyInput::Enter), MenuKey::Chosen("5".to_string()));
    let mut odd = new_menu();
    odd.selected = 9;
    assert_eq!(odd.select_menu_option(&KeyInput::Enter), MenuKey::Chosen("9".to_string()));
    odd.selected = 0;
    assert_eq!(odd.select_menu_option(&KeyInput::ArrowUp), MenuKey::Unchanged);
    assert_eq!(menu.select_menu_option(&KeyInput::ArrowUp), MenuKey::Redraw(menu.highlight(4)));
}

#[test]
fn the_chosen_entry_parses_back() {
    let mut menu = new_menu();
    for k in 1..=5 {
        menu.highlight(k);
        match menu.select_menu_option(&KeyInput::Enter) {
            MenuKey::Chosen(text) => assert!(parse_input(&text).is_some()),
            other => panic!("unexpected {:?}", other),
        }
    }
}

#[test]
fn list_selection_moves_and_chooses() {
    assert_eq!(select(&KeyInput::ArrowUp, 3, 5), (2, None));
    assert_eq!(select(&KeyInput::ArrowUp, 1, 5), (1, None));
    assert_eq!(select(&KeyInput::ArrowUp, 0, 5), (0, None));
    assert_eq!(select(&KeyInput::ArrowDown, 0, 5), (1, None));
    assert_eq!(select(&KeyInput::ArrowDown, 5, 5), (5, None));
    assert_eq!(select(&KeyInput::Enter, 2, 5), (2, Some(2)));
    assert_eq!(select(&KeyInput::Escape, 2, 5), (2, None));
    assert_eq!(select(&KeyInput::Other, 2, 5), (2, None));
}

#[test]
fn totals_the_amount_column() {
    let rows = vec![expense(1, "a", 2), expense(2, "b", -5), expense(3, "c", 10)];
    assert_eq!(expenses_total(&rows), 7);
    let odd = vec![row(Value::Integer(1), Value::Null, Value::String("x".to_string()))];
    assert_eq!(expenses_total(&odd), 0);
    let wide = vec![expense(1, "a", 4294967297)];
    assert_eq!(expenses_total(&wide), 1);
    assert_eq!(expenses_total(&[]), 0);
    let reordered = RowData {
        columns: vec!["amount".to_string(), "id".to_string(), "name".to_string()],
        values: vec![Value::Integer(12), Value::Integer(1), Value::String("Lunch".to_string())],
    };
    assert_eq!(expenses_total(&[reordered, expense(2, "Rent", 300)]), 312);
    let no_amount = RowData { columns: vec!["id".to_string()], values: vec![Value::Integer(1)] };
    assert!(!summable(&[no_amount]));
}

#[test]
fn lines_up_names_and_amounts() {
    let rows = vec![
        expense(1, "Tea", 3),
        expense(2, "é", 10),
        row(Value::Integer(3), Value::Null, Value::Integer(-4)),
        row(Value::Integer(4), Value::String("Solo".to_string()), Value::Null),
    ];
    let lines = get_expenses_vec(&rows);
    assert_eq!(lines[0], format!("Tea{}3", " ".repeat(56)));
    assert_eq!(lines[1], format!("é{}10", " ".repeat(56)));
    assert_eq!(lines[2], format!("{}-4", " ".repeat(58)));
    assert_eq!(lines[3], "Solo");
    assert_eq!(lines[0].len(), 60);
    assert_eq!(lines[1].len(), 60);
}

#[test]
fn shows_the_expense_list() {
    let heading = format!("\x1b[4mName{}Amount\x1b[0m\n", " ".repeat(50));
    assert_eq!(
        show_expenses(&[], 0, false),
        format!("{}\n\x1b[31mNo expenses\x1b[0m\n", heading)
    );
    let rows = vec![expense(1, "Tea", 3), expense(2, "Pie", 12)];
    let tea = format!("Tea{}3", " ".repeat(56));
    let pie = format!("Pie{}12", " ".repeat(55));
    assert_eq!(show_expenses(&rows, 0, true), format!("{}\n{}\n{}\n", heading, tea, pie));
    assert_eq!(
        show_expenses(&rows, 1, false),
        format!("{}\n{}\n\x1b[43m\x1b[30m {} \x1b[0m\n", heading, tea, pie)
    );
}

#[test]
fn collects_expense_ids() {
    let rows = vec![
        expense(4, "a", 1),
        row(Value::Null, Value::Null, Value::Null),
        expense(-9, "b", 1),
    ];
    assert_eq!(get_expense_ids(&rows), vec!["4".to_string(), "-9".to_string()]);
    assert_eq!(get_expense_ids(&[]), Vec::<String>::new());
}

#[test]
fn reads_name_and_amount() {
    assert_eq!(get_name_amount(&expense(1, "Tea", -3)), ["Tea".to_string(), "-3".to_string()]);
}

#[test]
fn steps_through_the_edit_list() {
    let ids = vec!["7".to_string(), "9".to_string()];
    assert_eq!(edit_list_step(&KeyInput::Escape, 1, &ids, 2), ListStep::Exit);
    assert_eq!(edit_list_step(&KeyInput::LetterQ, 1, &ids, 2), ListStep::Exit);
    assert_eq!(edit_list_step(&KeyInput::LetterQ, 0, &vec![], 0), ListStep::Exit);
    assert_eq!(edit_list_step(&KeyInput::ArrowDown, 0, &ids, 2), ListStep::Stay(1));
    assert_eq!(edit_list_step(&KeyInput::ArrowDown, 2, &ids, 2), ListStep::Stay(2));
    assert_eq!(edit_list_step(&KeyInput::Enter, 1, &ids, 2), ListStep::Chosen("9".to_string()));
    assert_eq!(edit_list_step(&KeyInput::Enter, 1, &ids, 0), ListStep::Stay(1));
    assert_eq!(edit_list_step(&KeyInput::Other, 1, &ids, 2), ListStep::Stay(1));
}

#[test]
fn steps_through_the_remove_list() {
    let ids = vec!["7".to_string(), "9".to_string()];
    assert_eq!(remove_list_step(&KeyInput::Escape, 0, &ids), ListStep::Exit);
    assert_eq!(remove_list_step(&KeyInput::LetterQ, 1, &ids), ListStep::Stay(1));
    assert_eq!(remove_list_step(&KeyInput::Enter, 0, &ids), ListStep::Chosen("7".to_string()));
    assert_eq!(remove_list_step(&KeyInput::ArrowUp, 2, &ids), ListStep::Stay(1));
    assert_eq!(remove_list_step(&KeyInput::Enter, 5, &vec![]), ListStep::Stay(5));
}

#[test]
fn shows_the_edit_screen() {
    let fields = ["Tea".to_string(), "3".to_string()];
    assert_eq!(expense_view(&fields, 0), " \x1b[47mTea\x1b[0m \n 3");
    assert_eq!(expense_view(&fields, 1), " Tea \n \x1b[47m3\x1b[0m");
    assert_eq!(field_column(0), "name");
    assert_eq!(field_column(1), "amount");
}

#[test]
fn the_add_form_asks_until_name_and_amount_are_given() {
    let mut form = AddForm::new();
    assert_eq!(form.prompt(), AddPrompt::Name);
    form.answer(Some("   ".to_string()));
    assert_eq!(form.name, "");
    assert_eq!(form.prompt(), AddPrompt::Name);
    form.answer(Some("Tea".to_string()));
    assert_eq!(form.prompt(), AddPrompt::Amount);
    form.answer(Some("lots".to_string()));
    assert_eq!(form.amount, 0);
    assert_eq!(form.prompt(), AddPrompt::Amount);
    form.answer(Some("0".to_string()));
    assert_eq!(form.prompt(), AddPrompt::Amount);
    form.answer(Some("12".to_string()));
    assert_eq!(form.prompt(), AddPrompt::Submit);
    assert_eq!(form.name, "Tea");
    assert_eq!(form.amount, 12);
}

#[test]
fn failed_reads_go_on_to_adding() {
    let mut form = AddForm::new();
    form.answer(None);
    assert_eq!(form.stage, AddStage::NameFailed);
    assert_eq!(form.prompt(), AddPrompt::Amount);
    form.answer(None);
    assert_eq!(form.stage, AddStage::AmountFailed);
    assert_eq!(form.prompt(), AddPrompt::Submit);
    assert_eq!(form.name, "");
    assert_eq!(form.amount, 0);
}

#[test]
fn the_add_screen_goes_on_for_a_or_a_failed_read() {
    assert!(add_gate(&Some("a".to_string())));
    assert!(add_gate(&None));
    assert!(!add_gate(&Some("b".to_string())));
    assert!(!add_gate(&Some("".to_string())));
}

#[test]
fn tells_which_rows_can_be_shown_and_summed() {
    let rows = vec![expense(1, "Tea", 3), expense(2, "Pie", 12)];
    assert!(showable(&rows, 1, false));
    assert!(!showable(&rows, 2, false));
    assert!(showable(&rows, 2, true));
    assert!(showable(&[], 5, false));
    let long = vec![expense(1, &"x".repeat(59), 10)];
    assert!(!showable(&long, 0, true));
    let exact = vec![expense(1, &"é".repeat(29), 10)];
    assert!(showable(&exact, 0, true));
    assert_eq!(get_expenses_vec(&exact)[0].len(), 60);
    let nameless = RowData { columns: vec!["amount".to_string()], values: vec![Value::Integer(1)] };
    assert!(!readable_row(&nameless));
    assert!(!showable(&[nameless], 0, true));
    assert!(summable(&rows));
    assert!(!summable(&[expense(1, "a", i32::MAX as i64), expense(2, "b", 1)]));
    assert!(summable(&[expense(1, "a", i32::MAX as i64), expense(2, "b", -1)]));
    assert!(identifiable(&rows));
    let idless = RowData { columns: vec!["name".to_string()], values: vec![Value::Null] };
    assert!(!identifiable(&[idless]));
    assert!(has_name_and_amount(&rows[0]));
    assert!(!has_name_and_amount(&row(Value::Integer(1), Value::Null, Value::Integer(2))));
}
