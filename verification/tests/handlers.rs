use calamine::{DataType, Range};
use excel_cli::excel::{open_workbook, CellType, SheetSource};
use excel_cli::state::input::{parse_command, Action, Command};
use excel_cli::error::EngineError;
use excel_cli::state::{resize_info_panel, AppState, InputMode};
use excel_cli::ui::handlers::{
    handle_ctrl_key, handle_help_mode, handle_key_event, handle_lazy_loading_mode,
    handle_normal_mode, key_code_to_tui_key,
};
use excel_cli::ui::keys::{Input, Key, KeyCode, KeyEvent, KeyModifiers};

fn text_range(rows: &[&[&str]]) -> Range<DataType> {
    let height = rows.len() as u32;
    let width = rows[0].len() as u32;
    let mut range = Range::new((0, 0), (height - 1, width - 1));
    for (r, row) in rows.iter().enumerate() {
        for (c, text) in row.iter().enumerate() {
            if !text.is_empty() {
                range.set_value((r as u32, c as u32), DataType::String(text.to_string()));
            }
        }
    }
    range
}

fn source(name: &str, rows: &[&[&str]]) -> SheetSource {
    SheetSource { name: name.to_string(), range: Some(text_range(rows)) }
}

fn deferred(name: &str) -> SheetSource {
    SheetSource { name: name.to_string(), range: None }
}

fn state() -> AppState {
    let wb = open_workbook(
        "book.xlsx".to_string(),
        vec![
            source(
                "Main",
                &[
                    &["a1", "", "c1", "", "e1"],
                    &["", "b2", "", "", ""],
                    &["a3", "b3", "c3", "d3", "e3"],
                    &["", "", "", "", ""],
                ],
            ),
            source("Other", &[&["x"]]),
        ],
        false,
    )
    .unwrap();
    AppState::new(wb, "one\ntwo\nthree\nfour\nfive\n".to_string())
}

fn lazy_state() -> AppState {
    let wb = open_workbook(
        "lazy.xlsx".to_string(),
        vec![source("First", &[&["1"]]), deferred("Second"), deferred("Third")],
        true,
    )
    .unwrap();
    AppState::new(wb, String::new())
}

const PLAIN: KeyModifiers =
    KeyModifiers { shift: false, control: false, alt: false, super_key: false };
const CTRL: KeyModifiers = KeyModifiers { shift: false, control: true, alt: false, super_key: false };
const SUPER: KeyModifiers =
    KeyModifiers { shift: false, control: false, alt: false, super_key: true };

fn press(state: &mut AppState, code: KeyCode) -> Action {
    handle_key_event(state, KeyEvent { code, modifiers: PLAIN })
}

fn press_char(state: &mut AppState, c: char) -> Action {
    press(state, KeyCode::Char(c))
}

fn press_ctrl(state: &mut AppState, code: KeyCode) -> Action {
    handle_key_event(state, KeyEvent { code, modifiers: CTRL })
}

fn type_line(state: &mut AppState, text: &str) {
    for c in text.chars() {
        assert_eq!(press_char(state, c), Action::Nothing);
    }
}

fn value(state: &AppState, row: usize, col: usize) -> String {
    state.engine.workbook().get_current_sheet().data[row][col].value.clone()
}

#[test]
fn key_codes_map_to_widget_keys() {
    let pairs = [
        (KeyCode::Backspace, Key::Backspace),
        (KeyCode::Enter, Key::Enter),
        (KeyCode::Left, Key::Left),
        (KeyCode::Right, Key::Right),
        (KeyCode::Up, Key::Up),
        (KeyCode::Down, Key::Down),
        (KeyCode::Home, Key::Home),
        (KeyCode::End, Key::End),
        (KeyCode::PageUp, Key::PageUp),
        (KeyCode::PageDown, Key::PageDown),
        (KeyCode::Tab, Key::Tab),
        (KeyCode::Delete, Key::Delete),
        (KeyCode::BackTab, Key::Null),
        (KeyCode::Insert, Key::Null),
        (KeyCode::Esc, Key::Esc),
        (KeyCode::Char('x'), Key::Char('x')),
        (KeyCode::F(5), Key::F(5)),
        (KeyCode::Null, Key::Null),
        (KeyCode::Other, Key::Null),
    ];
    for (code, key) in pairs {
        assert_eq!(key_code_to_tui_key(code), key);
    }
}

#[test]
fn a_new_state_starts_in_normal_mode_on_the_first_cell() {
    let s = state();
    assert_eq!(s.input_mode, InputMode::Normal);
    assert_eq!(s.selected_cell, (1, 1));
    assert!(!s.g_pressed);
    assert!(s.clipboard.is_none());
    assert!(s.notifications.is_empty());
    assert_eq!(lazy_state().input_mode, InputMode::Normal);
}

#[test]
fn letters_and_arrows_move_the_cursor() {
    let mut s = state();
    assert_eq!(press_char(&mut s, 'j'), Action::Nothing);
    assert_eq!(s.selected_cell, (2, 1));
    press_char(&mut s, 'l');
    assert_eq!(s.selected_cell, (2, 2));
    press_char(&mut s, 'k');
    assert_eq!(s.selected_cell, (1, 2));
    press_char(&mut s, 'h');
    assert_eq!(s.selected_cell, (1, 1));
    press(&mut s, KeyCode::Down);
    press(&mut s, KeyCode::Right);
    assert_eq!(s.selected_cell, (2, 2));
    press(&mut s, KeyCode::Up);
    press(&mut s, KeyCode::Left);
    assert_eq!(s.selected_cell, (1, 1));
}

#[test]
fn the_cursor_stops_at_the_edges() {
    let mut s = state();
    press_char(&mut s, 'h');
    press_char(&mut s, 'k');
    assert_eq!(s.selected_cell, (1, 1));
    for _ in 0..10 {
        press_char(&mut s, 'j');
        press_char(&mut s, 'l');
    }
    assert_eq!(s.selected_cell, (4, 5));
    s.move_cursor(-100, 2);
    assert_eq!(s.selected_cell, (1, 5));
    s.move_cursor(2, -3);
    assert_eq!(s.selected_cell, (3, 2));
    s.move_cursor(i32::MIN, i32::MAX);
    assert_eq!(s.selected_cell, (1, 5));
}

#[test]
fn g_twice_jumps_to_the_first_row() {
    let mut s = state();
    s.selected_cell = (3, 2);
    press_char(&mut s, 'g');
    assert!(s.g_pressed);
    assert_eq!(s.selected_cell, (3, 2));
    press_char(&mut s, 'g');
    assert!(!s.g_pressed);
    assert_eq!(s.selected_cell, (1, 2));
}

#[test]
fn any_other_key_clears_the_chord() {
    for code in [KeyCode::Char('x'), KeyCode::Tab, KeyCode::Char('j'), KeyCode::Other] {
        let mut s = state();
        s.selected_cell = (3, 2);
        press_char(&mut s, 'g');
        assert!(s.g_pressed);
        press(&mut s, code);
        assert!(!s.g_pressed);
        press_char(&mut s, 'g');
        assert!(s.g_pressed);
        assert_ne!(s.selected_cell.0, 1);
    }
    let mut s = state();
    press_char(&mut s, 'g');
    press_ctrl(&mut s, KeyCode::Char('x'));
    assert!(!s.g_pressed);
}

#[test]
fn an_unknown_key_changes_nothing_else() {
    let mut s = state();
    s.selected_cell = (2, 2);
    assert_eq!(press_char(&mut s, 'x'), Action::Nothing);
    assert_eq!(press(&mut s, KeyCode::F(1)), Action::Nothing);
    assert_eq!(s.selected_cell, (2, 2));
    assert_eq!(s.input_mode, InputMode::Normal);
    assert!(s.notifications.is_empty());
    assert!(!s.engine.workbook().is_modified());
}

#[test]
fn jumps_to_the_ends() {
    let mut s = state();
    s.selected_cell = (2, 3);
    press_char(&mut s, 'G');
    assert_eq!(s.selected_cell, (4, 3));
    press_char(&mut s, '$');
    assert_eq!(s.selected_cell, (4, 5));
    press_char(&mut s, '0');
    assert_eq!(s.selected_cell, (4, 1));
}

#[test]
fn caret_jumps_to_the_first_cell_with_text() {
    let mut s = state();
    s.selected_cell = (2, 5);
    press_char(&mut s, '^');
    assert_eq!(s.selected_cell, (2, 2));
    s.selected_cell = (4, 3);
    press_char(&mut s, '^');
    assert_eq!(s.selected_cell, (4, 3));
    s.selected_cell = (1, 4);
    press_char(&mut s, '^');
    assert_eq!(s.selected_cell, (1, 1));
}

#[test]
fn control_arrows_jump_to_the_nearest_cell_with_text() {
    let mut s = state();
    s.selected_cell = (1, 1);
    assert_eq!(press_ctrl(&mut s, KeyCode::Right), Action::Nothing);
    assert_eq!(s.selected_cell, (1, 3));
    press_ctrl(&mut s, KeyCode::Right);
    assert_eq!(s.selected_cell, (1, 5));
    press_ctrl(&mut s, KeyCode::Right);
    assert_eq!(s.selected_cell, (1, 5));
    press_ctrl(&mut s, KeyCode::Left);
    assert_eq!(s.selected_cell, (1, 3));
    press_ctrl(&mut s, KeyCode::Down);
    assert_eq!(s.selected_cell, (3, 3));
    press_ctrl(&mut s, KeyCode::Down);
    assert_eq!(s.selected_cell, (3, 3));
    press_ctrl(&mut s, KeyCode::Up);
    assert_eq!(s.selected_cell, (1, 3));
    press_ctrl(&mut s, KeyCode::Up);
    assert_eq!(s.selected_cell, (1, 3));
    s.selected_cell = (2, 1);
    press_ctrl(&mut s, KeyCode::Left);
    assert_eq!(s.selected_cell, (2, 1));
    handle_key_event(&mut s, KeyEvent { code: KeyCode::Right, modifiers: SUPER });
    assert_eq!(s.selected_cell, (2, 2));
}

#[test]
fn copy_cut_paste_and_undo_by_key() {
    let mut s = state();
    s.selected_cell = (2, 2);
    press_char(&mut s, 'y');
    assert_eq!(s.clipboard.as_ref().unwrap().value, "b2");
    s.selected_cell = (4, 4);
    press_char(&mut s, 'p');
    assert_eq!(value(&s, 4, 4), "b2");
    press_char(&mut s, 'd');
    assert_eq!(value(&s, 4, 4), "");
    assert_eq!(s.clipboard.as_ref().unwrap().value, "b2");
    press_char(&mut s, 'u');
    assert_eq!(value(&s, 4, 4), "b2");
    press_char(&mut s, 'u');
    assert_eq!(value(&s, 4, 4), "");
    press_ctrl(&mut s, KeyCode::Char('r'));
    assert_eq!(value(&s, 4, 4), "b2");
    assert_eq!(value(&s, 2, 2), "b2");
    assert!(s.notifications.is_empty());
}

#[test]
fn failures_become_notifications_and_change_nothing() {
    let mut s = state();
    s.selected_cell = (2, 2);
    press_char(&mut s, 'u');
    press_ctrl(&mut s, KeyCode::Char('r'));
    press_char(&mut s, 'p');
    press_char(&mut s, '[');
    s.selected_cell = (9, 9);
    press_char(&mut s, 'd');
    assert_eq!(
        s.notifications,
        vec![
            "Undo failed: Nothing to undo".to_string(),
            "Redo failed: Nothing to redo".to_string(),
            "Paste failed: Clipboard is empty".to_string(),
            "Failed to switch to previous sheet: Index out of range".to_string(),
            "Cut failed: Index out of range".to_string(),
        ]
    );
    assert_eq!(s.input_mode, InputMode::Normal);
    assert_eq!(s.selected_cell, (9, 9));
    assert!(!s.engine.workbook().is_modified());
}

#[test]
fn brackets_switch_sheets() {
    let mut s = state();
    s.selected_cell = (3, 3);
    s.search_results = vec![(1, 1)];
    press_char(&mut s, ']');
    assert_eq!(s.engine.workbook().get_current_sheet_index(), 1);
    assert_eq!(s.selected_cell, (1, 1));
    assert!(s.search_results.is_empty());
    assert_eq!(s.input_mode, InputMode::Normal);
    press_char(&mut s, ']');
    assert_eq!(s.engine.workbook().get_current_sheet_index(), 1);
    assert_eq!(
        s.notifications,
        vec!["Failed to switch to next sheet: Index out of range".to_string()]
    );
    press_char(&mut s, '[');
    assert_eq!(s.engine.workbook().get_current_sheet_index(), 0);
}

#[test]
fn panel_keys_resize_the_info_panel() {
    let mut s = state();
    assert_eq!(s.info_panel_height, 10);
    assert_eq!(press_char(&mut s, '='), Action::Nothing);
    assert_eq!(s.info_panel_height, 11);
    assert_eq!(press_char(&mut s, '+'), Action::Nothing);
    assert_eq!(s.info_panel_height, 12);
    assert_eq!(press_char(&mut s, '-'), Action::Nothing);
    assert_eq!(s.info_panel_height, 11);
    for _ in 0..10 {
        press_char(&mut s, '+');
    }
    assert_eq!(s.info_panel_height, 16);
    for _ in 0..20 {
        press_char(&mut s, '-');
    }
    assert_eq!(s.info_panel_height, 6);
    assert_eq!(s.input_mode, InputMode::Normal);
}

#[test]
fn the_info_panel_height_is_kept_between_its_bounds() {
    assert_eq!(resize_info_panel(10, 3), 13);
    assert_eq!(resize_info_panel(10, -3), 7);
    assert_eq!(resize_info_panel(10, 100), 16);
    assert_eq!(resize_info_panel(10, -100), 6);
    assert_eq!(resize_info_panel(0, 0), 6);
    assert_eq!(resize_info_panel(100, 0), 16);
    assert_eq!(resize_info_panel(100, -90), 10);
    assert_eq!(resize_info_panel(usize::MAX, i32::MAX), 16);
    assert_eq!(resize_info_panel(3, i32::MIN), 6);
    let mut s = state();
    s.adjust_info_panel_height(-2);
    assert_eq!(s.info_panel_height, 8);
}

#[test]
fn enter_begins_an_edit_and_enter_confirms_it() {
    let mut s = state();
    s.selected_cell = (2, 2);
    assert_eq!(press(&mut s, KeyCode::Enter), Action::BeginEdit("b2".to_string()));
    assert_eq!(s.input_mode, InputMode::Editing);
    let forwarded = handle_key_event(
        &mut s,
        KeyEvent {
            code: KeyCode::Char('Z'),
            modifiers: KeyModifiers { shift: true, control: false, alt: true, super_key: false },
        },
    );
    assert_eq!(
        forwarded,
        Action::Forward(Input { key: Key::Char('Z'), ctrl: false, alt: true, shift: true })
    );
    assert_eq!(s.input_mode, InputMode::Editing);
    assert_eq!(press(&mut s, KeyCode::Enter), Action::ConfirmEdit);
    assert_eq!(s.input_mode, InputMode::Editing);
    assert_eq!(s.confirm_edit("12.5".to_string()), Action::ClearEditor);
    assert_eq!(s.input_mode, InputMode::Normal);
    assert_eq!(value(&s, 2, 2), "12.5");
    assert_eq!(s.engine.workbook().get_current_sheet().data[2][2].cell_type, CellType::Number);
    press_char(&mut s, 'u');
    assert_eq!(value(&s, 2, 2), "b2");
}

#[test]
fn escape_gives_an_edit_up() {
    let mut s = state();
    press(&mut s, KeyCode::Enter);
    assert_eq!(press(&mut s, KeyCode::Esc), Action::ClearEditor);
    assert_eq!(s.input_mode, InputMode::Normal);
    assert_eq!(value(&s, 1, 1), "a1");
    assert!(!s.engine.workbook().is_modified());
}

#[test]
fn an_edit_that_does_not_fit_leaves_the_mode() {
    let mut s = state();
    s.selected_cell = (9, 9);
    assert_eq!(press(&mut s, KeyCode::Enter), Action::BeginEdit(String::new()));
    assert_eq!(s.confirm_edit("x".to_string()), Action::Nothing);
    assert_eq!(s.input_mode, InputMode::Editing);
    assert_eq!(s.notifications, vec!["Edit failed: Index out of range".to_string()]);
}

#[test]
fn colon_opens_the_command_line() {
    let mut s = state();
    s.input_buffer = "old".to_string();
    assert_eq!(press_char(&mut s, ':'), Action::Nothing);
    assert_eq!(s.input_mode, InputMode::Command);
    assert_eq!(s.input_buffer, "");
    type_line(&mut s, "wqx");
    assert_eq!(s.input_buffer, "wqx");
    press(&mut s, KeyCode::Backspace);
    assert_eq!(s.input_buffer, "wq");
    press(&mut s, KeyCode::Tab);
    assert_eq!(s.input_buffer, "wq");
    press(&mut s, KeyCode::Esc);
    assert_eq!(s.input_mode, InputMode::Normal);
    assert_eq!(s.input_buffer, "");
    press_char(&mut s, ':');
    press(&mut s, KeyCode::Backspace);
    assert_eq!(s.input_buffer, "");
    assert_eq!(s.input_mode, InputMode::Command);
}

#[test]
fn commands_are_parsed_by_their_words() {
    let pairs = [
        ("w", Command::Write),
        ("wq", Command::WriteQuit),
        ("x", Command::WriteQuit),
        ("q", Command::Quit),
        ("q!", Command::ForceQuit),
        ("y", Command::Copy),
        ("d", Command::Cut),
        ("put", Command::Paste),
        ("pu", Command::Paste),
        ("dr", Command::DeleteRow),
        ("dc", Command::DeleteColumn),
        ("delsheet", Command::DeleteSheet),
        ("nohlsearch", Command::ClearSearch),
        ("noh", Command::ClearSearch),
        ("help", Command::Help),
        ("", Command::Unknown),
        ("W", Command::Unknown),
        ("w ", Command::Unknown),
        ("quit", Command::Unknown),
    ];
    for (text, command) in pairs {
        assert_eq!(parse_command(text), command, "{text:?}");
    }
}

fn run(state: &mut AppState, line: &str) -> Action {
    press_char(state, ':');
    type_line(state, line);
    press(state, KeyCode::Enter)
}

#[test]
fn commands_run_and_return_to_normal_mode() {
    let mut s = state();
    assert_eq!(run(&mut s, "w"), Action::Save { then_quit: false });
    assert_eq!(s.input_mode, InputMode::Normal);
    assert_eq!(s.input_buffer, "");
    assert_eq!(run(&mut s, "x"), Action::Save { then_quit: true });
    assert_eq!(run(&mut s, "q"), Action::Quit);
    s.selected_cell = (3, 2);
    assert_eq!(run(&mut s, "dr"), Action::Nothing);
    assert_eq!(s.engine.workbook().get_current_sheet().max_rows, 3);
    assert_eq!(value(&s, 3, 1), "");
    assert_eq!(run(&mut s, "dc"), Action::Nothing);
    assert_eq!(s.engine.workbook().get_current_sheet().max_cols, 4);
    assert_eq!(value(&s, 1, 2), "c1");
    assert_eq!(run(&mut s, "q"), Action::Nothing);
    assert_eq!(
        s.notifications,
        vec!["No write since last change (add ! to override)".to_string()]
    );
    assert_eq!(run(&mut s, "q!"), Action::Quit);
    assert_eq!(run(&mut s, "bogus"), Action::Nothing);
    assert_eq!(s.notifications.last().unwrap(), "Unknown command: bogus");
    assert_eq!(s.input_mode, InputMode::Normal);
    assert_eq!(s.input_buffer, "");
    press_char(&mut s, 'u');
    press_char(&mut s, 'u');
    assert_eq!(s.engine.workbook().get_current_sheet().max_rows, 4);
    assert_eq!(s.engine.workbook().get_current_sheet().max_cols, 5);
    assert_eq!(value(&s, 3, 2), "b3");
}

#[test]
fn clipboard_and_sheet_commands() {
    let mut s = state();
    s.selected_cell = (1, 1);
    run(&mut s, "y");
    assert_eq!(s.clipboard.as_ref().unwrap().value, "a1");
    s.selected_cell = (2, 1);
    run(&mut s, "put");
    assert_eq!(value(&s, 2, 1), "a1");
    run(&mut s, "d");
    assert_eq!(value(&s, 2, 1), "");
    s.search_results = vec![(1, 1)];
    run(&mut s, "noh");
    assert!(s.search_results.is_empty());
    run(&mut s, "delsheet");
    assert_eq!(s.engine.workbook().get_current_sheet_name(), "Other");
    run(&mut s, "delsheet");
    assert_eq!(s.notifications, vec!["Delete failed: Cannot delete the only sheet".to_string()]);
    s.help_scroll = 3;
    run(&mut s, "help");
    assert_eq!(s.input_mode, InputMode::Help);
    assert_eq!(s.help_scroll, 0);
}

#[test]
fn search_keys_open_the_search_and_forward_the_typing() {
    let mut s = state();
    assert_eq!(press_char(&mut s, '/'), Action::ClearEditor);
    assert_eq!(s.input_mode, InputMode::SearchForward);
    let forwarded = handle_key_event(&mut s, KeyEvent { code: KeyCode::Char('b'), modifiers: CTRL });
    assert_eq!(
        forwarded,
        Action::Forward(Input { key: Key::Char('b'), ctrl: false, alt: false, shift: false })
    );
    assert_eq!(
        press(&mut s, KeyCode::Insert),
        Action::Forward(Input { key: Key::Null, ctrl: false, alt: false, shift: false })
    );
    assert_eq!(press(&mut s, KeyCode::Enter), Action::ConfirmSearch);
    assert_eq!(s.input_mode, InputMode::SearchForward);
    s.execute_search("b".to_string());
    assert_eq!(s.input_mode, InputMode::Normal);
    assert_eq!(s.selected_cell, (2, 2));
    assert_eq!(press_char(&mut s, '?'), Action::ClearEditor);
    assert_eq!(s.input_mode, InputMode::SearchBackward);
    assert_eq!(press(&mut s, KeyCode::Esc), Action::ClearEditor);
    assert_eq!(s.input_mode, InputMode::Normal);
}

#[test]
fn n_walks_and_reruns_a_stale_search() {
    let mut s = state();
    s.execute_search("3".to_string());
    assert_eq!(s.search_results.len(), 5);
    assert_eq!(s.selected_cell, (3, 1));
    press_char(&mut s, 'n');
    assert_eq!(s.selected_cell, (3, 2));
    press_char(&mut s, 'N');
    assert_eq!(s.selected_cell, (3, 1));
    press_char(&mut s, 'N');
    assert_eq!(s.selected_cell, (3, 5));
    // The matches are gone, the query is not: the search runs again.
    s.search_results = Vec::new();
    s.search_cursor = 0;
    press_char(&mut s, 'n');
    assert_eq!(s.search_results.len(), 5);
    assert_eq!(s.selected_cell, (3, 2));
    // Neither matches nor query: nothing happens.
    let mut fresh = state();
    fresh.selected_cell = (2, 2);
    press_char(&mut fresh, 'n');
    press_char(&mut fresh, 'N');
    assert_eq!(fresh.selected_cell, (2, 2));
    assert!(fresh.search_results.is_empty());
}

#[test]
fn help_scrolls_between_its_bounds() {
    let mut s = state();
    s.input_mode = InputMode::Help;
    s.help_visible_lines = 3;
    // Five lines, three visible: the scroll ends at 2.
    press_char(&mut s, 'j');
    assert_eq!(s.help_scroll, 1);
    press(&mut s, KeyCode::Down);
    assert_eq!(s.help_scroll, 2);
    press_char(&mut s, 'j');
    assert_eq!(s.help_scroll, 2);
    press_char(&mut s, 'k');
    assert_eq!(s.help_scroll, 1);
    press(&mut s, KeyCode::Home);
    assert_eq!(s.help_scroll, 0);
    press(&mut s, KeyCode::Up);
    assert_eq!(s.help_scroll, 0);
    press(&mut s, KeyCode::End);
    assert_eq!(s.help_scroll, 2);
    press_char(&mut s, 'x');
    assert_eq!(s.help_scroll, 2);
    assert_eq!(s.input_mode, InputMode::Help);
    assert_eq!(press(&mut s, KeyCode::Esc), Action::Nothing);
    assert_eq!(s.input_mode, InputMode::Normal);
    s.input_mode = InputMode::Help;
    press(&mut s, KeyCode::Enter);
    assert_eq!(s.input_mode, InputMode::Normal);
    s.input_mode = InputMode::Help;
    s.help_visible_lines = 50;
    press(&mut s, KeyCode::End);
    assert_eq!(s.help_scroll, 0);
}

#[test]
fn enter_in_lazy_loading_mode_loads_the_sheet() {
    let mut s = lazy_state();
    assert_eq!(s.switch_sheet_by_index(2), Ok(()));
    assert_eq!(s.input_mode, InputMode::LazyLoading);
    assert!(!s.engine.workbook().is_sheet_loaded(2));
    let action = press(&mut s, KeyCode::Enter);
    assert_eq!(
        action,
        Action::LoadSheet { index: 2, name: "Third".to_string(), then_edit: false }
    );
    assert_eq!(s.input_mode, InputMode::LazyLoading);
    let done = s.finish_load(2, "Third", Ok(text_range(&[&["a", "b"], &["c", "d"]])), false);
    assert_eq!(done, Action::Nothing);
    assert!(s.engine.workbook().is_sheet_loaded(2));
    assert_eq!(s.input_mode, InputMode::Normal);
    assert_eq!(s.engine.workbook().get_current_sheet().max_rows, 2);
    assert_eq!(value(&s, 2, 2), "d");
    assert!(s.notifications.is_empty());
}

#[test]
fn a_sheet_without_rows_loads_empty() {
    let mut s = lazy_state();
    s.switch_sheet_by_index(1).unwrap();
    press(&mut s, KeyCode::Enter);
    s.finish_load(1, "Second", Ok(Range::empty()), false);
    assert!(s.engine.workbook().is_sheet_loaded(1));
    assert_eq!(s.input_mode, InputMode::Normal);
    assert_eq!(s.engine.workbook().get_current_sheet().max_rows, 0);
}

#[test]
fn a_failed_load_is_reported_and_changes_nothing_else() {
    let mut s = lazy_state();
    s.switch_sheet_by_index(1).unwrap();
    s.selected_cell = (4, 7);
    press(&mut s, KeyCode::Enter);
    let done = s.finish_load(1, "Second", Err("broken".to_string()), false);
    assert_eq!(done, Action::Nothing);
    assert!(!s.engine.workbook().is_sheet_loaded(1));
    assert!(s.engine.workbook().get_current_sheet().data.is_empty());
    assert_eq!(s.engine.workbook().get_current_sheet().max_rows, 0);
    assert_eq!(s.input_mode, InputMode::LazyLoading);
    assert_eq!(s.selected_cell, (4, 7));
    assert_eq!(
        s.notifications,
        vec!["Failed to load sheet: Unable to read worksheet Second: broken".to_string()]
    );
    // A sheet that does not exist cannot be read either.
    s.finish_load(9, "Nowhere", Ok(Range::empty()), false);
    assert_eq!(s.input_mode, InputMode::LazyLoading);
    assert_eq!(s.notifications.last().unwrap(), "Failed to load sheet: Index out of range");
    // Enter asks for the sheet again.
    assert_eq!(
        press(&mut s, KeyCode::Enter),
        Action::LoadSheet { index: 1, name: "Second".to_string(), then_edit: false }
    );
    s.finish_load(1, "Second", Ok(text_range(&[&["v"]])), false);
    assert_eq!(s.input_mode, InputMode::Normal);
}

#[test]
fn an_edit_loads_the_sheet_first() {
    let mut s = lazy_state();
    s.switch_sheet_by_index(1).unwrap();
    s.input_mode = InputMode::Normal;
    assert_eq!(
        press(&mut s, KeyCode::Enter),
        Action::LoadSheet { index: 1, name: "Second".to_string(), then_edit: true }
    );
    s.finish_load(1, "Second", Err("broken".to_string()), true);
    assert_eq!(s.input_mode, InputMode::Normal);
    assert_eq!(s.notifications.len(), 1);
    let begun = s.finish_load(1, "Second", Ok(text_range(&[&["v"]])), true);
    assert_eq!(begun, Action::BeginEdit("v".to_string()));
    assert_eq!(s.input_mode, InputMode::Editing);
}

#[test]
fn sheets_are_read_for_saving_without_further_change() {
    let mut s = lazy_state();
    s.selected_cell = (1, 1);
    s.edit_cell("changed".to_string()).unwrap();
    assert_eq!(s.load_for_save(1, "Second", Ok(text_range(&[&["x"]]))), Ok(()));
    assert!(s.engine.workbook().is_sheet_loaded(1));
    assert_eq!(
        s.load_for_save(2, "Third", Err("broken".to_string())),
        Err(EngineError::LoadFailed("Third".to_string(), "broken".to_string()))
    );
    assert!(!s.engine.workbook().is_sheet_loaded(2));
    assert_eq!(s.load_for_save(5, "None", Ok(Range::empty())), Err(EngineError::OutOfRange));
    // A sheet that is loaded is left alone.
    assert_eq!(s.load_for_save(1, "Second", Err("broken".to_string())), Ok(()));
    assert_eq!(s.engine.workbook().get_sheet(1).unwrap().data[1][1].value, "x");
    assert!(s.notifications.is_empty());
    assert_eq!(s.input_mode, InputMode::Normal);
    assert_eq!(s.selected_cell, (1, 1));
    assert_eq!(s.undo().is_ok(), true);
    assert_eq!(s.engine.workbook().get_sheet(0).unwrap().data[1][1].value, "1");
}

#[test]
fn lazy_loading_mode_switches_sheets_and_gives_hints() {
    let mut s = lazy_state();
    s.switch_sheet_by_index(1).unwrap();
    assert_eq!(press_char(&mut s, 'j'), Action::Nothing);
    assert_eq!(
        s.notifications,
        vec!["Press Enter to load the sheet data, or use [ and ] to switch sheets".to_string()]
    );
    assert_eq!(s.input_mode, InputMode::LazyLoading);
    press_char(&mut s, ']');
    assert_eq!(s.engine.workbook().get_current_sheet_index(), 2);
    assert_eq!(s.input_mode, InputMode::LazyLoading);
    press_char(&mut s, ']');
    assert_eq!(s.notifications.last().unwrap(), "Already at the last sheet");
    press_char(&mut s, '[');
    press_char(&mut s, '[');
    assert_eq!(s.engine.workbook().get_current_sheet_index(), 0);
    assert_eq!(s.input_mode, InputMode::Normal);
    s.input_mode = InputMode::LazyLoading;
    press_char(&mut s, '[');
    assert_eq!(s.notifications.last().unwrap(), "Already at the first sheet");
    assert_eq!(press(&mut s, KeyCode::Enter), Action::Nothing);
    assert_eq!(s.input_mode, InputMode::Normal);
}

#[test]
fn the_command_line_of_lazy_loading_mode_leads_back() {
    let mut s = lazy_state();
    s.switch_sheet_by_index(1).unwrap();
    press_char(&mut s, ':');
    assert_eq!(s.input_mode, InputMode::CommandInLazyLoading);
    type_line(&mut s, "nox");
    press(&mut s, KeyCode::Backspace);
    assert_eq!(s.input_buffer, "no");
    press_char(&mut s, 'h');
    assert_eq!(press(&mut s, KeyCode::Enter), Action::Nothing);
    assert_eq!(s.input_mode, InputMode::LazyLoading);
    assert_eq!(s.input_buffer, "");
    press_char(&mut s, ':');
    type_line(&mut s, "help");
    press(&mut s, KeyCode::Enter);
    assert_eq!(s.input_mode, InputMode::Help);
    s.input_mode = InputMode::LazyLoading;
    press_char(&mut s, ':');
    type_line(&mut s, "q");
    assert_eq!(press(&mut s, KeyCode::Esc), Action::Nothing);
    assert_eq!(s.input_mode, InputMode::LazyLoading);
    assert_eq!(s.input_buffer, "");
    press_char(&mut s, ':');
    type_line(&mut s, "q");
    assert_eq!(press(&mut s, KeyCode::Enter), Action::Quit);
}

#[test]
fn finish_save_clears_the_flag_or_reports() {
    let mut s = state();
    s.edit_cell("new".to_string()).unwrap();
    assert!(s.engine.workbook().is_modified());
    assert_eq!(s.finish_save(Err("disk full".to_string()), true), Action::Nothing);
    assert!(s.engine.workbook().is_modified());
    assert_eq!(s.notifications, vec!["Unable to save: disk full".to_string()]);
    assert_eq!(s.finish_save(Ok(()), false), Action::Nothing);
    assert!(!s.engine.workbook().is_modified());
    s.edit_cell("newer".to_string()).unwrap();
    assert_eq!(s.finish_save(Ok(()), true), Action::Quit);
    assert!(!s.engine.workbook().is_modified());
}

#[test]
fn notifications_are_kept_in_order() {
    let mut s = state();
    s.add_notification("first".to_string());
    s.add_notification("second".to_string());
    assert_eq!(s.notifications, vec!["first".to_string(), "second".to_string()]);
    assert_eq!(s.selected_cell, (1, 1));
    assert_eq!(s.input_mode, InputMode::Normal);
}

#[test]
fn the_handlers_of_the_modes_can_be_called_alone() {
    let mut s = state();
    s.execute_search("3".to_string());
    let first = s.selected_cell;
    let n = s.search_results.len();
    for k in 1..n {
        assert_eq!(handle_normal_mode(&mut s, KeyCode::Char('n')), Action::Nothing);
        assert_eq!(s.search_cursor, k);
        assert_ne!(s.selected_cell, first);
    }
    handle_normal_mode(&mut s, KeyCode::Char('n'));
    assert_eq!(s.search_cursor, 0);
    assert_eq!(s.selected_cell, first);
    handle_ctrl_key(&mut s, KeyCode::Right);
    assert_eq!(s.selected_cell, (3, 2));
    s.help_visible_lines = 2;
    handle_help_mode(&mut s, KeyCode::End);
    assert_eq!(s.help_scroll, 3);
    // Enter on a sheet that is loaded asks for no read.
    let notes = s.notifications.len();
    assert_eq!(handle_lazy_loading_mode(&mut s, KeyCode::Enter), Action::Nothing);
    assert_eq!(s.input_mode, InputMode::Normal);
    assert_eq!(s.notifications.len(), notes);
}
