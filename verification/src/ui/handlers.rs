//! The handlers of the input modes: each takes a key and does what the key
//! stands for in that mode.

use crate::state::cursor::nearest;
use crate::state::input::Action;
use crate::state::search::{all_matches, lemma_next_cycle, next_index, next_times, prev_index};
use crate::state::{resized_height, AppState, InputMode};
use crate::text::{count_lines, line_count, text_chars};
use crate::ui::keys::{widget_key, Input, Key, KeyCode, KeyEvent};
use vstd::prelude::*;

verus! {

/// What a key with the control key or the command key does in `Normal`
/// mode: the arrows jump to the nearest cell with text, `r` redoes, and
/// every key clears the chord flag.
pub open spec fn ctrl_outcome(before: AppState, code: KeyCode, after: AppState) -> bool {
    let cleared = AppState { g_pressed: false, ..before };
    let row = before.selected_cell.0;
    let col = before.selected_cell.1;
    match code {
        KeyCode::Left => after.moved_from(cleared) && after.selected_cell.0 == row && nearest(
            before.sheet(),
            row as int,
            false,
            false,
            col as int,
            after.selected_cell.1 as int,
        ),
        KeyCode::Right => after.moved_from(cleared) && after.selected_cell.0 == row && nearest(
            before.sheet(),
            row as int,
            false,
            true,
            col as int,
            after.selected_cell.1 as int,
        ),
        KeyCode::Up => after.moved_from(cleared) && after.selected_cell.1 == col && nearest(
            before.sheet(),
            col as int,
            true,
            false,
            row as int,
            after.selected_cell.0 as int,
        ),
        KeyCode::Down => after.moved_from(cleared) && after.selected_cell.1 == col && nearest(
            before.sheet(),
            col as int,
            true,
            true,
            row as int,
            after.selected_cell.0 as int,
        ),
        KeyCode::Char(c) => if c == 'r' {
            after.redo_tried(cleared)
        } else {
            after == cleared
        },
        _ => after == cleared,
    }
}

// Handles both Ctrl+key and Command+key (on Mac) combinations
pub fn handle_ctrl_key(app_state: &mut AppState, key_code: KeyCode)
    requires
        old(app_state).wf(),
    ensures
        final(app_state).wf(),
        ctrl_outcome(*old(app_state), key_code, *final(app_state)),
{
    app_state.g_pressed = false;
    match key_code {
        KeyCode::Left => {
            app_state.jump_to_prev_non_empty_cell_left();
        },
        KeyCode::Right => {
            app_state.jump_to_prev_non_empty_cell_right();
        },
        KeyCode::Up => {
            app_state.jump_to_prev_non_empty_cell_up();
        },
        KeyCode::Down => {
            app_state.jump_to_prev_non_empty_cell_down();
        },
        KeyCode::Char('r') => {
            match app_state.redo() {
                Ok(_) => {},
                Err(e) => {
                    app_state.report("Redo failed: ", &e);
                },
            }
        },
        _ => {},
    }
}

/// What a key does to the command line of `Command` mode.
pub open spec fn command_outcome(
    before: AppState,
    code: KeyCode,
    after: AppState,
    action: Action,
) -> bool {
    match code {
        KeyCode::Enter => after.command_executed(before, action),
        KeyCode::Esc => after.line_cleared(before, InputMode::Normal) && action == Action::Nothing,
        KeyCode::Backspace => {
            &&& after.input_buffer@ == if before.input_buffer@.len() > 0 {
                before.input_buffer@.drop_last()
            } else {
                before.input_buffer@
            }
            &&& after == (AppState { input_buffer: after.input_buffer, ..before })
            &&& action == Action::Nothing
        },
        KeyCode::Char(c) => {
            &&& after.input_buffer@ == before.input_buffer@.push(c)
            &&& after == (AppState { input_buffer: after.input_buffer, ..before })
            &&& action == Action::Nothing
        },
        _ => after == before && action == Action::Nothing,
    }
}

pub fn handle_command_mode(app_state: &mut AppState, key_code: KeyCode) -> (action: Action)
    requires
        old(app_state).wf(),
    ensures
        final(app_state).wf(),
        command_outcome(*old(app_state), key_code, *final(app_state), action),
{
    match key_code {
        KeyCode::Enter => app_state.execute_command(),
        KeyCode::Esc => {
            app_state.cancel_input();
            Action::Nothing
        },
        KeyCode::Backspace => {
            app_state.delete_char_from_input();
            Action::Nothing
        },
        KeyCode::Char(c) => {
            app_state.add_char_to_input(c);
            Action::Nothing
        },
        _ => Action::Nothing,
    }
}

/// What a key does to the command line that was opened while the current
/// sheet waited to be read. After a command the mode is `LazyLoading`
/// again if the sheet still waits and the command left the mode `Normal`;
/// leaving the line leads back to `LazyLoading` too.
pub open spec fn lazy_command_outcome(
    before: AppState,
    code: KeyCode,
    after: AppState,
    action: Action,
) -> bool {
    match code {
        KeyCode::Enter => {
            let waits = !before.engine@.workbook.current_sheet().is_loaded
                && !after.engine@.workbook.current_sheet().is_loaded;
            ||| after.command_executed(before, action) && !(waits && after.input_mode
                == InputMode::Normal)
            ||| waits && after.input_mode == InputMode::LazyLoading && (AppState {
                input_mode: InputMode::Normal,
                ..after
            }).command_executed(before, action)
        },
        KeyCode::Esc => after.line_cleared(before, InputMode::LazyLoading) && action
            == Action::Nothing,
        _ => command_outcome(before, code, after, action),
    }
}

pub fn handle_command_in_lazy_loading_mode(app_state: &mut AppState, key_code: KeyCode) -> (action:
    Action)
    requires
        old(app_state).wf(),
    ensures
        final(app_state).wf(),
        lazy_command_outcome(*old(app_state), key_code, *final(app_state), action),
{
    match key_code {
        KeyCode::Enter => {
            // Execute the command but stay in lazy loading mode if needed
            let current_index = app_state.engine.workbook().get_current_sheet_index();
            let is_sheet_loaded = app_state.engine.workbook().is_sheet_loaded(current_index);
            let action = app_state.execute_command();
            let ghost ran = *app_state;
            // If the sheet is still not loaded after command execution, switch back to LazyLoading mode
            if !is_sheet_loaded && !app_state.engine.workbook().is_sheet_loaded(
                app_state.engine.workbook().get_current_sheet_index(),
            ) && app_state.input_mode == InputMode::Normal {
                app_state.input_mode = InputMode::LazyLoading;
            }
            proof {
                assert((AppState { input_mode: ran.input_mode, ..*app_state }) == ran);
            }
            action
        },
        KeyCode::Esc => {
            // Return to LazyLoading mode
            app_state.input_mode = InputMode::LazyLoading;
            app_state.input_buffer = String::new();
            Action::Nothing
        },
        KeyCode::Backspace => {
            app_state.delete_char_from_input();
            Action::Nothing
        },
        KeyCode::Char(c) => {
            app_state.add_char_to_input(c);
            Action::Nothing
        },
        _ => Action::Nothing,
    }
}

/// A walk to the next match (or to the one before) was asked for. With
/// matches at hand the cursor walks. With a query but no matches the search
/// is run again first, and the cursor walks if that found any.
pub open spec fn search_walked(before: AppState, forward: bool, after: AppState) -> bool {
    let found = if before.search_results@.len() > 0 {
        before.search_results@
    } else if before.search_query@.len() > 0 {
        all_matches(before.sheet(), before.search_query@)
    } else {
        Seq::empty()
    };
    &&& after.search_results@ == found
    &&& after == (AppState {
        search_results: after.search_results,
        search_cursor: after.search_cursor,
        selected_cell: after.selected_cell,
        ..before
    })
    &&& before.search_results@.len() > 0 ==> after.search_results == before.search_results
    &&& if found.len() == 0 {
        after.search_cursor == before.search_cursor && after.selected_cell == before.selected_cell
    } else {
        &&& after.search_cursor == if forward {
            next_index(before.search_cursor as int, found.len() as int)
        } else {
            prev_index(before.search_cursor as int, found.len() as int)
        }
        &&& after.selected_cell == found[after.search_cursor as int]
    }
}

/// A sheet that waits to be read has to be read before anything else: the
/// program is asked for it, and the state stays as it is.
pub open spec fn load_asked(before: AppState, then_edit: bool, after: AppState, action: Action) -> bool {
    &&& after == before
    &&& action matches Action::LoadSheet { index, name, then_edit: edit }
    &&& index == before.engine@.workbook.current
    &&& name@ == before.sheet().name
    &&& edit == then_edit
}

/// What a key without modifier does in `Normal` mode. `g` after `g` jumps
/// to the first row; every other key clears the chord flag, also a key
/// that means nothing.
pub open spec fn normal_outcome(
    before: AppState,
    code: KeyCode,
    after: AppState,
    action: Action,
) -> bool {
    let cleared = AppState { g_pressed: false, ..before };
    let quiet = action == Action::Nothing;
    match code {
        KeyCode::Enter => if before.sheet_pending() {
            load_asked(cleared, true, after, action)
        } else {
            after.began_edit(cleared, action)
        },
        KeyCode::Left => quiet && after.moved_by(cleared, 0, -1),
        KeyCode::Right => quiet && after.moved_by(cleared, 0, 1),
        KeyCode::Up => quiet && after.moved_by(cleared, -1, 0),
        KeyCode::Down => quiet && after.moved_by(cleared, 1, 0),
        KeyCode::Char(c) => if c == 'g' {
            quiet && after == if before.g_pressed {
                AppState { selected_cell: (1, before.selected_cell.1), ..cleared }
            } else {
                AppState { g_pressed: true, ..before }
            }
        } else if c == 'h' {
            quiet && after.moved_by(cleared, 0, -1)
        } else if c == 'j' {
            quiet && after.moved_by(cleared, 1, 0)
        } else if c == 'k' {
            quiet && after.moved_by(cleared, -1, 0)
        } else if c == 'l' {
            quiet && after.moved_by(cleared, 0, 1)
        } else if c == 'u' {
            quiet && after.undo_tried(cleared)
        } else if c == '=' || c == '+' {
            quiet && after == (AppState {
                info_panel_height: resized_height(before.info_panel_height as int, 1) as usize,
                ..cleared
            })
        } else if c == '-' {
            quiet && after == (AppState {
                info_panel_height: resized_height(before.info_panel_height as int, -1) as usize,
                ..cleared
            })
        } else if c == '[' {
            quiet && after.switch_tried(
                cleared,
                before.engine@.workbook.current as int - 1,
                "Failed to switch to previous sheet: "@,
            )
        } else if c == ']' {
            quiet && after.switch_tried(
                cleared,
                before.engine@.workbook.current as int + 1,
                "Failed to switch to next sheet: "@,
            )
        } else if c == 'G' {
            quiet && after.moved_from(cleared) && after.selected_cell == (
                if before.sheet().max_rows < 1 {
                    1usize
                } else {
                    before.sheet().max_rows as usize
                },
                before.selected_cell.1,
            )
        } else if c == '0' {
            quiet && after == (AppState { selected_cell: (before.selected_cell.0, 1), ..cleared })
        } else if c == '^' {
            quiet && after.moved_from(cleared) && after.selected_cell.0 == before.selected_cell.0
                && if forall|k: int|
                k > 0 ==> #[trigger] crate::state::cursor::blank_on_line(
                    before.sheet(),
                    before.selected_cell.0 as int,
                    false,
                    k,
                ) {
                after.selected_cell.1 == before.selected_cell.1
            } else {
                nearest(
                    before.sheet(),
                    before.selected_cell.0 as int,
                    false,
                    true,
                    0,
                    after.selected_cell.1 as int,
                )
            }
        } else if c == '$' {
            quiet && after.moved_from(cleared) && after.selected_cell == (
                before.selected_cell.0,
                if before.sheet().max_cols < 1 {
                    1usize
                } else {
                    before.sheet().max_cols as usize
                },
            )
        } else if c == 'y' {
            quiet && after.copied(cleared)
        } else if c == 'd' {
            quiet && after.cut_tried(cleared)
        } else if c == 'p' {
            quiet && after.paste_tried(cleared)
        } else if c == ':' {
            quiet && after.line_cleared(cleared, InputMode::Command)
        } else if c == '/' {
            after.line_cleared(cleared, InputMode::SearchForward) && action == Action::ClearEditor
        } else if c == '?' {
            after.line_cleared(cleared, InputMode::SearchBackward) && action
                == Action::ClearEditor
        } else if c == 'n' {
            quiet && search_walked(cleared, true, after)
        } else if c == 'N' {
            quiet && search_walked(cleared, false, after)
        } else {
            quiet && after == cleared
        },
        _ => quiet && after == cleared,
    }
}

fn walk_search(app_state: &mut AppState, forward: bool)
    requires
        old(app_state).wf(),
    ensures
        final(app_state).wf(),
        search_walked(*old(app_state), forward, *final(app_state)),
{
    if app_state.search_results.len() == 0 && !app_state.search_query.as_str().is_empty() {
        // Re-run the last search if we have a query but no results
        let found = app_state.find_all_matches(app_state.search_query.as_str());
        app_state.search_results = found;
    }
    let ghost found = app_state.search_results@;
    assert(found == if old(app_state).search_results@.len() > 0 {
        old(app_state).search_results@
    } else if old(app_state).search_query@.len() > 0 {
        all_matches(old(app_state).sheet(), old(app_state).search_query@)
    } else {
        Seq::empty()
    });
    if app_state.search_results.len() > 0 {
        if forward {
            app_state.jump_to_next_search_result();
        } else {
            app_state.jump_to_prev_search_result();
        }
        assert(app_state.search_results@ == found);
        assert(app_state.selected_cell == found[app_state.search_cursor as int]);
    }
}

fn ask_load(app_state: &AppState, then_edit: bool) -> (action: Action)
    requires
        app_state.wf(),
    ensures
        load_asked(*app_state, then_edit, *app_state, action),
{
    Action::LoadSheet {
        index: app_state.engine.workbook().get_current_sheet_index(),
        name: app_state.engine.workbook().get_current_sheet_name(),
        then_edit,
    }
}

fn switch_with_report(app_state: &mut AppState, forward: bool)
    requires
        old(app_state).wf(),
    ensures
        final(app_state).wf(),
        final(app_state).switch_tried(
            *old(app_state),
            if forward {
                old(app_state).engine@.workbook.current as int + 1
            } else {
                old(app_state).engine@.workbook.current as int - 1
            },
            if forward {
                "Failed to switch to next sheet: "@
            } else {
                "Failed to switch to previous sheet: "@
            },
        ),
{
    if forward {
        match app_state.next_sheet() {
            Ok(_) => {},
            Err(e) => {
                app_state.report("Failed to switch to next sheet: ", &e);
            },
        }
    } else {
        match app_state.prev_sheet() {
            Ok(_) => {},
            Err(e) => {
                app_state.report("Failed to switch to previous sheet: ", &e);
            },
        }
    }
}

pub fn handle_normal_mode(app_state: &mut AppState, key_code: KeyCode) -> (action: Action)
    requires
        old(app_state).wf(),
    ensures
        final(app_state).wf(),
        normal_outcome(*old(app_state), key_code, *final(app_state), action),
{
    let chord = app_state.g_pressed;
    app_state.g_pressed = false;
    match key_code {
        KeyCode::Enter => {
            // If the sheet is not loaded, it has to be loaded first
            if app_state.is_sheet_pending() {
                ask_load(app_state, true)
            } else {
                app_state.start_editing()
            }
        },
        KeyCode::Char('h') => {
            app_state.move_cursor(0, -1);
            Action::Nothing
        },
        KeyCode::Char('j') => {
            app_state.move_cursor(1, 0);
            Action::Nothing
        },
        KeyCode::Char('k') => {
            app_state.move_cursor(-1, 0);
            Action::Nothing
        },
        KeyCode::Char('l') => {
            app_state.move_cursor(0, 1);
            Action::Nothing
        },
        KeyCode::Char('u') => {
            match app_state.undo() {
                Ok(_) => {},
                Err(e) => {
                    app_state.report("Undo failed: ", &e);
                },
            }
            Action::Nothing
        },
        KeyCode::Char('=' | '+') => {
            app_state.adjust_info_panel_height(1);
            Action::Nothing
        },
        KeyCode::Char('-') => {
            app_state.adjust_info_panel_height(-1);
            Action::Nothing
        },
        KeyCode::Char('[') => {
            switch_with_report(app_state, false);
            Action::Nothing
        },
        KeyCode::Char(']') => {
            switch_with_report(app_state, true);
            Action::Nothing
        },
        KeyCode::Char('g') => {
            if chord {
                app_state.jump_to_first_row();
            } else {
                app_state.g_pressed = true;
            }
            Action::Nothing
        },
        KeyCode::Char('G') => {
            app_state.jump_to_last_row();
            Action::Nothing
        },
        KeyCode::Char('0') => {
            app_state.jump_to_first_column();
            Action::Nothing
        },
        KeyCode::Char('^') => {
            app_state.jump_to_first_non_empty_column();
            Action::Nothing
        },
        KeyCode::Char('$') => {
            app_state.jump_to_last_column();
            Action::Nothing
        },
        KeyCode::Char('y') => {
            app_state.copy_cell();
            Action::Nothing
        },
        KeyCode::Char('d') => {
            match app_state.cut_cell() {
                Ok(_) => {},
                Err(e) => {
                    app_state.report("Cut failed: ", &e);
                },
            }
            Action::Nothing
        },
        KeyCode::Char('p') => {
            match app_state.paste_cell() {
                Ok(_) => {},
                Err(e) => {
                    app_state.report("Paste failed: ", &e);
                },
            }
            Action::Nothing
        },
        KeyCode::Char(':') => {
            app_state.start_command_mode();
            Action::Nothing
        },
        KeyCode::Char('/') => {
            app_state.start_search_forward();
            Action::ClearEditor
        },
        KeyCode::Char('?') => {
            app_state.start_search_backward();
            Action::ClearEditor
        },
        KeyCode::Char('n') => {
            walk_search(app_state, true);
            Action::Nothing
        },
        KeyCode::Char('N') => {
            walk_search(app_state, false);
            Action::Nothing
        },
        KeyCode::Left => {
            app_state.move_cursor(0, -1);
            Action::Nothing
        },
        KeyCode::Right => {
            app_state.move_cursor(0, 1);
            Action::Nothing
        },
        KeyCode::Up => {
            app_state.move_cursor(-1, 0);
            Action::Nothing
        },
        KeyCode::Down => {
            app_state.move_cursor(1, 0);
            Action::Nothing
        },
        _ => Action::Nothing,
    }
}

/// `n` with a query at hand but no matches runs the search again: the
/// matches are those of the query in the current sheet, and the workbook
/// is untouched.
pub proof fn lemma_n_reruns_stale_search(before: AppState, after: AppState, action: Action)
    requires
        normal_outcome(before, KeyCode::Char('n'), after, action),
        before.search_results@.len() == 0,
        before.search_query@.len() > 0,
    ensures
        after.search_results@ == all_matches(before.sheet(), before.search_query@),
        after.engine == before.engine,
        action == Action::Nothing,
{
}

/// Each state but the last leads to the next one by the key `n` in
/// `Normal` mode.
pub open spec fn walked_by_n(states: Seq<AppState>) -> bool {
    forall|k: int|
        0 <= k < states.len() - 1 ==> normal_outcome(
            #[trigger] states[k],
            KeyCode::Char('n'),
            states[k + 1],
            Action::Nothing,
        )
}

proof fn lemma_n_walks(states: Seq<AppState>, k: int)
    requires
        walked_by_n(states),
        states.len() >= 1,
        states[0].search_results@.len() >= 1,
        states[0].search_cursor < states[0].search_results@.len(),
        0 <= k < states.len(),
    ensures
        states[k].search_results == states[0].search_results,
        states[k].search_cursor == next_times(
            states[0].search_cursor as int,
            states[0].search_results@.len() as int,
            k as nat,
        ),
        0 <= states[k].search_cursor < states[0].search_results@.len(),
        k > 0 ==> states[k].selected_cell == states[0].search_results@[states[k].search_cursor as int],
    decreases k,
{
    if k > 0 {
        lemma_n_walks(states, k - 1);
        assert(normal_outcome(states[k - 1], KeyCode::Char('n'), states[k - 1 + 1], Action::Nothing));
    }
}

/// With `n` matches at hand and the cursor on the first, the key `n`
/// pressed `n` times leads back to the first match, and not before: the
/// matches stay as they are, and each press goes on by one.
pub proof fn lemma_n_cycles(states: Seq<AppState>)
    requires
        walked_by_n(states),
        states.len() >= 2,
        states.len() == states[0].search_results@.len() + 1,
        states[0].search_cursor == 0,
    ensures
        states.last().search_results == states[0].search_results,
        states.last().search_cursor == 0,
        states.last().selected_cell == states[0].search_results@[0],
        forall|k: int| 0 < k < states.len() - 1 ==> (#[trigger] states[k]).search_cursor == k,
{
    let n = states[0].search_results@.len() as int;
    lemma_n_walks(states, n);
    lemma_next_cycle(0, n);
    assert forall|k: int| 0 < k < states.len() - 1 implies (#[trigger] states[k]).search_cursor
        == k by {
        lemma_n_walks(states, k);
        crate::state::search::lemma_next_steps(0, n, k as nat);
    }
}

/// Enter on a sheet that is loaded asks for no read: the mode becomes
/// `Normal`, and nothing else changes.
pub proof fn lemma_enter_on_loaded_sheet(before: AppState, after: AppState, action: Action)
    requires
        lazy_outcome(before, KeyCode::Enter, after, action),
        before.engine@.workbook.current_sheet().is_loaded,
    ensures
        action == Action::Nothing,
        after == (AppState { input_mode: InputMode::Normal, ..before }),
{
}

/// What the text widget is handed for a key event.
pub open spec fn widget_input(key: KeyEvent) -> Input {
    Input {
        key: widget_key(key.code),
        ctrl: key.modifiers.control,
        alt: key.modifiers.alt,
        shift: key.modifiers.shift,
    }
}

/// What a key does in `Editing` mode: Enter confirms the edit, Escape
/// gives it up, and every other key goes to the text widget as it is.
pub open spec fn editing_outcome(
    before: AppState,
    key: KeyEvent,
    after: AppState,
    action: Action,
) -> bool {
    match key.code {
        KeyCode::Enter => after == before && action == Action::ConfirmEdit,
        KeyCode::Esc => after == (AppState { input_mode: InputMode::Normal, ..before }) && action
            == Action::ClearEditor,
        _ => after == before && action == Action::Forward(widget_input(key)),
    }
}

pub fn handle_editing_mode(app_state: &mut AppState, key: KeyEvent) -> (action: Action)
    ensures
        editing_outcome(*old(app_state), key, *final(app_state), action),
{
    match key.code {
        KeyCode::Enter => Action::ConfirmEdit,
        KeyCode::Esc => {
            app_state.input_mode = InputMode::Normal;
            Action::ClearEditor
        },
        _ => {
            // Convert KeyEvent to Input for the text widget
            let input = Input {
                key: key_code_to_tui_key(key.code),
                ctrl: key.modifiers.control,
                alt: key.modifiers.alt,
                shift: key.modifiers.shift,
            };
            Action::Forward(input)
        },
    }
}

/// What a key does in the two search modes: Enter runs the search,
/// Escape gives it up, and every other key goes to the text widget,
/// without modifiers.
pub open spec fn search_outcome(
    before: AppState,
    code: KeyCode,
    after: AppState,
    action: Action,
) -> bool {
    match code {
        KeyCode::Enter => after == before && action == Action::ConfirmSearch,
        KeyCode::Esc => after.line_cleared(before, InputMode::Normal) && action
            == Action::ClearEditor,
        _ => after == before && action == Action::Forward(
            Input { key: widget_key(code), ctrl: false, alt: false, shift: false },
        ),
    }
}

pub fn handle_search_mode(app_state: &mut AppState, key_code: KeyCode) -> (action: Action)
    ensures
        search_outcome(*old(app_state), key_code, *final(app_state), action),
{
    match key_code {
        KeyCode::Enter => Action::ConfirmSearch,
        KeyCode::Esc => {
            app_state.input_mode = InputMode::Normal;
            app_state.input_buffer = String::new();
            Action::ClearEditor
        },
        _ => {
            let input = Input {
                key: key_code_to_tui_key(key_code),
                ctrl: false,
                alt: false,
                shift: false,
            };
            Action::Forward(input)
        },
    }
}

// Convert a key code of the terminal to a key of the text widget
pub fn key_code_to_tui_key(key_code: KeyCode) -> (key: Key)
    ensures
        key == widget_key(key_code),
{
    match key_code {
        KeyCode::Backspace => Key::Backspace,
        KeyCode::Enter => Key::Enter,
        KeyCode::Left => Key::Left,
        KeyCode::Right => Key::Right,
        KeyCode::Up => Key::Up,
        KeyCode::Down => Key::Down,
        KeyCode::Home => Key::Home,
        KeyCode::End => Key::End,
        KeyCode::PageUp => Key::PageUp,
        KeyCode::PageDown => Key::PageDown,
        KeyCode::Tab => Key::Tab,
        KeyCode::Delete => Key::Delete,
        // BackTab and Insert are not supported by the text widget
        KeyCode::BackTab | KeyCode::Insert => Key::Null,
        KeyCode::Esc => Key::Esc,
        KeyCode::Char(c) => Key::Char(c),
        KeyCode::F(n) => Key::F(n),
        _ => Key::Null,
    }
}

/// What a key does while the current sheet waits to be read: Enter asks
/// for the sheet (or goes to `Normal` mode, if it is loaded after all),
/// `[` and `]` switch sheets, `:` opens the command line, and every other
/// key gives a hint.
pub open spec fn lazy_outcome(
    before: AppState,
    code: KeyCode,
    after: AppState,
    action: Action,
) -> bool {
    let quiet = action == Action::Nothing;
    let hint = quiet && after.said(
        before,
        "Press Enter to load the sheet data, or use [ and ] to switch sheets"@,
    );
    match code {
        KeyCode::Enter => if before.engine@.workbook.current_sheet().is_loaded {
            quiet && after == (AppState { input_mode: InputMode::Normal, ..before })
        } else {
            load_asked(before, false, after, action)
        },
        KeyCode::Char(c) => if c == '[' {
            quiet && if before.engine@.workbook.current == 0 {
                after.said(before, "Already at the first sheet"@)
            } else {
                after.switched_to(before, before.engine@.workbook.current as int - 1)
            }
        } else if c == ']' {
            quiet && if before.engine@.workbook.current + 1 >= before.engine@.workbook.sheets.len() {
                after.said(before, "Already at the last sheet"@)
            } else {
                after.switched_to(before, before.engine@.workbook.current as int + 1)
            }
        } else if c == ':' {
            quiet && after.line_cleared(before, InputMode::CommandInLazyLoading)
        } else {
            hint
        },
        _ => hint,
    }
}

fn say(app_state: &mut AppState, text: &str)
    ensures
        final(app_state).said(*old(app_state), text@),
{
    let message = text.to_owned();
    app_state.notifications.push(message);
    assert(app_state.notifications@.drop_last() =~= old(app_state).notifications@);
}

pub fn handle_lazy_loading_mode(app_state: &mut AppState, key_code: KeyCode) -> (action: Action)
    requires
        old(app_state).wf(),
    ensures
        final(app_state).wf(),
        lazy_outcome(*old(app_state), key_code, *final(app_state), action),
{
    match key_code {
        KeyCode::Enter => {
            let index = app_state.engine.workbook().get_current_sheet_index();
            if app_state.engine.workbook().is_sheet_loaded(index) {
                app_state.input_mode = InputMode::Normal;
                Action::Nothing
            } else {
                // Load the sheet
                ask_load(app_state, false)
            }
        },
        KeyCode::Char('[') => {
            // Switch to previous sheet
            let current_index = app_state.engine.workbook().get_current_sheet_index();
            if current_index == 0 {
                say(app_state, "Already at the first sheet");
            } else {
                // The mode becomes LazyLoading again if that sheet is not loaded
                let _ = app_state.switch_sheet_by_index(current_index - 1);
            }
            Action::Nothing
        },
        KeyCode::Char(']') => {
            // Switch to next sheet
            let current_index = app_state.engine.workbook().get_current_sheet_index();
            let sheet_count = app_state.engine.workbook().sheet_count();
            if current_index >= sheet_count - 1 {
                say(app_state, "Already at the last sheet");
            } else {
                let _ = app_state.switch_sheet_by_index(current_index + 1);
            }
            Action::Nothing
        },
        KeyCode::Char(':') => {
            // Allow entering command mode from lazy loading mode
            app_state.start_command_in_lazy_loading_mode();
            Action::Nothing
        },
        _ => {
            say(app_state, "Press Enter to load the sheet data, or use [ and ] to switch sheets");
            Action::Nothing
        },
    }
}

/// The greatest scroll offset of the help text: the number of its lines
/// that do not fit the window.
pub open spec fn max_help_scroll(state: AppState) -> int {
    if line_count(state.help_text@) > state.help_visible_lines {
        line_count(state.help_text@) - state.help_visible_lines
    } else {
        0
    }
}

/// What a key does in `Help` mode: Enter and Escape leave it, `j` and
/// `k` and the arrows scroll by a line, Home and End go to the top and to
/// the bottom.
pub open spec fn help_outcome(before: AppState, code: KeyCode, after: AppState) -> bool {
    let down = AppState {
        help_scroll: if before.help_scroll + 1 > max_help_scroll(before) {
            max_help_scroll(before) as usize
        } else {
            (before.help_scroll + 1) as usize
        },
        ..before
    };
    let up = AppState {
        help_scroll: if before.help_scroll == 0 {
            0
        } else {
            (before.help_scroll - 1) as usize
        },
        ..before
    };
    match code {
        KeyCode::Enter => after == (AppState { input_mode: InputMode::Normal, ..before }),
        KeyCode::Esc => after == (AppState { input_mode: InputMode::Normal, ..before }),
        KeyCode::Down => after == down,
        KeyCode::Up => after == up,
        KeyCode::Home => after == (AppState { help_scroll: 0, ..before }),
        KeyCode::End => after == (AppState {
            help_scroll: max_help_scroll(before) as usize,
            ..before
        }),
        KeyCode::Char(c) => if c == 'j' {
            after == down
        } else if c == 'k' {
            after == up
        } else {
            after == before
        },
        _ => after == before,
    }
}

pub fn handle_help_mode(app_state: &mut AppState, key_code: KeyCode)
    ensures
        help_outcome(*old(app_state), key_code, *final(app_state)),
{
    let lines = text_chars(app_state.help_text.as_str());
    let line_count = count_lines(&lines);
    let visible_lines = app_state.help_visible_lines;
    let max_scroll: usize = if line_count > visible_lines {
        line_count - visible_lines
    } else {
        0
    };
    match key_code {
        KeyCode::Enter | KeyCode::Esc => {
            app_state.input_mode = InputMode::Normal;
        },
        KeyCode::Char('j') | KeyCode::Down => {
            // Scroll down, but not beyond the last line
            app_state.help_scroll = if app_state.help_scroll >= max_scroll {
                max_scroll
            } else {
                app_state.help_scroll + 1
            };
        },
        KeyCode::Char('k') | KeyCode::Up => {
            // Scroll up
            app_state.help_scroll = if app_state.help_scroll == 0 {
                0
            } else {
                app_state.help_scroll - 1
            };
        },
        KeyCode::Home => {
            // Scroll to the top
            app_state.help_scroll = 0;
        },
        KeyCode::End => {
            // Scroll to the bottom
            app_state.help_scroll = max_scroll;
        },
        _ => {},
    }
}

/// What a key does: the mode picks the handler. In `Normal` mode a key
/// with the control key or the command key goes to a handler of its own.
pub open spec fn key_outcome(before: AppState, key: KeyEvent, after: AppState, action: Action) -> bool {
    match before.input_mode {
        InputMode::Normal => if key.modifiers.control || key.modifiers.super_key {
            ctrl_outcome(before, key.code, after) && action == Action::Nothing
        } else {
            normal_outcome(before, key.code, after, action)
        },
        InputMode::Editing => editing_outcome(before, key, after, action),
        InputMode::Command => command_outcome(before, key.code, after, action),
        InputMode::CommandInLazyLoading => lazy_command_outcome(before, key.code, after, action),
        InputMode::SearchForward => search_outcome(before, key.code, after, action),
        InputMode::SearchBackward => search_outcome(before, key.code, after, action),
        InputMode::Help => help_outcome(before, key.code, after) && action == Action::Nothing,
        InputMode::LazyLoading => lazy_outcome(before, key.code, after, action),
    }
}

/// Takes one key: the state changes as the key asks in the current mode,
/// and what is left to do outside is returned.
pub fn handle_key_event(app_state: &mut AppState, key: KeyEvent) -> (action: Action)
    requires
        old(app_state).wf(),
    ensures
        final(app_state).wf(),
        key_outcome(*old(app_state), key, *final(app_state), action),
{
    match app_state.input_mode {
        InputMode::Normal => {
            if key.modifiers.control || key.modifiers.super_key {
                handle_ctrl_key(app_state, key.code);
                Action::Nothing
            } else {
                handle_normal_mode(app_state, key.code)
            }
        },
        InputMode::Editing => handle_editing_mode(app_state, key),
        InputMode::Command => handle_command_mode(app_state, key.code),
        InputMode::CommandInLazyLoading => handle_command_in_lazy_loading_mode(
            app_state,
            key.code,
        ),
        InputMode::SearchForward => handle_search_mode(app_state, key.code),
        InputMode::SearchBackward => handle_search_mode(app_state, key.code),
        InputMode::Help => {
            handle_help_mode(app_state, key.code);
            Action::Nothing
        },
        InputMode::LazyLoading => handle_lazy_loading_mode(app_state, key.code),
    }
}

} // verus!
