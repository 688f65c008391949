//! The command line, the sheets, and what comes back from the work that
//! the program around the engine does for it.

use crate::actions::history::{redone, undone};
use crate::actions::types::{ActionCommand, ActionType};
use crate::error::{error_text, EngineError};
use crate::excel::{fetched_view, loaded, typed_cell};
use crate::model::WorkbookView;
use crate::source::SourceCell;
use crate::state::cursor::stepped;
use crate::state::{AppState, InputMode};
use crate::text::{chars_equal, pop_char, push_char, text_chars};
use crate::ui::keys::Input;
use calamine::{DataType, Range};
use vstd::prelude::*;
use vstd::string::StringExecFns;

verus! {

/// What the program around the engine has to do after a key, or after it
/// handed back the outcome of such work.
#[derive(Debug, PartialEq)]
pub enum Action {
    /// Nothing is left to do.
    Nothing,
    /// Show this text in the text widget, ready for typing.
    BeginEdit(String),
    /// Hand the key to the text widget.
    Forward(Input),
    /// Hand the text of the widget to `confirm_edit`.
    ConfirmEdit,
    /// Hand the text of the widget to `execute_search`.
    ConfirmSearch,
    /// Empty the text widget.
    ClearEditor,
    /// Read the named sheet from the file and hand what came of it to
    /// `finish_load`, with the same index, name and `then_edit`.
    LoadSheet { index: usize, name: String, then_edit: bool },
    /// Write what `export_sheets` gives to the file and hand the outcome to
    /// `finish_save`, with the same `then_quit`.
    Save { then_quit: bool },
    /// End the program.
    Quit,
}

/// The commands of the command line.
#[derive(Clone, Copy, Debug, PartialEq, Eq, Structural)]
pub enum Command {
    Write,
    WriteQuit,
    Quit,
    ForceQuit,
    Copy,
    Cut,
    Paste,
    DeleteRow,
    DeleteColumn,
    DeleteSheet,
    ClearSearch,
    Help,
    Unknown,
}

/// The command that a line of text stands for.
pub open spec fn command_of(text: Seq<char>) -> Command {
    if text == "w"@ {
        Command::Write
    } else if text == "wq"@ || text == "x"@ {
        Command::WriteQuit
    } else if text == "q"@ {
        Command::Quit
    } else if text == "q!"@ {
        Command::ForceQuit
    } else if text == "y"@ {
        Command::Copy
    } else if text == "d"@ {
        Command::Cut
    } else if text == "put"@ || text == "pu"@ {
        Command::Paste
    } else if text == "dr"@ {
        Command::DeleteRow
    } else if text == "dc"@ {
        Command::DeleteColumn
    } else if text == "delsheet"@ {
        Command::DeleteSheet
    } else if text == "nohlsearch"@ || text == "noh"@ {
        Command::ClearSearch
    } else if text == "help"@ {
        Command::Help
    } else {
        Command::Unknown
    }
}

fn is_word(chars: &Vec<char>, word: &str) -> (same: bool)
    ensures
        same == (chars@ == word@),
{
    let letters = text_chars(word);
    chars_equal(chars, &letters)
}

/// The command that a line of text stands for.
pub fn parse_command(text: &str) -> (command: Command)
    ensures
        command == command_of(text@),
{
    let chars = text_chars(text);
    if is_word(&chars, "w") {
        Command::Write
    } else if is_word(&chars, "wq") || is_word(&chars, "x") {
        Command::WriteQuit
    } else if is_word(&chars, "q") {
        Command::Quit
    } else if is_word(&chars, "q!") {
        Command::ForceQuit
    } else if is_word(&chars, "y") {
        Command::Copy
    } else if is_word(&chars, "d") {
        Command::Cut
    } else if is_word(&chars, "put") || is_word(&chars, "pu") {
        Command::Paste
    } else if is_word(&chars, "dr") {
        Command::DeleteRow
    } else if is_word(&chars, "dc") {
        Command::DeleteColumn
    } else if is_word(&chars, "delsheet") {
        Command::DeleteSheet
    } else if is_word(&chars, "nohlsearch") || is_word(&chars, "noh") {
        Command::ClearSearch
    } else if is_word(&chars, "help") {
        Command::Help
    } else {
        Command::Unknown
    }
}

/// The text of the failure that reading sheet `index` ends with, if it
/// fails: there is no such sheet, or the sheet had to be read and the read
/// failed.
pub open spec fn load_failure(
    wb: WorkbookView,
    index: int,
    name: Seq<char>,
    fetched: Result<Seq<Seq<SourceCell>>, Seq<char>>,
) -> Option<Seq<char>> {
    if !(0 <= index < wb.sheets.len()) {
        Some(error_text(EngineError::OutOfRange))
    } else if !wb.sheets[index].is_loaded && fetched is Err {
        Some("Unable to read worksheet "@ + name + ": "@ + fetched->Err_0)
    } else {
        None
    }
}

impl AppState {
    /// This state is `before` with one notification more, which reads
    /// `text`; the workbook and the history hold what they held.
    pub open spec fn said(self, before: AppState, text: Seq<char>) -> bool {
        &&& self.engine@ == before.engine@
        &&& self.same_ui(AppState { notifications: self.notifications, ..before })
        &&& self.notifications@.len() == before.notifications@.len() + 1
        &&& self.notifications@.drop_last() == before.notifications@
        &&& self.notifications@.last()@ == text
    }

    /// An operation failed with `e`: nothing changed, and a notification
    /// of `prefix` and the failure's text was added.
    pub open spec fn failed_with(self, before: AppState, prefix: Seq<char>, e: EngineError) -> bool {
        self.said(before, prefix + error_text(e))
    }

    /// The cursor moved by the given numbers of rows and columns.
    pub open spec fn moved_by(self, before: AppState, rows: int, cols: int) -> bool {
        &&& self.moved_from(before)
        &&& self.selected_cell.0 == stepped(
            before.selected_cell.0 as int,
            rows,
            before.sheet().max_rows as int,
        )
        &&& self.selected_cell.1 == stepped(
            before.selected_cell.1 as int,
            cols,
            before.sheet().max_cols as int,
        )
    }

    /// Undo was tried: it took back the last command, or it failed and
    /// said so.
    pub open spec fn undo_tried(self, before: AppState) -> bool {
        match undone(before.engine@) {
            Ok(e) => e == self.engine@ && self.cursor_kept(before) && self.same_ui_but_cursor(
                before,
            ),
            Err(e) => self.failed_with(before, "Undo failed: "@, e),
        }
    }

    /// Redo was tried: it applied the command again, or it failed and said
    /// so.
    pub open spec fn redo_tried(self, before: AppState) -> bool {
        match redone(before.engine@) {
            Ok(e) => e == self.engine@ && self.cursor_kept(before) && self.same_ui_but_cursor(
                before,
            ),
            Err(e) => self.failed_with(before, "Redo failed: "@, e),
        }
    }

    /// Cut was tried.
    pub open spec fn cut_tried(self, before: AppState) -> bool {
        if before.cursor_allocated() {
            &&& self.changed_cell(before, typed_cell(Seq::empty()), ActionType::Cut)
            &&& self.clipboard is Some
            &&& self.clipboard->0@ == before.cursor_cell()
            &&& self.same_ui(AppState { clipboard: self.clipboard, ..before })
        } else {
            self.failed_with(before, "Cut failed: "@, EngineError::OutOfRange)
        }
    }

    /// Paste was tried.
    pub open spec fn paste_tried(self, before: AppState) -> bool {
        if before.clipboard is None {
            self.failed_with(before, "Paste failed: "@, EngineError::EmptyClipboard)
        } else if !before.cursor_allocated() {
            self.failed_with(before, "Paste failed: "@, EngineError::OutOfRange)
        } else {
            self.changed_cell(before, before.clipboard->0@, ActionType::Paste) && self.same_ui(
                before,
            )
        }
    }

    /// The copy of the cell under the cursor went to the clipboard.
    pub open spec fn copied(self, before: AppState) -> bool {
        &&& self == (AppState { clipboard: self.clipboard, ..before })
        &&& if before.cursor_allocated() {
            self.clipboard is Some && self.clipboard->0@ == before.cursor_cell()
        } else {
            self.clipboard == before.clipboard
        }
    }

    /// Sheet `index` became current: the cursor stands on its first cell,
    /// the matches of the last search are dropped, and the mode is the one
    /// that the sheet is entered in.
    pub open spec fn switched_to(self, before: AppState, index: int) -> bool {
        &&& self.engine@.workbook == (WorkbookView { current: index as nat, ..before.engine@.workbook })
        &&& self.engine@.history == before.engine@.history
        &&& self.search_results@.len() == 0
        &&& self.same_ui(
            AppState {
                selected_cell: (1, 1),
                input_mode: self.entry_mode(),
                search_results: self.search_results,
                ..before
            },
        )
    }

    /// A switch to sheet `index` was tried.
    pub open spec fn switch_tried(self, before: AppState, index: int, prefix: Seq<char>) -> bool {
        if 0 <= index < before.engine@.workbook.sheets.len() {
            self.switched_to(before, index)
        } else {
            self.failed_with(before, prefix, EngineError::OutOfRange)
        }
    }

    /// Editing began: the mode is `Editing`, and the text of the cell under
    /// the cursor goes to the widget.
    pub open spec fn began_edit(self, before: AppState, action: Action) -> bool {
        &&& self == (AppState { input_mode: InputMode::Editing, ..before })
        &&& action matches Action::BeginEdit(text)
        &&& text@ == if before.cursor_allocated() {
            before.cursor_cell().value
        } else {
            Seq::empty()
        }
    }

    /// The row under the cursor was deleted, or the attempt failed.
    pub open spec fn row_delete_tried(self, before: AppState) -> bool {
        if before.sheet().has_rows(seq![before.selected_cell.0]) {
            &&& self.did_command(before)
            &&& self.last_command() matches ActionCommand::Row(a)
            &&& a.row == before.selected_cell.0
            &&& a.sheet_name@ == before.sheet().name
            &&& self.cursor_kept(before)
            &&& self.same_ui_but_cursor(before)
        } else {
            self.failed_with(before, "Delete failed: "@, EngineError::OutOfRange)
        }
    }

    /// The column under the cursor was deleted, or the attempt failed.
    pub open spec fn column_delete_tried(self, before: AppState) -> bool {
        if before.sheet().has_columns(seq![before.selected_cell.1]) {
            &&& self.did_command(before)
            &&& self.last_command() matches ActionCommand::Column(a)
            &&& a.col == before.selected_cell.1
            &&& a.sheet_name@ == before.sheet().name
            &&& self.cursor_kept(before)
            &&& self.same_ui_but_cursor(before)
        } else {
            self.failed_with(before, "Delete failed: "@, EngineError::OutOfRange)
        }
    }

    /// The current sheet was deleted, or the attempt failed.
    pub open spec fn sheet_delete_tried(self, before: AppState) -> bool {
        if before.engine@.workbook.sheets.len() > 1 {
            &&& self.did_command(before)
            &&& self.last_command() matches ActionCommand::Sheet(a)
            &&& a.sheet_name@ == before.sheet().name
            &&& self.same_ui(
                AppState { selected_cell: (1, 1), input_mode: self.entry_mode(), ..before },
            )
        } else {
            self.failed_with(before, "Delete failed: "@, EngineError::LastSheet)
        }
    }

    /// Everything but the command line and the mode is as in `before`, and
    /// the command line is empty.
    pub open spec fn line_cleared(self, before: AppState, mode: InputMode) -> bool {
        &&& self.input_buffer@.len() == 0
        &&& self == (AppState { input_mode: mode, input_buffer: self.input_buffer, ..before })
    }

    pub fn start_command_mode(&mut self)
        ensures
            final(self).line_cleared(*old(self), InputMode::Command),
    {
        self.input_mode = InputMode::Command;
        self.input_buffer = String::new();
    }

    /// Opens the command line while the current sheet waits to be read.
    pub fn start_command_in_lazy_loading_mode(&mut self)
        ensures
            final(self).line_cleared(*old(self), InputMode::CommandInLazyLoading),
    {
        self.input_mode = InputMode::CommandInLazyLoading;
        self.input_buffer = String::new();
    }

    pub fn start_search_forward(&mut self)
        ensures
            final(self).line_cleared(*old(self), InputMode::SearchForward),
    {
        self.input_mode = InputMode::SearchForward;
        self.input_buffer = String::new();
    }

    pub fn start_search_backward(&mut self)
        ensures
            final(self).line_cleared(*old(self), InputMode::SearchBackward),
    {
        self.input_mode = InputMode::SearchBackward;
        self.input_buffer = String::new();
    }

    /// Leaves the command line: back to `Normal` mode, the line empty.
    pub fn cancel_input(&mut self)
        ensures
            final(self).line_cleared(*old(self), InputMode::Normal),
    {
        self.input_mode = InputMode::Normal;
        self.input_buffer = String::new();
    }

    pub fn add_char_to_input(&mut self, c: char)
        ensures
            final(self).input_buffer@ == old(self).input_buffer@.push(c),
            *final(self) == (AppState { input_buffer: final(self).input_buffer, ..*old(self) }),
    {
        push_char(&mut self.input_buffer, c);
    }

    /// Removes the last character of the command line, if there is one.
    pub fn delete_char_from_input(&mut self)
        ensures
            final(self).input_buffer@ == if old(self).input_buffer@.len() > 0 {
                old(self).input_buffer@.drop_last()
            } else {
                old(self).input_buffer@
            },
            *final(self) == (AppState { input_buffer: final(self).input_buffer, ..*old(self) }),
    {
        let _ = pop_char(&mut self.input_buffer);
    }

    /// Begins to edit the cell under the cursor.
    pub fn start_editing(&mut self) -> (action: Action)
        requires
            old(self).wf(),
        ensures
            final(self).began_edit(*old(self), action),
    {
        let text = match self.cell_at_cursor() {
            Some(cell) => cell.value,
            None => String::new(),
        };
        self.input_mode = InputMode::Editing;
        Action::BeginEdit(text)
    }

    /// This state arose from `before` when the edit was confirmed with
    /// `text`.
    pub open spec fn edit_confirmed(self, before: AppState, text: Seq<char>, action: Action) -> bool {
        if before.cursor_allocated() {
            &&& self.changed_cell(before, typed_cell(text), ActionType::Edit)
            &&& self.same_ui(AppState { input_mode: InputMode::Normal, ..before })
            &&& action == Action::ClearEditor
        } else {
            self.failed_with(before, "Edit failed: "@, EngineError::OutOfRange) && action
                == Action::Nothing
        }
    }

    /// Ends the edit with the text that was typed: the text goes into the
    /// cell under the cursor, as a command, and the mode is `Normal` again.
    /// Where the cell cannot take it, the mode stays and a notification
    /// says so.
    pub fn confirm_edit(&mut self, text: String) -> (action: Action)
        requires
            old(self).wf(),
        ensures
            final(self).wf(),
            final(self).edit_confirmed(*old(self), text@, action),
    {
        match self.edit_cell(text) {
            Ok(_) => {
                self.input_mode = InputMode::Normal;
                Action::ClearEditor
            },
            Err(e) => {
                self.report("Edit failed: ", &e);
                Action::Nothing
            },
        }
    }

    /// Makes sheet `index` current. The sheet is not read for it: a sheet
    /// that waits to be read is entered in `LazyLoading` mode.
    pub fn switch_sheet_by_index(&mut self, index: usize) -> (res: Result<(), EngineError>)
        requires
            old(self).wf(),
        ensures
            final(self).wf(),
            match res {
                Ok(_) => index < old(self).engine@.workbook.sheets.len() && final(self).switched_to(
                    *old(self),
                    index as int,
                ),
                Err(e) => e == EngineError::OutOfRange && index >= old(self).engine@.workbook.sheets.len()
                    && final(self).same_as(*old(self)),
            },
    {
        match self.engine.switch_sheet(index) {
            Err(e) => Err(e),
            Ok(_) => {
                self.selected_cell = (1, 1);
                self.search_results = Vec::new();
                self.input_mode = if self.is_sheet_pending() {
                    InputMode::LazyLoading
                } else {
                    InputMode::Normal
                };
                Ok(())
            },
        }
    }

    /// Makes the sheet behind the current one current.
    pub fn next_sheet(&mut self) -> (res: Result<(), EngineError>)
        requires
            old(self).wf(),
        ensures
            final(self).wf(),
            match res {
                Ok(_) => old(self).engine@.workbook.current + 1 < old(self).engine@.workbook.sheets.len()
                    && final(self).switched_to(*old(self), old(self).engine@.workbook.current as int + 1),
                Err(e) => e == EngineError::OutOfRange && old(self).engine@.workbook.current + 1
                    >= old(self).engine@.workbook.sheets.len() && final(self).same_as(*old(self)),
            },
    {
        let index = self.engine.workbook().get_current_sheet_index();
        let count = self.engine.workbook().sheet_count();
        if index + 1 >= count {
            return Err(EngineError::OutOfRange);
        }
        self.switch_sheet_by_index(index + 1)
    }

    /// Makes the sheet before the current one current.
    pub fn prev_sheet(&mut self) -> (res: Result<(), EngineError>)
        requires
            old(self).wf(),
        ensures
            final(self).wf(),
            match res {
                Ok(_) => old(self).engine@.workbook.current > 0 && final(self).switched_to(
                    *old(self),
                    old(self).engine@.workbook.current - 1,
                ),
                Err(e) => e == EngineError::OutOfRange && old(self).engine@.workbook.current == 0
                    && final(self).same_as(*old(self)),
            },
    {
        let index = self.engine.workbook().get_current_sheet_index();
        if index == 0 {
            return Err(EngineError::OutOfRange);
        }
        self.switch_sheet_by_index(index - 1)
    }

    /// This state arose from `before` when the outcome of reading sheet
    /// `index` came back.
    pub open spec fn load_finished(
        self,
        before: AppState,
        index: int,
        name: Seq<char>,
        fetched: Result<Seq<Seq<SourceCell>>, Seq<char>>,
        then_edit: bool,
        action: Action,
    ) -> bool {
        &&& self.engine@.workbook == loaded(before.engine@.workbook, index, name, fetched)
        &&& self.engine@.history == before.engine@.history
        &&& match load_failure(before.engine@.workbook, index, name, fetched) {
            Some(text) => action == Action::Nothing && self.said(
                before,
                "Failed to load sheet: "@ + text,
            ),
            None => if then_edit {
                &&& self.same_ui(AppState { input_mode: InputMode::Editing, ..before })
                &&& action matches Action::BeginEdit(text)
                &&& text@ == if self.cursor_allocated() {
                    self.cursor_cell().value
                } else {
                    Seq::empty()
                }
            } else {
                &&& self.same_ui(AppState { input_mode: InputMode::Normal, ..before })
                &&& action == Action::Nothing
            },
        }
    }

    /// A read that fails changes nothing but the notifications: the sheet
    /// stays as it was, and so do the mode and the cursor.
    pub proof fn lemma_failed_load_changes_nothing(
        self,
        before: AppState,
        index: int,
        name: Seq<char>,
        fetched: Result<Seq<Seq<SourceCell>>, Seq<char>>,
        then_edit: bool,
        action: Action,
    )
        requires
            self.load_finished(before, index, name, fetched, then_edit, action),
            load_failure(before.engine@.workbook, index, name, fetched) is Some,
        ensures
            self.engine@ == before.engine@,
            self.input_mode == before.input_mode,
            self.selected_cell == before.selected_cell,
            self.notifications@.len() == before.notifications@.len() + 1,
            action == Action::Nothing,
    {
    }

    /// Takes the outcome of reading sheet `index` from the file. A range
    /// that was read becomes the sheet, unless the sheet is loaded already;
    /// a failure becomes a notification and changes nothing else, the mode
    /// neither. A success leads on to editing the cell under the cursor
    /// with `then_edit`, and to `Normal` mode without it.
    pub fn finish_load(
        &mut self,
        index: usize,
        name: &str,
        fetched: Result<Range<DataType>, String>,
        then_edit: bool,
    ) -> (action: Action)
        requires
            old(self).wf(),
        ensures
            final(self).wf(),
            final(self).load_finished(
                *old(self),
                index as int,
                name@,
                fetched_view(fetched),
                then_edit,
                action,
            ),
    {
        let res = self.engine.load(index, name, fetched);
        match res {
            Err(e) => {
                self.report("Failed to load sheet: ", &e);
                Action::Nothing
            },
            Ok(_) => {
                if then_edit {
                    self.start_editing()
                } else {
                    self.input_mode = InputMode::Normal;
                    Action::Nothing
                }
            },
        }
    }

    /// Takes what reading sheet `index` gave, where the sheet is read only
    /// to be written out with the others: the sheet is loaded as by
    /// `finish_load`, and nothing else changes, no notification is added.
    pub fn load_for_save(
        &mut self,
        index: usize,
        name: &str,
        fetched: Result<Range<DataType>, String>,
    ) -> (res: Result<(), EngineError>)
        requires
            old(self).wf(),
        ensures
            final(self).wf(),
            final(self).engine@.workbook == loaded(
                old(self).engine@.workbook,
                index as int,
                name@,
                fetched_view(fetched),
            ),
            final(self).engine@.history == old(self).engine@.history,
            final(self).same_ui(*old(self)),
            res is Err <==> load_failure(
                old(self).engine@.workbook,
                index as int,
                name@,
                fetched_view(fetched),
            ) is Some,
            res matches Err(e) ==> Some(error_text(e)) == load_failure(
                old(self).engine@.workbook,
                index as int,
                name@,
                fetched_view(fetched),
            ),
    {
        self.engine.load(index, name, fetched)
    }

    /// This state arose from `before` when the outcome of writing the file
    /// came back.
    pub open spec fn save_finished(
        self,
        before: AppState,
        written: Result<(), Seq<char>>,
        then_quit: bool,
        action: Action,
    ) -> bool {
        match written {
            Ok(_) => {
                &&& self.engine@.workbook == (WorkbookView { is_modified: false, ..before.engine@.workbook })
                &&& self.engine@.history == before.engine@.history
                &&& self.same_ui(before)
                &&& action == if then_quit {
                    Action::Quit
                } else {
                    Action::Nothing
                }
            },
            Err(cause) => self.said(before, "Unable to save: "@ + cause) && action == Action::Nothing,
        }
    }

    /// Takes the outcome of writing the file: a success clears the
    /// modified flag and, with `then_quit`, ends the program; a failure
    /// becomes a notification and changes nothing else.
    pub fn finish_save(&mut self, written: Result<(), String>, then_quit: bool) -> (action: Action)
        requires
            old(self).wf(),
        ensures
            final(self).wf(),
            final(self).save_finished(
                *old(self),
                match written {
                    Ok(_) => Ok(()),
                    Err(cause) => Err(cause@),
                },
                then_quit,
                action,
            ),
    {
        match self.engine.save(written) {
            Ok(_) => {
                if then_quit {
                    Action::Quit
                } else {
                    Action::Nothing
                }
            },
            Err(e) => {
                self.report("", &e);
                assert(""@ + error_text(e) =~= error_text(e)) by {
                    reveal_strlit("");
                }
                Action::Nothing
            },
        }
    }

    /// What a command does to `ready`, the state in `Normal` mode before
    /// the command: `self` is the state after it.
    pub open spec fn command_done(self, ready: AppState, command: Command, action: Action) -> bool {
        match command {
            Command::Write => self == ready && action == (Action::Save { then_quit: false }),
            Command::WriteQuit => self == ready && action == (Action::Save { then_quit: true }),
            Command::Quit => if ready.engine@.workbook.is_modified {
                self.said(ready, "No write since last change (add ! to override)"@) && action
                    == Action::Nothing
            } else {
                self == ready && action == Action::Quit
            },
            Command::ForceQuit => self == ready && action == Action::Quit,
            Command::Copy => self.copied(ready) && action == Action::Nothing,
            Command::Cut => self.cut_tried(ready) && action == Action::Nothing,
            Command::Paste => self.paste_tried(ready) && action == Action::Nothing,
            Command::DeleteRow => self.row_delete_tried(ready) && action == Action::Nothing,
            Command::DeleteColumn => self.column_delete_tried(ready) && action == Action::Nothing,
            Command::DeleteSheet => self.sheet_delete_tried(ready) && action == Action::Nothing,
            Command::ClearSearch => {
                &&& self.search_results@.len() == 0
                &&& self == (AppState { search_results: self.search_results, ..ready })
                &&& action == Action::Nothing
            },
            Command::Help => self == (AppState {
                input_mode: InputMode::Help,
                help_scroll: 0,
                ..ready
            }) && action == Action::Nothing,
            Command::Unknown => self.said(ready, "Unknown command: "@ + ready.input_buffer@)
                && action == Action::Nothing,
        }
    }

    /// This state arose from `before` by running the command line: the
    /// mode went back to `Normal`, the command of the line was run, and the
    /// line was emptied.
    pub open spec fn command_executed(self, before: AppState, action: Action) -> bool {
        &&& self.input_buffer@.len() == 0
        &&& (AppState { input_buffer: before.input_buffer, ..self }).command_done(
            AppState { input_mode: InputMode::Normal, ..before },
            command_of(before.input_buffer@),
            action,
        )
    }

    /// Runs the command that the command line holds.
    pub fn execute_command(&mut self) -> (action: Action)
        requires
            old(self).wf(),
        ensures
            final(self).wf(),
            final(self).command_executed(*old(self), action),
    {
        self.input_mode = InputMode::Normal;
        let command = parse_command(self.input_buffer.as_str());
        let action = match command {
            Command::Write => Action::Save { then_quit: false },
            Command::WriteQuit => Action::Save { then_quit: true },
            Command::Quit => {
                if self.engine.workbook().is_modified() {
                    let message = "No write since last change (add ! to override)".to_owned();
                    self.notifications.push(message);
                    assert(self.notifications@.drop_last() =~= old(self).notifications@);
                    Action::Nothing
                } else {
                    Action::Quit
                }
            },
            Command::ForceQuit => Action::Quit,
            Command::Copy => {
                self.copy_cell();
                Action::Nothing
            },
            Command::Cut => {
                match self.cut_cell() {
                    Ok(_) => {},
                    Err(e) => {
                        self.report("Cut failed: ", &e);
                    },
                }
                Action::Nothing
            },
            Command::Paste => {
                match self.paste_cell() {
                    Ok(_) => {},
                    Err(e) => {
                        self.report("Paste failed: ", &e);
                    },
                }
                Action::Nothing
            },
            Command::DeleteRow => {
                match self.delete_row(self.selected_cell.0) {
                    Ok(_) => {},
                    Err(e) => {
                        self.report("Delete failed: ", &e);
                    },
                }
                Action::Nothing
            },
            Command::DeleteColumn => {
                match self.delete_column(self.selected_cell.1) {
                    Ok(_) => {},
                    Err(e) => {
                        self.report("Delete failed: ", &e);
                    },
                }
                Action::Nothing
            },
            Command::DeleteSheet => {
                match self.delete_sheet() {
                    Ok(_) => {},
                    Err(e) => {
                        self.report("Delete failed: ", &e);
                    },
                }
                Action::Nothing
            },
            Command::ClearSearch => {
                self.search_results = Vec::new();
                Action::Nothing
            },
            Command::Help => {
                self.input_mode = InputMode::Help;
                self.help_scroll = 0;
                Action::Nothing
            },
            Command::Unknown => {
                let mut message = "Unknown command: ".to_owned();
                message.append(self.input_buffer.as_str());
                self.notifications.push(message);
                assert(self.notifications@.drop_last() =~= old(self).notifications@);
                Action::Nothing
            },
        };
        self.input_buffer = String::new();
        action
    }
}

} // verus!
