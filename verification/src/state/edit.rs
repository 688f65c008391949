//! The changes of the workbook: each is recorded as a command before it
//! counts as done, and can be undone.

use crate::actions::engine::{cell_put, did_new};
use crate::actions::history::{redone, undone, EngineView};
use crate::actions::types::{ActionCommand, ActionType};
use crate::error::EngineError;
use crate::excel::{cell_from_text, lemma_grid_view, typed_cell, Cell, CellView};
use crate::state::cursor::{step, stepped};
use crate::state::{AppState, InputMode};
use vstd::prelude::*;

verus! {

impl AppState {
    /// The grid of the current sheet has room for a cell under the cursor.
    pub open spec fn cursor_allocated(self) -> bool {
        self.sheet().allocated(self.selected_cell.0 as int, self.selected_cell.1 as int)
    }

    /// The cell under the cursor.
    pub open spec fn cursor_cell(self) -> CellView {
        self.sheet().data[self.selected_cell.0 as int][self.selected_cell.1 as int]
    }

    /// The command that was done last.
    pub open spec fn last_command(self) -> ActionCommand {
        self.engine@.history.undo.last()
    }

    /// This state arose from `before` by a new command on the current
    /// sheet: the command was made for the workbook of `before`, it was
    /// applied, it is the last one done, and nothing is left to redo.
    pub open spec fn did_command(self, before: AppState) -> bool {
        did_new(self.engine@, before.engine@)
    }

    /// This state arose from `before` by putting `new_value` under the
    /// cursor, as a command of the given type.
    pub open spec fn changed_cell(
        self,
        before: AppState,
        new_value: CellView,
        action_type: ActionType,
    ) -> bool {
        cell_put(
            self.engine@,
            before.engine@,
            before.selected_cell.0 as int,
            before.selected_cell.1 as int,
            new_value,
            action_type,
        )
    }

    /// The cursor is that of `before`, brought back into the populated
    /// region of the current sheet of this state.
    pub open spec fn cursor_kept(self, before: AppState) -> bool {
        &&& self.selected_cell.0 == stepped(
            before.selected_cell.0 as int,
            0,
            self.sheet().max_rows as int,
        )
        &&& self.selected_cell.1 == stepped(
            before.selected_cell.1 as int,
            0,
            self.sheet().max_cols as int,
        )
    }

    /// Everything but the workbook, the history and the cursor is as in
    /// `before`.
    pub open spec fn same_ui_but_cursor(self, before: AppState) -> bool {
        self.same_ui(AppState { selected_cell: self.selected_cell, ..before })
    }

    fn change_cell(&mut self, new_value: Cell, action_type: ActionType) -> (res: Result<
        (),
        EngineError,
    >)
        requires
            old(self).wf(),
        ensures
            final(self).wf(),
            final(self).same_ui(*old(self)),
            match res {
                Ok(_) => final(self).changed_cell(*old(self), new_value@, action_type),
                Err(e) => e == EngineError::OutOfRange && !old(self).cursor_allocated()
                    && final(self).engine@ == old(self).engine@,
            },
    {
        self.engine.put_cell(self.selected_cell.0, self.selected_cell.1, new_value, action_type)
    }

    /// Whether the grid of the current sheet has room for a cell under the
    /// cursor.
    pub fn is_cursor_allocated(&self) -> (b: bool)
        requires
            self.wf(),
        ensures
            b == self.cursor_allocated(),
    {
        let sheet = self.engine.workbook().get_current_sheet();
        proof {
            lemma_grid_view(sheet.data@);
        }
        self.selected_cell.0 < sheet.data.len() && self.selected_cell.1 < sheet.data[0].len()
    }

    /// A copy of the cell under the cursor, if the grid has one there.
    pub fn cell_at_cursor(&self) -> (cell: Option<Cell>)
        requires
            self.wf(),
        ensures
            match cell {
                Some(c) => self.cursor_allocated() && c@ == self.cursor_cell(),
                None => !self.cursor_allocated(),
            },
    {
        if !self.is_cursor_allocated() {
            return None;
        }
        let sheet = self.engine.workbook().get_current_sheet();
        proof {
            lemma_grid_view(sheet.data@);
            assert(sheet@.data[self.selected_cell.0 as int].len() == sheet@.width());
        }
        Some(sheet.data[self.selected_cell.0][self.selected_cell.1].clone())
    }

    /// Puts the cell under the cursor on the clipboard. Nothing is recorded
    /// for undo. Without a cell there the clipboard stays as it is.
    pub fn copy_cell(&mut self)
        requires
            old(self).wf(),
        ensures
            final(self).wf(),
            *final(self) == (AppState { clipboard: final(self).clipboard, ..*old(self) }),
            if old(self).cursor_allocated() {
                final(self).clipboard is Some && final(self).clipboard->0@ == old(
                    self,
                ).cursor_cell()
            } else {
                final(self).clipboard == old(self).clipboard
            },
    {
        match self.cell_at_cursor() {
            Some(cell) => {
                self.clipboard = Some(cell);
            },
            None => {},
        }
    }

    /// Puts the cell under the cursor on the clipboard and empties it, as a
    /// command of type `Cut`.
    pub fn cut_cell(&mut self) -> (res: Result<(), EngineError>)
        requires
            old(self).wf(),
        ensures
            final(self).wf(),
            match res {
                Ok(_) => {
                    &&& final(self).changed_cell(
                        *old(self),
                        typed_cell(Seq::empty()),
                        ActionType::Cut,
                    )
                    &&& final(self).clipboard is Some
                    &&& final(self).clipboard->0@ == old(self).cursor_cell()
                    &&& final(self).same_ui(
                        AppState { clipboard: final(self).clipboard, ..*old(self) },
                    )
                },
                Err(e) => e == EngineError::OutOfRange && !old(self).cursor_allocated()
                    && final(self).same_as(*old(self)),
            },
    {
        match self.cell_at_cursor() {
            None => Err(EngineError::OutOfRange),
            Some(cell) => {
                self.clipboard = Some(cell);
                self.change_cell(cell_from_text(String::new()), ActionType::Cut)
            },
        }
    }

    /// Puts the cell of the clipboard under the cursor, as a command of
    /// type `Paste`. Without anything copied or cut it fails.
    pub fn paste_cell(&mut self) -> (res: Result<(), EngineError>)
        requires
            old(self).wf(),
        ensures
            final(self).wf(),
            final(self).same_ui(*old(self)),
            match res {
                Ok(_) => old(self).clipboard is Some && final(self).changed_cell(
                    *old(self),
                    old(self).clipboard->0@,
                    ActionType::Paste,
                ),
                Err(e) => {
                    &&& final(self).engine@ == old(self).engine@
                    &&& e == if old(self).clipboard is None {
                        EngineError::EmptyClipboard
                    } else {
                        EngineError::OutOfRange
                    }
                    &&& old(self).clipboard is None || !old(self).cursor_allocated()
                },
            },
    {
        let pasted = match &self.clipboard {
            None => {
                return Err(EngineError::EmptyClipboard);
            },
            Some(cell) => cell.clone(),
        };
        self.change_cell(pasted, ActionType::Paste)
    }

    /// Puts the typed text under the cursor, as a command of type `Edit`.
    pub fn edit_cell(&mut self, text: String) -> (res: Result<(), EngineError>)
        requires
            old(self).wf(),
        ensures
            final(self).wf(),
            final(self).same_ui(*old(self)),
            match res {
                Ok(_) => final(self).changed_cell(*old(self), typed_cell(text@), ActionType::Edit),
                Err(e) => e == EngineError::OutOfRange && !old(self).cursor_allocated()
                    && final(self).engine@ == old(self).engine@,
            },
    {
        self.change_cell(cell_from_text(text), ActionType::Edit)
    }

    /// Brings the cursor back into the populated region of the current
    /// sheet.
    pub fn keep_cursor(&mut self)
        requires
            old(self).wf(),
        ensures
            final(self).cursor_kept(*old(self)),
            final(self).moved_from(*old(self)),
    {
        let sheet = self.engine.workbook().get_current_sheet();
        let row = step(self.selected_cell.0, 0, sheet.max_rows);
        let col = step(self.selected_cell.1, 0, sheet.max_cols);
        self.selected_cell = (row, col);
    }

    /// Deletes one row of the current sheet, as a command.
    pub fn delete_row(&mut self, row: usize) -> (res: Result<(), EngineError>)
        requires
            old(self).wf(),
        ensures
            final(self).wf(),
            match res {
                Ok(_) => {
                    &&& old(self).sheet().has_rows(seq![row])
                    &&& final(self).did_command(*old(self))
                    &&& final(self).last_command() matches ActionCommand::Row(a)
                    &&& a.row == row
                    &&& a.sheet_name@ == old(self).sheet().name
                    &&& final(self).cursor_kept(*old(self))
                    &&& final(self).same_ui_but_cursor(*old(self))
                },
                Err(e) => e == EngineError::OutOfRange && !old(self).sheet().has_rows(seq![row])
                    && final(self).same_as(*old(self)),
            },
    {
        match self.engine.delete_row(row) {
            Err(e) => Err(e),
            Ok(_) => {
                self.keep_cursor();
                Ok(())
            },
        }
    }

    /// Deletes a set of rows of the current sheet, adjacent or not, as one
    /// command. The rows are listed in increasing order.
    pub fn delete_rows(&mut self, rows: Vec<usize>) -> (res: Result<(), EngineError>)
        requires
            old(self).wf(),
        ensures
            final(self).wf(),
            match res {
                Ok(_) => {
                    &&& old(self).sheet().has_rows(rows@)
                    &&& final(self).did_command(*old(self))
                    &&& final(self).last_command() matches ActionCommand::MultiRow(a)
                    &&& a.rows@ == rows@
                    &&& a.sheet_name@ == old(self).sheet().name
                    &&& final(self).cursor_kept(*old(self))
                    &&& final(self).same_ui_but_cursor(*old(self))
                },
                Err(e) => e == EngineError::OutOfRange && !old(self).sheet().has_rows(rows@)
                    && final(self).same_as(*old(self)),
            },
    {
        match self.engine.delete_rows(rows) {
            Err(e) => Err(e),
            Ok(_) => {
                self.keep_cursor();
                Ok(())
            },
        }
    }

    /// Deletes one column of the current sheet, as a command.
    pub fn delete_column(&mut self, col: usize) -> (res: Result<(), EngineError>)
        requires
            old(self).wf(),
        ensures
            final(self).wf(),
            match res {
                Ok(_) => {
                    &&& old(self).sheet().has_columns(seq![col])
                    &&& final(self).did_command(*old(self))
                    &&& final(self).last_command() matches ActionCommand::Column(a)
                    &&& a.col == col
                    &&& a.sheet_name@ == old(self).sheet().name
                    &&& final(self).cursor_kept(*old(self))
                    &&& final(self).same_ui_but_cursor(*old(self))
                },
                Err(e) => e == EngineError::OutOfRange && !old(self).sheet().has_columns(
                    seq![col],
                ) && final(self).same_as(*old(self)),
            },
    {
        match self.engine.delete_column(col) {
            Err(e) => Err(e),
            Ok(_) => {
                self.keep_cursor();
                Ok(())
            },
        }
    }

    /// Deletes a set of columns of the current sheet, adjacent or not, as
    /// one command. The columns are listed in increasing order.
    pub fn delete_columns(&mut self, cols: Vec<usize>) -> (res: Result<(), EngineError>)
        requires
            old(self).wf(),
        ensures
            final(self).wf(),
            match res {
                Ok(_) => {
                    &&& old(self).sheet().has_columns(cols@)
                    &&& final(self).did_command(*old(self))
                    &&& final(self).last_command() matches ActionCommand::MultiColumn(a)
                    &&& a.cols@ == cols@
                    &&& a.sheet_name@ == old(self).sheet().name
                    &&& final(self).cursor_kept(*old(self))
                    &&& final(self).same_ui_but_cursor(*old(self))
                },
                Err(e) => e == EngineError::OutOfRange && !old(self).sheet().has_columns(cols@)
                    && final(self).same_as(*old(self)),
            },
    {
        match self.engine.delete_columns(cols) {
            Err(e) => Err(e),
            Ok(_) => {
                self.keep_cursor();
                Ok(())
            },
        }
    }

    /// Deletes the current sheet, as a command. The cursor goes to the
    /// first cell of the sheet that is current then, and the mode is the
    /// one that this sheet is entered in.
    pub fn delete_sheet(&mut self) -> (res: Result<(), EngineError>)
        requires
            old(self).wf(),
        ensures
            final(self).wf(),
            match res {
                Ok(_) => {
                    &&& old(self).engine@.workbook.sheets.len() > 1
                    &&& final(self).did_command(*old(self))
                    &&& final(self).last_command() matches ActionCommand::Sheet(a)
                    &&& a.sheet_name@ == old(self).sheet().name
                    &&& final(self).same_ui(
                        AppState {
                            selected_cell: (1, 1),
                            input_mode: final(self).entry_mode(),
                            ..*old(self)
                        },
                    )
                },
                Err(e) => e == EngineError::LastSheet && old(self).engine@.workbook.sheets.len()
                    == 1 && final(self).same_as(*old(self)),
            },
    {
        match self.engine.delete_sheet() {
            Err(e) => Err(e),
            Ok(_) => {
                self.selected_cell = (1, 1);
                self.input_mode = if self.is_sheet_pending() {
                    InputMode::LazyLoading
                } else {
                    InputMode::Normal
                };
                Ok(())
            },
        }
    }

    /// Takes back the command that was done last. The cursor is brought
    /// back into the populated region. It fails only when nothing was done,
    /// and then nothing changes.
    pub fn undo(&mut self) -> (res: Result<ActionType, EngineError>)
        requires
            old(self).wf(),
        ensures
            final(self).wf(),
            match res {
                Ok(class) => {
                    &&& undone(old(self).engine@) == Ok::<EngineView, EngineError>(
                        final(self).engine@,
                    )
                    &&& class == old(self).last_command().class()
                    &&& final(self).cursor_kept(*old(self))
                    &&& final(self).same_ui_but_cursor(*old(self))
                },
                Err(e) => e == EngineError::NothingToUndo && final(self).same_as(*old(self)),
            },
            res is Err <==> old(self).engine@.history.undo.len() == 0,
    {
        match self.engine.undo() {
            Ok(class) => {
                self.keep_cursor();
                Ok(class)
            },
            Err(e) => Err(e),
        }
    }

    /// Applies again the command that was undone last. It fails only when
    /// nothing was undone, and then nothing changes.
    pub fn redo(&mut self) -> (res: Result<ActionType, EngineError>)
        requires
            old(self).wf(),
        ensures
            final(self).wf(),
            match res {
                Ok(class) => {
                    &&& redone(old(self).engine@) == Ok::<EngineView, EngineError>(
                        final(self).engine@,
                    )
                    &&& class == old(self).engine@.history.redo.last().class()
                    &&& final(self).cursor_kept(*old(self))
                    &&& final(self).same_ui_but_cursor(*old(self))
                },
                Err(e) => e == EngineError::NothingToRedo && final(self).same_as(*old(self)),
            },
            res is Err <==> old(self).engine@.history.redo.len() == 0,
    {
        match self.engine.redo() {
            Ok(class) => {
                self.keep_cursor();
                Ok(class)
            },
            Err(e) => Err(e),
        }
    }
}

} // verus!
