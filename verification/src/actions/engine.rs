//! The workbook together with its history. Both are changed here and
//! nowhere else, so that the history always goes with the workbook.

use crate::actions::command::column_of;
use crate::actions::history::{did, redone, undone, EngineView, HistoryView, UndoHistory};
use crate::actions::replay::{
    lemma_replayable_after_do, lemma_replayable_after_load, lemma_replayable_at_start,
    lemma_replayable_same_sheets, replayable,
};
use crate::actions::types::{
    ActionCommand, ActionType, CellAction, ColumnAction, MultiColumnAction, MultiRowAction,
    RowAction, SheetAction,
};
use crate::error::EngineError;
use crate::excel::{
    fetched_view, grid_view, lemma_grid_view, loaded, row_view, Cell, CellView, Workbook,
};
use crate::model::WorkbookView;
use calamine::{DataType, Range};
use vstd::prelude::*;

verus! {

/// A workbook and the commands that were done to it and undone.
pub struct Engine {
    workbook: Workbook,
    history: UndoHistory,
}

impl View for Engine {
    type V = EngineView;

    closed spec fn view(&self) -> EngineView {
        EngineView { workbook: self.workbook@, history: self.history@ }
    }
}

/// `after` arose from `before` by a new command on the current sheet: the
/// command was made for the workbook of `before`, it was applied, it is the
/// last one done, and nothing is left to redo.
pub open spec fn did_new(after: EngineView, before: EngineView) -> bool {
    let cmd = after.history.undo.last();
    &&& cmd.records(before.workbook)
    &&& cmd.sheet() == before.workbook.current
    &&& after == did(cmd, before)
}

/// `after` arose from `before` by putting `new_value` at (row, col) of the
/// current sheet, as a command of the given type.
pub open spec fn cell_put(
    after: EngineView,
    before: EngineView,
    row: int,
    col: int,
    new_value: CellView,
    action_type: ActionType,
) -> bool {
    &&& before.workbook.current_sheet().allocated(row, col)
    &&& did_new(after, before)
    &&& after.history.undo.last() matches ActionCommand::Cell(a)
    &&& a.sheet_name@ == before.workbook.current_sheet().name
    &&& a.row == row
    &&& a.col == col
    &&& a.new_value@ == new_value
    &&& a.action_type == action_type
}

impl Engine {
    /// The invariant: the workbook is well formed, all that was done can
    /// be undone, and all that was undone can be redone.
    pub open spec fn wf(&self) -> bool {
        replayable(self@)
    }

    /// An engine for a workbook that was just opened: nothing was done yet.
    pub fn new(workbook: Workbook) -> (engine: Engine)
        requires
            workbook.wf(),
        ensures
            engine.wf(),
            engine@ == (EngineView {
                workbook: workbook@,
                history: HistoryView { undo: Seq::empty(), redo: Seq::empty() },
            }),
    {
        proof {
            lemma_replayable_at_start(workbook@);
        }
        Engine { workbook, history: UndoHistory::new() }
    }

    /// The workbook, for reading.
    pub fn workbook(&self) -> (workbook: &Workbook)
        ensures
            workbook@ == self@.workbook,
    {
        &self.workbook
    }

    pub fn can_undo(&self) -> (possible: bool)
        ensures
            possible == (self@.history.undo.len() > 0),
    {
        self.history.can_undo()
    }

    pub fn can_redo(&self) -> (possible: bool)
        ensures
            possible == (self@.history.redo.len() > 0),
    {
        self.history.can_redo()
    }

    /// Puts `new_value` at (row, col) of the current sheet, as a command
    /// of the given type. Coordinates that the grid has no room for are
    /// rejected.
    pub fn put_cell(&mut self, row: usize, col: usize, new_value: Cell, action_type: ActionType) -> (res:
        Result<(), EngineError>)
        requires
            old(self).wf(),
        ensures
            final(self).wf(),
            match res {
                Ok(_) => cell_put(
                    final(self)@,
                    old(self)@,
                    row as int,
                    col as int,
                    new_value@,
                    action_type,
                ),
                Err(e) => e == EngineError::OutOfRange && !old(
                    self,
                )@.workbook.current_sheet().allocated(row as int, col as int) && final(self)@
                    == old(self)@,
            },
    {
        let index = self.workbook.get_current_sheet_index();
        let sheet_name = self.workbook.get_current_sheet_name();
        let stored = new_value.clone();
        match self.workbook.put_cell(index, row, col, new_value) {
            Err(e) => Err(e),
            Ok(previous) => {
                let action = ActionCommand::Cell(
                    CellAction {
                        sheet_index: index,
                        sheet_name,
                        row,
                        col,
                        old_value: previous,
                        new_value: stored,
                        action_type,
                    },
                );
                self.history.push(action);
                proof {
                    lemma_replayable_after_do(action, old(self)@);
                }
                Ok(())
            },
        }
    }

    /// Deletes one row of the current sheet, as a command.
    pub fn delete_row(&mut self, row: usize) -> (res: Result<(), EngineError>)
        requires
            old(self).wf(),
        ensures
            final(self).wf(),
            match res {
                Ok(_) => {
                    &&& old(self)@.workbook.current_sheet().has_rows(seq![row])
                    &&& did_new(final(self)@, old(self)@)
                    &&& final(self)@.history.undo.last() matches ActionCommand::Row(a)
                    &&& a.row == row
                    &&& a.sheet_name@ == old(self)@.workbook.current_sheet().name
                },
                Err(e) => e == EngineError::OutOfRange && !old(
                    self,
                )@.workbook.current_sheet().has_rows(seq![row]) && final(self)@ == old(self)@,
            },
    {
        let index = self.workbook.get_current_sheet_index();
        let sheet_name = self.workbook.get_current_sheet_name();
        let mut rows: Vec<usize> = Vec::new();
        rows.push(row);
        assert(rows@ =~= seq![row]);
        match self.workbook.remove_rows(index, &rows) {
            Err(e) => Err(e),
            Ok(cells) => {
                let mut cells = cells;
                let ghost taken = cells@;
                proof {
                    lemma_grid_view(taken);
                }
                let row_data = cells.pop().unwrap();
                assert(seq![row_view(row_data@)] =~= grid_view(taken));
                let action = ActionCommand::Row(
                    RowAction { sheet_index: index, sheet_name, row, row_data },
                );
                self.history.push(action);
                proof {
                    lemma_replayable_after_do(action, old(self)@);
                }
                Ok(())
            },
        }
    }

    /// Deletes a set of rows of the current sheet, adjacent or not, as one
    /// command. The rows are listed in increasing order.
    pub fn delete_rows(&mut self, rows: Vec<usize>) -> (res: Result<(), EngineError>)
        requires
            old(self).wf(),
        ensures
            final(self).wf(),
            match res {
                Ok(_) => {
                    &&& old(self)@.workbook.current_sheet().has_rows(rows@)
                    &&& did_new(final(self)@, old(self)@)
                    &&& final(self)@.history.undo.last() matches ActionCommand::MultiRow(a)
                    &&& a.rows@ == rows@
                    &&& a.sheet_name@ == old(self)@.workbook.current_sheet().name
                },
                Err(e) => e == EngineError::OutOfRange && !old(
                    self,
                )@.workbook.current_sheet().has_rows(rows@) && final(self)@ == old(self)@,
            },
    {
        let index = self.workbook.get_current_sheet_index();
        let sheet_name = self.workbook.get_current_sheet_name();
        match self.workbook.remove_rows(index, &rows) {
            Err(e) => Err(e),
            Ok(cells) => {
                let action = ActionCommand::MultiRow(
                    MultiRowAction { sheet_index: index, sheet_name, rows, rows_data: cells },
                );
                self.history.push(action);
                proof {
                    lemma_replayable_after_do(action, old(self)@);
                }
                Ok(())
            },
        }
    }

    /// Deletes one column of the current sheet, as a command.
    pub fn delete_column(&mut self, col: usize) -> (res: Result<(), EngineError>)
        requires
            old(self).wf(),
        ensures
            final(self).wf(),
            match res {
                Ok(_) => {
                    &&& old(self)@.workbook.current_sheet().has_columns(seq![col])
                    &&& did_new(final(self)@, old(self)@)
                    &&& final(self)@.history.undo.last() matches ActionCommand::Column(a)
                    &&& a.col == col
                    &&& a.sheet_name@ == old(self)@.workbook.current_sheet().name
                },
                Err(e) => e == EngineError::OutOfRange && !old(
                    self,
                )@.workbook.current_sheet().has_columns(seq![col]) && final(self)@ == old(self)@,
            },
    {
        let index = self.workbook.get_current_sheet_index();
        let sheet_name = self.workbook.get_current_sheet_name();
        let mut cols: Vec<usize> = Vec::new();
        cols.push(col);
        assert(cols@ =~= seq![col]);
        match self.workbook.remove_columns(index, &cols) {
            Err(e) => Err(e),
            Ok(cells) => {
                proof {
                    lemma_grid_view(cells@);
                    assert forall|i: int| 0 <= i < cells.len() implies (#[trigger] cells[i]).len()
                        == 1 by {
                        assert(grid_view(cells@)[i].len() == 1);
                    }
                }
                let column_data = column_of(cells);
                let action = ActionCommand::Column(
                    ColumnAction { sheet_index: index, sheet_name, col, column_data },
                );
                self.history.push(action);
                proof {
                    lemma_replayable_after_do(action, old(self)@);
                }
                Ok(())
            },
        }
    }

    /// Deletes a set of columns of the current sheet, adjacent or not, as
    /// one command. The columns are listed in increasing order.
    pub fn delete_columns(&mut self, cols: Vec<usize>) -> (res: Result<(), EngineError>)
        requires
            old(self).wf(),
        ensures
            final(self).wf(),
            match res {
                Ok(_) => {
                    &&& old(self)@.workbook.current_sheet().has_columns(cols@)
                    &&& did_new(final(self)@, old(self)@)
                    &&& final(self)@.history.undo.last() matches ActionCommand::MultiColumn(a)
                    &&& a.cols@ == cols@
                    &&& a.sheet_name@ == old(self)@.workbook.current_sheet().name
                },
                Err(e) => e == EngineError::OutOfRange && !old(
                    self,
                )@.workbook.current_sheet().has_columns(cols@) && final(self)@ == old(self)@,
            },
    {
        let index = self.workbook.get_current_sheet_index();
        let sheet_name = self.workbook.get_current_sheet_name();
        match self.workbook.remove_columns(index, &cols) {
            Err(e) => Err(e),
            Ok(cells) => {
                let action = ActionCommand::MultiColumn(
                    MultiColumnAction { sheet_index: index, sheet_name, cols, columns_data: cells },
                );
                self.history.push(action);
                proof {
                    lemma_replayable_after_do(action, old(self)@);
                }
                Ok(())
            },
        }
    }

    /// Deletes the current sheet, as a command. The only sheet of a
    /// workbook stays.
    pub fn delete_sheet(&mut self) -> (res: Result<(), EngineError>)
        requires
            old(self).wf(),
        ensures
            final(self).wf(),
            match res {
                Ok(_) => {
                    &&& old(self)@.workbook.sheets.len() > 1
                    &&& did_new(final(self)@, old(self)@)
                    &&& final(self)@.history.undo.last() matches ActionCommand::Sheet(a)
                    &&& a.sheet_name@ == old(self)@.workbook.current_sheet().name
                },
                Err(e) => e == EngineError::LastSheet && old(self)@.workbook.sheets.len() == 1
                    && final(self)@ == old(self)@,
            },
    {
        let index = self.workbook.get_current_sheet_index();
        match self.workbook.remove_sheet(index) {
            Err(e) => Err(e),
            Ok(sheet) => {
                let action = ActionCommand::Sheet(
                    SheetAction {
                        sheet_index: index,
                        sheet_name: sheet.name.clone(),
                        sheet_data: sheet,
                    },
                );
                self.history.push(action);
                proof {
                    lemma_replayable_after_do(action, old(self)@);
                }
                Ok(())
            },
        }
    }

    /// Takes back the command that was done last. It fails only when
    /// nothing was done, and then nothing changes.
    pub fn undo(&mut self) -> (res: Result<ActionType, EngineError>)
        requires
            old(self).wf(),
        ensures
            final(self).wf(),
            match res {
                Ok(class) => undone(old(self)@) == Ok::<EngineView, EngineError>(final(self)@)
                    && class == old(self)@.history.undo.last().class(),
                Err(e) => e == EngineError::NothingToUndo && final(self)@ == old(self)@,
            },
            res is Err <==> old(self)@.history.undo.len() == 0,
    {
        self.history.undo(&mut self.workbook)
    }

    /// Applies again the command that was undone last. It fails only when
    /// nothing was undone, and then nothing changes.
    pub fn redo(&mut self) -> (res: Result<ActionType, EngineError>)
        requires
            old(self).wf(),
        ensures
            final(self).wf(),
            match res {
                Ok(class) => redone(old(self)@) == Ok::<EngineView, EngineError>(final(self)@)
                    && class == old(self)@.history.redo.last().class(),
                Err(e) => e == EngineError::NothingToRedo && final(self)@ == old(self)@,
            },
            res is Err <==> old(self)@.history.redo.len() == 0,
    {
        self.history.redo(&mut self.workbook)
    }

    /// Makes the sheet at `index` current. The sheet is not read for it.
    pub fn switch_sheet(&mut self, index: usize) -> (res: Result<(), EngineError>)
        requires
            old(self).wf(),
        ensures
            final(self).wf(),
            match res {
                Ok(_) => index < old(self)@.workbook.sheets.len() && final(self)@ == (EngineView {
                    workbook: WorkbookView { current: index as nat, ..old(self)@.workbook },
                    ..old(self)@
                }),
                Err(e) => e == EngineError::OutOfRange && index >= old(self)@.workbook.sheets.len()
                    && final(self)@ == old(self)@,
            },
    {
        let res = self.workbook.switch_sheet(index);
        proof {
            if res is Ok {
                lemma_replayable_same_sheets(old(self)@, self@);
            }
        }
        res
    }

    /// Takes what reading sheet `index` from the file gave. A sheet that is
    /// loaded stays as it is; a range that was read becomes the sheet; a
    /// failed read is reported with the sheet's name and the cause, and
    /// changes nothing. The history stays as it is.
    pub fn load(&mut self, index: usize, name: &str, fetched: Result<Range<DataType>, String>) -> (res:
        Result<(), EngineError>)
        requires
            old(self).wf(),
        ensures
            final(self).wf(),
            final(self)@ == (EngineView {
                workbook: loaded(old(self)@.workbook, index as int, name@, fetched_view(fetched)),
                ..old(self)@
            }),
            match res {
                Ok(_) => index < old(self)@.workbook.sheets.len() && (old(
                    self,
                )@.workbook.sheets[index as int].is_loaded || fetched is Ok),
                Err(EngineError::OutOfRange) => index >= old(self)@.workbook.sheets.len(),
                Err(EngineError::LoadFailed(sheet, cause)) => {
                    &&& index < old(self)@.workbook.sheets.len()
                    &&& !old(self)@.workbook.sheets[index as int].is_loaded
                    &&& fetched is Err
                    &&& sheet@ == name@
                    &&& cause@ == fetched->Err_0@
                },
                Err(_) => false,
            },
    {
        let res = self.workbook.ensure_sheet_loaded(index, name, fetched);
        proof {
            if index < old(self)@.workbook.sheets.len() && !old(
                self,
            )@.workbook.sheets[index as int].is_loaded && fetched is Ok {
                let sheet = self@.workbook.sheets[index as int];
                assert(sheet.wf());
                lemma_replayable_after_load(old(self)@, index as int, sheet);
                assert(self@.workbook.sheets =~= old(self)@.workbook.sheets.update(
                    index as int,
                    sheet,
                ));
            }
        }
        res
    }

    /// Records how writing the exported sheets ended: a success clears the
    /// modified flag, a failure is reported with its cause and changes
    /// nothing.
    pub fn save(&mut self, written: Result<(), String>) -> (res: Result<(), EngineError>)
        requires
            old(self).wf(),
        ensures
            final(self).wf(),
            match res {
                Ok(_) => written is Ok && final(self)@ == (EngineView {
                    workbook: WorkbookView { is_modified: false, ..old(self)@.workbook },
                    ..old(self)@
                }),
                Err(EngineError::SaveFailed(cause)) => written is Err && cause@
                    == written->Err_0@ && final(self)@ == old(self)@,
                Err(_) => false,
            },
    {
        let res = self.workbook.save(written);
        proof {
            if res is Ok {
                lemma_replayable_same_sheets(old(self)@, self@);
            }
        }
        res
    }
}

} // verus!
