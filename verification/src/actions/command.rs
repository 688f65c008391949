//! What a command does to a workbook, forward and backward.

use crate::actions::types::{ActionCommand, ActionType};
use crate::error::EngineError;
use crate::excel::{clone_grid, clone_row, grid_view, row_view, Cell, CellView, Workbook};
use crate::model::{
    lemma_cell_put_wf, lemma_columns_inserted_wf, lemma_columns_removed_wf, lemma_restore_columns,
    lemma_restore_rows, lemma_rows_inserted_wf, lemma_rows_removed_wf, WorkbookView,
};
use vstd::prelude::*;

verus! {

/// The cells of one column as runs of one cell, a run for each row.
pub open spec fn column_runs(cells: Seq<Cell>) -> Seq<Seq<CellView>> {
    Seq::new(cells.len(), |i: int| seq![cells[i]@])
}

/// Copies of the cells of one column, as runs of one cell.
pub fn runs_of(cells: &Vec<Cell>) -> (runs: Vec<Vec<Cell>>)
    ensures
        grid_view(runs@) == column_runs(cells@),
{
    let mut runs: Vec<Vec<Cell>> = Vec::new();
    let mut i: usize = 0;
    while i < cells.len()
        invariant
            0 <= i <= cells.len(),
            runs.len() == i,
            forall|j: int| 0 <= j < i ==> row_view(#[trigger] runs[j]@) == seq![cells[j]@],
        decreases cells.len() - i,
    {
        let mut run: Vec<Cell> = Vec::new();
        run.push(cells[i].clone());
        assert(row_view(run@) =~= seq![cells[i as int]@]);
        runs.push(run);
        i += 1;
    }
    assert(grid_view(runs@) =~= column_runs(cells@));
    runs
}

/// The cells of runs of one cell each.
pub(crate) fn column_of(runs: Vec<Vec<Cell>>) -> (column: Vec<Cell>)
    requires
        forall|i: int| 0 <= i < runs.len() ==> (#[trigger] runs[i]).len() == 1,
    ensures
        column_runs(column@) == grid_view(runs@),
{
    let mut column: Vec<Cell> = Vec::new();
    let mut i: usize = 0;
    let count = runs.len();
    for run in it: runs
        invariant
            count == runs.len(),
            it.seq() == runs@,
            i == it.index(),
            column.len() == i,
            forall|j: int| 0 <= j < runs.len() ==> (#[trigger] runs[j]).len() == 1,
            forall|j: int| 0 <= j < i ==> seq![(#[trigger] column[j])@] == row_view(runs[j]@),
    {
        assert(runs[i as int].len() == 1);
        let mut run = run;
        let cell = run.remove(0);
        assert(seq![cell@] =~= row_view(runs[i as int]@));
        column.push(cell);
        i += 1;
    }
    assert(column_runs(column@) =~= grid_view(runs@));
    column
}

impl ActionCommand {
    /// The sheet that the command changes.
    pub open spec fn sheet(self) -> int {
        match self {
            ActionCommand::Cell(a) => a.sheet_index as int,
            ActionCommand::Row(a) => a.sheet_index as int,
            ActionCommand::MultiRow(a) => a.sheet_index as int,
            ActionCommand::Column(a) => a.sheet_index as int,
            ActionCommand::MultiColumn(a) => a.sheet_index as int,
            ActionCommand::Sheet(a) => a.sheet_index as int,
        }
    }

    /// The class that status messages name: a paste is a paste, every other
    /// change of a cell is an edit, and each deletion has its own class.
    pub open spec fn class(self) -> ActionType {
        match self {
            ActionCommand::Cell(a) => if a.action_type == ActionType::Paste {
                ActionType::Paste
            } else {
                ActionType::Edit
            },
            ActionCommand::Row(_) => ActionType::DeleteRow,
            ActionCommand::MultiRow(_) => ActionType::DeleteMultiRows,
            ActionCommand::Column(_) => ActionType::DeleteColumn,
            ActionCommand::MultiColumn(_) => ActionType::DeleteMultiColumns,
            ActionCommand::Sheet(_) => ActionType::DeleteSheet,
        }
    }

    /// The workbook has what the command changes: the cell, the rows, the
    /// columns, or the sheet beside another one.
    pub open spec fn applies_to(self, wb: WorkbookView) -> bool {
        match self {
            ActionCommand::Sheet(a) => wb.has_spare_sheet(a.sheet_index as int),
            _ => 0 <= self.sheet() < wb.sheets.len() && {
                let sheet = wb.sheets[self.sheet()];
                match self {
                    ActionCommand::Cell(a) => sheet.allocated(a.row as int, a.col as int),
                    ActionCommand::Row(a) => sheet.has_rows(seq![a.row]),
                    ActionCommand::MultiRow(a) => sheet.has_rows(a.rows@),
                    ActionCommand::Column(a) => sheet.has_columns(seq![a.col]),
                    ActionCommand::MultiColumn(a) => sheet.has_columns(a.cols@),
                    ActionCommand::Sheet(_) => true,
                }
            },
        }
    }

    /// The failure of a command that does not apply.
    pub open spec fn apply_error(self, wb: WorkbookView) -> EngineError {
        if self is Sheet && 0 <= self.sheet() < wb.sheets.len() {
            EngineError::LastSheet
        } else {
            EngineError::OutOfRange
        }
    }

    /// The workbook after the command.
    pub open spec fn applied(self, wb: WorkbookView) -> WorkbookView {
        let sheet = wb.sheets[self.sheet()];
        match self {
            ActionCommand::Cell(a) => wb.with_sheet(
                self.sheet(),
                sheet.with_cell(a.row as int, a.col as int, a.new_value@),
            ),
            ActionCommand::Row(a) => wb.with_sheet(self.sheet(), sheet.without_rows(seq![a.row])),
            ActionCommand::MultiRow(a) => wb.with_sheet(self.sheet(), sheet.without_rows(a.rows@)),
            ActionCommand::Column(a) => wb.with_sheet(
                self.sheet(),
                sheet.without_columns(seq![a.col]),
            ),
            ActionCommand::MultiColumn(a) => wb.with_sheet(
                self.sheet(),
                sheet.without_columns(a.cols@),
            ),
            ActionCommand::Sheet(a) => wb.without_sheet(self.sheet()),
        }
    }

    /// What the command holds fits into the workbook where it was taken
    /// from.
    pub open spec fn reverts_on(self, wb: WorkbookView) -> bool {
        match self {
            ActionCommand::Sheet(a) => a.sheet_index <= wb.sheets.len() && a.sheet_data@.wf(),
            _ => 0 <= self.sheet() < wb.sheets.len() && {
                let sheet = wb.sheets[self.sheet()];
                match self {
                    ActionCommand::Cell(a) => sheet.allocated(a.row as int, a.col as int),
                    ActionCommand::Row(a) => sheet.fits_rows(seq![a.row], seq![row_view(a.row_data@)]),
                    ActionCommand::MultiRow(a) => sheet.fits_rows(a.rows@, grid_view(a.rows_data@)),
                    ActionCommand::Column(a) => sheet.fits_columns(
                        seq![a.col],
                        column_runs(a.column_data@),
                    ),
                    ActionCommand::MultiColumn(a) => sheet.fits_columns(
                        a.cols@,
                        grid_view(a.columns_data@),
                    ),
                    ActionCommand::Sheet(_) => true,
                }
            },
        }
    }

    /// The workbook after the command was taken back.
    pub open spec fn reverted(self, wb: WorkbookView) -> WorkbookView {
        let sheet = wb.sheets[self.sheet()];
        match self {
            ActionCommand::Cell(a) => wb.with_sheet(
                self.sheet(),
                sheet.with_cell(a.row as int, a.col as int, a.old_value@),
            ),
            ActionCommand::Row(a) => wb.with_sheet(
                self.sheet(),
                sheet.with_rows(seq![a.row], seq![row_view(a.row_data@)]),
            ),
            ActionCommand::MultiRow(a) => wb.with_sheet(
                self.sheet(),
                sheet.with_rows(a.rows@, grid_view(a.rows_data@)),
            ),
            ActionCommand::Column(a) => wb.with_sheet(
                self.sheet(),
                sheet.with_columns(seq![a.col], column_runs(a.column_data@)),
            ),
            ActionCommand::MultiColumn(a) => wb.with_sheet(
                self.sheet(),
                sheet.with_columns(a.cols@, grid_view(a.columns_data@)),
            ),
            ActionCommand::Sheet(a) => wb.with_new_sheet(self.sheet(), a.sheet_data@),
        }
    }

    /// The command holds what the workbook has where the command changes
    /// it, so that it applies and can be taken back exactly.
    pub open spec fn holds(self, wb: WorkbookView) -> bool {
        self.applies_to(wb) && {
            let sheet = wb.sheets[self.sheet()];
            match self {
                ActionCommand::Cell(a) => a.old_value@ == sheet.data[a.row as int][a.col as int],
                ActionCommand::Row(a) => seq![row_view(a.row_data@)] == sheet.rows_at(seq![a.row]),
                ActionCommand::MultiRow(a) => grid_view(a.rows_data@) == sheet.rows_at(a.rows@),
                ActionCommand::Column(a) => column_runs(a.column_data@) == sheet.columns_at(
                    seq![a.col],
                ),
                ActionCommand::MultiColumn(a) => grid_view(a.columns_data@) == sheet.columns_at(
                    a.cols@,
                ),
                ActionCommand::Sheet(a) => a.sheet_data@ == sheet,
            }
        }
    }

    /// The command was made for this workbook: it holds what the workbook
    /// has where the command changes it, and a sheet that it deletes is the
    /// current one.
    pub open spec fn records(self, wb: WorkbookView) -> bool {
        self.holds(wb) && (self is Sheet ==> wb.current == self.sheet())
    }

    // Returns the action type of this command
    #[must_use]
    pub fn get_action_type(&self) -> (class: ActionType)
        ensures
            class == self.class(),
    {
        match self {
            ActionCommand::Cell(action) => match action.action_type {
                ActionType::Paste => ActionType::Paste,
                _ => ActionType::Edit,  // Default case including Edit and Cut
            },
            ActionCommand::Row(_) => ActionType::DeleteRow,
            ActionCommand::MultiRow(_) => ActionType::DeleteMultiRows,
            ActionCommand::Column(_) => ActionType::DeleteColumn,
            ActionCommand::MultiColumn(_) => ActionType::DeleteMultiColumns,
            ActionCommand::Sheet(_) => ActionType::DeleteSheet,
        }
    }

    /// Does to the workbook what the command stands for. A command that
    /// does not apply is rejected, and the workbook stays as it is.
    pub fn apply(&self, workbook: &mut Workbook) -> (res: Result<(), EngineError>)
        requires
            old(workbook).wf(),
        ensures
            final(workbook).wf(),
            match res {
                Ok(_) => self.applies_to(old(workbook)@) && final(workbook)@ == self.applied(
                    old(workbook)@,
                ),
                Err(e) => !self.applies_to(old(workbook)@) && e == self.apply_error(old(workbook)@)
                    && final(workbook)@ == old(workbook)@,
            },
    {
        match self {
            ActionCommand::Cell(a) => {
                match workbook.put_cell(a.sheet_index, a.row, a.col, a.new_value.clone()) {
                    Ok(_) => Ok(()),
                    Err(e) => Err(e),
                }
            },
            ActionCommand::Row(a) => {
                let mut rows: Vec<usize> = Vec::new();
                rows.push(a.row);
                assert(rows@ =~= seq![a.row]);
                match workbook.remove_rows(a.sheet_index, &rows) {
                    Ok(_) => Ok(()),
                    Err(e) => Err(e),
                }
            },
            ActionCommand::MultiRow(a) => {
                match workbook.remove_rows(a.sheet_index, &a.rows) {
                    Ok(_) => Ok(()),
                    Err(e) => Err(e),
                }
            },
            ActionCommand::Column(a) => {
                let mut cols: Vec<usize> = Vec::new();
                cols.push(a.col);
                assert(cols@ =~= seq![a.col]);
                match workbook.remove_columns(a.sheet_index, &cols) {
                    Ok(_) => Ok(()),
                    Err(e) => Err(e),
                }
            },
            ActionCommand::MultiColumn(a) => {
                match workbook.remove_columns(a.sheet_index, &a.cols) {
                    Ok(_) => Ok(()),
                    Err(e) => Err(e),
                }
            },
            ActionCommand::Sheet(a) => {
                match workbook.remove_sheet(a.sheet_index) {
                    Ok(_) => Ok(()),
                    Err(e) => Err(e),
                }
            },
        }
    }

    /// Takes back what the command did: puts back the cell, the rows, the
    /// columns or the sheet that it holds. Where they do not fit, the
    /// command is rejected and the workbook stays as it is.
    pub fn revert(&self, workbook: &mut Workbook) -> (res: Result<(), EngineError>)
        requires
            old(workbook).wf(),
        ensures
            final(workbook).wf(),
            match res {
                Ok(_) => self.reverts_on(old(workbook)@) && final(workbook)@ == self.reverted(
                    old(workbook)@,
                ),
                Err(e) => !self.reverts_on(old(workbook)@) && e == EngineError::OutOfRange
                    && final(workbook)@ == old(workbook)@,
            },
    {
        match self {
            ActionCommand::Cell(a) => {
                match workbook.put_cell(a.sheet_index, a.row, a.col, a.old_value.clone()) {
                    Ok(_) => Ok(()),
                    Err(e) => Err(e),
                }
            },
            ActionCommand::Row(a) => {
                let mut rows: Vec<usize> = Vec::new();
                rows.push(a.row);
                assert(rows@ =~= seq![a.row]);
                let mut cells: Vec<Vec<Cell>> = Vec::new();
                cells.push(clone_row(&a.row_data));
                assert(grid_view(cells@) =~= seq![row_view(a.row_data@)]);
                workbook.insert_rows(a.sheet_index, &rows, cells)
            },
            ActionCommand::MultiRow(a) => {
                workbook.insert_rows(a.sheet_index, &a.rows, clone_grid(&a.rows_data))
            },
            ActionCommand::Column(a) => {
                let mut cols: Vec<usize> = Vec::new();
                cols.push(a.col);
                assert(cols@ =~= seq![a.col]);
                workbook.insert_columns(a.sheet_index, &cols, runs_of(&a.column_data))
            },
            ActionCommand::MultiColumn(a) => {
                workbook.insert_columns(a.sheet_index, &a.cols, clone_grid(&a.columns_data))
            },
            ActionCommand::Sheet(a) => { workbook.insert_sheet(a.sheet_index, a.sheet_data.clone()) },
        }
    }
}

/// Taking back a command right after it was applied restores the sheets,
/// for every kind of command and every well-formed workbook of which the
/// command holds what it changes.
pub proof fn lemma_revert_applied_sheets(cmd: ActionCommand, wb: WorkbookView)
    requires
        wb.wf(),
        cmd.holds(wb),
    ensures
        cmd.reverts_on(cmd.applied(wb)),
        cmd.reverted(cmd.applied(wb)).sheets == wb.sheets,
        cmd.applied(wb).wf(),
{
    let sheet = wb.sheets[cmd.sheet()];
    let after = cmd.applied(wb);
    assert(sheet.wf());
    match cmd {
        ActionCommand::Cell(a) => {
            let changed = sheet.with_cell(a.row as int, a.col as int, a.new_value@);
            let back = changed.with_cell(a.row as int, a.col as int, a.old_value@);
            assert(sheet.data[a.row as int].len() == sheet.width());
            assert(back.data =~= sheet.data) by {
                assert(back.data[a.row as int] =~= sheet.data[a.row as int]);
            }
            assert(cmd.reverted(after).sheets =~= wb.sheets);
            lemma_cell_put_wf(sheet, a.row as int, a.col as int, a.new_value@);
        },
        ActionCommand::Row(a) => {
            lemma_restore_rows(sheet, seq![a.row]);
            lemma_rows_removed_wf(sheet, seq![a.row]);
            assert(cmd.reverted(after).sheets =~= wb.sheets);
        },
        ActionCommand::MultiRow(a) => {
            lemma_restore_rows(sheet, a.rows@);
            lemma_rows_removed_wf(sheet, a.rows@);
            assert(cmd.reverted(after).sheets =~= wb.sheets);
        },
        ActionCommand::Column(a) => {
            lemma_restore_columns(sheet, seq![a.col]);
            lemma_columns_removed_wf(sheet, seq![a.col]);
            assert(cmd.reverted(after).sheets =~= wb.sheets);
        },
        ActionCommand::MultiColumn(a) => {
            lemma_restore_columns(sheet, a.cols@);
            lemma_columns_removed_wf(sheet, a.cols@);
            assert(cmd.reverted(after).sheets =~= wb.sheets);
        },
        ActionCommand::Sheet(a) => {
            assert(cmd.reverted(after).sheets =~= wb.sheets);
            assert forall|i: int| 0 <= i < after.sheets.len() implies (
            #[trigger] after.sheets[i]).wf() by {
                if i < a.sheet_index {
                    assert(after.sheets[i] == wb.sheets[i]);
                } else {
                    assert(after.sheets[i] == wb.sheets[i + 1]);
                }
            }
        },
    }
    assert forall|i: int| 0 <= i < after.sheets.len() implies (#[trigger] after.sheets[i]).wf() by {
        if !(cmd is Sheet) && i != cmd.sheet() {
            assert(after.sheets[i] == wb.sheets[i]);
        }
    }
}

/// Taking back a command right after it was applied restores the sheets
/// and the current sheet, for every kind of command and every well-formed
/// workbook that the command was made for.
pub proof fn lemma_revert_applied(cmd: ActionCommand, wb: WorkbookView)
    requires
        wb.wf(),
        cmd.records(wb),
    ensures
        cmd.reverts_on(cmd.applied(wb)),
        cmd.reverted(cmd.applied(wb)).same_content(wb),
        cmd.applied(wb).wf(),
{
    lemma_revert_applied_sheets(cmd, wb);
}

/// A workbook stays well formed when a command is applied to it.
pub proof fn lemma_applied_wf(cmd: ActionCommand, wb: WorkbookView)
    requires
        wb.wf(),
        cmd.applies_to(wb),
    ensures
        cmd.applied(wb).wf(),
{
    let after = cmd.applied(wb);
    match cmd {
        ActionCommand::Sheet(a) => {
            assert forall|i: int| 0 <= i < after.sheets.len() implies (
            #[trigger] after.sheets[i]).wf() by {
                if i < a.sheet_index {
                    assert(after.sheets[i] == wb.sheets[i]);
                } else {
                    assert(after.sheets[i] == wb.sheets[i + 1]);
                }
            }
        },
        _ => {
            let sheet = wb.sheets[cmd.sheet()];
            assert(sheet.wf());
            match cmd {
                ActionCommand::Cell(a) => {
                    lemma_cell_put_wf(sheet, a.row as int, a.col as int, a.new_value@);
                },
                ActionCommand::Row(a) => {
                    lemma_rows_removed_wf(sheet, seq![a.row]);
                },
                ActionCommand::MultiRow(a) => {
                    lemma_rows_removed_wf(sheet, a.rows@);
                },
                ActionCommand::Column(a) => {
                    lemma_columns_removed_wf(sheet, seq![a.col]);
                },
                ActionCommand::MultiColumn(a) => {
                    lemma_columns_removed_wf(sheet, a.cols@);
                },
                ActionCommand::Sheet(_) => {},
            }
            assert forall|i: int| 0 <= i < after.sheets.len() implies (
            #[trigger] after.sheets[i]).wf() by {
                if i != cmd.sheet() {
                    assert(after.sheets[i] == wb.sheets[i]);
                }
            }
        },
    }
}

/// A workbook stays well formed when a command is taken back that fits it.
pub proof fn lemma_reverted_wf(cmd: ActionCommand, wb: WorkbookView)
    requires
        wb.wf(),
        cmd.reverts_on(wb),
    ensures
        cmd.reverted(wb).wf(),
{
    let back = cmd.reverted(wb);
    match cmd {
        ActionCommand::Sheet(a) => {
            assert forall|i: int| 0 <= i < back.sheets.len() implies (
            #[trigger] back.sheets[i]).wf() by {
                if i < a.sheet_index {
                    assert(back.sheets[i] == wb.sheets[i]);
                } else if i > a.sheet_index {
                    assert(back.sheets[i] == wb.sheets[i - 1]);
                }
            }
        },
        _ => {
            let sheet = wb.sheets[cmd.sheet()];
            assert(sheet.wf());
            match cmd {
                ActionCommand::Cell(a) => {
                    lemma_cell_put_wf(sheet, a.row as int, a.col as int, a.old_value@);
                },
                ActionCommand::Row(a) => {
                    lemma_rows_inserted_wf(sheet, seq![a.row], seq![row_view(a.row_data@)]);
                },
                ActionCommand::MultiRow(a) => {
                    lemma_rows_inserted_wf(sheet, a.rows@, grid_view(a.rows_data@));
                },
                ActionCommand::Column(a) => {
                    lemma_columns_inserted_wf(sheet, seq![a.col], column_runs(a.column_data@));
                },
                ActionCommand::MultiColumn(a) => {
                    lemma_columns_inserted_wf(sheet, a.cols@, grid_view(a.columns_data@));
                },
                ActionCommand::Sheet(_) => {},
            }
            assert forall|i: int| 0 <= i < back.sheets.len() implies (
            #[trigger] back.sheets[i]).wf() by {
                if i != cmd.sheet() {
                    assert(back.sheets[i] == wb.sheets[i]);
                }
            }
        },
    }
}

/// What a command does to the sheets depends on the sheets alone.
pub proof fn lemma_same_sheets(cmd: ActionCommand, a: WorkbookView, b: WorkbookView)
    requires
        a.sheets == b.sheets,
    ensures
        cmd.applies_to(a) == cmd.applies_to(b),
        cmd.holds(a) == cmd.holds(b),
        cmd.reverts_on(a) == cmd.reverts_on(b),
        cmd.applied(a).sheets == cmd.applied(b).sheets,
        cmd.reverted(a).sheets == cmd.reverted(b).sheets,
{
}

/// Applying a command again after it was applied and taken back gives what
/// the first application gave.
pub proof fn lemma_apply_reverted(cmd: ActionCommand, wb: WorkbookView)
    requires
        wb.wf(),
        cmd.records(wb),
    ensures
        cmd.applies_to(cmd.reverted(cmd.applied(wb))),
        cmd.applied(cmd.reverted(cmd.applied(wb))) == cmd.applied(wb),
{
    lemma_revert_applied(cmd, wb);
}

} // verus!
