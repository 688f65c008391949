//! The commands: each holds what it needs to undo what it did.

use crate::excel::{Cell, Sheet};
use vstd::prelude::*;

verus! {

/// The class of a command, for status messages.
#[derive(Clone, Copy, Debug, PartialEq, Eq, Structural)]
pub enum ActionType {
    Edit,
    Cut,
    Paste,
    DeleteRow,
    DeleteColumn,
    DeleteSheet,
    DeleteMultiRows,
    DeleteMultiColumns,
}

/// An edit, a cut or a paste of one cell: the cell before and after.
pub struct CellAction {
    pub sheet_index: usize,
    pub sheet_name: String,
    pub row: usize,
    pub col: usize,
    pub old_value: Cell,
    pub new_value: Cell,
    pub action_type: ActionType,
}

/// The deletion of one row, with the cells of the row.
pub struct RowAction {
    pub sheet_index: usize,
    pub sheet_name: String,
    pub row: usize,
    pub row_data: Vec<Cell>,
}

/// The deletion of a set of rows, adjacent or not: the rows in increasing
/// order, with the cells of each.
pub struct MultiRowAction {
    pub sheet_index: usize,
    pub sheet_name: String,
    pub rows: Vec<usize>,
    pub rows_data: Vec<Vec<Cell>>,
}

/// The deletion of one column, with its cell of each row of the grid.
pub struct ColumnAction {
    pub sheet_index: usize,
    pub sheet_name: String,
    pub col: usize,
    pub column_data: Vec<Cell>,
}

/// The deletion of a set of columns, adjacent or not: the columns in
/// increasing order, and for each row of the grid its cells of these
/// columns.
pub struct MultiColumnAction {
    pub sheet_index: usize,
    pub sheet_name: String,
    pub cols: Vec<usize>,
    pub columns_data: Vec<Vec<Cell>>,
}

/// The deletion of a sheet, with the sheet.
pub struct SheetAction {
    pub sheet_index: usize,
    pub sheet_name: String,
    pub sheet_data: Sheet,
}

/// One reversible change of the workbook. A command is made once, before
/// the change, and never altered: it is only replayed, forward on redo and
/// backward on undo.
pub enum ActionCommand {
    Cell(CellAction),
    Row(RowAction),
    MultiRow(MultiRowAction),
    Column(ColumnAction),
    MultiColumn(MultiColumnAction),
    Sheet(SheetAction),
}

} // verus!
