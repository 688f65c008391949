//! The mathematical model of sheets and of the workbook: what each edit
//! makes of a grid, and why taking rows or columns out and putting them
//! back changes nothing.

use crate::excel::CellView;
use crate::seqs::{
    indices_within, insert_all, insert_points, lemma_increasing_gap, lemma_insert_all_head,
    lemma_insert_all_keeps, lemma_insert_all_len, lemma_insert_all_remove_all,
    lemma_remove_all_keeps, lemma_remove_all_shape, lemma_removed_insertable, pick, remove_all,
};
use vstd::prelude::*;

verus! {

pub struct SheetView {
    pub name: Seq<char>,
    /// The grid, row by row. Row 0 and column 0 are a margin.
    pub data: Seq<Seq<CellView>>,
    pub max_rows: nat,
    pub max_cols: nat,
    pub is_loaded: bool,
}

impl SheetView {
    /// The number of columns that the grid has room for.
    pub open spec fn width(self) -> nat {
        if self.data.len() == 0 {
            0
        } else {
            self.data[0].len()
        }
    }

    /// Every row has the same length, the populated region lies inside the
    /// grid, behind the margin, and a sheet that was not read yet has an
    /// empty grid.
    pub open spec fn wf(self) -> bool {
        &&& forall|i: int|
            0 <= i < self.data.len() ==> (#[trigger] self.data[i]).len() == self.width()
        &&& if self.data.len() == 0 {
            self.max_rows == 0 && self.max_cols == 0
        } else {
            self.max_rows < self.data.len() && self.max_cols < self.width()
        }
        &&& !self.is_loaded ==> self.data.len() == 0
    }

    /// The grid has room for a cell at (row, col).
    pub open spec fn allocated(self, row: int, col: int) -> bool {
        0 <= row < self.data.len() && 0 <= col < self.width()
    }

    pub open spec fn with_cell(self, row: int, col: int, cell: CellView) -> SheetView {
        SheetView { data: self.data.update(row, self.data[row].update(col, cell)), ..self }
    }

    /// The rows are a set of populated rows.
    pub open spec fn has_rows(self, rows: Seq<usize>) -> bool {
        indices_within(rows, 1, self.max_rows as int + 1)
    }

    /// The cells of the given rows.
    pub open spec fn rows_at(self, rows: Seq<usize>) -> Seq<Seq<CellView>> {
        pick(self.data, rows)
    }

    /// The sheet after the given rows were deleted.
    pub open spec fn without_rows(self, rows: Seq<usize>) -> SheetView {
        SheetView {
            data: remove_all(self.data, rows),
            max_rows: (self.max_rows - rows.len()) as nat,
            ..self
        }
    }

    /// The rows of cells can go in at the given places: behind the margin,
    /// inside the populated region or right behind it, each as wide as the
    /// grid.
    pub open spec fn fits_rows(self, rows: Seq<usize>, cells: Seq<Seq<CellView>>) -> bool {
        &&& rows.len() == cells.len()
        &&& rows.len() > 0
        &&& self.data.len() > 0
        &&& insert_points(rows, 1, self.max_rows as int + 1)
        &&& forall|k: int| 0 <= k < cells.len() ==> (#[trigger] cells[k]).len() == self.width()
    }

    /// The sheet after the rows of cells were put in at the given places.
    pub open spec fn with_rows(self, rows: Seq<usize>, cells: Seq<Seq<CellView>>) -> SheetView {
        SheetView {
            data: insert_all(self.data, rows, cells),
            max_rows: self.max_rows + rows.len(),
            ..self
        }
    }

    /// The columns are a set of populated columns.
    pub open spec fn has_columns(self, cols: Seq<usize>) -> bool {
        indices_within(cols, 1, self.max_cols as int + 1)
    }

    /// The cells of the given columns, row by row.
    pub open spec fn columns_at(self, cols: Seq<usize>) -> Seq<Seq<CellView>> {
        Seq::new(self.data.len(), |i: int| pick(self.data[i], cols))
    }

    /// The sheet after the given columns were deleted.
    pub open spec fn without_columns(self, cols: Seq<usize>) -> SheetView {
        SheetView {
            data: Seq::new(self.data.len(), |i: int| remove_all(self.data[i], cols)),
            max_cols: (self.max_cols - cols.len()) as nat,
            ..self
        }
    }

    /// The cells, one run for each row of the grid, can go in as columns at
    /// the given places.
    pub open spec fn fits_columns(self, cols: Seq<usize>, cells: Seq<Seq<CellView>>) -> bool {
        &&& cols.len() > 0
        &&& self.data.len() > 0
        &&& cells.len() == self.data.len()
        &&& insert_points(cols, 1, self.max_cols as int + 1)
        &&& forall|i: int| 0 <= i < cells.len() ==> (#[trigger] cells[i]).len() == cols.len()
    }

    /// The sheet after the cells were put in as columns at the given places.
    pub open spec fn with_columns(self, cols: Seq<usize>, cells: Seq<Seq<CellView>>) -> SheetView {
        SheetView {
            data: Seq::new(self.data.len(), |i: int| insert_all(self.data[i], cols, cells[i])),
            max_cols: self.max_cols + cols.len(),
            ..self
        }
    }
}

/// Rows that were deleted fit where they stood, and putting them back
/// restores the sheet.
pub proof fn lemma_restore_rows(sheet: SheetView, rows: Seq<usize>)
    requires
        sheet.wf(),
        sheet.has_rows(rows),
    ensures
        sheet.without_rows(rows).fits_rows(rows, sheet.rows_at(rows)),
        sheet.without_rows(rows).with_rows(rows, sheet.rows_at(rows)) == sheet,
{
    lemma_remove_all_shape(sheet.data, rows);
    lemma_insert_all_remove_all(sheet.data, rows);
    lemma_removed_insertable(rows, sheet.max_rows as int + 1);
    let cut = sheet.without_rows(rows);
    assert(cut.data[0] == sheet.data[0]);
    assert forall|k: int| 0 <= k < rows.len() implies 1 <= (#[trigger] rows[k]) by {
        assert(rows[0] <= rows[k]);
    }
    assert forall|k: int| 0 <= k < rows.len() implies (#[trigger] sheet.rows_at(rows)[k]).len()
        == cut.width() by {
        assert(rows[k] <= rows.last());
    }
}

/// Columns that were deleted fit where they stood, and putting them back
/// restores the sheet.
pub proof fn lemma_restore_columns(sheet: SheetView, cols: Seq<usize>)
    requires
        sheet.wf(),
        sheet.has_columns(cols),
    ensures
        sheet.without_columns(cols).fits_columns(cols, sheet.columns_at(cols)),
        sheet.without_columns(cols).with_columns(cols, sheet.columns_at(cols)) == sheet,
{
    lemma_removed_insertable(cols, sheet.max_cols as int + 1);
    assert forall|k: int| 0 <= k < cols.len() implies 1 <= (#[trigger] cols[k]) by {
        assert(cols[0] <= cols[k]);
    }
    let cut = sheet.without_columns(cols);
    let back = cut.with_columns(cols, sheet.columns_at(cols));
    assert forall|i: int| 0 <= i < sheet.data.len() implies #[trigger] back.data[i]
        == sheet.data[i] by {
        lemma_insert_all_remove_all(sheet.data[i], cols);
    }
    assert(back.data =~= sheet.data);
}

/// A sheet stays well formed when one of its cells is replaced.
pub proof fn lemma_cell_put_wf(sheet: SheetView, row: int, col: int, cell: CellView)
    requires
        sheet.wf(),
        sheet.allocated(row, col),
    ensures
        sheet.with_cell(row, col, cell).wf(),
{
    let changed = sheet.with_cell(row, col, cell);
    assert forall|i: int| 0 <= i < changed.data.len() implies (#[trigger] changed.data[i]).len()
        == changed.width() by {
        assert(sheet.data[i].len() == sheet.width());
        assert(sheet.data[row].len() == sheet.width());
    }
}

/// A sheet stays well formed when rows that fit are put in.
pub proof fn lemma_rows_inserted_wf(sheet: SheetView, rows: Seq<usize>, cells: Seq<Seq<CellView>>)
    requires
        sheet.wf(),
        sheet.fits_rows(rows, cells),
    ensures
        sheet.with_rows(rows, cells).wf(),
{
    let width = sheet.width();
    assert forall|k: int| 0 <= k < rows.len() implies (#[trigger] rows[k]) <= sheet.data.len()
        + k by {}
    lemma_insert_all_len(sheet.data, rows, cells);
    lemma_insert_all_head(sheet.data, rows, cells);
    lemma_insert_all_keeps(sheet.data, rows, cells, |row: Seq<CellView>| row.len() == width);
}

/// A sheet stays well formed when columns that fit are put in.
pub proof fn lemma_columns_inserted_wf(
    sheet: SheetView,
    cols: Seq<usize>,
    cells: Seq<Seq<CellView>>,
)
    requires
        sheet.wf(),
        sheet.fits_columns(cols, cells),
    ensures
        sheet.with_columns(cols, cells).wf(),
{
    let grown = sheet.with_columns(cols, cells);
    assert forall|i: int| 0 <= i < grown.data.len() implies (#[trigger] grown.data[i]).len()
        == sheet.width() + cols.len() by {
        assert(sheet.data[i].len() == sheet.width());
        assert(cells[i].len() == cols.len());
        assert forall|k: int| 0 <= k < cols.len() implies (#[trigger] cols[k])
            <= sheet.data[i].len() + k by {}
        lemma_insert_all_len(sheet.data[i], cols, cells[i]);
    }
}

/// A sheet stays well formed when populated rows are deleted.
pub proof fn lemma_rows_removed_wf(sheet: SheetView, rows: Seq<usize>)
    requires
        sheet.wf(),
        sheet.has_rows(rows),
    ensures
        sheet.without_rows(rows).wf(),
{
    lemma_remove_all_shape(sheet.data, rows);
    let width = sheet.width();
    lemma_remove_all_keeps(sheet.data, rows, |row: Seq<CellView>| row.len() == width);
    lemma_increasing_gap(rows, 0, rows.len() - 1);
}

/// A sheet stays well formed when populated columns are deleted.
pub proof fn lemma_columns_removed_wf(sheet: SheetView, cols: Seq<usize>)
    requires
        sheet.wf(),
        sheet.has_columns(cols),
    ensures
        sheet.without_columns(cols).wf(),
{
    lemma_increasing_gap(cols, 0, cols.len() - 1);
    let cut = sheet.without_columns(cols);
    assert forall|i: int| 0 <= i < cut.data.len() implies (#[trigger] cut.data[i]).len()
        == sheet.width() - cols.len() by {
        assert(sheet.data[i].len() == sheet.width());
        lemma_remove_all_shape(sheet.data[i], cols);
    }
}

pub struct WorkbookView {
    /// The sheets, in the order of the file.
    pub sheets: Seq<SheetView>,
    pub current: nat,
    pub file_path: Seq<char>,
    pub is_modified: bool,
    pub lazy_loading: bool,
}

impl WorkbookView {
    /// There is a sheet, the current index names one, and every sheet is
    /// well formed.
    pub open spec fn wf(self) -> bool {
        &&& self.sheets.len() > 0
        &&& self.current < self.sheets.len()
        &&& forall|i: int| 0 <= i < self.sheets.len() ==> (#[trigger] self.sheets[i]).wf()
    }

    pub open spec fn current_sheet(self) -> SheetView {
        self.sheets[self.current as int]
    }

    /// The workbook after sheet `index` was changed to `sheet`.
    pub open spec fn with_sheet(self, index: int, sheet: SheetView) -> WorkbookView {
        WorkbookView { sheets: self.sheets.update(index, sheet), is_modified: true, ..self }
    }

    /// A sheet can be deleted when it exists and is not the only one.
    pub open spec fn has_spare_sheet(self, index: int) -> bool {
        0 <= index < self.sheets.len() && self.sheets.len() > 1
    }

    /// The workbook after sheet `index` was deleted. The current sheet stays
    /// the same sheet where it can; where it was the deleted one, the sheet
    /// behind it takes its place, or the one before it at the end.
    pub open spec fn without_sheet(self, index: int) -> WorkbookView {
        WorkbookView {
            sheets: self.sheets.remove(index),
            current: if self.current > index || self.current == self.sheets.len() - 1 {
                (self.current - 1) as nat
            } else {
                self.current
            },
            is_modified: true,
            ..self
        }
    }

    /// The workbook after `sheet` was put in at `index` and made current.
    pub open spec fn with_new_sheet(self, index: int, sheet: SheetView) -> WorkbookView {
        WorkbookView {
            sheets: self.sheets.insert(index, sheet),
            current: index as nat,
            is_modified: true,
            ..self
        }
    }

    /// The sheets and the current index are those of `other`.
    pub open spec fn same_content(self, other: WorkbookView) -> bool {
        self.sheets == other.sheets && self.current == other.current
    }
}

} // verus!
