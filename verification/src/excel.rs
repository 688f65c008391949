//! Cells, sheets and the workbook that holds them.

use crate::error::EngineError;
use crate::model::{
    lemma_cell_put_wf, lemma_columns_inserted_wf, lemma_columns_removed_wf,
    lemma_rows_inserted_wf, lemma_rows_removed_wf, SheetView, WorkbookView,
};
use crate::seqs::{
    check_indices, check_insert_points, insert_all, insert_indices, lemma_increasing_gap,
    lemma_insert_all_len, lemma_map_insert_all, lemma_map_remove_all, pick, remove_all,
    remove_indices,
};
use crate::source::{
    range_cells, range_error_name, range_height, range_kind, range_text, range_width,
    source_width, SourceCell,
};
use crate::text::{
    chars_equal, count_occurrences, field_count, is_float_literal, parses_as_number, text_chars,
};
use calamine::{DataType, Range};
use vstd::prelude::*;
use vstd::string::{StrSliceExecFns, StringExecFns};

verus! {

/// The coarse type that a cell is shown with.
#[derive(Clone, Copy, Debug, PartialEq, Eq, Structural)]
pub enum CellType {
    Text,
    Number,
    Date,
    Boolean,
    Empty,
}

/// The native type of a value that came from a file. A number with a
/// fraction is kept as the 64 bits of its IEEE 754 form.
#[derive(Debug, PartialEq)]
pub enum DataTypeInfo {
    Empty,
    String,
    Float(u64),
    Int(i64),
    Bool(bool),
    DateTime(u64),
    Duration(u64),
    DateTimeIso(String),
    DurationIso(String),
    Error,
}

pub enum DataTypeInfoView {
    Empty,
    String,
    Float(u64),
    Int(i64),
    Bool(bool),
    DateTime(u64),
    Duration(u64),
    DateTimeIso(Seq<char>),
    DurationIso(Seq<char>),
    Error,
}

impl View for DataTypeInfo {
    type V = DataTypeInfoView;

    open spec fn view(&self) -> DataTypeInfoView {
        match *self {
            DataTypeInfo::Empty => DataTypeInfoView::Empty,
            DataTypeInfo::String => DataTypeInfoView::String,
            DataTypeInfo::Float(bits) => DataTypeInfoView::Float(bits),
            DataTypeInfo::Int(i) => DataTypeInfoView::Int(i),
            DataTypeInfo::Bool(b) => DataTypeInfoView::Bool(b),
            DataTypeInfo::DateTime(bits) => DataTypeInfoView::DateTime(bits),
            DataTypeInfo::Duration(bits) => DataTypeInfoView::Duration(bits),
            DataTypeInfo::DateTimeIso(s) => DataTypeInfoView::DateTimeIso(s@),
            DataTypeInfo::DurationIso(s) => DataTypeInfoView::DurationIso(s@),
            DataTypeInfo::Error => DataTypeInfoView::Error,
        }
    }
}

impl Clone for DataTypeInfo {
    fn clone(&self) -> (res: Self)
        ensures
            res@ == self@,
    {
        match self {
            DataTypeInfo::Empty => DataTypeInfo::Empty,
            DataTypeInfo::String => DataTypeInfo::String,
            DataTypeInfo::Float(bits) => DataTypeInfo::Float(*bits),
            DataTypeInfo::Int(i) => DataTypeInfo::Int(*i),
            DataTypeInfo::Bool(b) => DataTypeInfo::Bool(*b),
            DataTypeInfo::DateTime(bits) => DataTypeInfo::DateTime(*bits),
            DataTypeInfo::Duration(bits) => DataTypeInfo::Duration(*bits),
            DataTypeInfo::DateTimeIso(s) => DataTypeInfo::DateTimeIso(s.clone()),
            DataTypeInfo::DurationIso(s) => DataTypeInfo::DurationIso(s.clone()),
            DataTypeInfo::Error => DataTypeInfo::Error,
        }
    }
}

/// One cell. A cell is never edited in place: a change puts a new cell
/// where the old one stood.
#[derive(Debug, PartialEq)]
pub struct Cell {
    pub value: String,
    pub is_formula: bool,
    pub cell_type: CellType,
    pub original_type: Option<DataTypeInfo>,
}

pub struct CellView {
    pub value: Seq<char>,
    pub is_formula: bool,
    pub cell_type: CellType,
    pub original_type: Option<DataTypeInfoView>,
}

impl View for Cell {
    type V = CellView;

    open spec fn view(&self) -> CellView {
        CellView {
            value: self.value@,
            is_formula: self.is_formula,
            cell_type: self.cell_type,
            original_type: match self.original_type {
                Some(t) => Some(t@),
                None => None,
            },
        }
    }
}

impl Clone for Cell {
    fn clone(&self) -> (res: Self)
        ensures
            res@ == self@,
    {
        Cell {
            value: self.value.clone(),
            is_formula: self.is_formula,
            cell_type: self.cell_type,
            original_type: match &self.original_type {
                Some(t) => Some(t.clone()),
                None => None,
            },
        }
    }
}

/// The type of a cell that holds `value`: empty text is `Empty`, a formula
/// is `Text` whatever it computes, a floating-point literal is `Number`,
/// text of three fields between `/` or between `-` is `Date`, the words
/// `true` and `false` are `Boolean`, and all else is `Text`.
pub open spec fn classify(value: Seq<char>, is_formula: bool) -> CellType {
    if value.len() == 0 {
        CellType::Empty
    } else if is_formula {
        CellType::Text
    } else if is_float_literal(value) {
        CellType::Number
    } else if field_count(value, '/') == 3 || field_count(value, '-') == 3 {
        CellType::Date
    } else if value == "true"@ || value == "false"@ {
        CellType::Boolean
    } else {
        CellType::Text
    }
}

/// Text that is neither empty nor a number, nor has the shape of a date, nor
/// is `true` or `false`, is `Text`.
pub proof fn lemma_plain_text_is_text(value: Seq<char>)
    requires
        value.len() > 0,
        !is_float_literal(value),
        field_count(value, '/') != 3,
        field_count(value, '-') != 3,
        value != "true"@,
        value != "false"@,
    ensures
        classify(value, false) == CellType::Text,
{
}

/// A formula is `Text` unless it is empty.
pub proof fn lemma_formula_is_text(value: Seq<char>)
    requires
        value.len() > 0,
    ensures
        classify(value, true) == CellType::Text,
{
}

/// The empty cell that fills the margin of a grid.
pub open spec fn empty_cell() -> CellView {
    CellView {
        value: Seq::empty(),
        is_formula: false,
        cell_type: CellType::Empty,
        original_type: Some(DataTypeInfoView::Empty),
    }
}

/// Whether the text begins with `=`.
pub open spec fn starts_formula(value: Seq<char>) -> bool {
    value.len() > 0 && value[0] == '='
}

/// Whether the text begins with `=`.
pub fn is_formula_text(value: &str) -> (b: bool)
    ensures
        b == starts_formula(value@),
{
    !value.is_empty() && value.get_char(0) == '='
}

impl Cell {
    /// A cell for text that was typed in, with its type worked out from the
    /// text.
    pub fn new(value: String, is_formula: bool) -> (cell: Cell)
        ensures
            cell@ == (CellView {
                value: value@,
                is_formula,
                cell_type: classify(value@, is_formula),
                original_type: None,
            }),
    {
        let chars = text_chars(value.as_str());
        let word_true = text_chars("true");
        let word_false = text_chars("false");
        let cell_type = if chars.len() == 0 {
            CellType::Empty
        } else if is_formula {
            CellType::Text
        } else if parses_as_number(&chars) {
            CellType::Number
        } else if count_occurrences(&chars, '/') == 2 || count_occurrences(&chars, '-') == 2 {
            CellType::Date
        } else if chars_equal(&chars, &word_true) || chars_equal(&chars, &word_false) {
            CellType::Boolean
        } else {
            CellType::Text
        };
        Cell::new_with_type(value, is_formula, cell_type, None)
    }

    pub fn new_with_type(
        value: String,
        is_formula: bool,
        cell_type: CellType,
        original_type: Option<DataTypeInfo>,
    ) -> (cell: Cell)
        ensures
            cell.value == value,
            cell.is_formula == is_formula,
            cell.cell_type == cell_type,
            cell.original_type == original_type,
    {
        Cell { value, is_formula, cell_type, original_type }
    }

    pub fn empty() -> (cell: Cell)
        ensures
            cell@ == empty_cell(),
    {
        Cell {
            value: String::new(),
            is_formula: false,
            cell_type: CellType::Empty,
            original_type: Some(DataTypeInfo::Empty),
        }
    }
}

pub open spec fn cell_view() -> spec_fn(Cell) -> CellView {
    |c: Cell| c@
}

/// The cells of a row as values.
pub open spec fn row_view(row: Seq<Cell>) -> Seq<CellView> {
    row.map_values(cell_view())
}

pub open spec fn cells_view() -> spec_fn(Vec<Cell>) -> Seq<CellView> {
    |row: Vec<Cell>| row_view(row@)
}

/// The cells of a grid as values, row by row.
pub open spec fn grid_view(data: Seq<Vec<Cell>>) -> Seq<Seq<CellView>> {
    data.map_values(cells_view())
}

/// What the views of a row and of a grid hold, cell by cell.
pub proof fn lemma_grid_view(data: Seq<Vec<Cell>>)
    ensures
        grid_view(data).len() == data.len(),
        forall|i: int|
            0 <= i < data.len() ==> (#[trigger] grid_view(data)[i]) == row_view(data[i]@),
        forall|i: int| 0 <= i < data.len() ==> (#[trigger] grid_view(data)[i]).len() == data[i].len(),
        forall|i: int, j: int|
            0 <= i < data.len() && 0 <= j < data[i].len() ==> (#[trigger] grid_view(data)[i][j])
                == data[i][j]@,
{
}

/// A copy of a row of cells.
pub fn clone_row(row: &Vec<Cell>) -> (copy: Vec<Cell>)
    ensures
        row_view(copy@) == row_view(row@),
{
    let mut copy: Vec<Cell> = Vec::new();
    let mut i: usize = 0;
    while i < row.len()
        invariant
            0 <= i <= row.len(),
            copy.len() == i,
            forall|j: int| 0 <= j < i ==> copy[j]@ == row[j]@,
        decreases row.len() - i,
    {
        copy.push(row[i].clone());
        i += 1;
    }
    assert(row_view(copy@) =~= row_view(row@));
    copy
}

/// A copy of a grid of cells.
pub fn clone_grid(data: &Vec<Vec<Cell>>) -> (copy: Vec<Vec<Cell>>)
    ensures
        grid_view(copy@) == grid_view(data@),
{
    let mut copy: Vec<Vec<Cell>> = Vec::new();
    let mut i: usize = 0;
    while i < data.len()
        invariant
            0 <= i <= data.len(),
            copy.len() == i,
            forall|j: int| 0 <= j < i ==> row_view(copy[j]@) == row_view(data[j]@),
        decreases data.len() - i,
    {
        copy.push(clone_row(&data[i]));
        i += 1;
    }
    assert(grid_view(copy@) =~= grid_view(data@));
    copy
}

/// One named grid of cells, indexed from 1: row 0 and column 0 are a margin.
#[derive(Debug, PartialEq)]
pub struct Sheet {
    pub name: String,
    pub data: Vec<Vec<Cell>>,
    pub max_rows: usize,
    pub max_cols: usize,
    /// False until the grid was read from the file.
    pub is_loaded: bool,
}

impl View for Sheet {
    type V = SheetView;

    open spec fn view(&self) -> SheetView {
        SheetView {
            name: self.name@,
            data: grid_view(self.data@),
            max_rows: self.max_rows as nat,
            max_cols: self.max_cols as nat,
            is_loaded: self.is_loaded,
        }
    }
}

impl Clone for Sheet {
    fn clone(&self) -> (res: Self)
        ensures
            res@ == self@,
    {
        Sheet {
            name: self.name.clone(),
            data: clone_grid(&self.data),
            max_rows: self.max_rows,
            max_cols: self.max_cols,
            is_loaded: self.is_loaded,
        }
    }
}

/// A sheet whose grid was not read yet: no cells and no bounds.
pub open spec fn unloaded_sheet(name: Seq<char>) -> SheetView {
    SheetView { name, data: Seq::empty(), max_rows: 0, max_cols: 0, is_loaded: false }
}

/// The text of the populated region: rows 1 to `max_rows`, columns 1 to
/// `max_cols`.
pub open spec fn populated_text(sheet: SheetView) -> Seq<Seq<Seq<char>>> {
    Seq::new(
        sheet.max_rows,
        |r: int| Seq::new(sheet.max_cols, |c: int| sheet.data[r + 1][c + 1].value),
    )
}

pub open spec fn texts_view(rows: Seq<Vec<String>>) -> Seq<Seq<Seq<char>>> {
    Seq::new(rows.len(), |r: int| Seq::new(rows[r]@.len(), |c: int| rows[r][c]@))
}

impl Sheet {
    pub fn unloaded(name: String) -> (sheet: Sheet)
        ensures
            sheet@ == unloaded_sheet(name@),
            sheet@.wf(),
    {
        let sheet = Sheet { name, data: Vec::new(), max_rows: 0, max_cols: 0, is_loaded: false };
        assert(sheet@.data =~= Seq::empty());
        sheet
    }

    /// Whether the grid is rectangular and holds the populated region, and
    /// is empty if the sheet was not read yet.
    pub fn is_wf(&self) -> (ok: bool)
        ensures
            ok == self@.wf(),
    {
        proof {
            lemma_grid_view(self.data@);
        }
        if self.data.len() == 0 {
            return self.max_rows == 0 && self.max_cols == 0;
        }
        if !self.is_loaded {
            return false;
        }
        let width = self.data[0].len();
        assert(self@.width() == width);
        if self.max_rows >= self.data.len() || self.max_cols >= width {
            return false;
        }
        let mut i: usize = 0;
        while i < self.data.len()
            invariant
                0 <= i <= self.data.len(),
                self@.width() == width,
                forall|j: int| 0 <= j < i ==> (#[trigger] self.data[j]).len() == width,
            decreases self.data.len() - i,
        {
            if self.data[i].len() != width {
                proof {
                    lemma_grid_view(self.data@);
                }
                assert(self@.data[i as int].len() != self@.width());
                return false;
            }
            i += 1;
        }
        proof {
            lemma_grid_view(self.data@);
        }
        assert forall|j: int| 0 <= j < self@.data.len() implies (#[trigger] self@.data[j]).len()
            == self@.width() by {
            assert(self.data[j].len() == width);
        }
        true
    }

    /// Puts `cell` where (row, col) is and returns the cell that stood
    /// there. Coordinates that the grid has no room for are rejected.
    pub fn put_cell(&mut self, row: usize, col: usize, cell: Cell) -> (res: Result<
        Cell,
        EngineError,
    >)
        requires
            old(self)@.wf(),
        ensures
            final(self)@.wf(),
            match res {
                Ok(previous) => {
                    &&& old(self)@.allocated(row as int, col as int)
                    &&& previous@ == old(self)@.data[row as int][col as int]
                    &&& final(self)@ == old(self)@.with_cell(row as int, col as int, cell@)
                },
                Err(e) => {
                    &&& e == EngineError::OutOfRange
                    &&& !old(self)@.allocated(row as int, col as int)
                    &&& *final(self) == *old(self)
                },
            },
    {
        proof {
            lemma_grid_view(self.data@);
        }
        if row >= self.data.len() || col >= self.data[0].len() {
            return Err(EngineError::OutOfRange);
        }
        assert(self@.data[row as int].len() == self@.width());
        let previous = self.data[row][col].clone();
        self.data[row][col] = cell;
        proof {
            lemma_grid_view(self.data@);
        }
        proof {
            let want = old(self)@.with_cell(row as int, col as int, cell@);
            assert forall|i: int| 0 <= i < self.data.len() implies #[trigger] self@.data[i]
                =~= want.data[i] by {}
            assert(self@.data =~= want.data);
            lemma_cell_put_wf(old(self)@, row as int, col as int, cell@);
        }
        Ok(previous)
    }

    /// Deletes the given rows and returns their cells. Anything but a set
    /// of populated rows, listed in increasing order, is rejected.
    pub fn remove_rows(&mut self, rows: &Vec<usize>) -> (res: Result<Vec<Vec<Cell>>, EngineError>)
        requires
            old(self)@.wf(),
        ensures
            final(self)@.wf(),
            match res {
                Ok(cells) => {
                    &&& old(self)@.has_rows(rows@)
                    &&& grid_view(cells@) == old(self)@.rows_at(rows@)
                    &&& final(self)@ == old(self)@.without_rows(rows@)
                },
                Err(e) => {
                    &&& e == EngineError::OutOfRange
                    &&& !old(self)@.has_rows(rows@)
                    &&& *final(self) == *old(self)
                },
            },
    {
        proof {
            lemma_grid_view(self.data@);
            assert(self.data.len() <= usize::MAX);
        }
        if !check_indices(rows, 1, self.max_rows + 1) {
            return Err(EngineError::OutOfRange);
        }
        proof {
            lemma_increasing_gap(rows@, 0, rows.len() - 1);
        }
        proof {
            lemma_map_remove_all(self.data@, rows@, cells_view());
            lemma_rows_removed_wf(self@, rows@);
        }
        let cells = remove_indices(&mut self.data, rows);
        self.max_rows = self.max_rows - rows.len();
        Ok(cells)
    }

    /// Puts the rows of cells in at the given places, from the first to the
    /// last. Rows that do not fit are rejected.
    pub fn insert_rows(&mut self, rows: &Vec<usize>, cells: Vec<Vec<Cell>>) -> (res: Result<
        (),
        EngineError,
    >)
        requires
            old(self)@.wf(),
        ensures
            final(self)@.wf(),
            match res {
                Ok(_) => {
                    &&& old(self)@.fits_rows(rows@, grid_view(cells@))
                    &&& final(self)@ == old(self)@.with_rows(rows@, grid_view(cells@))
                },
                Err(e) => {
                    &&& e == EngineError::OutOfRange
                    &&& !old(self)@.fits_rows(rows@, grid_view(cells@))
                    &&& *final(self) == *old(self)
                },
            },
    {
        proof {
            lemma_grid_view(self.data@);
            lemma_grid_view(cells@);
        }
        if rows.len() != cells.len() || rows.len() == 0 || self.data.len() == 0 {
            return Err(EngineError::OutOfRange);
        }
        if !check_insert_points(rows, 1, self.max_rows + 1) {
            return Err(EngineError::OutOfRange);
        }
        let width = self.data[0].len();
        let mut k: usize = 0;
        while k < cells.len()
            invariant
                *self == *old(self),
                self@.wf(),
                self@.width() == width,
                0 <= k <= cells.len(),
                forall|j: int| 0 <= j < k ==> (#[trigger] cells[j]).len() == width,
            decreases cells.len() - k,
        {
            if cells[k].len() != width {
                proof {
                    lemma_grid_view(cells@);
                }
                assert(grid_view(cells@)[k as int].len() != self@.width());
                return Err(EngineError::OutOfRange);
            }
            k += 1;
        }
        proof {
            assert forall|j: int| 0 <= j < grid_view(cells@).len() implies (
            #[trigger] grid_view(cells@)[j]).len() == self@.width() by {
                assert(cells[j].len() == width);
            }
            lemma_map_insert_all(self.data@, rows@, cells@, cells_view());
            lemma_insert_all_len(self@.data, rows@, grid_view(cells@));
            lemma_rows_inserted_wf(self@, rows@, grid_view(cells@));
        }
        insert_indices(&mut self.data, rows, cells);
        assert(self.data.len() == old(self).data.len() + rows.len());
        self.max_rows = self.max_rows + rows.len();
        Ok(())
    }

    /// Deletes the given columns and returns their cells, row by row.
    /// Anything but a set of populated columns, listed in increasing order,
    /// is rejected.
    pub fn remove_columns(&mut self, cols: &Vec<usize>) -> (res: Result<
        Vec<Vec<Cell>>,
        EngineError,
    >)
        requires
            old(self)@.wf(),
        ensures
            final(self)@.wf(),
            match res {
                Ok(cells) => {
                    &&& old(self)@.has_columns(cols@)
                    &&& grid_view(cells@) == old(self)@.columns_at(cols@)
                    &&& final(self)@ == old(self)@.without_columns(cols@)
                },
                Err(e) => {
                    &&& e == EngineError::OutOfRange
                    &&& !old(self)@.has_columns(cols@)
                    &&& *final(self) == *old(self)
                },
            },
    {
        proof {
            lemma_grid_view(self.data@);
        }
        proof {
            if self.data.len() > 0 {
                assert(self.data[0].len() <= usize::MAX);
            }
        }
        if !check_indices(cols, 1, self.max_cols + 1) {
            return Err(EngineError::OutOfRange);
        }
        proof {
            lemma_increasing_gap(cols@, 0, cols.len() - 1);
        }
        let ghost before = self@;
        let mut cells: Vec<Vec<Cell>> = Vec::new();
        let mut i: usize = 0;
        while i < self.data.len()
            invariant
                before == old(self)@,
                before.wf(),
                before.has_columns(cols@),
                self.data.len() == old(self).data.len(),
                self.name == old(self).name,
                self.max_rows == old(self).max_rows,
                self.max_cols == old(self).max_cols,
                self.is_loaded == old(self).is_loaded,
                0 <= i <= self.data.len(),
                cells.len() == i,
                forall|j: int|
                    0 <= j < i ==> row_view(#[trigger] self.data[j]@) == remove_all(
                        before.data[j],
                        cols@,
                    ),
                forall|j: int| 0 <= j < i ==> row_view(#[trigger] cells[j]@) == pick(before.data[j], cols@),
                forall|j: int| i <= j < self.data.len() ==> self.data[j] == old(self).data[j],
            decreases self.data.len() - i,
        {
            proof {
                lemma_grid_view(old(self).data@);
                assert(before.data[i as int].len() == before.width());
                lemma_map_remove_all(self.data[i as int]@, cols@, cell_view());
            }
            let picked = remove_indices(&mut self.data[i], cols);
            cells.push(picked);
            i += 1;
        }
        self.max_cols = self.max_cols - cols.len();
        proof {
            lemma_grid_view(self.data@);
            lemma_grid_view(cells@);
            lemma_grid_view(old(self).data@);
            assert(grid_view(cells@) =~= before.columns_at(cols@));
            assert(self@.data =~= before.without_columns(cols@).data);
            lemma_columns_removed_wf(before, cols@);
        }
        Ok(cells)
    }

    /// Puts the cells in as columns at the given places; `cells` holds one
    /// run of cells for each row of the grid. Cells that do not fit are
    /// rejected.
    pub fn insert_columns(&mut self, cols: &Vec<usize>, cells: Vec<Vec<Cell>>) -> (res: Result<
        (),
        EngineError,
    >)
        requires
            old(self)@.wf(),
        ensures
            final(self)@.wf(),
            match res {
                Ok(_) => {
                    &&& old(self)@.fits_columns(cols@, grid_view(cells@))
                    &&& final(self)@ == old(self)@.with_columns(cols@, grid_view(cells@))
                },
                Err(e) => {
                    &&& e == EngineError::OutOfRange
                    &&& !old(self)@.fits_columns(cols@, grid_view(cells@))
                    &&& *final(self) == *old(self)
                },
            },
    {
        proof {
            lemma_grid_view(self.data@);
            lemma_grid_view(cells@);
        }
        if cols.len() == 0 || self.data.len() == 0 || cells.len() != self.data.len() {
            return Err(EngineError::OutOfRange);
        }
        assert(self.data[0].len() <= usize::MAX);
        if !check_insert_points(cols, 1, self.max_cols + 1) {
            return Err(EngineError::OutOfRange);
        }
        let mut k: usize = 0;
        while k < cells.len()
            invariant
                *self == *old(self),
                self@.wf(),
                0 <= k <= cells.len(),
                forall|j: int| 0 <= j < k ==> (#[trigger] cells[j]).len() == cols.len(),
            decreases cells.len() - k,
        {
            if cells[k].len() != cols.len() {
                proof {
                    lemma_grid_view(cells@);
                }
                assert(grid_view(cells@)[k as int].len() != cols.len());
                return Err(EngineError::OutOfRange);
            }
            k += 1;
        }
        let ghost before = self@;
        let ghost added = grid_view(cells@);
        assert forall|j: int| 0 <= j < added.len() implies (#[trigger] added[j]).len()
            == cols.len() by {
            assert(cells[j].len() == cols.len());
        }
        let mut i: usize = 0;
        for run in it: cells
            invariant
                before == old(self)@,
                before.wf(),
                before.fits_columns(cols@, added),
                added == grid_view(cells@),
                it.seq() == cells@,
                i == it.index(),
                cells.len() == self.data.len(),
                self.data.len() == old(self).data.len(),
                self.name == old(self).name,
                self.max_rows == old(self).max_rows,
                self.max_cols == old(self).max_cols,
                self.is_loaded == old(self).is_loaded,
                forall|j: int|
                    0 <= j < i ==> row_view(#[trigger] self.data[j]@) == insert_all(
                        before.data[j],
                        cols@,
                        added[j],
                    ),
                forall|j: int| i <= j < self.data.len() ==> self.data[j] == old(self).data[j],
        {
            proof {
                lemma_grid_view(old(self).data@);
                lemma_grid_view(cells@);
                assert(before.data[i as int].len() == before.width());
                assert(added[i as int].len() == cols.len());
                assert(run.len() == cols.len());
                lemma_map_insert_all(self.data[i as int]@, cols@, run@, cell_view());
            }
            insert_indices(&mut self.data[i], cols, run);
            i += 1;
        }
        proof {
            lemma_grid_view(self.data@);
            lemma_grid_view(old(self).data@);
            assert(self@.data =~= before.with_columns(cols@, added).data);
            lemma_columns_inserted_wf(before, cols@, added);
            assert(before.data[0].len() == before.width());
            lemma_insert_all_len(before.data[0], cols@, added[0]);
        }
        assert(self@.data[0].len() == before.width() + cols.len());
        assert(self.data[0].len() == before.width() + cols.len());
        self.max_cols = self.max_cols + cols.len();
        Ok(())
    }

    /// The text of the populated region, for writing the sheet out.
    pub fn populated_rows(&self) -> (rows: Vec<Vec<String>>)
        requires
            self@.wf(),
        ensures
            texts_view(rows@) == populated_text(self@),
    {
        proof {
            lemma_grid_view(self.data@);
        }
        let mut rows: Vec<Vec<String>> = Vec::new();
        let mut r: usize = 0;
        while r < self.max_rows
            invariant
                self@.wf(),
                0 <= r <= self.max_rows,
                rows.len() == r,
                forall|i: int|
                    0 <= i < r ==> (#[trigger] texts_view(rows@)[i]) == populated_text(self@)[i],
            decreases self.max_rows - r,
        {
            let mut row: Vec<String> = Vec::new();
            let mut c: usize = 0;
            proof {
                lemma_grid_view(self.data@);
            }
            assert(self@.data[r + 1].len() == self@.width());
            let ghost done = rows@;
            while c < self.max_cols
                invariant
                    self@.wf(),
                    0 <= r < self.max_rows,
                    self.data[r + 1].len() == self@.width(),
                    0 <= c <= self.max_cols,
                    row.len() == c,
                    forall|j: int|
                        0 <= j < c ==> (#[trigger] row[j])@ == self@.data[r + 1][j + 1].value,
                decreases self.max_cols - c,
            {
                proof {
                    lemma_grid_view(self.data@);
                }
                row.push(self.data[r + 1][c + 1].value.clone());
                c += 1;
            }
            rows.push(row);
            assert(texts_view(rows@)[r as int] =~= populated_text(self@)[r as int]);
            assert forall|i: int| 0 <= i < r implies (#[trigger] texts_view(rows@)[i])
                == populated_text(self@)[i] by {
                assert(rows@[i] == done[i]);
                assert(texts_view(rows@)[i] =~= texts_view(done)[i]);
            }
            r += 1;
        }
        assert(texts_view(rows@) =~= populated_text(self@));
        rows
    }
}

/// The coarse type that a value of a native kind is shown with.
pub open spec fn source_cell_type(kind: DataTypeInfoView) -> CellType {
    match kind {
        DataTypeInfoView::Empty => CellType::Empty,
        DataTypeInfoView::String => CellType::Text,
        DataTypeInfoView::Float(_) => CellType::Number,
        DataTypeInfoView::Int(_) => CellType::Number,
        DataTypeInfoView::Bool(_) => CellType::Boolean,
        DataTypeInfoView::Error => CellType::Text,
        DataTypeInfoView::DateTime(_) => CellType::Date,
        DataTypeInfoView::Duration(_) => CellType::Text,
        DataTypeInfoView::DateTimeIso(_) => CellType::Date,
        DataTypeInfoView::DurationIso(_) => CellType::Text,
    }
}

/// The text that a value of a parsed range is shown with: the text that
/// it is displayed with, nothing for an empty value, and the error's name
/// behind `Error: ` for an error.
pub open spec fn source_text(src: SourceCell) -> Seq<char> {
    match src.kind {
        DataTypeInfoView::Empty => Seq::empty(),
        DataTypeInfoView::Error => "Error: "@ + src.error_name,
        _ => src.text,
    }
}

/// The cell that a value of a parsed range becomes. Its type follows from
/// the native kind, not from the text, and the native kind is kept.
pub open spec fn cell_from_source(src: SourceCell) -> CellView {
    CellView {
        value: source_text(src),
        is_formula: starts_formula(source_text(src)),
        cell_type: source_cell_type(src.kind),
        original_type: Some(src.kind),
    }
}

/// The sheet that parsed rows become: one margin row and one margin column
/// of empty cells, and behind them one cell for each value.
pub open spec fn sheet_from_source(name: Seq<char>, cells: Seq<Seq<SourceCell>>) -> SheetView {
    SheetView {
        name,
        data: Seq::new(
            cells.len() + 1,
            |r: int|
                Seq::new(
                    source_width(cells) + 1,
                    |c: int|
                        if r == 0 || c == 0 {
                            empty_cell()
                        } else {
                            cell_from_source(cells[r - 1][c - 1])
                        },
                ),
        ),
        max_rows: cells.len(),
        max_cols: source_width(cells),
        is_loaded: true,
    }
}

/// The cell for a value of the given kind; `text` is the error's name for
/// an error value, and the displayed text for every other.
fn source_cell(kind: DataTypeInfo, text: String) -> (cell: Cell)
    ensures
        cell@ == cell_from_source(SourceCell { kind: kind@, text: text@, error_name: text@ }),
{
    let cell_type = match &kind {
        DataTypeInfo::Empty => CellType::Empty,
        DataTypeInfo::String => CellType::Text,
        DataTypeInfo::Float(_) => CellType::Number,
        DataTypeInfo::Int(_) => CellType::Number,
        DataTypeInfo::Bool(_) => CellType::Boolean,
        DataTypeInfo::Error => CellType::Text,
        DataTypeInfo::DateTime(_) => CellType::Date,
        DataTypeInfo::Duration(_) => CellType::Text,
        DataTypeInfo::DateTimeIso(_) => CellType::Date,
        DataTypeInfo::DurationIso(_) => CellType::Text,
    };
    let value = match &kind {
        DataTypeInfo::Empty => String::new(),
        DataTypeInfo::Error => {
            let mut value = "Error: ".to_owned();
            value.append(text.as_str());
            value
        },
        _ => text,
    };
    let is_formula = is_formula_text(value.as_str());
    Cell::new_with_type(value, is_formula, cell_type, Some(kind))
}

/// Builds a sheet from a parsed range.
pub fn create_sheet_from_range(name: &str, range: &Range<DataType>) -> (sheet: Sheet)
    ensures
        sheet@ == sheet_from_source(name@, range_cells(*range)),
        sheet@.wf(),
{
    let height = range_height(range);
    let width = range_width(range);
    let ghost cells = range_cells(*range);
    let ghost want = sheet_from_source(name@, cells);
    let mut data: Vec<Vec<Cell>> = Vec::new();
    let mut margin: Vec<Cell> = Vec::new();
    margin.push(Cell::empty());
    let mut c: usize = 0;
    while c < width
        invariant
            0 <= c <= width,
            margin.len() == c + 1,
            forall|j: int| 0 <= j < margin.len() ==> (#[trigger] margin[j])@ == empty_cell(),
        decreases width - c,
    {
        margin.push(Cell::empty());
        c += 1;
    }
    assert(row_view(margin@) =~= want.data[0]);
    data.push(margin);
    let mut r: usize = 0;
    while r < height
        invariant
            cells == range_cells(*range),
            want == sheet_from_source(name@, cells),
            height == cells.len(),
            width == source_width(cells),
            forall|i: int| 0 <= i < cells.len() ==> (#[trigger] cells[i]).len() == width,
            0 <= r <= height,
            data.len() == r + 1,
            forall|i: int| 0 <= i < data.len() ==> row_view(#[trigger] data[i]@) == want.data[i],
        decreases height - r,
    {
        let mut row: Vec<Cell> = Vec::new();
        row.push(Cell::empty());
        let mut c: usize = 0;
        while c < width
            invariant
                cells == range_cells(*range),
                height == cells.len(),
                width == source_width(cells),
                forall|i: int| 0 <= i < cells.len() ==> (#[trigger] cells[i]).len() == width,
                0 <= r < height,
                0 <= c <= width,
                row.len() == c + 1,
                row[0]@ == empty_cell(),
                forall|j: int|
                    1 <= j < row.len() ==> (#[trigger] row[j])@ == cell_from_source(
                        cells[r as int][j - 1],
                    ),
            decreases width - c,
        {
            assert(cells[r as int].len() == width);
            let kind = range_kind(range, r, c);
            let text = match &kind {
                DataTypeInfo::Error => range_error_name(range, r, c),
                _ => range_text(range, r, c),
            };
            let cell = source_cell(kind, text);
            assert(cell@ == cell_from_source(cells[r as int][c as int]));
            row.push(cell);
            c += 1;
        }
        assert(row_view(row@) =~= want.data[r + 1]);
        data.push(row);
        r += 1;
    }
    let sheet = Sheet { name: name.to_owned(), data, max_rows: height, max_cols: width, is_loaded: true };
    proof {
        lemma_grid_view(sheet.data@);
        assert(sheet@.data =~= want.data);
    }
    sheet
}

/// Whether sheet `index` is read when the workbook is opened: every sheet,
/// or only the first one where the sheets are read when asked for.
pub fn read_at_open(index: usize, lazy_loading: bool) -> (now: bool)
    ensures
        now == (!lazy_loading || index == 0),
{
    !lazy_loading || index == 0
}

/// What one sheet of a workbook is opened from: its name, and its parsed
/// range unless reading it is put off.
pub struct SheetSource {
    pub name: String,
    pub range: Option<Range<DataType>>,
}

/// The sheet that a source becomes: unloaded where the range is put off.
pub open spec fn source_sheet(src: SheetSource) -> SheetView {
    match src.range {
        Some(range) => sheet_from_source(src.name@, range_cells(range)),
        None => unloaded_sheet(src.name@),
    }
}

pub open spec fn sheet_view() -> spec_fn(Sheet) -> SheetView {
    |s: Sheet| s@
}

pub open spec fn sheets_view(sheets: Seq<Sheet>) -> Seq<SheetView> {
    sheets.map_values(sheet_view())
}

/// The cell that typed text becomes: a formula where it begins with `=`,
/// with the type that follows from the text.
pub open spec fn typed_cell(value: Seq<char>) -> CellView {
    CellView {
        value,
        is_formula: starts_formula(value),
        cell_type: classify(value, starts_formula(value)),
        original_type: None,
    }
}

/// The cell that typed text becomes.
pub fn cell_from_text(value: String) -> (cell: Cell)
    ensures
        cell@ == typed_cell(value@),
{
    let is_formula = is_formula_text(value.as_str());
    Cell::new(value, is_formula)
}

/// What is written out of one sheet: its name, the number of its columns,
/// and the text of its populated region.
pub struct SheetExport {
    pub name: String,
    pub column_count: usize,
    pub rows: Vec<Vec<String>>,
}

/// The whole document under edit.
pub struct Workbook {
    sheets: Vec<Sheet>,
    current_sheet_index: usize,
    file_path: String,
    is_modified: bool,
    lazy_loading: bool,
}

impl View for Workbook {
    type V = WorkbookView;

    closed spec fn view(&self) -> WorkbookView {
        WorkbookView {
            sheets: sheets_view(self.sheets@),
            current: self.current_sheet_index as nat,
            file_path: self.file_path@,
            is_modified: self.is_modified,
            lazy_loading: self.lazy_loading,
        }
    }
}

/// The workbook after sheet `index` was read, or after the attempt: a sheet
/// that is loaded stays as it is, a range that was read becomes the sheet,
/// and a failure changes nothing.
pub open spec fn loaded(
    wb: WorkbookView,
    index: int,
    name: Seq<char>,
    fetched: Result<Seq<Seq<SourceCell>>, Seq<char>>,
) -> WorkbookView {
    if needs_load(wb, index) && fetched is Ok {
        WorkbookView {
            sheets: wb.sheets.update(index, sheet_from_source(name, fetched->Ok_0)),
            ..wb
        }
    } else {
        wb
    }
}

/// What was fetched, as values.
pub open spec fn fetched_view(fetched: Result<Range<DataType>, String>) -> Result<
    Seq<Seq<SourceCell>>,
    Seq<char>,
> {
    match fetched {
        Ok(range) => Ok(range_cells(range)),
        Err(cause) => Err(cause@),
    }
}

/// A sheet has to be read from the file before it can be shown: there is
/// such a sheet, and it is not loaded.
pub open spec fn needs_load(wb: WorkbookView, index: int) -> bool {
    0 <= index < wb.sheets.len() && !wb.sheets[index].is_loaded
}

/// After a sheet was read it needs no reading, and reading it again changes
/// nothing, whatever is fetched: the second time gives the grid of the
/// first.
pub proof fn lemma_load_idempotent(
    wb: WorkbookView,
    index: int,
    name: Seq<char>,
    first: Seq<Seq<SourceCell>>,
    again_name: Seq<char>,
    again: Result<Seq<Seq<SourceCell>>, Seq<char>>,
)
    requires
        0 <= index < wb.sheets.len(),
    ensures
        !needs_load(loaded(wb, index, name, Ok(first)), index),
        loaded(loaded(wb, index, name, Ok(first)), index, again_name, again) == loaded(
            wb,
            index,
            name,
            Ok(first),
        ),
{
}

/// Opens a workbook from what was read of its file: the sheets in the order
/// of the file, the first one current, nothing modified. A file without a
/// sheet is rejected.
pub fn open_workbook(path: String, sources: Vec<SheetSource>, lazy_loading: bool) -> (res: Result<
    Workbook,
    EngineError,
>)
    ensures
        match res {
            Ok(wb) => {
                &&& sources.len() > 0
                &&& wb.wf()
                &&& wb@ == (WorkbookView {
                    sheets: Seq::new(sources.len() as nat, |i: int| source_sheet(sources[i])),
                    current: 0,
                    file_path: path@,
                    is_modified: false,
                    lazy_loading,
                })
            },
            Err(e) => e == EngineError::NoWorksheets && sources.len() == 0,
        },
{
    let mut sheets: Vec<Sheet> = Vec::new();
    let mut i: usize = 0;
    while i < sources.len()
        invariant
            0 <= i <= sources.len(),
            sheets.len() == i,
            forall|j: int| 0 <= j < i ==> (#[trigger] sheets[j])@ == source_sheet(sources[j]),
            forall|j: int| 0 <= j < i ==> (#[trigger] sheets[j])@.wf(),
        decreases sources.len() - i,
    {
        let source = &sources[i];
        let sheet = match &source.range {
            Some(range) => create_sheet_from_range(source.name.as_str(), range),
            None => Sheet::unloaded(source.name.clone()),
        };
        sheets.push(sheet);
        i += 1;
    }
    if sheets.len() == 0 {
        return Err(EngineError::NoWorksheets);
    }
    let wb = Workbook {
        sheets,
        current_sheet_index: 0,
        file_path: path,
        is_modified: false,
        lazy_loading,
    };
    proof {
        assert(wb@.sheets =~= Seq::new(sources.len() as nat, |i: int| source_sheet(sources[i])));
    }
    Ok(wb)
}

impl Workbook {
    /// The invariant of a workbook: it has a sheet, the current index names
    /// one, and every sheet is well formed.
    pub open spec fn wf(&self) -> bool {
        self@.wf()
    }

    proof fn lemma_view(&self)
        ensures
            self@.sheets.len() == self.sheets.len(),
            forall|i: int| 0 <= i < self.sheets.len() ==> (#[trigger] self@.sheets[i]) == self.sheets[i]@,
            self@.current == self.current_sheet_index,
            self@.file_path == self.file_path@,
            self@.is_modified == self.is_modified,
            self@.lazy_loading == self.lazy_loading,
    {
    }

    proof fn lemma_sheet_changed(before: &Workbook, after: &Workbook, index: int)
        requires
            0 <= index < before.sheets.len(),
            after.sheets.len() == before.sheets.len(),
            forall|i: int|
                0 <= i < before.sheets.len() && i != index ==> after.sheets[i] == before.sheets[i],
            after.current_sheet_index == before.current_sheet_index,
            after.file_path == before.file_path,
            after.lazy_loading == before.lazy_loading,
        ensures
            before@.sheets[index] == before.sheets[index]@,
            after@.sheets == before@.sheets.update(index, after.sheets[index]@),
            after.is_modified ==> after@ == before@.with_sheet(index, after.sheets[index]@),
            after.sheets[index] == before.sheets[index] && after.is_modified == before.is_modified
                ==> after@ == before@,
    {
        before.lemma_view();
        after.lemma_view();
        assert(after@.sheets =~= before@.sheets.update(index, after.sheets[index]@));
        if after.sheets[index] == before.sheets[index] {
            assert(after@.sheets =~= before@.sheets);
        }
    }

    /// Whether the invariant holds.
    pub fn is_wf(&self) -> (ok: bool)
        ensures
            ok == self.wf(),
    {
        proof {
            self.lemma_view();
        }
        if self.sheets.len() == 0 || self.current_sheet_index >= self.sheets.len() {
            return false;
        }
        let mut i: usize = 0;
        while i < self.sheets.len()
            invariant
                0 <= i <= self.sheets.len(),
                forall|j: int| 0 <= j < i ==> (#[trigger] self.sheets[j])@.wf(),
            decreases self.sheets.len() - i,
        {
            if !self.sheets[i].is_wf() {
                proof {
                    self.lemma_view();
                    assert(!self@.sheets[i as int].wf());
                }
                return false;
            }
            i += 1;
        }
        proof {
            self.lemma_view();
        }
        true
    }

    pub fn get_current_sheet(&self) -> (sheet: &Sheet)
        requires
            self.wf(),
        ensures
            sheet@ == self@.current_sheet(),
            sheet@.wf(),
    {
        proof {
            self.lemma_view();
            assert(self@.sheets[self.current_sheet_index as int].wf());
        }
        &self.sheets[self.current_sheet_index]
    }

    /// The sheet at `index`, if there is one.
    pub fn get_sheet(&self, index: usize) -> (sheet: Option<&Sheet>)
        requires
            self.wf(),
        ensures
            match sheet {
                Some(s) => index < self@.sheets.len() && s@ == self@.sheets[index as int] && s@.wf(),
                None => index >= self@.sheets.len(),
            },
    {
        if index < self.sheets.len() {
            Some(&self.sheets[index])
        } else {
            None
        }
    }

    pub fn get_current_sheet_index(&self) -> (index: usize)
        ensures
            index == self@.current,
    {
        self.current_sheet_index
    }

    pub fn sheet_count(&self) -> (count: usize)
        ensures
            count == self@.sheets.len(),
    {
        self.sheets.len()
    }

    pub fn get_sheet_names(&self) -> (names: Vec<String>)
        ensures
            names.len() == self@.sheets.len(),
            forall|i: int| 0 <= i < names.len() ==> (#[trigger] names[i])@ == self@.sheets[i].name,
    {
        let mut names: Vec<String> = Vec::new();
        let mut i: usize = 0;
        while i < self.sheets.len()
            invariant
                0 <= i <= self.sheets.len(),
                names.len() == i,
                forall|j: int| 0 <= j < i ==> (#[trigger] names[j])@ == self.sheets[j].name@,
            decreases self.sheets.len() - i,
        {
            names.push(self.sheets[i].name.clone());
            i += 1;
        }
        names
    }

    pub fn get_current_sheet_name(&self) -> (name: String)
        requires
            self.wf(),
        ensures
            name@ == self@.current_sheet().name,
    {
        self.sheets[self.current_sheet_index].name.clone()
    }

    pub fn is_modified(&self) -> (modified: bool)
        ensures
            modified == self@.is_modified,
    {
        self.is_modified
    }

    pub fn get_file_path(&self) -> (path: &str)
        ensures
            path@ == self@.file_path,
    {
        self.file_path.as_str()
    }

    /// Whether the sheets of this workbook are read only when asked for.
    pub fn is_lazy_loading(&self) -> (lazy: bool)
        ensures
            lazy == self@.lazy_loading,
    {
        self.lazy_loading
    }

    /// Whether there is a sheet at `index` and its grid was read.
    pub fn is_sheet_loaded(&self, index: usize) -> (is_loaded: bool)
        ensures
            is_loaded == (index < self@.sheets.len() && self@.sheets[index as int].is_loaded),
    {
        index < self.sheets.len() && self.sheets[index].is_loaded
    }

    /// Makes the sheet at `index` current. The sheet is not read for it.
    pub fn switch_sheet(&mut self, index: usize) -> (res: Result<(), EngineError>)
        requires
            old(self).wf(),
        ensures
            final(self).wf(),
            match res {
                Ok(_) => index < old(self)@.sheets.len() && final(self)@ == (WorkbookView {
                    current: index as nat,
                    ..old(self)@
                }),
                Err(e) => e == EngineError::OutOfRange && index >= old(self)@.sheets.len()
                    && final(self)@ == old(self)@,
            },
    {
        if index >= self.sheets.len() {
            return Err(EngineError::OutOfRange);
        }
        self.current_sheet_index = index;
        Ok(())
    }

    /// Sets the text of a cell of the current sheet and marks the workbook
    /// modified. Coordinates that the grid has no room for are rejected.
    pub fn set_cell_value(&mut self, row: usize, col: usize, value: String) -> (res: Result<
        (),
        EngineError,
    >)
        requires
            old(self).wf(),
        ensures
            final(self).wf(),
            match res {
                Ok(_) => {
                    &&& old(self)@.current_sheet().allocated(row as int, col as int)
                    &&& final(self)@ == old(self)@.with_sheet(
                        old(self)@.current as int,
                        old(self)@.current_sheet().with_cell(
                            row as int,
                            col as int,
                            typed_cell(value@),
                        ),
                    )
                },
                Err(e) => {
                    &&& e == EngineError::OutOfRange
                    &&& !old(self)@.current_sheet().allocated(row as int, col as int)
                    &&& final(self)@ == old(self)@
                },
            },
    {
        let index = self.current_sheet_index;
        match self.put_cell(index, row, col, cell_from_text(value)) {
            Ok(_) => Ok(()),
            Err(e) => Err(e),
        }
    }

    /// The name of the sheet that has to be read before sheet `index` can
    /// be shown: none for a sheet that is loaded, and none without a sheet.
    pub fn load_request(&self, index: usize) -> (name: Option<String>)
        ensures
            match name {
                Some(n) => needs_load(self@, index as int) && n@ == self@.sheets[index as int].name,
                None => !needs_load(self@, index as int),
            },
    {
        if index < self.sheets.len() && !self.sheets[index].is_loaded {
            Some(self.sheets[index].name.clone())
        } else {
            None
        }
    }

    /// Makes sure that sheet `index` is loaded, given what reading it from
    /// the file gave. A sheet that is loaded stays as it is. A failed read
    /// is reported with the sheet's name and the cause, and changes nothing.
    pub fn ensure_sheet_loaded(
        &mut self,
        index: usize,
        name: &str,
        fetched: Result<Range<DataType>, String>,
    ) -> (res: Result<(), EngineError>)
        requires
            old(self).wf(),
        ensures
            final(self).wf(),
            final(self)@ == loaded(old(self)@, index as int, name@, fetched_view(fetched)),
            match res {
                Ok(_) => index < old(self)@.sheets.len() && (old(self)@.sheets[index as int].is_loaded
                    || fetched is Ok),
                Err(EngineError::OutOfRange) => index >= old(self)@.sheets.len(),
                Err(EngineError::LoadFailed(sheet, cause)) => {
                    &&& index < old(self)@.sheets.len()
                    &&& !old(self)@.sheets[index as int].is_loaded
                    &&& fetched is Err
                    &&& sheet@ == name@
                    &&& cause@ == fetched->Err_0@
                },
                Err(_) => false,
            },
    {
        if index >= self.sheets.len() {
            return Err(EngineError::OutOfRange);
        }
        if self.sheets[index].is_loaded {
            return Ok(());
        }
        match fetched {
            Ok(range) => {
                let sheet = create_sheet_from_range(name, &range);
                self.sheets[index] = sheet;
                proof {
                    assert(self@.sheets =~= old(self)@.sheets.update(
                        index as int,
                        sheet_from_source(name@, range_cells(range)),
                    ));
                }
                Ok(())
            },
            Err(cause) => Err(EngineError::LoadFailed(name.to_owned(), cause)),
        }
    }

    /// What has to be written to save the workbook: of every sheet, in
    /// order, the populated region.
    pub fn export_sheets(&self) -> (out: Vec<SheetExport>)
        requires
            self.wf(),
        ensures
            out.len() == self@.sheets.len(),
            forall|i: int|
                0 <= i < out.len() ==> {
                    &&& (#[trigger] out[i]).name@ == self@.sheets[i].name
                    &&& out[i].column_count == self@.sheets[i].max_cols
                    &&& texts_view(out[i].rows@) == populated_text(self@.sheets[i])
                },
    {
        let mut out: Vec<SheetExport> = Vec::new();
        let mut i: usize = 0;
        while i < self.sheets.len()
            invariant
                self.wf(),
                0 <= i <= self.sheets.len(),
                out.len() == i,
                forall|j: int|
                    0 <= j < i ==> {
                        &&& (#[trigger] out[j]).name@ == self.sheets[j].name@
                        &&& out[j].column_count == self.sheets[j].max_cols
                        &&& texts_view(out[j].rows@) == populated_text(self.sheets[j]@)
                    },
            decreases self.sheets.len() - i,
        {
            let sheet = &self.sheets[i];
            proof {
                self.lemma_view();
                assert(self@.sheets[i as int].wf());
            }
            out.push(
                SheetExport {
                    name: sheet.name.clone(),
                    column_count: sheet.max_cols,
                    rows: sheet.populated_rows(),
                },
            );
            i += 1;
        }
        out
    }

    /// Records how writing the exported sheets ended: a success clears the
    /// modified flag, a failure is reported with its cause and changes
    /// nothing.
    pub fn save(&mut self, written: Result<(), String>) -> (res: Result<(), EngineError>)
        ensures
            match res {
                Ok(_) => written is Ok && final(self)@ == (WorkbookView {
                    is_modified: false,
                    ..old(self)@
                }),
                Err(EngineError::SaveFailed(cause)) => written is Err && cause@
                    == written->Err_0@ && final(self)@ == old(self)@,
                Err(_) => false,
            },
    {
        match written {
            Ok(_) => {
                self.is_modified = false;
                Ok(())
            },
            Err(cause) => Err(EngineError::SaveFailed(cause)),
        }
    }

    /// Puts `cell` at (row, col) of sheet `sheet_index`, marks the workbook
    /// modified, and returns the cell that stood there.
    pub fn put_cell(&mut self, sheet_index: usize, row: usize, col: usize, cell: Cell) -> (res:
        Result<Cell, EngineError>)
        requires
            old(self).wf(),
        ensures
            final(self).wf(),
            match res {
                Ok(previous) => {
                    &&& sheet_index < old(self)@.sheets.len()
                    &&& old(self)@.sheets[sheet_index as int].allocated(row as int, col as int)
                    &&& previous@ == old(self)@.sheets[sheet_index as int].data[row as int][col as int]
                    &&& final(self)@ == old(self)@.with_sheet(
                        sheet_index as int,
                        old(self)@.sheets[sheet_index as int].with_cell(row as int, col as int, cell@),
                    )
                },
                Err(e) => {
                    &&& e == EngineError::OutOfRange
                    &&& !(sheet_index < old(self)@.sheets.len() && old(
                        self,
                    )@.sheets[sheet_index as int].allocated(row as int, col as int))
                    &&& final(self)@ == old(self)@
                },
            },
    {
        if sheet_index >= self.sheets.len() {
            return Err(EngineError::OutOfRange);
        }
        proof {
            self.lemma_view();
            assert(self@.sheets[sheet_index as int].wf());
        }
        let res = self.sheets[sheet_index].put_cell(row, col, cell);
        if res.is_ok() {
            self.is_modified = true;
        }
        proof {
            Self::lemma_sheet_changed(old(self), self, sheet_index as int);
        }
        res
    }

    /// Deletes rows of sheet `sheet_index` and returns their cells.
    pub fn remove_rows(&mut self, sheet_index: usize, rows: &Vec<usize>) -> (res: Result<
        Vec<Vec<Cell>>,
        EngineError,
    >)
        requires
            old(self).wf(),
        ensures
            final(self).wf(),
            match res {
                Ok(cells) => {
                    &&& sheet_index < old(self)@.sheets.len()
                    &&& old(self)@.sheets[sheet_index as int].has_rows(rows@)
                    &&& grid_view(cells@) == old(self)@.sheets[sheet_index as int].rows_at(rows@)
                    &&& final(self)@ == old(self)@.with_sheet(
                        sheet_index as int,
                        old(self)@.sheets[sheet_index as int].without_rows(rows@),
                    )
                },
                Err(e) => {
                    &&& e == EngineError::OutOfRange
                    &&& !(sheet_index < old(self)@.sheets.len() && old(
                        self,
                    )@.sheets[sheet_index as int].has_rows(rows@))
                    &&& final(self)@ == old(self)@
                },
            },
    {
        if sheet_index >= self.sheets.len() {
            return Err(EngineError::OutOfRange);
        }
        proof {
            self.lemma_view();
            assert(self@.sheets[sheet_index as int].wf());
        }
        let res = self.sheets[sheet_index].remove_rows(rows);
        if res.is_ok() {
            self.is_modified = true;
        }
        proof {
            Self::lemma_sheet_changed(old(self), self, sheet_index as int);
        }
        res
    }

    /// Puts rows of cells into sheet `sheet_index`.
    pub fn insert_rows(&mut self, sheet_index: usize, rows: &Vec<usize>, cells: Vec<Vec<Cell>>) -> (res:
        Result<(), EngineError>)
        requires
            old(self).wf(),
        ensures
            final(self).wf(),
            match res {
                Ok(_) => {
                    &&& sheet_index < old(self)@.sheets.len()
                    &&& old(self)@.sheets[sheet_index as int].fits_rows(rows@, grid_view(cells@))
                    &&& final(self)@ == old(self)@.with_sheet(
                        sheet_index as int,
                        old(self)@.sheets[sheet_index as int].with_rows(rows@, grid_view(cells@)),
                    )
                },
                Err(e) => {
                    &&& e == EngineError::OutOfRange
                    &&& !(sheet_index < old(self)@.sheets.len() && old(
                        self,
                    )@.sheets[sheet_index as int].fits_rows(rows@, grid_view(cells@)))
                    &&& final(self)@ == old(self)@
                },
            },
    {
        if sheet_index >= self.sheets.len() {
            return Err(EngineError::OutOfRange);
        }
        proof {
            self.lemma_view();
            assert(self@.sheets[sheet_index as int].wf());
        }
        let res = self.sheets[sheet_index].insert_rows(rows, cells);
        if res.is_ok() {
            self.is_modified = true;
        }
        proof {
            Self::lemma_sheet_changed(old(self), self, sheet_index as int);
        }
        res
    }

    /// Deletes columns of sheet `sheet_index` and returns their cells, row
    /// by row.
    pub fn remove_columns(&mut self, sheet_index: usize, cols: &Vec<usize>) -> (res: Result<
        Vec<Vec<Cell>>,
        EngineError,
    >)
        requires
            old(self).wf(),
        ensures
            final(self).wf(),
            match res {
                Ok(cells) => {
                    &&& sheet_index < old(self)@.sheets.len()
                    &&& old(self)@.sheets[sheet_index as int].has_columns(cols@)
                    &&& grid_view(cells@) == old(self)@.sheets[sheet_index as int].columns_at(cols@)
                    &&& final(self)@ == old(self)@.with_sheet(
                        sheet_index as int,
                        old(self)@.sheets[sheet_index as int].without_columns(cols@),
                    )
                },
                Err(e) => {
                    &&& e == EngineError::OutOfRange
                    &&& !(sheet_index < old(self)@.sheets.len() && old(
                        self,
                    )@.sheets[sheet_index as int].has_columns(cols@))
                    &&& final(self)@ == old(self)@
                },
            },
    {
        if sheet_index >= self.sheets.len() {
            return Err(EngineError::OutOfRange);
        }
        proof {
            self.lemma_view();
            assert(self@.sheets[sheet_index as int].wf());
        }
        let res = self.sheets[sheet_index].remove_columns(cols);
        if res.is_ok() {
            self.is_modified = true;
        }
        proof {
            Self::lemma_sheet_changed(old(self), self, sheet_index as int);
        }
        res
    }

    /// Puts cells into sheet `sheet_index` as columns.
    pub fn insert_columns(&mut self, sheet_index: usize, cols: &Vec<usize>, cells: Vec<Vec<Cell>>) -> (res:
        Result<(), EngineError>)
        requires
            old(self).wf(),
        ensures
            final(self).wf(),
            match res {
                Ok(_) => {
                    &&& sheet_index < old(self)@.sheets.len()
                    &&& old(self)@.sheets[sheet_index as int].fits_columns(cols@, grid_view(cells@))
                    &&& final(self)@ == old(self)@.with_sheet(
                        sheet_index as int,
                        old(self)@.sheets[sheet_index as int].with_columns(cols@, grid_view(cells@)),
                    )
                },
                Err(e) => {
                    &&& e == EngineError::OutOfRange
                    &&& !(sheet_index < old(self)@.sheets.len() && old(
                        self,
                    )@.sheets[sheet_index as int].fits_columns(cols@, grid_view(cells@)))
                    &&& final(self)@ == old(self)@
                },
            },
    {
        if sheet_index >= self.sheets.len() {
            return Err(EngineError::OutOfRange);
        }
        proof {
            self.lemma_view();
            assert(self@.sheets[sheet_index as int].wf());
        }
        let res = self.sheets[sheet_index].insert_columns(cols, cells);
        if res.is_ok() {
            self.is_modified = true;
        }
        proof {
            Self::lemma_sheet_changed(old(self), self, sheet_index as int);
        }
        res
    }

    /// Deletes sheet `index` and returns it. The only sheet of a workbook
    /// stays.
    pub fn remove_sheet(&mut self, index: usize) -> (res: Result<Sheet, EngineError>)
        requires
            old(self).wf(),
        ensures
            final(self).wf(),
            match res {
                Ok(sheet) => {
                    &&& old(self)@.has_spare_sheet(index as int)
                    &&& sheet@ == old(self)@.sheets[index as int]
                    &&& final(self)@ == old(self)@.without_sheet(index as int)
                },
                Err(EngineError::OutOfRange) => index >= old(self)@.sheets.len() && final(self)@
                    == old(self)@,
                Err(EngineError::LastSheet) => index < old(self)@.sheets.len() && old(
                    self,
                )@.sheets.len() == 1 && final(self)@ == old(self)@,
                Err(_) => false,
            },
    {
        if index >= self.sheets.len() {
            return Err(EngineError::OutOfRange);
        }
        if self.sheets.len() == 1 {
            return Err(EngineError::LastSheet);
        }
        let count = self.sheets.len();
        let sheet = self.sheets.remove(index);
        if self.current_sheet_index > index || self.current_sheet_index == count - 1 {
            self.current_sheet_index = self.current_sheet_index - 1;
        }
        self.is_modified = true;
        proof {
            assert(self@.sheets =~= old(self)@.sheets.remove(index as int));
        }
        Ok(sheet)
    }

    /// Puts `sheet` in at `index` and makes it current. An index behind the
    /// end and a sheet that is not well formed are rejected.
    pub fn insert_sheet(&mut self, index: usize, sheet: Sheet) -> (res: Result<(), EngineError>)
        requires
            old(self).wf(),
        ensures
            final(self).wf(),
            match res {
                Ok(_) => {
                    &&& index <= old(self)@.sheets.len()
                    &&& sheet@.wf()
                    &&& final(self)@ == old(self)@.with_new_sheet(index as int, sheet@)
                },
                Err(e) => {
                    &&& e == EngineError::OutOfRange
                    &&& !(index <= old(self)@.sheets.len() && sheet@.wf())
                    &&& final(self)@ == old(self)@
                },
            },
    {
        if index > self.sheets.len() || !sheet.is_wf() {
            return Err(EngineError::OutOfRange);
        }
        self.sheets.insert(index, sheet);
        self.current_sheet_index = index;
        self.is_modified = true;
        proof {
            assert(self@.sheets =~= old(self)@.sheets.insert(index as int, sheet@));
        }
        Ok(())
    }
}

} // verus!
