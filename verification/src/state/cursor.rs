//! Moving the cursor over the current sheet.

use crate::excel::lemma_grid_view;
use crate::model::SheetView;
use crate::state::AppState;
use vstd::prelude::*;

verus! {

/// Where a step of `delta` from `pos` ends: never before 1, and never
/// behind `limit` (behind 1, where the limit is less).
pub open spec fn stepped(pos: int, delta: int, limit: int) -> int {
    let last = if limit < 1 {
        1
    } else {
        limit
    };
    if pos + delta < 1 {
        1
    } else if pos + delta > last {
        last
    } else {
        pos + delta
    }
}

/// Where a step of `delta` from `pos` ends.
pub fn step(pos: usize, delta: i32, limit: usize) -> (to: usize)
    ensures
        to == stepped(pos as int, delta as int, limit as int),
{
    let last: usize = if limit < 1 {
        1
    } else {
        limit
    };
    if delta < 0 {
        let back: u64 = (-(delta as i64)) as u64;
        if pos as u64 <= back {
            1
        } else {
            let target: usize = pos - (back as usize);
            if target > last {
                last
            } else {
                target
            }
        }
    } else {
        let forth: usize = delta as usize;
        if pos > last || forth > last - pos {
            last
        } else if pos + forth < 1 {
            1
        } else {
            pos + forth
        }
    }
}

/// The cell at (row, col) lies outside the populated region or holds no
/// text.
pub open spec fn blank(sheet: SheetView, row: int, col: int) -> bool {
    !(1 <= row <= sheet.max_rows && 1 <= col <= sheet.max_cols) || sheet.data[row][col].value.len()
        == 0
}

/// The cell number `k` of a line through the sheet: of column `fixed` when
/// the line is vertical, else of row `fixed`.
pub open spec fn blank_on_line(sheet: SheetView, fixed: int, vertical: bool, k: int) -> bool {
    if vertical {
        blank(sheet, k, fixed)
    } else {
        blank(sheet, fixed, k)
    }
}

/// `to` is the nearest cell with text on the line, strictly beyond `from`
/// in the given direction; where there is none, `to` is `from`.
pub open spec fn nearest(
    sheet: SheetView,
    fixed: int,
    vertical: bool,
    forward: bool,
    from: int,
    to: int,
) -> bool {
    if to == from {
        forall|k: int|
            (if forward {
                k > from
            } else {
                k < from
            }) ==> #[trigger] blank_on_line(sheet, fixed, vertical, k)
    } else {
        &&& if forward {
            to > from
        } else {
            to < from
        }
        &&& !blank_on_line(sheet, fixed, vertical, to)
        &&& forall|k: int|
            (if forward {
                from < k < to
            } else {
                to < k < from
            }) ==> #[trigger] blank_on_line(sheet, fixed, vertical, k)
    }
}

impl AppState {
    /// The sheet under the cursor.
    pub open spec fn sheet(self) -> SheetView {
        self.engine@.workbook.current_sheet()
    }

    /// Everything but the cursor is as in `before`.
    pub open spec fn moved_from(self, before: AppState) -> bool {
        self == (AppState { selected_cell: self.selected_cell, ..before })
    }

    /// Moves the cursor by the given numbers of rows and columns; it stops
    /// at the margin and at the end of the populated region.
    pub fn move_cursor(&mut self, delta_row: i32, delta_col: i32)
        requires
            old(self).wf(),
        ensures
            final(self).moved_from(*old(self)),
            final(self).selected_cell.0 == stepped(
                old(self).selected_cell.0 as int,
                delta_row as int,
                old(self).sheet().max_rows as int,
            ),
            final(self).selected_cell.1 == stepped(
                old(self).selected_cell.1 as int,
                delta_col as int,
                old(self).sheet().max_cols as int,
            ),
    {
        let sheet = self.engine.workbook().get_current_sheet();
        let row = step(self.selected_cell.0, delta_row, sheet.max_rows);
        let col = step(self.selected_cell.1, delta_col, sheet.max_cols);
        self.selected_cell = (row, col);
    }

    pub fn jump_to_first_row(&mut self)
        ensures
            final(self).moved_from(*old(self)),
            final(self).selected_cell == (1usize, old(self).selected_cell.1),
    {
        self.selected_cell = (1, self.selected_cell.1);
    }

    /// Moves the cursor to the last populated row.
    pub fn jump_to_last_row(&mut self)
        requires
            old(self).wf(),
        ensures
            final(self).moved_from(*old(self)),
            final(self).selected_cell.1 == old(self).selected_cell.1,
            final(self).selected_cell.0 == if old(self).sheet().max_rows < 1 {
                1
            } else {
                old(self).sheet().max_rows
            },
    {
        let max_rows = self.engine.workbook().get_current_sheet().max_rows;
        self.selected_cell = (
            if max_rows < 1 {
                1
            } else {
                max_rows
            },
            self.selected_cell.1,
        );
    }

    pub fn jump_to_first_column(&mut self)
        ensures
            final(self).moved_from(*old(self)),
            final(self).selected_cell == (old(self).selected_cell.0, 1usize),
    {
        self.selected_cell = (self.selected_cell.0, 1);
    }

    /// Moves the cursor to the last populated column.
    pub fn jump_to_last_column(&mut self)
        requires
            old(self).wf(),
        ensures
            final(self).moved_from(*old(self)),
            final(self).selected_cell.0 == old(self).selected_cell.0,
            final(self).selected_cell.1 == if old(self).sheet().max_cols < 1 {
                1
            } else {
                old(self).sheet().max_cols
            },
    {
        let max_cols = self.engine.workbook().get_current_sheet().max_cols;
        self.selected_cell = (
            self.selected_cell.0,
            if max_cols < 1 {
                1
            } else {
                max_cols
            },
        );
    }

    fn is_blank(&self, row: usize, col: usize) -> (b: bool)
        requires
            self.wf(),
        ensures
            b == blank(self.sheet(), row as int, col as int),
    {
        let sheet = self.engine.workbook().get_current_sheet();
        if !(1 <= row && row <= sheet.max_rows && 1 <= col && col <= sheet.max_cols) {
            return true;
        }
        proof {
            lemma_grid_view(sheet.data@);
            assert(sheet@.data[row as int].len() == sheet@.width());
        }
        sheet.data[row][col].value.as_str().is_empty()
    }

    fn is_blank_on_line(&self, fixed: usize, vertical: bool, k: usize) -> (b: bool)
        requires
            self.wf(),
        ensures
            b == blank_on_line(self.sheet(), fixed as int, vertical, k as int),
    {
        if vertical {
            self.is_blank(k, fixed)
        } else {
            self.is_blank(fixed, k)
        }
    }

    /// The nearest cell with text on a line through the current sheet.
    fn seek(&self, fixed: usize, vertical: bool, forward: bool, from: usize) -> (to: usize)
        requires
            self.wf(),
        ensures
            nearest(self.sheet(), fixed as int, vertical, forward, from as int, to as int),
    {
        let sheet = self.engine.workbook().get_current_sheet();
        let limit: usize = if vertical {
            sheet.max_rows
        } else {
            sheet.max_cols
        };
        if forward {
            let mut k: usize = from;
            while k < limit
                invariant
                    self.wf(),
                    forward,
                    limit == if vertical {
                        self.sheet().max_rows
                    } else {
                        self.sheet().max_cols
                    },
                    from <= k,
                    forall|j: int|
                        from < j <= k ==> #[trigger] blank_on_line(
                            self.sheet(),
                            fixed as int,
                            vertical,
                            j,
                        ),
                decreases limit - k,
            {
                k += 1;
                if !self.is_blank_on_line(fixed, vertical, k) {
                    return k;
                }
            }
            from
        } else {
            let mut k: usize = from;
            while k > 1
                invariant
                    self.wf(),
                    !forward,
                    k <= from,
                    forall|j: int|
                        k <= j < from ==> #[trigger] blank_on_line(
                            self.sheet(),
                            fixed as int,
                            vertical,
                            j,
                        ),
                decreases k,
            {
                k -= 1;
                if !self.is_blank_on_line(fixed, vertical, k) {
                    return k;
                }
            }
            from
        }
    }

    /// Moves the cursor to the first cell with text in its row; without
    /// one the cursor stays.
    pub fn jump_to_first_non_empty_column(&mut self)
        requires
            old(self).wf(),
        ensures
            final(self).moved_from(*old(self)),
            final(self).selected_cell.0 == old(self).selected_cell.0,
            if forall|k: int|
                k > 0 ==> #[trigger] blank_on_line(
                    old(self).sheet(),
                    old(self).selected_cell.0 as int,
                    false,
                    k,
                ) {
                final(self).selected_cell.1 == old(self).selected_cell.1
            } else {
                nearest(
                    old(self).sheet(),
                    old(self).selected_cell.0 as int,
                    false,
                    true,
                    0,
                    final(self).selected_cell.1 as int,
                )
            },
    {
        let to = self.seek(self.selected_cell.0, false, true, 0);
        if to != 0 {
            self.selected_cell = (self.selected_cell.0, to);
        }
    }

    /// Moves the cursor left to the nearest cell with text; without one
    /// the cursor stays.
    pub fn jump_to_prev_non_empty_cell_left(&mut self)
        requires
            old(self).wf(),
        ensures
            final(self).moved_from(*old(self)),
            final(self).selected_cell.0 == old(self).selected_cell.0,
            nearest(
                old(self).sheet(),
                old(self).selected_cell.0 as int,
                false,
                false,
                old(self).selected_cell.1 as int,
                final(self).selected_cell.1 as int,
            ),
    {
        let to = self.seek(self.selected_cell.0, false, false, self.selected_cell.1);
        self.selected_cell = (self.selected_cell.0, to);
    }

    /// Moves the cursor right to the nearest cell with text; without one
    /// the cursor stays.
    pub fn jump_to_prev_non_empty_cell_right(&mut self)
        requires
            old(self).wf(),
        ensures
            final(self).moved_from(*old(self)),
            final(self).selected_cell.0 == old(self).selected_cell.0,
            nearest(
                old(self).sheet(),
                old(self).selected_cell.0 as int,
                false,
                true,
                old(self).selected_cell.1 as int,
                final(self).selected_cell.1 as int,
            ),
    {
        let to = self.seek(self.selected_cell.0, false, true, self.selected_cell.1);
        self.selected_cell = (self.selected_cell.0, to);
    }

    /// Moves the cursor up to the nearest cell with text; without one the
    /// cursor stays.
    pub fn jump_to_prev_non_empty_cell_up(&mut self)
        requires
            old(self).wf(),
        ensures
            final(self).moved_from(*old(self)),
            final(self).selected_cell.1 == old(self).selected_cell.1,
            nearest(
                old(self).sheet(),
                old(self).selected_cell.1 as int,
                true,
                false,
                old(self).selected_cell.0 as int,
                final(self).selected_cell.0 as int,
            ),
    {
        let to = self.seek(self.selected_cell.1, true, false, self.selected_cell.0);
        self.selected_cell = (to, self.selected_cell.1);
    }

    /// Moves the cursor down to the nearest cell with text; without one
    /// the cursor stays.
    pub fn jump_to_prev_non_empty_cell_down(&mut self)
        requires
            old(self).wf(),
        ensures
            final(self).moved_from(*old(self)),
            final(self).selected_cell.1 == old(self).selected_cell.1,
            nearest(
                old(self).sheet(),
                old(self).selected_cell.1 as int,
                true,
                true,
                old(self).selected_cell.0 as int,
                final(self).selected_cell.0 as int,
            ),
    {
        let to = self.seek(self.selected_cell.1, true, true, self.selected_cell.0);
        self.selected_cell = (to, self.selected_cell.1);
    }
}

} // verus!
