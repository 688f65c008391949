//! Searching the current sheet, and walking through the matches.

use crate::excel::lemma_grid_view;
use crate::model::SheetView;
use crate::state::{AppState, InputMode};
use crate::text::{contains_chars, contains_text, text_chars};
use vstd::prelude::*;
use vstd::string::StringExecFns;

verus! {

/// The text of the cell at (row, col) contains the query.
pub open spec fn cell_matches(sheet: SheetView, query: Seq<char>, row: int, col: int) -> bool {
    contains_text(sheet.data[row][col].value, query)
}

/// The matches of one row among its columns 1 to `upto`, from left to
/// right.
pub open spec fn row_matches(sheet: SheetView, query: Seq<char>, row: int, upto: int) -> Seq<
    (usize, usize),
>
    decreases upto,
{
    if upto <= 0 {
        Seq::empty()
    } else {
        row_matches(sheet, query, row, upto - 1) + if cell_matches(sheet, query, row, upto) {
            seq![(row as usize, upto as usize)]
        } else {
            Seq::empty()
        }
    }
}

/// The matches of the rows 1 to `upto`, row after row.
pub open spec fn sheet_matches(sheet: SheetView, query: Seq<char>, upto: int) -> Seq<(usize, usize)>
    decreases upto,
{
    if upto <= 0 {
        Seq::empty()
    } else {
        sheet_matches(sheet, query, upto - 1) + row_matches(
            sheet,
            query,
            upto,
            sheet.max_cols as int,
        )
    }
}

/// The cells of the populated region whose text contains the query, row
/// after row and from left to right in each. An empty query matches
/// nothing.
pub open spec fn all_matches(sheet: SheetView, query: Seq<char>) -> Seq<(usize, usize)> {
    if query.len() == 0 {
        Seq::empty()
    } else {
        sheet_matches(sheet, query, sheet.max_rows as int)
    }
}

/// A cell is among the matches of a row exactly if it lies in that row,
/// within the columns that were searched, and its text contains the query.
pub proof fn lemma_row_matches(
    sheet: SheetView,
    query: Seq<char>,
    row: int,
    upto: int,
    at: (usize, usize),
)
    requires
        0 <= row <= usize::MAX,
        0 <= upto <= usize::MAX,
    ensures
        row_matches(sheet, query, row, upto).contains(at) <==> at.0 == row && 1 <= at.1 <= upto
            && cell_matches(sheet, query, row, at.1 as int),
    decreases upto,
{
    if upto > 0 {
        lemma_row_matches(sheet, query, row, upto - 1, at);
        let before = row_matches(sheet, query, row, upto - 1);
        let here = if cell_matches(sheet, query, row, upto) {
            seq![(row as usize, upto as usize)]
        } else {
            Seq::<(usize, usize)>::empty()
        };
        let all = before + here;
        if all.contains(at) {
            let i = choose|i: int| 0 <= i < all.len() && all[i] == at;
            if i < before.len() {
                assert(before[i] == at);
                assert(before.contains(at));
            } else {
                assert(here[i - before.len()] == at);
            }
        }
        if at.0 == row && 1 <= at.1 <= upto && cell_matches(sheet, query, row, at.1 as int) {
            if at.1 < upto {
                assert(before.contains(at));
                let i = choose|i: int| 0 <= i < before.len() && before[i] == at;
                assert(all[i] == at);
            } else {
                assert(here[0] == at);
                assert(all[before.len() as int] == at);
            }
            assert(all.contains(at));
        }
    }
}

/// A cell is among the matches of the rows that were searched exactly if it
/// lies in the populated region, within those rows, and its text contains
/// the query.
pub proof fn lemma_sheet_matches(sheet: SheetView, query: Seq<char>, upto: int, at: (usize, usize))
    requires
        0 <= upto <= usize::MAX,
        sheet.max_cols <= usize::MAX,
    ensures
        sheet_matches(sheet, query, upto).contains(at) <==> 1 <= at.0 <= upto && 1 <= at.1
            <= sheet.max_cols && cell_matches(sheet, query, at.0 as int, at.1 as int),
    decreases upto,
{
    if upto > 0 {
        lemma_sheet_matches(sheet, query, upto - 1, at);
        lemma_row_matches(sheet, query, upto, sheet.max_cols as int, at);
        let before = sheet_matches(sheet, query, upto - 1);
        let here = row_matches(sheet, query, upto, sheet.max_cols as int);
        let all = before + here;
        if all.contains(at) {
            let i = choose|i: int| 0 <= i < all.len() && all[i] == at;
            if i < before.len() {
                assert(before[i] == at);
                assert(before.contains(at));
            } else {
                assert(here[i - before.len()] == at);
                assert(here.contains(at));
            }
        }
        if before.contains(at) {
            let i = choose|i: int| 0 <= i < before.len() && before[i] == at;
            assert(all[i] == at);
            assert(all.contains(at));
        }
        if here.contains(at) {
            let i = choose|i: int| 0 <= i < here.len() && here[i] == at;
            assert(all[before.len() + i] == at);
            assert(all.contains(at));
        }
    }
}

/// The matches are exactly the cells of the populated region whose text
/// contains the query, and none when the query is empty.
pub proof fn lemma_all_matches(sheet: SheetView, query: Seq<char>, at: (usize, usize))
    requires
        sheet.max_rows <= usize::MAX,
        sheet.max_cols <= usize::MAX,
    ensures
        all_matches(sheet, query).contains(at) <==> query.len() > 0 && 1 <= at.0 <= sheet.max_rows
            && 1 <= at.1 <= sheet.max_cols && cell_matches(
            sheet,
            query,
            at.0 as int,
            at.1 as int,
        ),
{
    if query.len() > 0 {
        lemma_sheet_matches(sheet, query, sheet.max_rows as int, at);
    }
}

/// The matches depend on the cells of the populated region alone: sheets
/// that agree there have the same matches, in the same order.
pub proof fn lemma_matches_stable(a: SheetView, b: SheetView, query: Seq<char>)
    requires
        a.max_rows == b.max_rows,
        a.max_cols == b.max_cols,
        forall|r: int, c: int|
            1 <= r <= a.max_rows && 1 <= c <= a.max_cols ==> a.data[r][c].value
                == b.data[r][c].value,
    ensures
        all_matches(a, query) == all_matches(b, query),
{
    lemma_sheet_matches_stable(a, b, query, a.max_rows as int);
}

proof fn lemma_row_matches_stable(a: SheetView, b: SheetView, query: Seq<char>, row: int, upto: int)
    requires
        upto <= a.max_cols,
        forall|c: int| 1 <= c <= upto ==> a.data[row][c].value == b.data[row][c].value,
    ensures
        row_matches(a, query, row, upto) == row_matches(b, query, row, upto),
    decreases upto,
{
    if upto > 0 {
        lemma_row_matches_stable(a, b, query, row, upto - 1);
    }
}

proof fn lemma_sheet_matches_stable(a: SheetView, b: SheetView, query: Seq<char>, upto: int)
    requires
        upto <= a.max_rows,
        a.max_cols == b.max_cols,
        forall|r: int, c: int|
            1 <= r <= upto && 1 <= c <= a.max_cols ==> a.data[r][c].value == b.data[r][c].value,
    ensures
        sheet_matches(a, query, upto) == sheet_matches(b, query, upto),
    decreases upto,
{
    if upto > 0 {
        lemma_sheet_matches_stable(a, b, query, upto - 1);
        lemma_row_matches_stable(a, b, query, upto, a.max_cols as int);
    }
}

/// Cell `a` comes before cell `b` when the sheet is read row after row.
pub open spec fn precedes(a: (usize, usize), b: (usize, usize)) -> bool {
    a.0 < b.0 || (a.0 == b.0 && a.1 < b.1)
}

/// Each cell of the sequence comes before those behind it.
pub open spec fn in_reading_order(cells: Seq<(usize, usize)>) -> bool {
    forall|i: int, j: int| 0 <= i < j < cells.len() ==> precedes(cells[i], cells[j])
}

proof fn lemma_row_matches_ordered(sheet: SheetView, query: Seq<char>, row: int, upto: int)
    requires
        0 <= row <= usize::MAX,
        0 <= upto <= usize::MAX,
    ensures
        in_reading_order(row_matches(sheet, query, row, upto)),
    decreases upto,
{
    if upto > 0 {
        lemma_row_matches_ordered(sheet, query, row, upto - 1);
        let before = row_matches(sheet, query, row, upto - 1);
        let all = row_matches(sheet, query, row, upto);
        assert forall|i: int, j: int| 0 <= i < j < all.len() implies precedes(all[i], all[j]) by {
            if j < before.len() {
                assert(all[i] == before[i] && all[j] == before[j]);
            } else {
                assert(all[i] == before[i]);
                assert(before.contains(before[i]));
                lemma_row_matches(sheet, query, row, upto - 1, before[i]);
            }
        }
    }
}

proof fn lemma_sheet_matches_ordered(sheet: SheetView, query: Seq<char>, upto: int)
    requires
        0 <= upto <= usize::MAX,
        sheet.max_cols <= usize::MAX,
    ensures
        in_reading_order(sheet_matches(sheet, query, upto)),
    decreases upto,
{
    if upto > 0 {
        lemma_sheet_matches_ordered(sheet, query, upto - 1);
        lemma_row_matches_ordered(sheet, query, upto, sheet.max_cols as int);
        let before = sheet_matches(sheet, query, upto - 1);
        let here = row_matches(sheet, query, upto, sheet.max_cols as int);
        let all = sheet_matches(sheet, query, upto);
        assert forall|i: int, j: int| 0 <= i < j < all.len() implies precedes(all[i], all[j]) by {
            if j < before.len() {
                assert(all[i] == before[i] && all[j] == before[j]);
            } else if i >= before.len() {
                assert(all[i] == here[i - before.len()] && all[j] == here[j - before.len()]);
            } else {
                assert(all[i] == before[i]);
                assert(all[j] == here[j - before.len()]);
                assert(before.contains(before[i]));
                assert(here.contains(here[j - before.len()]));
                lemma_sheet_matches(sheet, query, upto - 1, before[i]);
                lemma_row_matches(sheet, query, upto, sheet.max_cols as int, here[j - before.len()]);
            }
        }
    }
}

/// The matches stand in the order in which the sheet is read: row after
/// row, and from left to right in each row.
pub proof fn lemma_matches_ordered(sheet: SheetView, query: Seq<char>)
    requires
        sheet.max_rows <= usize::MAX,
        sheet.max_cols <= usize::MAX,
    ensures
        in_reading_order(all_matches(sheet, query)),
{
    if query.len() > 0 {
        lemma_sheet_matches_ordered(sheet, query, sheet.max_rows as int);
    }
}

/// The match behind match `i` of `n`, the first one behind the last.
pub open spec fn next_index(i: int, n: int) -> int {
    if i + 1 >= n {
        0
    } else {
        i + 1
    }
}

/// The match before match `i` of `n`, the last one before the first.
pub open spec fn prev_index(i: int, n: int) -> int {
    if i <= 0 || i >= n {
        n - 1
    } else {
        i - 1
    }
}

/// Where `k` steps to the next match lead.
pub open spec fn next_times(i: int, n: int, k: nat) -> int
    decreases k,
{
    if k == 0 {
        i
    } else {
        next_index(next_times(i, n, (k - 1) as nat), n)
    }
}

/// Where `k` steps lead, for no more steps than there are matches.
pub proof fn lemma_next_steps(i: int, n: int, k: nat)
    requires
        0 <= i < n,
        k <= n,
    ensures
        next_times(i, n, k) == if i + k < n {
            i + k
        } else {
            i + k - n
        },
    decreases k,
{
    if k > 0 {
        lemma_next_steps(i, n, (k - 1) as nat);
    }
}

/// Walking to the next match as often as there are matches leads back to
/// the match that one began with: from the first match to the first.
pub proof fn lemma_next_cycle(i: int, n: int)
    requires
        0 <= i < n,
    ensures
        next_times(i, n, n as nat) == i,
{
    lemma_next_steps(i, n, n as nat);
}

/// A step back undoes a step forth.
pub proof fn lemma_prev_of_next(i: int, n: int)
    requires
        0 <= i < n,
    ensures
        prev_index(next_index(i, n), n) == i,
        next_index(prev_index(i, n), n) == i,
{
}

impl AppState {
    /// All cells of the current sheet whose text contains the query.
    pub fn find_all_matches(&self, query: &str) -> (results: Vec<(usize, usize)>)
        requires
            self.wf(),
        ensures
            results@ == all_matches(self.sheet(), query@),
    {
        let needle = text_chars(query);
        let mut results: Vec<(usize, usize)> = Vec::new();
        if needle.len() == 0 {
            return results;
        }
        let sheet = self.engine.workbook().get_current_sheet();
        let max_rows = sheet.max_rows;
        let max_cols = sheet.max_cols;
        proof {
            lemma_grid_view(sheet.data@);
        }
        if sheet.data.len() == 0 {
            return results;
        }
        let width = sheet.data[0].len();
        let mut r: usize = 0;
        while r < max_rows
            invariant
                sheet@.wf(),
                sheet@ == self.sheet(),
                needle@ == query@,
                max_rows == sheet.max_rows,
                max_cols == sheet.max_cols,
                max_rows < sheet.data.len(),
                max_cols < width,
                width == sheet@.width(),
                0 <= r <= max_rows,
                results@ == sheet_matches(sheet@, needle@, r as int),
            decreases max_rows - r,
        {
            let row = r + 1;
            let ghost done = results@;
            let mut c: usize = 0;
            proof {
                lemma_grid_view(sheet.data@);
                assert(sheet@.data[row as int].len() == sheet@.width());
                assert(done + row_matches(sheet@, needle@, row as int, 0) =~= done);
            }
            while c < max_cols
                invariant
                    sheet@.wf(),
                    max_cols == sheet.max_cols,
                    max_cols < width,
                    row < sheet.data.len(),
                    sheet.data[row as int].len() == width,
                    0 <= c <= max_cols,
                    results@ == done + row_matches(sheet@, needle@, row as int, c as int),
                decreases max_cols - c,
            {
                let col = c + 1;
                let hay = text_chars(sheet.data[row][col].value.as_str());
                proof {
                    lemma_grid_view(sheet.data@);
                }
                let ghost before = row_matches(sheet@, needle@, row as int, c as int);
                if contains_chars(&hay, &needle) {
                    results.push((row, col));
                    assert(results@ =~= done + (before + seq![(row, col)]));
                } else {
                    assert(results@ =~= done + (before + Seq::<(usize, usize)>::empty()));
                }
                c += 1;
            }
            r += 1;
        }
        results
    }

    /// Everything but the cursor and the place among the matches is as in
    /// `before`.
    pub open spec fn walked_from(self, before: AppState) -> bool {
        self == (AppState {
            selected_cell: self.selected_cell,
            search_cursor: self.search_cursor,
            ..before
        })
    }

    /// Moves the cursor to the next match, behind the last one to the
    /// first. Without matches nothing happens.
    pub fn jump_to_next_search_result(&mut self)
        ensures
            if old(self).search_results@.len() == 0 {
                *final(self) == *old(self)
            } else {
                &&& final(self).walked_from(*old(self))
                &&& final(self).search_cursor == next_index(
                    old(self).search_cursor as int,
                    old(self).search_results@.len() as int,
                )
                &&& final(self).selected_cell == old(self).search_results@[final(self).search_cursor as int]
            },
    {
        let n = self.search_results.len();
        if n == 0 {
            return ;
        }
        let next: usize = if self.search_cursor >= n - 1 {
            0
        } else {
            self.search_cursor + 1
        };
        self.search_cursor = next;
        self.selected_cell = self.search_results[next];
    }

    /// Moves the cursor to the match before, before the first one to the
    /// last. Without matches nothing happens.
    pub fn jump_to_prev_search_result(&mut self)
        ensures
            if old(self).search_results@.len() == 0 {
                *final(self) == *old(self)
            } else {
                &&& final(self).walked_from(*old(self))
                &&& final(self).search_cursor == prev_index(
                    old(self).search_cursor as int,
                    old(self).search_results@.len() as int,
                )
                &&& final(self).selected_cell == old(self).search_results@[final(self).search_cursor as int]
            },
    {
        let n = self.search_results.len();
        if n == 0 {
            return ;
        }
        let prev: usize = if self.search_cursor == 0 || self.search_cursor >= n {
            n - 1
        } else {
            self.search_cursor - 1
        };
        self.search_cursor = prev;
        self.selected_cell = self.search_results[prev];
    }

    /// Where a search that found `n` matches puts the cursor first: on the
    /// first match, on the last one when searching backward.
    pub open spec fn first_stop(self, n: int) -> int {
        if self.input_mode == InputMode::SearchBackward {
            n - 1
        } else {
            0
        }
    }

    /// This state arose from `before` by a search for `query`.
    pub open spec fn searched(self, before: AppState, query: Seq<char>) -> bool {
        let found = all_matches(before.sheet(), query);
        &&& self.search_query@ == query
        &&& self.search_results@ == found
        &&& self.input_mode == InputMode::Normal
        &&& self == (AppState {
            search_query: self.search_query,
            search_results: self.search_results,
            search_cursor: self.search_cursor,
            selected_cell: self.selected_cell,
            notifications: self.notifications,
            input_mode: self.input_mode,
            ..before
        })
        &&& if found.len() == 0 {
            &&& self.search_cursor == 0
            &&& self.selected_cell == before.selected_cell
            &&& self.notifications@.len() == before.notifications@.len() + 1
            &&& self.notifications@.drop_last() == before.notifications@
            &&& self.notifications@.last()@ == "Pattern not found: "@ + query
        } else {
            &&& self.search_cursor == before.first_stop(found.len() as int)
            &&& self.selected_cell == found[self.search_cursor as int]
            &&& self.notifications == before.notifications
        }
    }

    /// Searches the current sheet for `query`, keeps the matches, goes
    /// back to `Normal` mode and moves the cursor to the first match (the
    /// last one when searching backward). Without a match the cursor stays
    /// and a notification says so.
    pub fn execute_search(&mut self, query: String)
        requires
            old(self).wf(),
        ensures
            final(self).wf(),
            final(self).searched(*old(self), query@),
    {
        let found = self.find_all_matches(query.as_str());
        let n = found.len();
        if n == 0 {
            let mut message = "Pattern not found: ".to_owned();
            message.append(query.as_str());
            self.notifications.push(message);
            assert(self.notifications@.drop_last() =~= old(self).notifications@);
            self.search_cursor = 0;
        } else {
            let stop: usize = if self.input_mode == InputMode::SearchBackward {
                n - 1
            } else {
                0
            };
            self.search_cursor = stop;
            self.selected_cell = found[stop];
        }
        self.search_query = query;
        self.search_results = found;
        self.input_mode = InputMode::Normal;
    }
}

} // verus!
