//! Why undo and redo do not fail on a history that doing, undoing and
//! redoing made, also where sheets were read in between.

use crate::actions::command::{
    lemma_applied_wf, lemma_revert_applied_sheets, lemma_reverted_wf, lemma_same_sheets,
};
use crate::actions::history::{did, redone, undone, EngineView, HistoryView};
use crate::actions::types::ActionCommand;
use crate::error::EngineError;
use crate::model::{SheetView, WorkbookView};
use vstd::prelude::*;

verus! {

/// Every command of the stack can be undone in its turn: the latest fits
/// the workbook as it was left by it, and the ones before fit what undoing
/// leaves.
pub open spec fn undoable(stack: Seq<ActionCommand>, wb: WorkbookView) -> bool
    decreases stack.len(),
{
    stack.len() == 0 || {
        let cmd = stack.last();
        &&& cmd.reverts_on(wb)
        &&& cmd.holds(cmd.reverted(wb))
        &&& cmd.applied(cmd.reverted(wb)).sheets == wb.sheets
        &&& undoable(stack.drop_last(), cmd.reverted(wb))
    }
}

/// Every command of the stack `redo` can be redone in its turn, and can be
/// undone again after that, with all the commands done before it.
pub open spec fn redoable(
    redo: Seq<ActionCommand>,
    undo: Seq<ActionCommand>,
    wb: WorkbookView,
) -> bool
    decreases redo.len(),
{
    redo.len() == 0 || {
        let cmd = redo.last();
        &&& cmd.applies_to(wb)
        &&& undoable(undo.push(cmd), cmd.applied(wb))
        &&& redoable(redo.drop_last(), undo.push(cmd), cmd.applied(wb))
    }
}

/// The history goes with the workbook: all that was done can be undone,
/// and all that was undone can be redone.
pub open spec fn replayable(e: EngineView) -> bool {
    &&& e.workbook.wf()
    &&& undoable(e.history.undo, e.workbook)
    &&& redoable(e.history.redo, e.history.undo, e.workbook)
}

proof fn lemma_undoable_same_sheets(stack: Seq<ActionCommand>, a: WorkbookView, b: WorkbookView)
    requires
        a.sheets == b.sheets,
        undoable(stack, a),
    ensures
        undoable(stack, b),
    decreases stack.len(),
{
    if stack.len() > 0 {
        let cmd = stack.last();
        lemma_same_sheets(cmd, a, b);
        lemma_same_sheets(cmd, cmd.reverted(a), cmd.reverted(b));
        lemma_undoable_same_sheets(stack.drop_last(), cmd.reverted(a), cmd.reverted(b));
    }
}

proof fn lemma_redoable_same_sheets(
    redo: Seq<ActionCommand>,
    undo: Seq<ActionCommand>,
    a: WorkbookView,
    b: WorkbookView,
)
    requires
        a.sheets == b.sheets,
        redoable(redo, undo, a),
    ensures
        redoable(redo, undo, b),
    decreases redo.len(),
{
    if redo.len() > 0 {
        let cmd = redo.last();
        lemma_same_sheets(cmd, a, b);
        lemma_undoable_same_sheets(undo.push(cmd), cmd.applied(a), cmd.applied(b));
        lemma_redoable_same_sheets(
            redo.drop_last(),
            undo.push(cmd),
            cmd.applied(a),
            cmd.applied(b),
        );
    }
}

/// Whether a history goes with a workbook depends on the sheets alone, not
/// on which sheet is current nor on whether the workbook was saved.
pub proof fn lemma_replayable_same_sheets(a: EngineView, b: EngineView)
    requires
        replayable(a),
        a.workbook.sheets == b.workbook.sheets,
        a.history == b.history,
        b.workbook.wf(),
    ensures
        replayable(b),
{
    lemma_undoable_same_sheets(a.history.undo, a.workbook, b.workbook);
    lemma_redoable_same_sheets(a.history.redo, a.history.undo, a.workbook, b.workbook);
}

/// A workbook with an empty history is replayable.
pub proof fn lemma_replayable_at_start(wb: WorkbookView)
    requires
        wb.wf(),
    ensures
        replayable(
            EngineView {
                workbook: wb,
                history: HistoryView { undo: Seq::empty(), redo: Seq::empty() },
            },
        ),
{
}

/// Doing a command that holds what it changes keeps the history
/// replayable.
pub proof fn lemma_replayable_after_do(cmd: ActionCommand, e: EngineView)
    requires
        replayable(e),
        cmd.holds(e.workbook),
    ensures
        replayable(did(cmd, e)),
{
    let wb = e.workbook;
    let after = cmd.applied(wb);
    lemma_revert_applied_sheets(cmd, wb);
    let back = cmd.reverted(after);
    lemma_same_sheets(cmd, back, wb);
    lemma_undoable_same_sheets(e.history.undo, wb, back);
    let stack = e.history.undo.push(cmd);
    assert(stack.last() == cmd);
    assert(stack.drop_last() =~= e.history.undo);
}

/// On a replayable history undo fails only when nothing was done, and it
/// leaves the history replayable.
pub proof fn lemma_replayable_after_undo(e: EngineView)
    requires
        replayable(e),
    ensures
        e.history.undo.len() == 0 ==> undone(e) == Err::<EngineView, EngineError>(
            EngineError::NothingToUndo,
        ),
        e.history.undo.len() > 0 ==> undone(e) is Ok && replayable(undone(e)->Ok_0),
{
    if e.history.undo.len() > 0 {
        let cmd = e.history.undo.last();
        let wb = e.workbook;
        let back = cmd.reverted(wb);
        let rest = e.history.undo.drop_last();
        lemma_reverted_wf(cmd, wb);
        assert(rest.push(cmd) =~= e.history.undo);
        lemma_undoable_same_sheets(e.history.undo, wb, cmd.applied(back));
        lemma_redoable_same_sheets(e.history.redo, e.history.undo, wb, cmd.applied(back));
        let stack = e.history.redo.push(cmd);
        assert(stack.last() == cmd);
        assert(stack.drop_last() =~= e.history.redo);
    }
}

/// On a replayable history redo fails only when nothing was undone, and it
/// leaves the history replayable.
pub proof fn lemma_replayable_after_redo(e: EngineView)
    requires
        replayable(e),
    ensures
        e.history.redo.len() == 0 ==> redone(e) == Err::<EngineView, EngineError>(
            EngineError::NothingToRedo,
        ),
        e.history.redo.len() > 0 ==> redone(e) is Ok && replayable(redone(e)->Ok_0),
{
    if e.history.redo.len() > 0 {
        lemma_applied_wf(e.history.redo.last(), e.workbook);
    }
}

/// The workbook with sheet `j` replaced.
pub open spec fn with_sheet_read(wb: WorkbookView, j: int, sheet: SheetView) -> WorkbookView {
    WorkbookView { sheets: wb.sheets.update(j, sheet), ..wb }
}

/// No command that fits the workbook changes a sheet with an empty grid,
/// so a history that can be undone can still be undone after such a sheet
/// was read.
proof fn lemma_undoable_after_load(
    stack: Seq<ActionCommand>,
    wb: WorkbookView,
    j: int,
    sheet: SheetView,
)
    requires
        wb.wf(),
        undoable(stack, wb),
        0 <= j < wb.sheets.len(),
        wb.sheets[j].data.len() == 0,
        sheet.wf(),
    ensures
        undoable(stack, with_sheet_read(wb, j, sheet)),
    decreases stack.len(),
{
    if stack.len() > 0 {
        let cmd = stack.last();
        let read = with_sheet_read(wb, j, sheet);
        let back = cmd.reverted(wb);
        lemma_reverted_wf(cmd, wb);
        assert(wb.sheets[j].wf());
        match cmd {
            ActionCommand::Sheet(a) => {
                let moved = if a.sheet_index <= j {
                    j + 1
                } else {
                    j
                };
                lemma_undoable_after_load(stack.drop_last(), back, moved, sheet);
                let back_read = with_sheet_read(back, moved, sheet);
                assert(cmd.reverted(read).sheets =~= back_read.sheets);
                lemma_undoable_same_sheets(stack.drop_last(), back_read, cmd.reverted(read));
                assert(cmd.applied(cmd.reverted(read)).sheets =~= read.sheets);
            },
            _ => {
                let i = cmd.sheet();
                assert(i != j);
                lemma_undoable_after_load(stack.drop_last(), back, j, sheet);
                let back_read = with_sheet_read(back, j, sheet);
                assert(cmd.reverted(read).sheets =~= back_read.sheets);
                lemma_undoable_same_sheets(stack.drop_last(), back_read, cmd.reverted(read));
                assert(cmd.applied(back).sheets[i] == wb.sheets[i]);
                assert(cmd.applied(cmd.reverted(read)).sheets =~= read.sheets);
            },
        }
    }
}

/// A history that can be redone can still be redone after a sheet with an
/// empty grid was read.
proof fn lemma_redoable_after_load(
    redo: Seq<ActionCommand>,
    undo: Seq<ActionCommand>,
    wb: WorkbookView,
    j: int,
    sheet: SheetView,
)
    requires
        wb.wf(),
        redoable(redo, undo, wb),
        0 <= j < wb.sheets.len(),
        wb.sheets[j].data.len() == 0,
        sheet.wf(),
    ensures
        redoable(redo, undo, with_sheet_read(wb, j, sheet)),
    decreases redo.len(),
{
    if redo.len() > 0 {
        let cmd = redo.last();
        let read = with_sheet_read(wb, j, sheet);
        let after = cmd.applied(wb);
        lemma_applied_wf(cmd, wb);
        assert(wb.sheets[j].wf());
        match cmd {
            ActionCommand::Sheet(a) => {
                if a.sheet_index == j {
                    assert(cmd.applied(read).sheets =~= after.sheets);
                    lemma_undoable_same_sheets(undo.push(cmd), after, cmd.applied(read));
                    lemma_redoable_same_sheets(
                        redo.drop_last(),
                        undo.push(cmd),
                        after,
                        cmd.applied(read),
                    );
                } else {
                    let moved = if a.sheet_index < j {
                        j - 1
                    } else {
                        j
                    };
                    let after_read = with_sheet_read(after, moved, sheet);
                    lemma_undoable_after_load(undo.push(cmd), after, moved, sheet);
                    lemma_redoable_after_load(redo.drop_last(), undo.push(cmd), after, moved, sheet);
                    assert(cmd.applied(read).sheets =~= after_read.sheets);
                    lemma_undoable_same_sheets(undo.push(cmd), after_read, cmd.applied(read));
                    lemma_redoable_same_sheets(
                        redo.drop_last(),
                        undo.push(cmd),
                        after_read,
                        cmd.applied(read),
                    );
                }
            },
            _ => {
                let i = cmd.sheet();
                assert(i != j);
                let after_read = with_sheet_read(after, j, sheet);
                lemma_undoable_after_load(undo.push(cmd), after, j, sheet);
                lemma_redoable_after_load(redo.drop_last(), undo.push(cmd), after, j, sheet);
                assert(cmd.applied(read).sheets =~= after_read.sheets);
                lemma_undoable_same_sheets(undo.push(cmd), after_read, cmd.applied(read));
                lemma_redoable_same_sheets(
                    redo.drop_last(),
                    undo.push(cmd),
                    after_read,
                    cmd.applied(read),
                );
            },
        }
    }
}

/// Reading a sheet that was not read yet keeps the history replayable.
pub proof fn lemma_replayable_after_load(e: EngineView, j: int, sheet: SheetView)
    requires
        replayable(e),
        0 <= j < e.workbook.sheets.len(),
        !e.workbook.sheets[j].is_loaded,
        sheet.wf(),
    ensures
        replayable(EngineView { workbook: with_sheet_read(e.workbook, j, sheet), ..e }),
{
    let wb = e.workbook;
    let read = with_sheet_read(wb, j, sheet);
    assert(wb.sheets[j].wf());
    lemma_undoable_after_load(e.history.undo, wb, j, sheet);
    lemma_redoable_after_load(e.history.redo, e.history.undo, wb, j, sheet);
    assert forall|i: int| 0 <= i < read.sheets.len() implies (#[trigger] read.sheets[i]).wf() by {
        if i != j {
            assert(read.sheets[i] == wb.sheets[i]);
        }
    }
}

} // verus!
