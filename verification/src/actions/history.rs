//! The undo and redo stacks, and the laws of undoing and redoing.

use crate::actions::command::{lemma_apply_reverted, lemma_revert_applied};
use crate::actions::replay::{
    lemma_replayable_after_redo, lemma_replayable_after_undo, replayable,
};
use crate::actions::types::{ActionCommand, ActionType};
use crate::error::EngineError;
use crate::excel::Workbook;
use crate::model::WorkbookView;
use vstd::prelude::*;

verus! {

/// The commands that were done, the latest last, and those that were
/// undone and can be redone, the next one last.
pub struct UndoHistory {
    undo_stack: Vec<ActionCommand>,
    redo_stack: Vec<ActionCommand>,
}

pub struct HistoryView {
    pub undo: Seq<ActionCommand>,
    pub redo: Seq<ActionCommand>,
}

impl View for UndoHistory {
    type V = HistoryView;

    closed spec fn view(&self) -> HistoryView {
        HistoryView { undo: self.undo_stack@, redo: self.redo_stack@ }
    }
}

/// The workbook together with its history.
pub struct EngineView {
    pub workbook: WorkbookView,
    pub history: HistoryView,
}

/// The state after a new command was done: the command is applied and
/// recorded, and nothing is left to redo.
pub open spec fn did(cmd: ActionCommand, e: EngineView) -> EngineView {
    EngineView {
        workbook: cmd.applied(e.workbook),
        history: HistoryView { undo: e.history.undo.push(cmd), redo: Seq::empty() },
    }
}

/// Undo: the latest command is taken back and moves to the commands that
/// can be redone. It fails when nothing was done, and when what the command
/// holds does not fit the workbook.
pub open spec fn undone(e: EngineView) -> Result<EngineView, EngineError> {
    if e.history.undo.len() == 0 {
        Err(EngineError::NothingToUndo)
    } else if !e.history.undo.last().reverts_on(e.workbook) {
        Err(EngineError::OutOfRange)
    } else {
        Ok(
            EngineView {
                workbook: e.history.undo.last().reverted(e.workbook),
                history: HistoryView {
                    undo: e.history.undo.drop_last(),
                    redo: e.history.redo.push(e.history.undo.last()),
                },
            },
        )
    }
}

/// Redo: the command that was undone last is applied again and moves back
/// to the commands that were done. It fails when nothing was undone, and
/// when the command does not apply to the workbook.
pub open spec fn redone(e: EngineView) -> Result<EngineView, EngineError> {
    if e.history.redo.len() == 0 {
        Err(EngineError::NothingToRedo)
    } else if !e.history.redo.last().applies_to(e.workbook) {
        Err(e.history.redo.last().apply_error(e.workbook))
    } else {
        Ok(
            EngineView {
                workbook: e.history.redo.last().applied(e.workbook),
                history: HistoryView {
                    undo: e.history.undo.push(e.history.redo.last()),
                    redo: e.history.redo.drop_last(),
                },
            },
        )
    }
}

/// Undoing a command that was just done succeeds and restores the sheets,
/// the current sheet and the commands done before; the command is then the
/// one to redo.
pub proof fn lemma_undo_after_do(cmd: ActionCommand, e: EngineView)
    requires
        e.workbook.wf(),
        cmd.records(e.workbook),
    ensures
        undone(did(cmd, e)) is Ok,
        undone(did(cmd, e))->Ok_0.workbook.same_content(e.workbook),
        undone(did(cmd, e))->Ok_0.history.undo == e.history.undo,
        undone(did(cmd, e))->Ok_0.history.redo == seq![cmd],
{
    lemma_revert_applied(cmd, e.workbook);
    let after = did(cmd, e);
    assert(after.history.undo.last() == cmd);
    assert(after.history.undo.drop_last() =~= e.history.undo);
    assert(after.history.redo.push(cmd) =~= seq![cmd]);
}

/// Redoing a command that was done and undone gives the state that doing
/// it gave.
pub proof fn lemma_redo_after_undo(cmd: ActionCommand, e: EngineView)
    requires
        e.workbook.wf(),
        cmd.records(e.workbook),
    ensures
        undone(did(cmd, e)) is Ok,
        redone(undone(did(cmd, e))->Ok_0) == Ok::<EngineView, EngineError>(did(cmd, e)),
{
    lemma_undo_after_do(cmd, e);
    lemma_apply_reverted(cmd, e.workbook);
    let back = undone(did(cmd, e))->Ok_0;
    assert(back.history.redo.last() == cmd);
    assert(back.history.redo.drop_last() =~= Seq::<ActionCommand>::empty());
}

/// A new command after an undo leaves nothing to redo: redo then fails.
pub proof fn lemma_do_clears_redo(first: ActionCommand, second: ActionCommand, e: EngineView)
    requires
        e.workbook.wf(),
        first.records(e.workbook),
    ensures
        undone(did(first, e)) is Ok,
        redone(did(second, undone(did(first, e))->Ok_0)) == Err::<EngineView, EngineError>(
            EngineError::NothingToRedo,
        ),
{
    lemma_undo_after_do(first, e);
}

impl UndoHistory {
    pub fn new() -> (history: UndoHistory)
        ensures
            history@ == (HistoryView { undo: Seq::empty(), redo: Seq::empty() }),
    {
        UndoHistory { undo_stack: Vec::new(), redo_stack: Vec::new() }
    }

    pub fn can_undo(&self) -> (possible: bool)
        ensures
            possible == (self@.undo.len() > 0),
    {
        self.undo_stack.len() > 0
    }

    pub fn can_redo(&self) -> (possible: bool)
        ensures
            possible == (self@.redo.len() > 0),
    {
        self.redo_stack.len() > 0
    }

    /// Records a command that was just done. What could be redone until
    /// now is dropped.
    pub(crate) fn push(&mut self, action: ActionCommand)
        ensures
            final(self)@ == (HistoryView { undo: old(self)@.undo.push(action), redo: Seq::empty() }),
    {
        self.undo_stack.push(action);
        self.redo_stack.clear();
    }

    /// Takes back the latest command. On a history that doing, undoing and
    /// redoing made, this fails only when nothing was done.
    pub(crate) fn undo(&mut self, workbook: &mut Workbook) -> (res: Result<ActionType, EngineError>)
        requires
            old(workbook).wf(),
        ensures
            final(workbook).wf(),
            match res {
                Ok(class) => {
                    &&& undone(EngineView { workbook: old(workbook)@, history: old(self)@ }) == Ok::<
                        EngineView,
                        EngineError,
                    >(EngineView { workbook: final(workbook)@, history: final(self)@ })
                    &&& class == old(self)@.undo.last().class()
                },
                Err(e) => {
                    &&& undone(EngineView { workbook: old(workbook)@, history: old(self)@ }) == Err::<
                        EngineView,
                        EngineError,
                    >(e)
                    &&& final(workbook)@ == old(workbook)@
                    &&& final(self)@ == old(self)@
                },
            },
            replayable(EngineView { workbook: old(workbook)@, history: old(self)@ }) ==> {
                &&& replayable(EngineView { workbook: final(workbook)@, history: final(self)@ })
                &&& res is Err ==> old(self)@.undo.len() == 0
            },
    {
        proof {
            let before = EngineView { workbook: old(workbook)@, history: old(self)@ };
            if replayable(before) {
                lemma_replayable_after_undo(before);
            }
        }
        match self.undo_stack.pop() {
            None => Err(EngineError::NothingToUndo),
            Some(action) => {
                match action.revert(workbook) {
                    Ok(_) => {
                        let class = action.get_action_type();
                        self.redo_stack.push(action);
                        Ok(class)
                    },
                    Err(e) => {
                        self.undo_stack.push(action);
                        assert(self.undo_stack@ =~= old(self).undo_stack@);
                        Err(e)
                    },
                }
            },
        }
    }

    /// Applies again the command that was undone last. On a history that
    /// doing, undoing and redoing made, this fails only when nothing was
    /// undone.
    pub(crate) fn redo(&mut self, workbook: &mut Workbook) -> (res: Result<ActionType, EngineError>)
        requires
            old(workbook).wf(),
        ensures
            final(workbook).wf(),
            match res {
                Ok(class) => {
                    &&& redone(EngineView { workbook: old(workbook)@, history: old(self)@ }) == Ok::<
                        EngineView,
                        EngineError,
                    >(EngineView { workbook: final(workbook)@, history: final(self)@ })
                    &&& class == old(self)@.redo.last().class()
                },
                Err(e) => {
                    &&& redone(EngineView { workbook: old(workbook)@, history: old(self)@ }) == Err::<
                        EngineView,
                        EngineError,
                    >(e)
                    &&& final(workbook)@ == old(workbook)@
                    &&& final(self)@ == old(self)@
                },
            },
            replayable(EngineView { workbook: old(workbook)@, history: old(self)@ }) ==> {
                &&& replayable(EngineView { workbook: final(workbook)@, history: final(self)@ })
                &&& res is Err ==> old(self)@.redo.len() == 0
            },
    {
        proof {
            let before = EngineView { workbook: old(workbook)@, history: old(self)@ };
            if replayable(before) {
                lemma_replayable_after_redo(before);
            }
        }
        match self.redo_stack.pop() {
            None => Err(EngineError::NothingToRedo),
            Some(action) => {
                match action.apply(workbook) {
                    Ok(_) => {
                        let class = action.get_action_type();
                        self.undo_stack.push(action);
                        Ok(class)
                    },
                    Err(e) => {
                        self.redo_stack.push(action);
                        assert(self.redo_stack@ =~= old(self).redo_stack@);
                        Err(e)
                    },
                }
            },
        }
    }
}

} // verus!
