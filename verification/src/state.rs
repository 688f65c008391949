//! The state of the editor and the operations that the keys stand for.

pub mod cursor;
pub mod edit;
pub mod input;
pub mod search;

use crate::actions::engine::Engine;
use crate::actions::history::{EngineView, HistoryView};
use crate::error::{describe, error_text, EngineError};
use crate::excel::{Cell, Workbook};
use vstd::prelude::*;

verus! {

/// The modes of input. Exactly one is active; it decides which handler a
/// key goes to.
#[derive(Clone, Copy, Debug, PartialEq, Eq, Structural)]
pub enum InputMode {
    Normal,
    Editing,
    Command,
    CommandInLazyLoading,
    SearchForward,
    SearchBackward,
    Help,
    LazyLoading,
}

/// The least height of the info panel, in lines.
pub const MIN_INFO_PANEL_HEIGHT: usize = 6;

/// The greatest height of the info panel, in lines.
pub const MAX_INFO_PANEL_HEIGHT: usize = 16;

/// The height that the info panel has at the start.
pub const DEFAULT_INFO_PANEL_HEIGHT: usize = 10;

/// The height of the info panel after a change by `delta` lines: the sum,
/// kept between the least and the greatest height.
pub open spec fn resized_height(height: int, delta: int) -> int {
    if height + delta < MIN_INFO_PANEL_HEIGHT {
        MIN_INFO_PANEL_HEIGHT as int
    } else if height + delta > MAX_INFO_PANEL_HEIGHT {
        MAX_INFO_PANEL_HEIGHT as int
    } else {
        height + delta
    }
}

/// The height of the info panel after a change by `delta` lines.
pub fn resize_info_panel(height: usize, delta: i32) -> (to: usize)
    ensures
        to == resized_height(height as int, delta as int),
{
    if delta < 0 {
        let back: u64 = (-(delta as i64)) as u64;
        if height as u64 <= back || height - (back as usize) < MIN_INFO_PANEL_HEIGHT {
            MIN_INFO_PANEL_HEIGHT
        } else if height - (back as usize) > MAX_INFO_PANEL_HEIGHT {
            MAX_INFO_PANEL_HEIGHT
        } else {
            height - (back as usize)
        }
    } else {
        let forth: usize = delta as usize;
        if height > MAX_INFO_PANEL_HEIGHT || forth > MAX_INFO_PANEL_HEIGHT - height {
            MAX_INFO_PANEL_HEIGHT
        } else if height + forth < MIN_INFO_PANEL_HEIGHT {
            MIN_INFO_PANEL_HEIGHT
        } else {
            height + forth
        }
    }
}

pub struct AppState {
    /// The workbook and its history.
    pub engine: Engine,
    pub input_mode: InputMode,
    /// The cursor: (row, column), counted from 1.
    pub selected_cell: (usize, usize),
    /// What was copied or cut last.
    pub clipboard: Option<Cell>,
    /// The text of the command line.
    pub input_buffer: String,
    /// True after one `g`, until the next key.
    pub g_pressed: bool,
    pub search_query: String,
    pub search_results: Vec<(usize, usize)>,
    /// The index in `search_results` of the match that the cursor went to
    /// last.
    pub search_cursor: usize,
    pub help_text: String,
    pub help_scroll: usize,
    pub help_visible_lines: usize,
    /// The height of the info panel, in lines.
    pub info_panel_height: usize,
    pub notifications: Vec<String>,
}

impl AppState {
    /// The invariant of the state: the workbook is well formed and the
    /// history goes with it.
    pub open spec fn wf(self) -> bool {
        self.engine.wf()
    }

    /// Everything but the workbook and the history is as in `other`.
    pub open spec fn same_ui(self, other: AppState) -> bool {
        self == (AppState { engine: self.engine, ..other })
    }

    /// Nothing differs from `other`.
    pub open spec fn same_as(self, other: AppState) -> bool {
        self.same_ui(other) && self.engine@ == other.engine@
    }

    /// The current sheet is waiting to be read.
    pub open spec fn sheet_pending(self) -> bool {
        self.engine@.workbook.lazy_loading && !self.engine@.workbook.current_sheet().is_loaded
    }

    /// The mode that a sheet is entered in: `LazyLoading` while it waits to
    /// be read, else `Normal`.
    pub open spec fn entry_mode(self) -> InputMode {
        if self.sheet_pending() {
            InputMode::LazyLoading
        } else {
            InputMode::Normal
        }
    }

    /// A state for a workbook that was just opened: the cursor on the first
    /// cell, nothing done, copied or searched yet.
    pub fn new(workbook: Workbook, help_text: String) -> (state: AppState)
        requires
            workbook.wf(),
        ensures
            state.wf(),
            state.engine@ == (EngineView {
                workbook: workbook@,
                history: HistoryView { undo: Seq::empty(), redo: Seq::empty() },
            }),
            state.input_mode == state.entry_mode(),
            state.selected_cell == (1usize, 1usize),
            state.clipboard is None,
            state.input_buffer@.len() == 0,
            !state.g_pressed,
            state.search_query@.len() == 0,
            state.search_results@.len() == 0,
            state.search_cursor == 0,
            state.help_text == help_text,
            state.help_scroll == 0,
            state.help_visible_lines == 0,
            state.info_panel_height == DEFAULT_INFO_PANEL_HEIGHT,
            state.notifications@.len() == 0,
    {
        let pending = workbook.is_lazy_loading() && !workbook.is_sheet_loaded(
            workbook.get_current_sheet_index(),
        );
        AppState {
            engine: Engine::new(workbook),
            input_mode: if pending {
                InputMode::LazyLoading
            } else {
                InputMode::Normal
            },
            selected_cell: (1, 1),
            clipboard: None,
            input_buffer: String::new(),
            g_pressed: false,
            search_query: String::new(),
            search_results: Vec::new(),
            search_cursor: 0,
            help_text,
            help_scroll: 0,
            help_visible_lines: 0,
            info_panel_height: DEFAULT_INFO_PANEL_HEIGHT,
            notifications: Vec::new(),
        }
    }

    /// Whether the current sheet is waiting to be read.
    pub fn is_sheet_pending(&self) -> (pending: bool)
        requires
            self.wf(),
        ensures
            pending == self.sheet_pending(),
    {
        let workbook = self.engine.workbook();
        workbook.is_lazy_loading() && !workbook.is_sheet_loaded(workbook.get_current_sheet_index())
    }

    /// Makes the info panel higher by `delta` lines (lower, if negative),
    /// between its least and its greatest height.
    pub fn adjust_info_panel_height(&mut self, delta: i32)
        ensures
            *final(self) == (AppState {
                info_panel_height: resized_height(
                    old(self).info_panel_height as int,
                    delta as int,
                ) as usize,
                ..*old(self)
            }),
    {
        self.info_panel_height = resize_info_panel(self.info_panel_height, delta);
    }

    pub fn add_notification(&mut self, message: String)
        ensures
            final(self).notifications@ == old(self).notifications@.push(message),
            *final(self) == (AppState { notifications: final(self).notifications, ..*old(self) }),
    {
        self.notifications.push(message);
    }

    /// The state with one more notification, which reads `text`.
    pub open spec fn notified(self, before: AppState, text: Seq<char>) -> bool {
        &&& self.notifications@.len() == before.notifications@.len() + 1
        &&& self.notifications@.drop_last() == before.notifications@
        &&& self.notifications@.last()@ == text
        &&& self == (AppState { notifications: self.notifications, ..before })
    }

    /// Adds the notification that `prefix` and the failure's text make.
    pub fn report(&mut self, prefix: &str, e: &EngineError)
        ensures
            final(self).notified(*old(self), prefix@ + error_text(*e)),
    {
        let message = describe(prefix, e);
        self.notifications.push(message);
        assert(self.notifications@.drop_last() =~= old(self).notifications@);
    }
}

} // verus!
