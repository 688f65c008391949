//! The editing engine of a terminal spreadsheet editor: the cell and sheet
//! store, reversible commands with undo and redo, search, and the modal
//! key handling that drives them.

pub mod actions;
pub mod error;
pub mod excel;
pub mod model;
pub mod seqs;
pub mod source;
pub mod state;
pub mod text;
pub mod ui;
