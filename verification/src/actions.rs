//! Reversible commands and the history that replays them.

pub mod command;
pub mod engine;
pub mod history;
pub mod replay;
pub mod types;
