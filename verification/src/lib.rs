//! A modal text editor engine: key-sequence resolution, mode transitions,
//! edit capture, and a bounded undo/redo history over per-buffer text.

pub mod action;
pub mod action_handler;
pub mod history;
pub mod input;
pub mod key;
pub mod store;
pub mod strutil;
pub mod state;
pub mod text;
pub mod ui;
