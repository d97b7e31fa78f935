//! Core of a terminal code editor: a line-oriented text buffer with a cursor
//! and range selections, keystroke-level edit commands, and a linear undo/redo
//! history that reconstructs buffer state by replaying recorded changes.
//!
//! All I/O (key events, clipboard, files, process handling, rendering) lives
//! outside this crate; the library works on plain values and is verified.

pub mod point;
pub mod textops;
pub mod model;
pub mod selection;
pub mod code;
pub mod history;
pub mod input;
pub mod component;
pub mod edit;
pub mod fspath;
pub mod terminal;
pub mod context;
