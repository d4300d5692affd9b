//! The editing core of a modal, terminal text editor: a character buffer
//! with a cursor that keeps an absolute offset and a (column, line) pair
//! consistent across every edit and movement, and a modal key-dispatch
//! engine that routes key presses through sequence-matched mappings in
//! Normal mode, writes them in Insert mode, and accumulates and executes a
//! command line in Command mode.
//!
//! Terminal input, rendering, and file storage stay outside: callers hand
//! key presses in and honour the core's quit and save requests.

pub mod builtin_maps;
pub mod cursor;
pub mod file;
pub mod jim;
pub mod key;
pub mod mapping;
pub mod mode;
pub mod text;
