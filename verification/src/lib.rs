//! Checkpoint-based undo/redo history for a code editor.
//!
//! The crate keeps an ordered list of immutable snapshots of the editor
//! content together with a cursor, lets callers step backward and forward,
//! jump to any recorded snapshot, and compare two snapshots line by line.

pub mod clock;
pub mod diff;
pub mod editor;
pub mod history;
pub mod ident;
pub mod model;
pub mod store;
pub mod text;
pub mod trace;
pub mod types;
