//! Core logic of a text-macro picker: the stored macro list and its edits,
//! import merging, settings, and the parsing of global hotkey strings.

pub mod focus;
pub mod laws;
pub mod ids;
pub mod paths;
pub mod shortcut;
pub mod store;
pub mod text;
