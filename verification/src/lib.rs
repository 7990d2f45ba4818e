//! A terminal editor for CSV files: the editing state, the key bindings, the
//! `:` commands and the layout of the screen, each with its contract.

pub mod record;
pub mod text;
pub mod words;
pub mod mode;
pub mod laws;
pub mod draw;
pub mod sheet;
