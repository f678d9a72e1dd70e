//! An interactive terminal prompt for picking entries of a package list.
//!
//! The crate computes everything the prompt shows and decides: the text of the
//! listing, the escape sequences that move the selection glyph, the effect of
//! every key press on the selection state and the indices that are finally
//! handed back. Reading keys and writing to the terminal is left to the caller.

pub mod ansi;
mod strings;
pub mod tokens;
pub mod input;
pub mod render;
pub mod session;
pub mod confirm;
pub mod laws;
