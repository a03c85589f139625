//! Regular-expression highlighting for ANSI terminals: resolve a colour
//! specification into an escape sequence, then wrap every match of a pattern
//! in that sequence and a reset.

pub mod colour;
pub mod error;
pub mod highlighter;

pub use colour::{get_format_code, hex_to_rgb};
pub use error::HighlightError;
pub use highlighter::{highlight, highlight_spans, Pattern};
