//! What the code editor does to a buffer: commenting, indentation, and the text
//! geometry that assistive technology reads.

pub mod blocks;
pub mod comment;
pub mod indent;
pub mod runs;

pub use comment::toggle_comment;
pub use indent::reindent;
pub use runs::{byte_to_text_position, line_runs, word_starts, LineRun};
