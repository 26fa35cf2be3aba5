//! A line-oriented parser for vocabulary lists.
//!
//! Each line of a vocabulary list has the shape
//! `word,reading,meaning,meaning,...|||note`. The `grammar` module states as
//! mathematical functions on character sequences what such a line means, the
//! `parser` module holds the executable parser that is proved to compute
//! exactly that, `render` writes an entry back as a line, `laws` and
//! `round_trip` hold the general facts proved of the grammar, and `errors`
//! the failures of reading and writing a file.

pub mod errors;
pub mod grammar;
pub mod laws;
pub mod parser;
pub mod render;
pub mod round_trip;
pub mod scan;
pub mod types;

pub use errors::FileError;
pub use parser::{parse_line, parse_lines, parse_text};
pub use render::{render_line, render_lines};
pub use types::{VocabularyItem, VocabularyItemView};
