//! Converts identifiers between naming conventions such as `snake_case`,
//! `camelCase` and `Title Case`.
//!
//! An identifier is split into words at boundaries (delimiters and changes of
//! letter case or between letters and digits), every word is re-cased by a
//! pattern, and the words are joined with a delimiter. All of it works on
//! grapheme clusters, never on bytes.
pub mod boundary;
pub mod case;
pub mod casing;
pub mod converter;
pub mod kind;
pub mod laws;
pub mod pattern;
pub mod text;

pub use boundary::{split, split_graphemes, Boundary};
pub use case::Case;
pub use casing::{Casing, StateConverter};
pub use converter::Converter;
pub use kind::CaseKind;
pub use pattern::{capital_word, toggle_word, Pattern};
pub use text::{grapheme_is_digit, grapheme_is_lowercase, grapheme_is_uppercase};
