//! The iterator types, collected in one place: you should rarely need
//! to name them.

pub use crate::utf16_iterator::{Utf16CharIndices, Utf16Chars, Utf16CharSplitter, Utf16Iterator};
pub use crate::utf8_iterator::{Utf8CharIndices, Utf8Chars, Utf8CharSplitter, Utf8Iterator};
