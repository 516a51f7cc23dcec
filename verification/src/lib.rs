//! A pull-based tokenizer for a small C-like language.
//!
//! The scanner owns the decoded source text and hands out one classified
//! token per call, skipping whitespace and comments, tracking 1-based line
//! numbers, and turning malformed input into in-band error tokens instead
//! of aborting the scan.

pub mod ext;
pub mod laws;
pub mod model;
pub mod scanner;
pub mod token;
