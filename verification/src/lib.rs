//! A lexical scanner for a small dynamically-typed scripting language.
//!
//! The scanner walks the characters of a source text once and produces the
//! ordered sequence of tokens, ending with an end-of-input marker. Lexical
//! errors are handed to a diagnostics sink and never stop the scan.

pub mod grammar;
pub mod laws;
pub mod loxide;
pub mod scanner;
pub mod token;
