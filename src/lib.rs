//! Lexical analysis for a small dynamically-typed scripting language.
//!
//! The scanner turns source text into tokens and recoverable failures. Every
//! contract is stated over the characters of the source (`Seq<char>`).
pub mod classify;
pub mod failure;
pub mod laws;
pub mod literals;
pub mod scanner;
pub mod token;

pub use classify::{keywords, one_char_token, one_or_two_char_token};
pub use failure::{CompilationFailure, FailureKind};
pub use literals::{identifier, number, parse_comment_to_next_line, string};
pub use scanner::{scan_tokens, Scanner};
pub use token::Token;
