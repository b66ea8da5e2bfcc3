//! A lexical scanner for Slang, a small imperative language.
//!
//! The scanner walks a fully materialized character buffer left to right
//! exactly once and produces an ordered sequence of classified tokens, each
//! tagged with the 1-based source line on which its first character appears.
//! Scanning halts at the first character that cannot begin a lexeme and
//! reports it together with its line.

pub mod laws;
pub mod model;
pub mod scanner;
pub mod token;

pub use laws::is_ident_string;
pub use laws::is_number_string;
pub use laws::lemma_blank_input_scans_empty;
pub use laws::lemma_ident_string_scans_one_token;
pub use laws::lemma_newline_increments_line;
pub use laws::lemma_number_string_scans_one_token;
pub use laws::lemma_paired_operator;
pub use laws::lemma_single_operator;
pub use laws::lemma_unrecognized_char_errors;
pub use laws::number_split_at;
pub use model::scan_from;
pub use scanner::is_whitespace;
pub use scanner::scan_alphabetic;
pub use scanner::scan_number;
pub use scanner::scan_source;
pub use scanner::scan_symbol;
pub use scanner::scan_token;
pub use scanner::views_of;
pub use token::LexError;
pub use token::SpecError;
pub use token::SpecToken;
pub use token::Token;
pub use token::TokenTypes;
