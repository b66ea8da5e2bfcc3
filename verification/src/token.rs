//! Token and error types produced by the scanner, together with their
//! mathematical views.

use vstd::prelude::*;
use vstd::string::StringExecFns;

verus! {

/// The closed set of token kinds the scanner can produce.
#[derive(Clone, Copy, PartialEq, Eq, Structural, Debug)]
pub enum TokenTypes {
    // Single-character tokens.
    Minus,
    Plus,
    Semicolon,
    Star,
    LeftParen,
    RightParen,
    // One or two character tokens.
    Bang,
    BangEqual,
    Equal,
    EqualEqual,
    Greater,
    GreaterEqual,
    Less,
    LessEqual,
    // Literals.
    Identifier,
    Number,
    // Keywords.
    Print,
    Let,
}

/// The canonical rendering of a token kind: the operator's literal spelling
/// for punctuation and operators, a fixed name for literals and keywords.
pub open spec fn spelling(kind: TokenTypes) -> Seq<char> {
    match kind {
        TokenTypes::Minus => "-"@,
        TokenTypes::Plus => "+"@,
        TokenTypes::Semicolon => ";"@,
        TokenTypes::Star => "*"@,
        TokenTypes::LeftParen => "("@,
        TokenTypes::RightParen => ")"@,
        TokenTypes::Bang => "!"@,
        TokenTypes::BangEqual => "!="@,
        TokenTypes::Equal => "="@,
        TokenTypes::EqualEqual => "=="@,
        TokenTypes::Greater => ">"@,
        TokenTypes::GreaterEqual => ">="@,
        TokenTypes::Less => "<"@,
        TokenTypes::LessEqual => "<="@,
        TokenTypes::Identifier => "Identifier"@,
        TokenTypes::Number => "number"@,
        TokenTypes::Print => "print"@,
        TokenTypes::Let => "let"@,
    }
}

impl TokenTypes {
    /// Returns the canonical rendering of this kind as an owned string.
    pub fn to_string(&self) -> (r: String)
        ensures
            r@ == spelling(*self),
    {
        match self {
            TokenTypes::Minus => String::from_str("-"),
            TokenTypes::Plus => String::from_str("+"),
            TokenTypes::Semicolon => String::from_str(";"),
            TokenTypes::Star => String::from_str("*"),
            TokenTypes::LeftParen => String::from_str("("),
            TokenTypes::RightParen => String::from_str(")"),
            TokenTypes::Bang => String::from_str("!"),
            TokenTypes::BangEqual => String::from_str("!="),
            TokenTypes::Equal => String::from_str("="),
            TokenTypes::EqualEqual => String::from_str("=="),
            TokenTypes::Greater => String::from_str(">"),
            TokenTypes::GreaterEqual => String::from_str(">="),
            TokenTypes::Less => String::from_str("<"),
            TokenTypes::LessEqual => String::from_str("<="),
            TokenTypes::Identifier => String::from_str("Identifier"),
            TokenTypes::Number => String::from_str("number"),
            TokenTypes::Print => String::from_str("print"),
            TokenTypes::Let => String::from_str("let"),
        }
    }
}

/// The mathematical view of a token: the consumed lexeme, its kind, and the
/// 1-based line on which the lexeme starts.
pub ghost struct SpecToken {
    pub lexeme: Seq<char>,
    pub kind: TokenTypes,
    pub line: nat,
}

/// One classified, line-tagged unit of lexical output.
#[derive(Debug)]
pub struct Token {
    /// The exact substring of source text consumed to form this token.
    pub lexeme: String,
    /// The classification of the lexeme.
    pub token_type: TokenTypes,
    /// The 1-based source line on which the lexeme's first character appears.
    pub line: usize,
}

impl View for Token {
    type V = SpecToken;

    open spec fn view(&self) -> SpecToken {
        SpecToken { lexeme: self.lexeme@, kind: self.token_type, line: self.line as nat }
    }
}

/// The mathematical view of a lexical error: the offending character and the
/// 1-based line on which it stands.
pub ghost struct SpecError {
    pub line: nat,
    pub ch: char,
}

/// A lexical error: the character at the scan position cannot begin any
/// recognized lexeme.
#[derive(Debug)]
pub struct LexError {
    /// The 1-based source line on which the offending character stands.
    pub line: usize,
    /// The offending character.
    pub ch: char,
}

impl View for LexError {
    type V = SpecError;

    open spec fn view(&self) -> SpecError {
        SpecError { line: self.line as nat, ch: self.ch }
    }
}

} // verus!
