use slang_lexer::scan_source;
use slang_lexer::scan_symbol;
use slang_lexer::scan_number;
use slang_lexer::scan_alphabetic;
use slang_lexer::scan_token;
use slang_lexer::is_whitespace;
use slang_lexer::Token;
use slang_lexer::TokenTypes;

fn chars(s: &str) -> Vec<char> {
    s.chars().collect()
}

fn scan_ok(s: &str) -> Vec<Token> {
    scan_source(&chars(s)).unwrap()
}

fn assert_token(token: &Token, lexeme: &str, kind: TokenTypes, line: usize) {
    assert_eq!(token.lexeme, lexeme);
    assert_eq!(token.token_type, kind);
    assert_eq!(token.line, line);
}

#[test]
fn empty_input_yields_no_tokens() {
    assert!(scan_ok("").is_empty());
}

#[test]
fn blank_input_yields_no_tokens() {
    assert!(scan_ok(" \r\t  \n \t\n").is_empty());
}

#[test]
fn whitespace_predicate() {
    assert!(is_whitespace(' '));
    assert!(is_whitespace('\r'));
    assert!(is_whitespace('\t'));
    assert!(!is_whitespace('\n'));
    assert!(!is_whitespace('a'));
}

#[test]
fn single_character_operators() {
    let expected = [
        ("-", TokenTypes::Minus),
        ("+", TokenTypes::Plus),
        (";", TokenTypes::Semicolon),
        ("*", TokenTypes::Star),
        ("(", TokenTypes::LeftParen),
        (")", TokenTypes::RightParen),
        ("!", TokenTypes::Bang),
        ("=", TokenTypes::Equal),
        (">", TokenTypes::Greater),
        ("<", TokenTypes::Less),
    ];
    for (text, kind) in expected {
        let tokens = scan_ok(text);
        assert_eq!(tokens.len(), 1);
        assert_token(&tokens[0], text, kind, 1);
    }
}

#[test]
fn two_character_operators() {
    let expected = [
        ("!=", TokenTypes::BangEqual),
        ("==", TokenTypes::EqualEqual),
        (">=", TokenTypes::GreaterEqual),
        ("<=", TokenTypes::LessEqual),
    ];
    for (text, kind) in expected {
        let tokens = scan_ok(text);
        assert_eq!(tokens.len(), 1);
        assert_token(&tokens[0], text, kind, 1);
    }
}

#[test]
fn number_literals() {
    for text in ["0", "7", "12", "12.5", "12.", "007.250"] {
        let tokens = scan_ok(text);
        assert_eq!(tokens.len(), 1);
        assert_token(&tokens[0], text, TokenTypes::Number, 1);
    }
}

#[test]
fn identifiers_and_keywords() {
    let expected = [
        ("let", TokenTypes::Let),
        ("print", TokenTypes::Print),
        ("x", TokenTypes::Identifier),
        ("_x9", TokenTypes::Identifier),
        ("letter", TokenTypes::Identifier),
        ("prin", TokenTypes::Identifier),
        ("Let", TokenTypes::Identifier),
        ("_", TokenTypes::Identifier),
    ];
    for (text, kind) in expected {
        let tokens = scan_ok(text);
        assert_eq!(tokens.len(), 1);
        assert_token(&tokens[0], text, kind, 1);
    }
}

#[test]
fn newline_increments_line() {
    let tokens = scan_ok("let\nprint");
    assert_eq!(tokens.len(), 2);
    assert_token(&tokens[0], "let", TokenTypes::Let, 1);
    assert_token(&tokens[1], "print", TokenTypes::Print, 2);
}

#[test]
fn unsupported_character_is_an_error() {
    let err = scan_source(&chars("@")).unwrap_err();
    assert_eq!(err.line, 1);
    assert_eq!(err.ch, '@');
}

#[test]
fn unsupported_character_after_tokens() {
    let err = scan_source(&chars("ab @")).unwrap_err();
    assert_eq!(err.line, 1);
    assert_eq!(err.ch, '@');
}

#[test]
fn unsupported_character_reports_its_line() {
    let err = scan_source(&chars("let x\nlet y\n#")).unwrap_err();
    assert_eq!(err.line, 3);
    assert_eq!(err.ch, '#');
}

#[test]
fn non_ascii_character_is_an_error() {
    let err = scan_source(&vec!['x', ' ', '\u{20ac}']).unwrap_err();
    assert_eq!(err.line, 1);
    assert_eq!(err.ch, '\u{20ac}');
}

#[test]
fn lone_dot_is_an_error() {
    let err = scan_source(&chars("1.2.3")).unwrap_err();
    assert_eq!(err.line, 1);
    assert_eq!(err.ch, '.');
}

#[test]
fn end_to_end_example() {
    let tokens = scan_ok("let x = 12.5;\nprint x;");
    assert_eq!(tokens.len(), 8);
    assert_token(&tokens[0], "let", TokenTypes::Let, 1);
    assert_token(&tokens[1], "x", TokenTypes::Identifier, 1);
    assert_token(&tokens[2], "=", TokenTypes::Equal, 1);
    assert_token(&tokens[3], "12.5", TokenTypes::Number, 1);
    assert_token(&tokens[4], ";", TokenTypes::Semicolon, 1);
    assert_token(&tokens[5], "print", TokenTypes::Print, 2);
    assert_token(&tokens[6], "x", TokenTypes::Identifier, 2);
    assert_token(&tokens[7], ";", TokenTypes::Semicolon, 2);
}

#[test]
fn trailing_dot_ends_number_before_identifier() {
    let tokens = scan_ok("12.a");
    assert_eq!(tokens.len(), 2);
    assert_token(&tokens[0], "12.", TokenTypes::Number, 1);
    assert_token(&tokens[1], "a", TokenTypes::Identifier, 1);
}

#[test]
fn operators_between_operands() {
    let tokens = scan_ok("(a+2)*b<=c");
    assert_eq!(tokens.len(), 9);
    assert_token(&tokens[0], "(", TokenTypes::LeftParen, 1);
    assert_token(&tokens[1], "a", TokenTypes::Identifier, 1);
    assert_token(&tokens[2], "+", TokenTypes::Plus, 1);
    assert_token(&tokens[3], "2", TokenTypes::Number, 1);
    assert_token(&tokens[4], ")", TokenTypes::RightParen, 1);
    assert_token(&tokens[5], "*", TokenTypes::Star, 1);
    assert_token(&tokens[6], "b", TokenTypes::Identifier, 1);
    assert_token(&tokens[7], "<=", TokenTypes::LessEqual, 1);
    assert_token(&tokens[8], "c", TokenTypes::Identifier, 1);
}

#[test]
fn bang_before_non_equal_stays_single() {
    let tokens = scan_ok("!x");
    assert_eq!(tokens.len(), 2);
    assert_token(&tokens[0], "!", TokenTypes::Bang, 1);
    assert_token(&tokens[1], "x", TokenTypes::Identifier, 1);
}

#[test]
fn scan_symbol_at_offset() {
    let source = chars("a!=b");
    let (lexeme, kind) = scan_symbol(&source, 1).unwrap();
    assert_eq!(lexeme, "!=");
    assert_eq!(kind, TokenTypes::BangEqual);
}

#[test]
fn scan_symbol_lookahead_stops_at_buffer_end() {
    let source = chars("<");
    let (lexeme, kind) = scan_symbol(&source, 0).unwrap();
    assert_eq!(lexeme, "<");
    assert_eq!(kind, TokenTypes::Less);
}

#[test]
fn scan_symbol_rejects_unsupported_character() {
    let source = chars("?");
    assert_eq!(scan_symbol(&source, 0).unwrap_err(), '?');
}

#[test]
fn scan_number_stops_at_non_digit() {
    let source = chars("12.5x");
    let (lexeme, kind) = scan_number(&source, 0);
    assert_eq!(lexeme, "12.5");
    assert_eq!(kind, TokenTypes::Number);
}

#[test]
fn scan_number_at_offset() {
    let source = chars("x=42;");
    let (lexeme, kind) = scan_number(&source, 2);
    assert_eq!(lexeme, "42");
    assert_eq!(kind, TokenTypes::Number);
}

#[test]
fn scan_alphabetic_consumes_maximal_run() {
    let source = chars("let_9x+");
    let (lexeme, kind) = scan_alphabetic(&source, 0);
    assert_eq!(lexeme, "let_9x");
    assert_eq!(kind, TokenTypes::Identifier);
}

#[test]
fn scan_alphabetic_recognizes_keyword_at_offset() {
    let source = chars(";print ");
    let (lexeme, kind) = scan_alphabetic(&source, 1);
    assert_eq!(lexeme, "print");
    assert_eq!(kind, TokenTypes::Print);
}

#[test]
fn scan_token_dispatches_on_first_character() {
    let source = chars("9a");
    let (lexeme, kind) = scan_token(&source, 0).unwrap();
    assert_eq!(lexeme, "9");
    assert_eq!(kind, TokenTypes::Number);
    let (lexeme, kind) = scan_token(&source, 1).unwrap();
    assert_eq!(lexeme, "a");
    assert_eq!(kind, TokenTypes::Identifier);
    assert_eq!(scan_token(&chars("~"), 0).unwrap_err(), '~');
}
