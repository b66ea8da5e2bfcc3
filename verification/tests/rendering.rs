use slang_lexer::TokenTypes;

#[test]
fn operator_kinds_render_as_their_spelling() {
    let expected = [
        (TokenTypes::Minus, "-"),
        (TokenTypes::Plus, "+"),
        (TokenTypes::Semicolon, ";"),
        (TokenTypes::Star, "*"),
        (TokenTypes::LeftParen, "("),
        (TokenTypes::RightParen, ")"),
        (TokenTypes::Bang, "!"),
        (TokenTypes::BangEqual, "!="),
        (TokenTypes::Equal, "="),
        (TokenTypes::EqualEqual, "=="),
        (TokenTypes::Greater, ">"),
        (TokenTypes::GreaterEqual, ">="),
        (TokenTypes::Less, "<"),
        (TokenTypes::LessEqual, "<="),
    ];
    for (kind, spelling) in expected {
        assert_eq!(kind.to_string(), spelling);
    }
}

#[test]
fn literal_and_keyword_kinds_render_as_their_names() {
    assert_eq!(TokenTypes::Identifier.to_string(), "Identifier");
    assert_eq!(TokenTypes::Number.to_string(), "number");
    assert_eq!(TokenTypes::Print.to_string(), "print");
    assert_eq!(TokenTypes::Let.to_string(), "let");
}
