use nqcc::errors::CompilerError;
use nqcc::tokens::{Token, TokenKind};

#[test]
fn a_token_holds_what_it_was_made_of() {
    let token = Token::new(TokenKind::Comma, 4, 5);
    assert_eq!(token.kind, TokenKind::Comma);
    assert_eq!(token.start, 4);
    assert_eq!(token.end, 5);
}

#[test]
fn kinds_are_named_by_their_variant() {
    assert_eq!(TokenKind::LeftParen.describe(), "LeftParen");
    assert_eq!(TokenKind::EOF.describe(), "EOF");
    assert_eq!(TokenKind::MinusMinus.describe(), "MinusMinus");
    assert_eq!(TokenKind::Struct.describe(), "Struct");
}

#[test]
fn kinds_with_a_value_show_it() {
    assert_eq!(TokenKind::Identifier("main".to_string()).describe(), "Identifier(\"main\")");
    assert_eq!(TokenKind::ConstInt(-7).describe(), "ConstInt(-7)");
    assert_eq!(TokenKind::ConstLong(i64::MIN).describe(), "ConstLong(-9223372036854775808)");
    assert_eq!(TokenKind::ConstUInt(7).describe(), "ConstUInt(7)");
    assert_eq!(TokenKind::ConstULong(u64::MAX).describe(), "ConstULong(18446744073709551615)");
    assert_eq!(TokenKind::ConstDouble("1.5".to_string()).describe(), "ConstDouble(1.5)");
    let e = CompilerError::ParseError { message: "m".to_string() };
    assert_eq!(TokenKind::Error(e).describe(), "Error(m)");
}

#[test]
fn same_as_compares_kinds_and_values() {
    let a = TokenKind::Identifier("a".to_string());
    assert!(a.same_as(&TokenKind::Identifier("a".to_string())));
    assert!(!a.same_as(&TokenKind::Identifier("b".to_string())));
    assert!(!a.same_as(&TokenKind::Int));
    assert!(TokenKind::ConstInt(2).same_as(&TokenKind::ConstInt(2)));
    assert!(!TokenKind::ConstInt(2).same_as(&TokenKind::ConstInt(3)));
    assert!(!TokenKind::ConstInt(2).same_as(&TokenKind::ConstLong(2)));
    assert!(TokenKind::Minus.same_as(&TokenKind::Minus));
    assert!(!TokenKind::Minus.same_as(&TokenKind::MinusMinus));
}

#[test]
fn a_copy_of_a_token_equals_it() {
    let kinds = vec![
        TokenKind::Identifier("main".to_string()),
        TokenKind::ConstInt(2),
        TokenKind::ConstDouble("1.5".to_string()),
        TokenKind::Comma,
        TokenKind::EOF,
        TokenKind::Error(CompilerError::ParseError { message: "m".to_string() }),
    ];
    for (i, kind) in kinds.into_iter().enumerate() {
        assert_eq!(kind.duplicate(), kind);
        let token = Token::new(kind, i, i + 3);
        assert_eq!(token.duplicate(), token);
    }
}
