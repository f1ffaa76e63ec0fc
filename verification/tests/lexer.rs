use nqcc::errors::CompilerError;
use nqcc::lexer::{
    integer_literal, is_digit, is_letter, is_letter_or_underscore, lex, valid_ident_char, Lexer,
};
use nqcc::tokens::{Token, TokenKind};

fn chars(source: &str) -> Vec<char> {
    source.chars().collect()
}

fn kinds(source: &str) -> Vec<TokenKind> {
    let source = chars(source);
    let (tokens, _) = lex(&source);
    tokens.into_iter().map(|t| t.kind).collect()
}

fn errors(source: &str) -> Vec<CompilerError> {
    let source = chars(source);
    let (_, errors) = lex(&source);
    errors
}

fn ident(name: &str) -> TokenKind {
    TokenKind::Identifier(name.to_string())
}

fn lex_error(message: &str, line: usize, column: usize) -> CompilerError {
    CompilerError::LexError { message: message.to_string(), line, column }
}

#[test]
fn lexes_a_minimal_function() {
    let source = chars("int main(void){return 2;}");
    let mut lexer = Lexer::new(&source);
    let tokens = lexer.tokenize();
    let kinds: Vec<TokenKind> = tokens.iter().map(|t| t.kind.clone()).collect();
    assert_eq!(
        kinds,
        vec![
            TokenKind::Int,
            ident("main"),
            TokenKind::LeftParen,
            TokenKind::Void,
            TokenKind::RightParen,
            TokenKind::LeftBrace,
            TokenKind::Return,
            TokenKind::ConstInt(2),
            TokenKind::Semicolon,
            TokenKind::RightBrace,
            TokenKind::EOF,
        ]
    );
    assert_eq!(lexer.errors(), vec![]);
}

#[test]
fn tokens_carry_their_positions() {
    let source = chars("int  main ( ) ");
    let (tokens, errors) = lex(&source);
    assert_eq!(
        tokens,
        vec![
            Token::new(TokenKind::Int, 0, 3),
            Token::new(ident("main"), 5, 9),
            Token::new(TokenKind::LeftParen, 10, 11),
            Token::new(TokenKind::RightParen, 12, 13),
            Token::new(TokenKind::EOF, 14, 14),
        ]
    );
    assert!(errors.is_empty());
}

#[test]
fn a_numeral_followed_by_a_letter_is_an_invalid_identifier() {
    let source = chars("1x");
    let (tokens, errors) = lex(&source);
    assert_eq!(errors, vec![lex_error("invalid identifier", 1, 2)]);
    assert!(tokens.iter().all(|t| !matches!(
        t.kind,
        TokenKind::ConstInt(_)
            | TokenKind::ConstLong(_)
            | TokenKind::ConstUInt(_)
            | TokenKind::ConstULong(_)
            | TokenKind::ConstDouble(_)
    )));
    assert_eq!(tokens.last().map(|t| t.kind.clone()), Some(TokenKind::EOF));
}

#[test]
fn scanning_resumes_at_the_letter_that_spoiled_the_numeral() {
    assert_eq!(kinds("12ab;"), vec![ident("ab"), TokenKind::Semicolon, TokenKind::EOF]);
    assert_eq!(errors("12ab;"), vec![lex_error("invalid identifier", 1, 3)]);
    assert_eq!(errors("7_"), vec![lex_error("invalid identifier", 1, 2)]);
}

#[test]
fn the_empty_source_is_one_end_of_input_token() {
    let source = chars("");
    let (tokens, errors) = lex(&source);
    assert_eq!(tokens, vec![Token::new(TokenKind::EOF, 0, 0)]);
    assert!(errors.is_empty());
}

#[test]
fn blanks_alone_give_the_end_of_input_after_them() {
    let source = chars(" \t\r\n ");
    let (tokens, errors) = lex(&source);
    assert_eq!(tokens, vec![Token::new(TokenKind::EOF, 5, 5)]);
    assert!(errors.is_empty());
}

#[test]
fn exactly_one_end_of_input_token_closes_the_tokens() {
    for source in ["", "int", "int ", "1x", "@", "return 2;\n", "a\0b"] {
        let kinds = kinds(source);
        assert_eq!(kinds.last(), Some(&TokenKind::EOF));
        assert_eq!(kinds.iter().filter(|k| **k == TokenKind::EOF).count(), 1);
    }
}

#[test]
fn keywords_are_told_after_the_longest_identifier() {
    assert_eq!(kinds("intx"), vec![ident("intx"), TokenKind::EOF]);
    assert_eq!(kinds("int x"), vec![TokenKind::Int, ident("x"), TokenKind::EOF]);
    assert_eq!(kinds("returned"), vec![ident("returned"), TokenKind::EOF]);
    assert_eq!(kinds("void2"), vec![ident("void2"), TokenKind::EOF]);
    assert_eq!(kinds("Int"), vec![ident("Int"), TokenKind::EOF]);
}

#[test]
fn every_keyword_is_recognised() {
    assert_eq!(
        kinds("int void return struct"),
        vec![TokenKind::Int, TokenKind::Void, TokenKind::Return, TokenKind::Struct, TokenKind::EOF]
    );
}

#[test]
fn identifiers_take_letters_digits_and_underscores() {
    assert_eq!(kinds("_a9z_Z0"), vec![ident("_a9z_Z0"), TokenKind::EOF]);
    assert_eq!(kinds("z9 Z"), vec![ident("z9"), ident("Z"), TokenKind::EOF]);
}

#[test]
fn punctuation_and_operators() {
    assert_eq!(
        kinds("(){};,~-"),
        vec![
            TokenKind::LeftParen,
            TokenKind::RightParen,
            TokenKind::LeftBrace,
            TokenKind::RightBrace,
            TokenKind::Semicolon,
            TokenKind::Comma,
            TokenKind::Tilde,
            TokenKind::Minus,
            TokenKind::EOF,
        ]
    );
}

#[test]
fn two_minus_signs_are_one_token() {
    assert_eq!(kinds("--"), vec![TokenKind::MinusMinus, TokenKind::EOF]);
    assert_eq!(kinds("---"), vec![TokenKind::MinusMinus, TokenKind::Minus, TokenKind::EOF]);
    assert_eq!(kinds("- -"), vec![TokenKind::Minus, TokenKind::Minus, TokenKind::EOF]);
    assert_eq!(kinds("-5"), vec![TokenKind::Minus, TokenKind::ConstInt(5), TokenKind::EOF]);
}

#[test]
fn integer_literals() {
    assert_eq!(kinds("0"), vec![TokenKind::ConstInt(0), TokenKind::EOF]);
    assert_eq!(kinds("007"), vec![TokenKind::ConstInt(7), TokenKind::EOF]);
    assert_eq!(kinds("99"), vec![TokenKind::ConstInt(99), TokenKind::EOF]);
    assert_eq!(kinds("2147483647"), vec![TokenKind::ConstInt(2147483647), TokenKind::EOF]);
}

#[test]
fn an_integer_that_does_not_fit_is_reported_at_its_start() {
    let source = chars("\n  2147483648;");
    let (tokens, errors) = lex(&source);
    assert_eq!(
        errors,
        vec![lex_error(
            "Error parsing integer literal: number too large to fit in target type",
            2,
            3
        )]
    );
    let kinds: Vec<TokenKind> = tokens.into_iter().map(|t| t.kind).collect();
    assert_eq!(kinds, vec![TokenKind::Semicolon, TokenKind::EOF]);
    assert_eq!(errors_of_long_run().len(), 1);
}

fn errors_of_long_run() -> Vec<CompilerError> {
    errors("99999999999999999999999999999999999999")
}

#[test]
fn floating_literals_keep_their_text() {
    assert_eq!(kinds("1.5"), vec![TokenKind::ConstDouble("1.5".to_string()), TokenKind::EOF]);
    assert_eq!(
        kinds("10.250;"),
        vec![TokenKind::ConstDouble("10.250".to_string()), TokenKind::Semicolon, TokenKind::EOF]
    );
    let source = chars(" 3.14 ");
    let (tokens, _) = lex(&source);
    assert_eq!(tokens[0], Token::new(TokenKind::ConstDouble("3.14".to_string()), 1, 5));
}

#[test]
fn a_point_without_a_digit_after_it_ends_the_integer() {
    assert_eq!(kinds("1."), vec![TokenKind::ConstInt(1), TokenKind::EOF]);
    assert_eq!(errors("1."), vec![lex_error("unexpected character '.'", 1, 2)]);
    assert_eq!(kinds("1.2.3"), vec![
        TokenKind::ConstDouble("1.2".to_string()),
        TokenKind::ConstInt(3),
        TokenKind::EOF
    ]);
}

#[test]
fn a_floating_literal_followed_by_a_letter_is_an_invalid_identifier() {
    assert_eq!(errors("1.5e"), vec![lex_error("invalid identifier", 1, 4)]);
    assert_eq!(kinds("1.5e"), vec![ident("e"), TokenKind::EOF]);
}

#[test]
fn an_unexpected_character_is_reported_and_passed() {
    let source = chars("int @ x");
    let (tokens, errors) = lex(&source);
    assert_eq!(errors, vec![lex_error("unexpected character '@'", 1, 5)]);
    let kinds: Vec<TokenKind> = tokens.into_iter().map(|t| t.kind).collect();
    assert_eq!(kinds, vec![TokenKind::Int, ident("x"), TokenKind::EOF]);
}

#[test]
fn the_whole_source_is_scanned_whatever_is_wrong() {
    let errors = errors("@\n#  $\n1x");
    assert_eq!(
        errors,
        vec![
            lex_error("unexpected character '@'", 1, 1),
            lex_error("unexpected character '#'", 2, 1),
            lex_error("unexpected character '$'", 2, 4),
            lex_error("invalid identifier", 3, 2),
        ]
    );
}

#[test]
fn a_nul_character_is_unexpected_like_any_other() {
    assert_eq!(kinds("a\0b"), vec![ident("a"), ident("b"), TokenKind::EOF]);
    assert_eq!(errors("a\0b"), vec![lex_error("unexpected character '\0'", 1, 2)]);
}

#[test]
fn newlines_count_lines_and_reset_columns() {
    assert_eq!(errors("\n\n   ?"), vec![lex_error("unexpected character '?'", 3, 4)]);
    assert_eq!(errors("ab\tc ?"), vec![lex_error("unexpected character '?'", 1, 6)]);
    assert_eq!(errors("x\r\n?"), vec![lex_error("unexpected character '?'", 2, 1)]);
}

#[test]
fn a_second_call_gives_the_end_of_input_and_keeps_the_diagnostics() {
    let source = chars("a ? b");
    let mut lexer = Lexer::new(&source);
    let first = lexer.tokenize();
    assert_eq!(first.len(), 3);
    let second = lexer.tokenize();
    assert_eq!(second, vec![Token::new(TokenKind::EOF, 5, 5)]);
    assert_eq!(lexer.errors(), vec![lex_error("unexpected character '?'", 1, 3)]);
}

#[test]
fn character_classes() {
    assert!(is_digit('0') && is_digit('9') && !is_digit('a') && !is_digit('/') && !is_digit(':'));
    assert!(is_letter('a') && is_letter('z') && is_letter('A') && is_letter('Z'));
    assert!(!is_letter('_') && !is_letter('0') && !is_letter('[') && !is_letter('`'));
    assert!(is_letter_or_underscore('_') && is_letter_or_underscore('q'));
    assert!(!is_letter_or_underscore('5'));
    assert!(valid_ident_char('5') && valid_ident_char('_') && valid_ident_char('z'));
    assert!(!valid_ident_char('-') && !valid_ident_char(' '));
}

#[test]
fn integer_literal_reads_a_range_of_digits() {
    let digits = chars("x2147483647y");
    assert_eq!(integer_literal(&digits, 1, 11), Some(2147483647));
    assert_eq!(integer_literal(&digits, 1, 1), Some(0));
    assert_eq!(integer_literal(&digits, 2, 5), Some(147));
    let large = chars("2147483648");
    assert_eq!(integer_literal(&large, 0, 10), None);
    let larger = chars("21474836470");
    assert_eq!(integer_literal(&larger, 0, 11), None);
}

#[test]
fn tokens_stand_in_the_order_of_the_source() {
    let source = chars("int  f(int a,int b){\n  return 12 ;\n}\n -- - ~ 1.5 x1 @ 9z");
    let (tokens, _) = lex(&source);
    for pair in tokens.windows(2) {
        assert!(pair[0].start < pair[0].end);
        assert!(pair[0].end <= pair[1].start);
    }
    let last = tokens.last().unwrap();
    assert_eq!((last.start, last.end), (source.len(), source.len()));
    for token in &tokens[..tokens.len() - 1] {
        let text: String = source[token.start..token.end].iter().collect();
        match &token.kind {
            TokenKind::Identifier(name) => assert_eq!(*name, text),
            TokenKind::ConstDouble(lexeme) => assert_eq!(*lexeme, text),
            TokenKind::ConstInt(v) => assert_eq!(v.to_string(), text),
            _ => {}
        }
    }
}

#[test]
fn a_long_source_is_scanned_to_its_end() {
    let mut text = String::new();
    for n in 0..2000 {
        text.push_str(&format!("int f{}(void){{return {};}}\n", n, n));
    }
    let source = chars(&text);
    let (tokens, errors) = lex(&source);
    assert!(errors.is_empty());
    assert_eq!(tokens.len(), 2000 * 10 + 1);
    assert_eq!(tokens[19991].kind, ident("f1999"));
    assert_eq!(tokens[19997].kind, TokenKind::ConstInt(1999));
}
