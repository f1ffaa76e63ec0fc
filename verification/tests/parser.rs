use nqcc::ast::{
    Block, BlockItem, Declaration, Expression, FunctionDeclaration, FunctionParam, Program,
    Statement,
};
use nqcc::errors::CompilerError;
use nqcc::lexer::lex;
use nqcc::parser::{parse, Parser};
use nqcc::tokens::{Token, TokenKind};
use nqcc::types::T;

fn tokens_of(source: &str) -> Vec<Token> {
    let source: Vec<char> = source.chars().collect();
    let (tokens, errors) = lex(&source);
    assert!(errors.is_empty());
    tokens
}

fn bare(kinds: Vec<TokenKind>) -> Vec<Token> {
    kinds.into_iter().enumerate().map(|(i, kind)| Token::new(kind, i, i + 1)).collect()
}

fn parse_error(message: &str) -> CompilerError {
    CompilerError::ParseError { message: message.to_string() }
}

fn function(name: &str, params: Vec<FunctionParam>, values: Vec<i32>) -> Declaration {
    let items = values
        .into_iter()
        .map(|v| BlockItem::Stmt(Statement::ReturnStatement(Some(Expression::ConstInt(v)))))
        .collect();
    Declaration::FunDecl(FunctionDeclaration {
        name: name.to_string(),
        return_type: T::Int,
        params,
        body: Some(Block(items)),
        storage_class: None,
    })
}

fn void_param() -> FunctionParam {
    FunctionParam { typ: T::Void, name: String::new() }
}

fn int_param(name: &str) -> FunctionParam {
    FunctionParam { typ: T::Int, name: name.to_string() }
}

#[test]
fn parses_a_minimal_function() {
    let mut parser = Parser::new(tokens_of("int main(void){return 2;}"));
    let program = parser.parse_program();
    assert_eq!(program, Ok(Program(vec![function("main", vec![void_param()], vec![2])])));
    assert_eq!(parser.current, 10);
}

#[test]
fn declarations_keep_the_order_of_the_source() {
    let program = parse(tokens_of("int a(void){return 1;} int b(void){return 2;} int c(){}"));
    assert_eq!(
        program,
        Ok(Program(vec![
            function("a", vec![void_param()], vec![1]),
            function("b", vec![void_param()], vec![2]),
            function("c", vec![], vec![]),
        ]))
    );
}

#[test]
fn no_tokens_and_the_end_of_input_alone_are_the_empty_program() {
    assert_eq!(parse(vec![]), Ok(Program(vec![])));
    assert_eq!(parse(tokens_of("")), Ok(Program(vec![])));
}

#[test]
fn parameters_with_names() {
    let program = parse(tokens_of("int f(int a, int b){return 0;}"));
    assert_eq!(
        program,
        Ok(Program(vec![function("f", vec![int_param("a"), int_param("b")], vec![0])]))
    );
}

#[test]
fn parameters_are_separated_by_commas() {
    assert_eq!(
        parse(tokens_of("int f(int a int b){return 1;}")),
        Err(parse_error("Expected: Comma; Got: Int"))
    );
    assert_eq!(
        parse(tokens_of("int f(int a b){}")),
        Err(parse_error("Expected: Comma; Got: Identifier(\"b\")"))
    );
    assert_eq!(
        parse(tokens_of("int f(int a void){}")),
        Err(parse_error("Expected: Comma; Got: Void"))
    );
    let mut parser = Parser::new(tokens_of("int f(int a int b){return 1;}"));
    assert!(parser.parse_program().is_err());
    assert_eq!(parser.current, 5);
}

#[test]
fn a_comma_is_followed_by_another_parameter() {
    assert_eq!(
        parse(tokens_of("int f(int a,){}")),
        Err(parse_error("Expected: type; Got: RightParen"))
    );
    assert_eq!(
        parse(tokens_of("int f(int a, int b,){}")),
        Err(parse_error("Expected: type; Got: RightParen"))
    );
    assert_eq!(
        parse(tokens_of("int f(int a,,int b){}")),
        Err(parse_error("Expected: type; Got: Comma"))
    );
    assert_eq!(parse(tokens_of("int f(int a,")), Err(parse_error("Expected: type; Got: EOF")));
    assert_eq!(parse(tokens_of("int f(,int a){}")), Err(parse_error("Expected: type; Got: Comma")));
    let mut parser = Parser::new(tokens_of("int f(int a,){}"));
    assert!(parser.parse_program().is_err());
    assert_eq!(parser.current, 6);
}

#[test]
fn many_parameters() {
    let program = parse(tokens_of("int f(int a, int b, int c, int d){}"));
    assert_eq!(
        program,
        Ok(Program(vec![function(
            "f",
            vec![int_param("a"), int_param("b"), int_param("c"), int_param("d")],
            vec![]
        )]))
    );
    assert_eq!(
        parse(tokens_of("int f(int a){}")),
        Ok(Program(vec![function("f", vec![int_param("a")], vec![])]))
    );
}

#[test]
fn void_ends_the_parameter_list() {
    let program = parse(tokens_of("int f(int a, void){}"));
    assert_eq!(
        program,
        Ok(Program(vec![function("f", vec![int_param("a"), void_param()], vec![])]))
    );
    assert_eq!(
        parse(tokens_of("int f(void, int a){}")),
        Err(parse_error("Expected: RightParen; Got: Comma"))
    );
}

#[test]
fn several_statements_in_a_block() {
    let program = parse(tokens_of("int f(void){return 1; return 2; return 3;}"));
    assert_eq!(program, Ok(Program(vec![function("f", vec![void_param()], vec![1, 2, 3])])));
}

#[test]
fn a_wrong_token_is_named_with_the_one_expected() {
    assert_eq!(
        parse(tokens_of("int main(void){return 2}")),
        Err(parse_error("Expected: Semicolon; Got: RightBrace"))
    );
    assert_eq!(
        parse(tokens_of("int main(void) return 2;}")),
        Err(parse_error("Expected: LeftBrace; Got: Return"))
    );
    assert_eq!(
        parse(tokens_of("int main(void){return 2;")),
        Err(parse_error("Expected: RightBrace; Got: EOF"))
    );
    assert_eq!(
        parse(tokens_of("int main(void){2;}")),
        Err(parse_error("Expected: Return; Got: ConstInt(2)"))
    );
    assert_eq!(
        parse(tokens_of("int main(void){return main;}")),
        Err(parse_error("Expected: Integer; Got: Identifier(\"main\")"))
    );
    assert_eq!(
        parse(tokens_of("int main(int a{}")),
        Err(parse_error("Expected: Comma; Got: LeftBrace"))
    );
}

#[test]
fn only_an_integer_constant_is_an_expression() {
    assert_eq!(
        parse(tokens_of("int main(void){return -5;}")),
        Err(parse_error("Expected: Integer; Got: Minus"))
    );
    assert_eq!(
        parse(tokens_of("int main(void){return (5);}")),
        Err(parse_error("Expected: Integer; Got: LeftParen"))
    );
    assert_eq!(
        parse(tokens_of("int main(void){return;}")),
        Err(parse_error("Expected: Integer; Got: Semicolon"))
    );
    assert_eq!(
        parse(tokens_of("int main(void){return 1.5;}")),
        Err(parse_error("Expected: Integer; Got: ConstDouble(1.5)"))
    );
}

#[test]
fn the_position_stands_at_the_token_that_is_wrong() {
    let mut parser = Parser::new(tokens_of("int main(void){return 2}"));
    assert!(parser.parse_program().is_err());
    assert_eq!(parser.current, 8);
    assert_eq!(parser.tokens[8].kind, TokenKind::RightBrace);
}

#[test]
fn the_first_error_ends_parsing() {
    let mut parser = Parser::new(tokens_of("int a(void){return x;} int b(void){return y;}"));
    assert_eq!(
        parser.parse_program(),
        Err(parse_error("Expected: Integer; Got: Identifier(\"x\")"))
    );
    assert_eq!(parser.current, 7);
}

#[test]
fn parameter_errors() {
    assert_eq!(
        parse(tokens_of("int f(int 3){}")),
        Err(parse_error("Expected: Identifier; Got: ConstInt(3)"))
    );
    assert_eq!(
        parse(tokens_of("int f(return){}")),
        Err(parse_error("Expected: type; Got: Return"))
    );
    assert_eq!(
        parse(tokens_of("int f(int")),
        Err(parse_error("Expected: Identifier; Got: EOF"))
    );
    assert_eq!(
        parse(tokens_of("int f(int a")),
        Err(parse_error("Expected: RightParen; Got: EOF"))
    );
}

#[test]
fn function_heads() {
    assert_eq!(
        parse(tokens_of("void f(void){}")),
        Err(parse_error("Expected: Int; Got: Void"))
    );
    assert_eq!(
        parse(tokens_of("int 3(void){}")),
        Err(parse_error("Expected: Identifier; Got: ConstInt(3)"))
    );
}

#[test]
fn the_third_token_decides_between_function_and_variable() {
    assert_eq!(
        parse(tokens_of("  int x;")),
        Err(CompilerError::Unsupported { message: "variable declaration at offset 2".to_string() })
    );
    assert_eq!(parse(tokens_of("int")), Err(parse_error("Expected: declaration; Got: EOF")));
    assert_eq!(parse(tokens_of("int x")), Err(parse_error("Expected: declaration; Got: EOF")));
    assert_eq!(
        parse(bare(vec![TokenKind::Int, TokenKind::Identifier("x".to_string())])),
        Err(parse_error("Expected: declaration; Got: EOF"))
    );
}

#[test]
fn the_lookahead_does_not_move_the_position() {
    let mut parser = Parser::new(tokens_of("int x;"));
    assert!(parser.parse_program().is_err());
    assert_eq!(parser.current, 0);
    let mut cut = Parser::new(tokens_of("int x"));
    assert!(cut.parse_program().is_err());
    assert_eq!(cut.current, 0);
}

#[test]
fn every_parse_failure_names_what_was_expected_and_what_was_found() {
    let sources = [
        "int", "int f", "int f(", "int f(int", "int f(int a", "int f(int a,", "int f(void",
        "int f(void)", "int f(void){", "int f(void){return", "int f(void){return 1",
        "int f(void){return 1;", "void f(void){}", "int 1", "f", "int f(void){x}", ";", "}", "--",
    ];
    for source in sources {
        match parse(tokens_of(source)) {
            Err(CompilerError::ParseError { message }) => {
                assert!(message.starts_with("Expected: "), "{}", message);
                assert!(message.contains("; Got: "), "{}", message);
            }
            other => panic!("{}: {:?}", source, other),
        }
    }
}

#[test]
fn struct_declarations_are_unsupported() {
    assert_eq!(
        parse(tokens_of("int f(void){}\nstruct s;")),
        Err(CompilerError::Unsupported { message: "struct declaration at offset 14".to_string() })
    );
}

#[test]
fn anything_else_is_no_declaration() {
    assert_eq!(
        parse(tokens_of("return 2;")),
        Err(parse_error("Expected: declaration; Got: Return"))
    );
    assert_eq!(
        parse(tokens_of("main(void){}")),
        Err(parse_error("Expected: declaration; Got: Identifier(\"main\")"))
    );
}

#[test]
fn tokens_without_an_end_of_input_token_are_read_to_the_last() {
    let kinds = vec![
        TokenKind::Int,
        TokenKind::Identifier("f".to_string()),
        TokenKind::LeftParen,
        TokenKind::RightParen,
        TokenKind::LeftBrace,
        TokenKind::RightBrace,
    ];
    assert_eq!(parse(bare(kinds.clone())), Ok(Program(vec![function("f", vec![], vec![])])));
    let mut cut = kinds;
    cut.pop();
    assert_eq!(parse(bare(cut)), Err(parse_error("Expected: RightBrace; Got: EOF")));
}

#[test]
fn what_follows_the_end_of_input_token_is_not_read() {
    let kinds = vec![TokenKind::EOF, TokenKind::Return, TokenKind::Return];
    assert_eq!(parse(bare(kinds)), Ok(Program(vec![])));
}

#[test]
fn a_parser_starts_where_its_position_says() {
    let mut parser = Parser::new(tokens_of("return return int f(){}"));
    parser.current = 2;
    assert_eq!(parser.parse_program(), Ok(Program(vec![function("f", vec![], vec![])])));
    parser.current = 1000;
    assert_eq!(parser.parse_program(), Ok(Program(vec![])));
    assert_eq!(parser.current, 1000);
}
