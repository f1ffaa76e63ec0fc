use nqcc::ast;
use nqcc::ast::{Declaration, UnaryOperator};
use nqcc::errors::CompilerError;
use nqcc::ir;
use nqcc::pipeline::{compile, run, stage_for, Artifact, Stage};
use nqcc::tokens::TokenKind;
use nqcc::types::T;

fn chars(source: &str) -> Vec<char> {
    source.chars().collect()
}

const MINIMAL: &str = "int main(void){return 2;}";

#[test]
fn compiles_a_minimal_function() {
    assert_eq!(
        compile(&chars(MINIMAL)),
        Ok(".globl main\nmain:\n    movl $2, %eax\n    ret\n\n.section .note.GNU-stack,\"\",@progbits\n"
            .to_string())
    );
}

#[test]
fn compiles_several_functions_in_order() {
    let text = compile(&chars("int b(void){return 1;}\nint a(void){}\n")).unwrap();
    assert_eq!(
        text,
        ".globl b\nb:\n    movl $1, %eax\n    ret\n.globl a\na:\n    movl $0, %eax\n    ret\n\n.section .note.GNU-stack,\"\",@progbits\n"
    );
}

#[test]
fn the_earliest_stage_asked_for_wins() {
    assert_eq!(stage_for(false, false, false, false), Stage::Emit);
    assert_eq!(stage_for(true, false, false, false), Stage::Lex);
    assert_eq!(stage_for(false, true, false, false), Stage::Parse);
    assert_eq!(stage_for(false, false, true, false), Stage::Tacky);
    assert_eq!(stage_for(false, false, false, true), Stage::Codegen);
    assert_eq!(stage_for(true, true, true, true), Stage::Lex);
    assert_eq!(stage_for(false, true, false, true), Stage::Parse);
    assert_eq!(stage_for(false, false, true, true), Stage::Tacky);
}

#[test]
fn a_run_stops_after_the_stage_it_was_given() {
    let source = chars(MINIMAL);
    match run(&source, Stage::Lex) {
        Ok(Artifact::Tokens(tokens)) => {
            assert_eq!(tokens.len(), 11);
            assert_eq!(tokens[10].kind, TokenKind::EOF);
        }
        other => panic!("{:?}", other),
    }
    match run(&source, Stage::Parse) {
        Ok(Artifact::Ast(ast::Program(decls))) => match &decls[0] {
            Declaration::FunDecl(f) => {
                assert_eq!(f.name, "main");
                assert_eq!(f.return_type, T::Int);
            }
            other => panic!("{:?}", other),
        },
        other => panic!("{:?}", other),
    }
    match run(&source, Stage::Tacky) {
        Ok(Artifact::Tacky(ir::Program(functions))) => {
            assert_eq!(
                functions[0].body,
                Some(vec![ir::Instruction::Return(ir::Value::Constant(2))])
            )
        }
        other => panic!("{:?}", other),
    }
    assert!(matches!(run(&source, Stage::Codegen), Ok(Artifact::Assembly(_))));
    assert!(matches!(run(&source, Stage::Emit), Ok(Artifact::Text(_))));
}

#[test]
fn lexical_diagnostics_come_together_and_end_the_run() {
    let source = chars("int main(void){return 2 @;}\n$");
    let expected = Err(vec![
        CompilerError::LexError { message: "unexpected character '@'".to_string(), line: 1, column: 25 },
        CompilerError::LexError { message: "unexpected character '$'".to_string(), line: 2, column: 1 },
    ]);
    assert_eq!(compile(&source), expected);
    assert!(matches!(run(&source, Stage::Lex), Err(errors) if errors.len() == 2));
}

#[test]
fn a_structural_diagnostic_comes_alone() {
    assert_eq!(
        compile(&chars("int main(void){return -5;}")),
        Err(vec![CompilerError::ParseError { message: "Expected: Integer; Got: Minus".to_string() }])
    );
    assert_eq!(
        compile(&chars("struct s;")),
        Err(vec![CompilerError::Unsupported { message: "struct declaration at offset 0".to_string() }])
    );
}

#[test]
fn the_stages_after_the_parser_take_unary_operations() {
    let tree = ast::Program(vec![Declaration::FunDecl(ast::FunctionDeclaration {
        name: "main".to_string(),
        return_type: T::Int,
        params: vec![],
        body: Some(ast::Block(vec![ast::BlockItem::Stmt(ast::Statement::ReturnStatement(Some(
            ast::Expression::Unary {
                operator: UnaryOperator::Complement,
                expr: Box::new(ast::Expression::Unary {
                    operator: UnaryOperator::Negate,
                    expr: Box::new(ast::Expression::ConstInt(5)),
                }),
            },
        )))])),
        storage_class: None,
    })]);
    let tacky = ir::lower(&tree).unwrap();
    let assembly = nqcc::codegen::select(&tacky).unwrap();
    assert!(assembly.is_emittable());
    assert_eq!(
        nqcc::code_emission::emit(&assembly),
        ".globl main\nmain:\n    movl $5, -4(%rbp)\n    negl -4(%rbp)\n    movl -4(%rbp), -8(%rbp)\n    notl -8(%rbp)\n    movl -8(%rbp), %eax\n    ret\n\n.section .note.GNU-stack,\"\",@progbits\n"
    );
}

#[test]
fn the_empty_source_compiles_to_the_stack_note() {
    assert_eq!(compile(&chars("")), Ok("\n.section .note.GNU-stack,\"\",@progbits\n".to_string()));
}
