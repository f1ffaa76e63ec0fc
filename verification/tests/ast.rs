use nqcc::ast::{
    Block, BlockItem, Declaration, Expression, FunctionDeclaration, FunctionParam, Identifier,
    Program, Statement, StorageClass, StructDeclaration, UnaryOperator, VariableDeclaration,
};
use nqcc::types::T;

fn sample() -> Program {
    let conditional = Expression::If {
        condition: Box::new(Expression::ConstLong(1)),
        consequence: Box::new(Statement::ReturnStatement(Some(Expression::StringConstant(
            "yes".to_string(),
        )))),
        alternate: Some(Box::new(Statement::ReturnStatement(None))),
    };
    let nested = Expression::Unary {
        operator: UnaryOperator::Complement,
        expr: Box::new(Expression::Grouping(Box::new(Expression::ConstDouble("2.5".to_string())))),
    };
    let inner = Declaration::FunDecl(FunctionDeclaration {
        name: "inner".to_string(),
        return_type: T::Void,
        params: vec![],
        body: None,
        storage_class: Some(StorageClass::Extern),
    });
    Program(vec![
        Declaration::VarDecl(VariableDeclaration {}),
        Declaration::FunDecl(FunctionDeclaration {
            name: "f".to_string(),
            return_type: T::Int,
            params: vec![
                FunctionParam { typ: T::Int, name: "a".to_string() },
                FunctionParam { typ: T::Pointer(Box::new(T::Char)), name: "b".to_string() },
            ],
            body: Some(Block(vec![
                BlockItem::Stmt(Statement::ReturnStatement(Some(conditional))),
                BlockItem::Decl(inner),
                BlockItem::Stmt(Statement::ReturnStatement(Some(nested))),
            ])),
            storage_class: Some(StorageClass::Static),
        }),
        Declaration::StructDecl(StructDeclaration {}),
    ])
}

#[test]
fn a_copy_of_a_tree_equals_it() {
    let tree = sample();
    assert_eq!(tree.clone(), tree);
    assert_eq!(tree.0[1].clone(), tree.0[1]);
}

#[test]
fn an_identifier_gives_its_name() {
    let id = Identifier("main".to_string());
    assert_eq!(id.name(), "main");
    assert_eq!(id.clone().0, "main");
}
