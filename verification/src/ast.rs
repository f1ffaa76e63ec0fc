//! The abstract syntax tree that the parser builds.
use vstd::prelude::*;
use crate::types::{TView, T};

verus! {

/// A name as written in the source.
#[derive(Debug, Clone)]
pub struct Identifier(pub String);

impl Identifier {
    pub fn name(&self) -> (name: String)
        ensures
            name@ == self.0@,
    {
        self.0.clone()
    }
}

impl View for Identifier {
    type V = Seq<char>;

    open spec fn view(&self) -> Seq<char> {
        self.0@
    }
}

#[derive(Debug, Clone, Copy, PartialEq, Eq, Structural)]
pub enum StorageClass {
    Static,
    Extern,
}

/// The unary operators of the language.
#[derive(Debug, Clone, Copy, PartialEq, Eq, Structural)]
pub enum UnaryOperator {
    Complement,
    Negate,
}

#[derive(Debug, PartialEq)]
pub enum Statement {
    ReturnStatement(Option<Expression>),
}

/// An expression. A floating constant keeps its text as written.
#[derive(Debug, PartialEq)]
pub enum Expression {
    ConstInt(i32),
    ConstLong(i64),
    ConstDouble(String),
    StringConstant(String),
    Unary { operator: UnaryOperator, expr: Box<Expression> },
    Grouping(Box<Expression>),
    If {
        condition: Box<Expression>,
        consequence: Box<Statement>,
        alternate: Option<Box<Statement>>,
    },
}

/// A program: its declarations in the order of the source.
#[derive(Debug, PartialEq)]
pub struct Program(pub Vec<Declaration>);

#[derive(Debug, PartialEq)]
pub enum BlockItem {
    Stmt(Statement),
    Decl(Declaration),
}

#[derive(Debug, PartialEq)]
pub struct Block(pub Vec<BlockItem>);

#[derive(Debug, Clone, PartialEq)]
pub struct FunctionParam {
    pub typ: T,
    pub name: String,
}

/// A function declaration; one without a body is a prototype.
#[derive(Debug, PartialEq)]
pub struct FunctionDeclaration {
    pub name: String,
    pub return_type: T,
    pub params: Vec<FunctionParam>,
    pub body: Option<Block>,
    pub storage_class: Option<StorageClass>,
}

#[derive(Debug, Clone, Copy, PartialEq, Eq, Structural)]
pub struct VariableDeclaration {}

#[derive(Debug, Clone, Copy, PartialEq, Eq, Structural)]
pub struct StructDeclaration {}

#[derive(Debug, PartialEq)]
pub enum Declaration {
    FunDecl(FunctionDeclaration),
    VarDecl(VariableDeclaration),
    StructDecl(StructDeclaration),
}

/// The mathematical value of a [`Statement`].
pub enum StatementView {
    ReturnStatement(Option<ExpressionView>),
}

/// The mathematical value of an [`Expression`].
pub enum ExpressionView {
    ConstInt(i32),
    ConstLong(i64),
    ConstDouble(Seq<char>),
    StringConstant(Seq<char>),
    Unary { operator: UnaryOperator, expr: Box<ExpressionView> },
    Grouping(Box<ExpressionView>),
    If {
        condition: Box<ExpressionView>,
        consequence: Box<StatementView>,
        alternate: Option<Box<StatementView>>,
    },
}

/// The mathematical value of a [`BlockItem`].
pub enum BlockItemView {
    Stmt(StatementView),
    Decl(DeclarationView),
}

/// The mathematical value of a [`FunctionParam`].
pub struct FunctionParamView {
    pub typ: TView,
    pub name: Seq<char>,
}

/// The mathematical value of a [`FunctionDeclaration`]; a block is the sequence of its items.
pub struct FunctionDeclarationView {
    pub name: Seq<char>,
    pub return_type: TView,
    pub params: Seq<FunctionParamView>,
    pub body: Option<Seq<BlockItemView>>,
    pub storage_class: Option<StorageClass>,
}

/// The mathematical value of a [`Declaration`].
pub enum DeclarationView {
    FunDecl(FunctionDeclarationView),
    VarDecl,
    StructDecl,
}

pub open spec fn expression_view(e: Expression) -> ExpressionView
    decreases e,
{
    match e {
        Expression::ConstInt(v) => ExpressionView::ConstInt(v),
        Expression::ConstLong(v) => ExpressionView::ConstLong(v),
        Expression::ConstDouble(lexeme) => ExpressionView::ConstDouble(lexeme@),
        Expression::StringConstant(s) => ExpressionView::StringConstant(s@),
        Expression::Unary { operator, expr } => ExpressionView::Unary {
            operator,
            expr: Box::new(expression_view(*expr)),
        },
        Expression::Grouping(inner) => ExpressionView::Grouping(Box::new(expression_view(*inner))),
        Expression::If { condition, consequence, alternate } => ExpressionView::If {
            condition: Box::new(expression_view(*condition)),
            consequence: Box::new(statement_view(*consequence)),
            alternate: match alternate {
                Some(s) => Some(Box::new(statement_view(*s))),
                None => None,
            },
        },
    }
}

pub open spec fn statement_view(s: Statement) -> StatementView
    decreases s,
{
    match s {
        Statement::ReturnStatement(Some(e)) => StatementView::ReturnStatement(
            Some(expression_view(e)),
        ),
        Statement::ReturnStatement(None) => StatementView::ReturnStatement(None),
    }
}

pub open spec fn block_item_view(item: BlockItem) -> BlockItemView
    decreases item,
{
    match item {
        BlockItem::Stmt(s) => BlockItemView::Stmt(statement_view(s)),
        BlockItem::Decl(d) => BlockItemView::Decl(declaration_view(d)),
    }
}

pub open spec fn block_items_view(items: Vec<BlockItem>) -> Seq<BlockItemView>
    decreases items,
{
    Seq::new(
        items@.len(),
        |k: int|
            if 0 <= k < items@.len() {
                block_item_view(items@[k])
            } else {
                arbitrary()
            },
    )
}

pub open spec fn declaration_view(d: Declaration) -> DeclarationView
    decreases d,
{
    match d {
        Declaration::FunDecl(f) => DeclarationView::FunDecl(
            FunctionDeclarationView {
                name: f.name@,
                return_type: f.return_type@,
                params: f.params.deep_view(),
                body: match f.body {
                    Some(block) => Some(block_items_view(block.0)),
                    None => None,
                },
                storage_class: f.storage_class,
            },
        ),
        Declaration::VarDecl(_) => DeclarationView::VarDecl,
        Declaration::StructDecl(_) => DeclarationView::StructDecl,
    }
}

impl View for Expression {
    type V = ExpressionView;

    open spec fn view(&self) -> ExpressionView {
        expression_view(*self)
    }
}

impl View for Statement {
    type V = StatementView;

    open spec fn view(&self) -> StatementView {
        statement_view(*self)
    }
}

impl View for BlockItem {
    type V = BlockItemView;

    open spec fn view(&self) -> BlockItemView {
        block_item_view(*self)
    }
}

impl View for Block {
    type V = Seq<BlockItemView>;

    open spec fn view(&self) -> Seq<BlockItemView> {
        block_items_view(self.0)
    }
}

impl View for FunctionParam {
    type V = FunctionParamView;

    open spec fn view(&self) -> FunctionParamView {
        FunctionParamView { typ: self.typ@, name: self.name@ }
    }
}

impl DeepView for FunctionParam {
    type V = FunctionParamView;

    open spec fn deep_view(&self) -> FunctionParamView {
        self@
    }
}

impl View for FunctionDeclaration {
    type V = FunctionDeclarationView;

    open spec fn view(&self) -> FunctionDeclarationView {
        FunctionDeclarationView {
            name: self.name@,
            return_type: self.return_type@,
            params: self.params.deep_view(),
            body: match self.body {
                Some(block) => Some(block@),
                None => None,
            },
            storage_class: self.storage_class,
        }
    }
}

impl View for Declaration {
    type V = DeclarationView;

    open spec fn view(&self) -> DeclarationView {
        declaration_view(*self)
    }
}

impl DeepView for Declaration {
    type V = DeclarationView;

    open spec fn deep_view(&self) -> DeclarationView {
        declaration_view(*self)
    }
}

impl View for Program {
    type V = Seq<DeclarationView>;

    open spec fn view(&self) -> Seq<DeclarationView> {
        self.0.deep_view()
    }
}

impl Clone for Expression {
    fn clone(&self) -> (copy: Expression)
        ensures
            copy == *self,
        decreases self,
    {
        match self {
            Expression::ConstInt(v) => Expression::ConstInt(*v),
            Expression::ConstLong(v) => Expression::ConstLong(*v),
            Expression::ConstDouble(lexeme) => Expression::ConstDouble(lexeme.clone()),
            Expression::StringConstant(s) => Expression::StringConstant(s.clone()),
            Expression::Unary { operator, expr } => {
                let operand: &Expression = expr;
                Expression::Unary { operator: *operator, expr: Box::new(operand.clone()) }
            },
            Expression::Grouping(inner) => {
                let inner: &Expression = inner;
                Expression::Grouping(Box::new(inner.clone()))
            },
            Expression::If { condition, consequence, alternate } => {
                let condition: &Expression = condition;
                let consequence: &Statement = consequence;
                Expression::If {
                    condition: Box::new(condition.clone()),
                    consequence: Box::new(consequence.clone()),
                    alternate: match alternate {
                        Some(statement) => {
                            let statement: &Statement = statement;
                            Some(Box::new(statement.clone()))
                        },
                        None => None,
                    },
                }
            },
        }
    }
}

impl Clone for Statement {
    fn clone(&self) -> (copy: Statement)
        ensures
            copy == *self,
        decreases self,
    {
        match self {
            Statement::ReturnStatement(Some(e)) => Statement::ReturnStatement(Some(e.clone())),
            Statement::ReturnStatement(None) => Statement::ReturnStatement(None),
        }
    }
}

impl Clone for BlockItem {
    fn clone(&self) -> (copy: BlockItem)
        ensures
            copy@ == self@,
        decreases self,
    {
        match self {
            BlockItem::Stmt(s) => BlockItem::Stmt(s.clone()),
            BlockItem::Decl(d) => BlockItem::Decl(d.clone()),
        }
    }
}

impl Clone for Block {
    fn clone(&self) -> (copy: Block)
        ensures
            copy@ == self@,
        decreases self,
    {
        let mut items: Vec<BlockItem> = Vec::new();
        let mut i: usize = 0;
        while i < self.0.len()
            invariant
                i <= self.0.len(),
                items.len() == i,
                forall|k: int| 0 <= k < i ==> items@[k]@ == self.0@[k]@,
            decreases self.0.len() - i,
        {
            items.push(self.0[i].clone());
            i = i + 1;
        }
        Block(items)
    }
}

impl Clone for FunctionDeclaration {
    fn clone(&self) -> (copy: FunctionDeclaration)
        ensures
            copy@ == self@,
        decreases self,
    {
        let mut params: Vec<FunctionParam> = Vec::new();
        let mut i: usize = 0;
        while i < self.params.len()
            invariant
                i <= self.params.len(),
                params.len() == i,
                forall|k: int| 0 <= k < i ==> params@[k]@ == self.params@[k]@,
            decreases self.params.len() - i,
        {
            let param = &self.params[i];
            params.push(FunctionParam { typ: param.typ.clone(), name: param.name.clone() });
            i = i + 1;
        }
        assert(params.deep_view() =~= self.params.deep_view());
        FunctionDeclaration {
            name: self.name.clone(),
            return_type: self.return_type.clone(),
            params,
            body: match &self.body {
                Some(block) => Some(block.clone()),
                None => None,
            },
            storage_class: self.storage_class,
        }
    }
}

impl Clone for Declaration {
    fn clone(&self) -> (copy: Declaration)
        ensures
            copy@ == self@,
        decreases self,
    {
        match self {
            Declaration::FunDecl(f) => Declaration::FunDecl(f.clone()),
            Declaration::VarDecl(v) => Declaration::VarDecl(*v),
            Declaration::StructDecl(s) => Declaration::StructDecl(*s),
        }
    }
}

impl Clone for Program {
    fn clone(&self) -> (copy: Program)
        ensures
            copy@ == self@,
    {
        let mut decls: Vec<Declaration> = Vec::new();
        let mut i: usize = 0;
        while i < self.0.len()
            invariant
                i <= self.0.len(),
                decls.len() == i,
                forall|k: int| 0 <= k < i ==> decls@[k]@ == self.0@[k]@,
            decreases self.0.len() - i,
        {
            decls.push(self.0[i].clone());
            i = i + 1;
        }
        Program(decls)
    }
}

} // verus!
