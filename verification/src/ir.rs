//! The linear three-address intermediate representation, and the lowering of
//! the syntax tree into it.
//!
//! Lowering is defined by [`lower_program`] and the functions it calls, each a
//! function of a syntax tree and of the number of the next temporary; the
//! methods of [`TackyGenerator`] are proved to compute them.
use vstd::prelude::*;
use crate::ast;
use crate::ast::{
    BlockItemView, DeclarationView, ExpressionView, FunctionDeclarationView, StatementView,
};
use crate::errors::{CompilerError, CompilerErrorView};
use crate::text::{decimal, push_decimal};

verus! {

/// A program in the intermediate representation: its functions in source order.
#[derive(Debug, Clone, PartialEq)]
pub struct Program(pub Vec<Function>);

/// A function; one without a body is only declared.
#[derive(Debug, Clone, PartialEq)]
pub struct Function {
    pub identifier: String,
    pub body: Option<Vec<Instruction>>,
}

#[derive(Debug, Clone, PartialEq)]
pub enum Instruction {
    Return(Value),
    Unary { op: UnaryOperator, src: Value, dst: Value },
}

/// A constant, or the temporary of the given name.
#[derive(Debug, Clone, PartialEq)]
pub enum Value {
    Constant(i32),
    Var(String),
}

#[derive(Debug, Clone, Copy, PartialEq, Eq, Structural)]
pub enum UnaryOperator {
    Complement,
    Negate,
}

/// The mathematical value of a [`Value`].
pub enum ValueView {
    Constant(i32),
    Var(Seq<char>),
}

/// The mathematical value of an [`Instruction`].
pub enum InstructionView {
    Return(ValueView),
    Unary { op: UnaryOperator, src: ValueView, dst: ValueView },
}

/// The mathematical value of a [`Function`].
pub struct FunctionView {
    pub identifier: Seq<char>,
    pub body: Option<Seq<InstructionView>>,
}

impl View for Value {
    type V = ValueView;

    open spec fn view(&self) -> ValueView {
        match self {
            Value::Constant(c) => ValueView::Constant(*c),
            Value::Var(name) => ValueView::Var(name@),
        }
    }
}

impl View for Instruction {
    type V = InstructionView;

    open spec fn view(&self) -> InstructionView {
        match self {
            Instruction::Return(v) => InstructionView::Return(v@),
            Instruction::Unary { op, src, dst } => InstructionView::Unary {
                op: *op,
                src: src@,
                dst: dst@,
            },
        }
    }
}

impl DeepView for Instruction {
    type V = InstructionView;

    open spec fn deep_view(&self) -> InstructionView {
        self@
    }
}

impl View for Function {
    type V = FunctionView;

    open spec fn view(&self) -> FunctionView {
        FunctionView {
            identifier: self.identifier@,
            body: match self.body {
                Some(instructions) => Some(instructions.deep_view()),
                None => None,
            },
        }
    }
}

impl DeepView for Function {
    type V = FunctionView;

    open spec fn deep_view(&self) -> FunctionView {
        self@
    }
}

impl View for Program {
    type V = Seq<FunctionView>;

    open spec fn view(&self) -> Seq<FunctionView> {
        self.0.deep_view()
    }
}

impl Value {
    /// The name of a temporary. A constant has none.
    pub fn name(&self) -> (name: String)
        requires
            self is Var,
        ensures
            self@ == ValueView::Var(name@),
    {
        match self {
            Value::Var(s) => s.clone(),
            Value::Constant(_) => vstd::pervasive::unreached(),
        }
    }
}

/// The name of the temporary with number `n`.
pub open spec fn temp_name(n: nat) -> Seq<char> {
    "tmp."@ + decimal(n)
}

pub open spec fn unsupported(what: Seq<char>) -> CompilerErrorView {
    CompilerErrorView::Unsupported { message: what }
}

/// The operator of the intermediate representation for an operator of the source.
pub open spec fn lower_op(op: ast::UnaryOperator) -> UnaryOperator {
    match op {
        ast::UnaryOperator::Negate => UnaryOperator::Negate,
        ast::UnaryOperator::Complement => UnaryOperator::Complement,
    }
}

/// What lowering an expression gives: the instructions it emits, the number of
/// the next temporary afterwards, and the value of the expression or a diagnostic.
pub struct LoweredValue {
    pub code: Seq<InstructionView>,
    pub next: nat,
    pub value: Result<ValueView, CompilerErrorView>,
}

/// What lowering statements gives: all the instructions emitted so far, the
/// number of the next temporary afterwards, and the diagnostic that stopped it, if any.
pub struct LoweredCode {
    pub code: Seq<InstructionView>,
    pub next: nat,
    pub failure: Option<CompilerErrorView>,
}

/// Lowers an expression, operand first. A constant emits nothing. A unary
/// operation takes the next temporary as its destination. A grouping is its
/// inner expression. Nothing else can be lowered.
pub open spec fn lower_expr(e: ExpressionView, n: nat) -> LoweredValue
    decreases e,
{
    match e {
        ExpressionView::ConstInt(v) => LoweredValue {
            code: Seq::empty(),
            next: n,
            value: Ok(ValueView::Constant(v)),
        },
        ExpressionView::Unary { operator, expr } => {
            let operand = lower_expr(*expr, n);
            match operand.value {
                Err(_) => operand,
                Ok(src) => if operand.next >= u64::MAX {
                    LoweredValue {
                        code: operand.code,
                        next: operand.next,
                        value: Err(unsupported("more temporaries than can be numbered"@)),
                    }
                } else {
                    let dst = ValueView::Var(temp_name(operand.next));
                    LoweredValue {
                        code: operand.code.push(
                            InstructionView::Unary { op: lower_op(operator), src, dst },
                        ),
                        next: operand.next + 1,
                        value: Ok(dst),
                    }
                },
            }
        },
        ExpressionView::Grouping(inner) => lower_expr(*inner, n),
        ExpressionView::ConstLong(_) => LoweredValue {
            code: Seq::empty(),
            next: n,
            value: Err(unsupported("long constant"@)),
        },
        ExpressionView::ConstDouble(_) => LoweredValue {
            code: Seq::empty(),
            next: n,
            value: Err(unsupported("floating constant"@)),
        },
        ExpressionView::StringConstant(_) => LoweredValue {
            code: Seq::empty(),
            next: n,
            value: Err(unsupported("string constant"@)),
        },
        ExpressionView::If { .. } => LoweredValue {
            code: Seq::empty(),
            next: n,
            value: Err(unsupported("conditional expression"@)),
        },
    }
}

/// The value that a function returns where the source gives none.
pub open spec fn default_return() -> InstructionView {
    InstructionView::Return(ValueView::Constant(0))
}

/// Lowers a statement after the instructions `done`: the code of its
/// expression, then one `Return`. A `return` without an expression returns zero.
pub open spec fn lower_statement(
    s: StatementView,
    n: nat,
    done: Seq<InstructionView>,
) -> LoweredCode {
    match s {
        StatementView::ReturnStatement(Some(e)) => {
            let l = lower_expr(e, n);
            match l.value {
                Ok(v) => LoweredCode {
                    code: (done + l.code).push(InstructionView::Return(v)),
                    next: l.next,
                    failure: None,
                },
                Err(error) => LoweredCode {
                    code: done + l.code,
                    next: l.next,
                    failure: Some(error),
                },
            }
        },
        StatementView::ReturnStatement(None) => LoweredCode {
            code: done.push(default_return()),
            next: n,
            failure: None,
        },
    }
}

/// Lowers the block items from index `from` on, in order, after the
/// instructions `done`. It stops at the first item that cannot be lowered.
pub open spec fn lower_items(
    items: Seq<BlockItemView>,
    from: int,
    n: nat,
    done: Seq<InstructionView>,
) -> LoweredCode
    decreases items.len() - from,
{
    if from < 0 || from >= items.len() {
        LoweredCode { code: done, next: n, failure: None }
    } else {
        match items[from] {
            BlockItemView::Decl(_) => LoweredCode {
                code: done,
                next: n,
                failure: Some(unsupported("declaration inside a block"@)),
            },
            BlockItemView::Stmt(s) => {
                let first = lower_statement(s, n, done);
                if first.failure is Some {
                    first
                } else {
                    lower_items(items, from + 1, first.next, first.code)
                }
            },
        }
    }
}

/// Whether a body ends in a `Return`.
pub open spec fn ends_in_return(code: Seq<InstructionView>) -> bool {
    code.len() > 0 && code.last() is Return
}

/// A body that ends in a `Return`: where control would fall off the end, the
/// function returns zero.
pub open spec fn closed_body(code: Seq<InstructionView>) -> Seq<InstructionView> {
    if ends_in_return(code) {
        code
    } else {
        code.push(default_return())
    }
}

/// What lowering a function declaration gives.
pub struct LoweredFunction {
    pub function: Result<FunctionView, CompilerErrorView>,
    pub next: nat,
}

/// Lowers a function declaration. A prototype stays without a body. A
/// diagnostic names the function it was found in.
pub open spec fn lower_function(f: FunctionDeclarationView, n: nat) -> LoweredFunction {
    match f.body {
        None => LoweredFunction {
            function: Ok(FunctionView { identifier: f.name, body: None }),
            next: n,
        },
        Some(items) => {
            let l = lower_items(items, 0, n, Seq::empty());
            match l.failure {
                Some(error) => LoweredFunction {
                    function: Err(error.within(f.name)),
                    next: l.next,
                },
                None => LoweredFunction {
                    function: Ok(
                        FunctionView { identifier: f.name, body: Some(closed_body(l.code)) },
                    ),
                    next: l.next,
                },
            }
        },
    }
}

/// What lowering a program gives.
pub struct LoweredProgram {
    pub program: Result<Seq<FunctionView>, CompilerErrorView>,
    pub next: nat,
}

/// Lowers the declarations from index `from` on, in order, after the functions
/// `done`. Only function definitions are lowered: prototypes and the other
/// kinds of declaration are passed over. Temporaries are numbered through the
/// whole program.
pub open spec fn lower_declarations(
    decls: Seq<DeclarationView>,
    from: int,
    n: nat,
    done: Seq<FunctionView>,
) -> LoweredProgram
    decreases decls.len() - from,
{
    if from < 0 || from >= decls.len() {
        LoweredProgram { program: Ok(done), next: n }
    } else {
        match decls[from] {
            DeclarationView::FunDecl(f) => if f.body is Some {
                let l = lower_function(f, n);
                match l.function {
                    Ok(function) => lower_declarations(
                        decls,
                        from + 1,
                        l.next,
                        done.push(function),
                    ),
                    Err(error) => LoweredProgram { program: Err(error), next: l.next },
                }
            } else {
                lower_declarations(decls, from + 1, n, done)
            },
            _ => lower_declarations(decls, from + 1, n, done),
        }
    }
}

/// Lowers a program.
pub open spec fn lower_program(decls: Seq<DeclarationView>, n: nat) -> LoweredProgram {
    lower_declarations(decls, 0, n, Seq::empty())
}

/// The lowering pass. It owns the number of the next temporary.
#[derive(Debug, Clone, Copy)]
pub struct TackyGenerator {
    next_temp: u64,
}

impl TackyGenerator {
    /// The number of the next temporary.
    pub closed spec fn next_temp(&self) -> nat {
        self.next_temp as nat
    }

    /// A pass whose first temporary is `tmp.0`.
    pub fn new() -> (generator: Self)
        ensures
            generator.next_temp() == 0,
    {
        Self { next_temp: 0 }
    }

    /// Lowers a program.
    #[verifier::loop_isolation(false)]
    pub fn emit_tacky_program(&mut self, program: &ast::Program) -> (r: Result<
        Program,
        CompilerError,
    >)
        ensures
            final(self).next_temp() == lower_program(program@, old(self).next_temp()).next,
            match lower_program(program@, old(self).next_temp()).program {
                Ok(functions) => r matches Ok(p) && p@ == functions,
                Err(error) => r matches Err(e) && e@ == error,
            },
    {
        let mut functions: Vec<Function> = Vec::new();
        let ghost start = self.next_temp as nat;
        assert(functions.deep_view() =~= Seq::<FunctionView>::empty());
        let mut i: usize = 0;
        while i < program.0.len()
            invariant
                i <= program.0.len(),
                lower_declarations(program@, i as int, self.next_temp as nat, functions.deep_view())
                    == lower_program(program@, start),
            decreases program.0.len() - i,
        {
            let ghost so_far = functions.deep_view();
            match &program.0[i] {
                ast::Declaration::FunDecl(func_decl) => {
                    if func_decl.body.is_some() {
                        match self.generate_function(func_decl) {
                            Ok(func) => {
                                functions.push(func);
                                assert(functions.deep_view() =~= so_far.push(func@));
                            },
                            Err(e) => {
                                return Err(e);
                            },
                        }
                    }
                },
                ast::Declaration::VarDecl(_) | ast::Declaration::StructDecl(_) => {},
            }
            i = i + 1;
        }
        Ok(Program(functions))
    }

    /// Lowers a function declaration. The body of a definition ends in a `Return`.
    #[verifier::loop_isolation(false)]
    pub fn generate_function(&mut self, func: &ast::FunctionDeclaration) -> (r: Result<
        Function,
        CompilerError,
    >)
        ensures
            final(self).next_temp() == lower_function(func@, old(self).next_temp()).next,
            match lower_function(func@, old(self).next_temp()).function {
                Ok(function) => r matches Ok(f) && f@ == function,
                Err(error) => r matches Err(e) && e@ == error,
            },
            r matches Ok(f) ==> (f@.body matches Some(code) ==> ends_in_return(code)),
    {
        let body = match &func.body {
            None => {
                return Ok(Function { identifier: func.name.clone(), body: None });
            },
            Some(body) => body,
        };
        let mut instructions: Vec<Instruction> = Vec::new();
        let ghost start = self.next_temp as nat;
        let ghost items = body@;
        assert(instructions.deep_view() =~= Seq::<InstructionView>::empty());
        let mut i: usize = 0;
        while i < body.0.len()
            invariant
                i <= body.0.len(),
                items == body@,
                items.len() == body.0.len(),
                lower_items(items, i as int, self.next_temp as nat, instructions.deep_view())
                    == lower_items(items, 0, start, Seq::empty()),
            decreases body.0.len() - i,
        {
            match &body.0[i] {
                ast::BlockItem::Stmt(stmt) => {
                    match self.emit_statement(stmt, &mut instructions) {
                        Ok(_) => {},
                        Err(e) => {
                            return Err(e.within(func.name.as_str()));
                        },
                    }
                },
                ast::BlockItem::Decl(_) => {
                    let e = CompilerError::unsupported_construct("declaration inside a block");
                    return Err(e.within(func.name.as_str()));
                },
            }
            i = i + 1;
        }
        let ghost code = instructions.deep_view();
        let closed = instructions.len() > 0 && match &instructions[instructions.len() - 1] {
            Instruction::Return(_) => true,
            _ => false,
        };
        if !closed {
            instructions.push(Instruction::Return(Value::Constant(0)));
            assert(instructions.deep_view() =~= code.push(default_return()));
        }
        Ok(Function { identifier: func.name.clone(), body: Some(instructions) })
    }

    /// Lowers a statement: appends its instructions to `instructions`.
    pub fn emit_statement(
        &mut self,
        stmt: &ast::Statement,
        instructions: &mut Vec<Instruction>,
    ) -> (r: Result<(), CompilerError>)
        ensures
            ({
                let l = lower_statement(
                    stmt@,
                    old(self).next_temp(),
                    old(instructions).deep_view(),
                );
                &&& final(instructions).deep_view() == l.code
                &&& final(self).next_temp() == l.next
                &&& match l.failure {
                    None => r is Ok,
                    Some(error) => r matches Err(e) && e@ == error,
                }
            }),
    {
        match stmt {
            ast::Statement::ReturnStatement(Some(expr)) => {
                match self.emit_tacky(expr, instructions) {
                    Ok(val) => {
                        let ghost code = instructions.deep_view();
                        instructions.push(Instruction::Return(val));
                        assert(instructions.deep_view() =~= code.push(
                            InstructionView::Return(val@),
                        ));
                        Ok(())
                    },
                    Err(e) => Err(e),
                }
            },
            ast::Statement::ReturnStatement(None) => {
                instructions.push(Instruction::Return(Value::Constant(0)));
                Ok(())
            },
        }
    }

    /// Lowers an expression: appends the instructions that compute it to
    /// `instructions` and returns the value that holds the result.
    pub fn emit_tacky(
        &mut self,
        expr: &ast::Expression,
        instructions: &mut Vec<Instruction>,
    ) -> (r: Result<Value, CompilerError>)
        ensures
            ({
                let l = lower_expr(expr@, old(self).next_temp());
                &&& final(instructions).deep_view() == old(instructions).deep_view() + l.code
                &&& final(self).next_temp() == l.next
                &&& match l.value {
                    Ok(value) => r matches Ok(v) && v@ == value,
                    Err(error) => r matches Err(e) && e@ == error,
                }
            }),
        decreases expr,
    {
        let ghost before = instructions.deep_view();
        match expr {
            ast::Expression::ConstInt(val) => Ok(Value::Constant(*val)),
            ast::Expression::Unary { operator, expr: operand } => {
                let src = match self.emit_tacky(operand, instructions) {
                    Ok(src) => src,
                    Err(e) => {
                        return Err(e);
                    },
                };
                let ghost code = instructions.deep_view();
                let dst_name = match self.make_temp() {
                    Some(name) => name,
                    None => {
                        return Err(
                            CompilerError::unsupported_construct(
                                "more temporaries than can be numbered",
                            ),
                        );
                    },
                };
                let dst = Value::Var(dst_name.clone());
                let instruction = Instruction::Unary {
                    op: self.convert_op(*operator),
                    src,
                    dst: Value::Var(dst_name),
                };
                instructions.push(instruction);
                assert(instructions.deep_view() =~= code.push(instruction@));
                assert(instructions.deep_view() =~= before + lower_expr(
                    expr@,
                    old(self).next_temp(),
                ).code);
                Ok(dst)
            },
            ast::Expression::Grouping(inner) => self.emit_tacky(inner, instructions),
            ast::Expression::ConstLong(_) => Err(
                CompilerError::unsupported_construct("long constant"),
            ),
            ast::Expression::ConstDouble(_) => Err(
                CompilerError::unsupported_construct("floating constant"),
            ),
            ast::Expression::StringConstant(_) => Err(
                CompilerError::unsupported_construct("string constant"),
            ),
            ast::Expression::If { .. } => Err(
                CompilerError::unsupported_construct("conditional expression"),
            ),
        }
    }

    /// The name of the next temporary, which is then taken; `None` where the
    /// numbers have run out.
    pub fn make_temp(&mut self) -> (name: Option<String>)
        ensures
            old(self).next_temp() < u64::MAX ==> final(self).next_temp() == old(self).next_temp()
                + 1 && (name matches Some(s) && s@ == temp_name(old(self).next_temp())),
            old(self).next_temp() >= u64::MAX ==> name is None && *final(self) == *old(self),
    {
        if self.next_temp == u64::MAX {
            return None;
        }
        let mut tmp = String::new();
        tmp.append("tmp.");
        push_decimal(&mut tmp, self.next_temp);
        self.next_temp = self.next_temp + 1;
        Some(tmp)
    }

    /// The operator of the intermediate representation for an operator of the source.
    pub fn convert_op(&self, op: ast::UnaryOperator) -> (converted: UnaryOperator)
        ensures
            converted == lower_op(op),
    {
        match op {
            ast::UnaryOperator::Negate => UnaryOperator::Negate,
            ast::UnaryOperator::Complement => UnaryOperator::Complement,
        }
    }
}

/// Lowers a program with a pass of its own, whose first temporary is `tmp.0`.
pub fn lower(program: &ast::Program) -> (r: Result<Program, CompilerError>)
    ensures
        match lower_program(program@, 0).program {
            Ok(functions) => r matches Ok(p) && p@ == functions,
            Err(error) => r matches Err(e) && e@ == error,
        },
{
    let mut generator = TackyGenerator::new();
    generator.emit_tacky_program(program)
}

} // verus!
