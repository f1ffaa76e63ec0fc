use nqcc::assembly::{AsmType, Instruction, Operand, Program, Register, TopLevel};
use nqcc::codegen::{select, CodeGenerator};
use nqcc::errors::CompilerError;
use nqcc::ir;
use nqcc::ir::{UnaryOperator, Value};

fn var(name: &str) -> Value {
    Value::Var(name.to_string())
}

fn function(name: &str, body: Vec<ir::Instruction>) -> ir::Function {
    ir::Function { identifier: name.to_string(), body: Some(body) }
}

fn mov(src: Operand, dst: Operand) -> Instruction {
    Instruction::Mov { ty: AsmType::Longword, src, dst }
}

fn top_level(name: &str, instructions: Vec<Instruction>) -> TopLevel {
    TopLevel::Function { name: name.to_string(), global: true, instructions }
}

const EAX: Operand = Operand::Reg(Register::EAX);

#[test]
fn selects_a_minimal_function() {
    let program = ir::Program(vec![function("main", vec![ir::Instruction::Return(Value::Constant(2))])]);
    let mut generator = CodeGenerator::new();
    assert_eq!(
        generator.generate(&program),
        Ok(Program(vec![top_level("main", vec![mov(Operand::Imm(2), EAX), Instruction::Ret])]))
    );
}

#[test]
fn selects_a_negation_in_the_slot_of_its_temporary() {
    let f = function(
        "main",
        vec![
            ir::Instruction::Unary { op: UnaryOperator::Negate, src: Value::Constant(5), dst: var("tmp.0") },
            ir::Instruction::Return(var("tmp.0")),
        ],
    );
    let slot = Operand::Mem(4);
    assert_eq!(
        CodeGenerator::new().generate_function(&f),
        Ok(top_level(
            "main",
            vec![
                mov(Operand::Imm(5), slot),
                Instruction::Neg { ty: AsmType::Longword, dst: slot },
                mov(slot, EAX),
                Instruction::Ret,
            ]
        ))
    );
}

#[test]
fn selects_a_complement() {
    let f = function(
        "f",
        vec![
            ir::Instruction::Unary { op: UnaryOperator::Complement, src: Value::Constant(-1), dst: var("t") },
        ],
    );
    assert_eq!(
        CodeGenerator::new().generate_function(&f),
        Ok(top_level(
            "f",
            vec![
                mov(Operand::Imm(-1), Operand::Mem(4)),
                Instruction::Not { ty: AsmType::Longword, dst: Operand::Mem(4) },
            ]
        ))
    );
}

#[test]
fn each_temporary_has_a_slot_of_its_own() {
    let f = function(
        "f",
        vec![
            ir::Instruction::Unary { op: UnaryOperator::Negate, src: Value::Constant(8), dst: var("tmp.7") },
            ir::Instruction::Unary { op: UnaryOperator::Complement, src: var("tmp.7"), dst: var("tmp.8") },
            ir::Instruction::Unary { op: UnaryOperator::Negate, src: var("tmp.8"), dst: var("tmp.9") },
            ir::Instruction::Return(var("tmp.9")),
        ],
    );
    assert_eq!(
        CodeGenerator::new().generate_function(&f),
        Ok(top_level(
            "f",
            vec![
                mov(Operand::Imm(8), Operand::Mem(4)),
                Instruction::Neg { ty: AsmType::Longword, dst: Operand::Mem(4) },
                mov(Operand::Mem(4), Operand::Mem(8)),
                Instruction::Not { ty: AsmType::Longword, dst: Operand::Mem(8) },
                mov(Operand::Mem(8), Operand::Mem(12)),
                Instruction::Neg { ty: AsmType::Longword, dst: Operand::Mem(12) },
                mov(Operand::Mem(12), EAX),
                Instruction::Ret,
            ]
        ))
    );
}

#[test]
fn the_frame_of_each_function_starts_anew() {
    let body = |name: &str| {
        vec![
            ir::Instruction::Unary { op: UnaryOperator::Negate, src: Value::Constant(1), dst: var(name) },
            ir::Instruction::Return(var(name)),
        ]
    };
    let program = ir::Program(vec![function("a", body("tmp.0")), function("b", body("tmp.1"))]);
    let selected = select(&program).unwrap();
    let instructions_of = |t: &TopLevel| match t {
        TopLevel::Function { instructions, .. } => instructions.clone(),
    };
    assert_eq!(instructions_of(&selected.0[0]), instructions_of(&selected.0[1]));
    assert_eq!(instructions_of(&selected.0[0])[0], mov(Operand::Imm(1), Operand::Mem(4)));
}

#[test]
fn functions_keep_their_order_and_are_global() {
    let program = ir::Program(vec![
        function("z", vec![ir::Instruction::Return(Value::Constant(1))]),
        function("a", vec![ir::Instruction::Return(Value::Constant(2))]),
        ir::Function { identifier: "m".to_string(), body: None },
    ]);
    assert_eq!(
        select(&program),
        Ok(Program(vec![
            top_level("z", vec![mov(Operand::Imm(1), EAX), Instruction::Ret]),
            top_level("a", vec![mov(Operand::Imm(2), EAX), Instruction::Ret]),
            top_level("m", vec![]),
        ]))
    );
}

#[test]
fn the_empty_program_selects_to_the_empty_program() {
    assert_eq!(select(&ir::Program(vec![])), Ok(Program(vec![])));
}

#[test]
fn a_constant_cannot_be_a_destination() {
    let f = function(
        "main",
        vec![
            ir::Instruction::Return(Value::Constant(1)),
            ir::Instruction::Unary { op: UnaryOperator::Negate, src: var("a"), dst: Value::Constant(3) },
        ],
    );
    let error = CompilerError::Unsupported {
        message: "main: instruction 1 writes to a constant".to_string(),
    };
    assert_eq!(CodeGenerator::new().generate_function(&f), Err(error.clone()));
    let program = ir::Program(vec![function("ok", vec![]), f]);
    assert_eq!(select(&program), Err(error));
}

#[test]
fn what_is_selected_can_be_emitted() {
    let f = function(
        "f",
        vec![
            ir::Instruction::Unary { op: UnaryOperator::Negate, src: var("a"), dst: var("b") },
            ir::Instruction::Unary { op: UnaryOperator::Complement, src: Value::Constant(0), dst: var("a") },
            ir::Instruction::Return(var("b")),
        ],
    );
    let selected = select(&ir::Program(vec![f])).unwrap();
    assert!(selected.is_emittable());
}

#[test]
fn constants_become_immediates_of_the_same_value() {
    for value in [0, 1, -1, i32::MAX, i32::MIN] {
        let f = function("f", vec![ir::Instruction::Return(Value::Constant(value))]);
        assert_eq!(
            CodeGenerator::new().generate_function(&f),
            Ok(top_level("f", vec![mov(Operand::Imm(value as i64), EAX), Instruction::Ret]))
        );
    }
}
