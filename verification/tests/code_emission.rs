use nqcc::assembly::{AsmType, Instruction, Operand, Program, Register, TopLevel};
use nqcc::code_emission::{emit, push_operand, CodeEmitter};

const STACK_NOTE: &str = "\n.section .note.GNU-stack,\"\",@progbits\n";

fn function(name: &str, global: bool, instructions: Vec<Instruction>) -> TopLevel {
    TopLevel::Function { name: name.to_string(), global, instructions }
}

fn minimal() -> Program {
    Program(vec![function(
        "main",
        true,
        vec![
            Instruction::Mov {
                ty: AsmType::Longword,
                src: Operand::Imm(2),
                dst: Operand::Reg(Register::EAX),
            },
            Instruction::Ret,
        ],
    )])
}

fn text_of(op: Operand) -> String {
    let mut out = String::new();
    push_operand(&mut out, &op);
    out
}

#[test]
fn emits_a_minimal_function() {
    let mut emitter = CodeEmitter::new();
    let text = emitter.emit(&minimal());
    assert_eq!(
        text,
        ".globl main\nmain:\n    movl $2, %eax\n    ret\n\n.section .note.GNU-stack,\"\",@progbits\n"
    );
}

#[test]
fn emitting_again_gives_the_same_text() {
    let program = minimal();
    let mut emitter = CodeEmitter::new();
    let first = emitter.emit(&program);
    let second = emitter.emit(&program);
    let third = CodeEmitter::new().emit(&program.clone());
    assert_eq!(first, second);
    assert_eq!(first, third);
    assert_eq!(first, emit(&program));
}

#[test]
fn the_empty_program_is_the_stack_note() {
    assert_eq!(emit(&Program(vec![])), STACK_NOTE);
}

#[test]
fn the_stack_note_comes_once_after_all_functions() {
    let program = Program(vec![
        function("a", true, vec![Instruction::Ret]),
        function("b", false, vec![Instruction::Ret]),
        function("c", true, vec![]),
    ]);
    let text = emit(&program);
    assert_eq!(
        text,
        format!(".globl a\na:\n    ret\nb:\n    ret\n.globl c\nc:\n{}", STACK_NOTE)
    );
    assert_eq!(text.matches(".section").count(), 1);
}

#[test]
fn a_function_that_is_not_global_has_no_directive() {
    let mut emitter = CodeEmitter::new();
    assert_eq!(emitter.emit_function("f", false, &vec![Instruction::Ret]), "f:\n    ret\n");
    assert_eq!(emitter.emit_function("f", true, &vec![]), ".globl f\nf:\n");
}

#[test]
fn operands() {
    assert_eq!(text_of(Operand::Imm(0)), "$0");
    assert_eq!(text_of(Operand::Imm(-5)), "$-5");
    assert_eq!(text_of(Operand::Imm(i64::MAX)), "$9223372036854775807");
    assert_eq!(text_of(Operand::Imm(i64::MIN)), "$-9223372036854775808");
    assert_eq!(text_of(Operand::Mem(4)), "-4(%rbp)");
    assert_eq!(text_of(Operand::Mem(1024)), "-1024(%rbp)");
    assert_eq!(text_of(Operand::Mem(0)), "-0(%rbp)");
}

#[test]
fn registers_are_written_in_lower_case() {
    let registers = [
        Register::RAX,
        Register::RBX,
        Register::RCX,
        Register::RDX,
        Register::RSI,
        Register::RDI,
        Register::RSP,
        Register::RBP,
        Register::EAX,
    ];
    let names: Vec<String> = registers.iter().map(|r| text_of(Operand::Reg(*r))).collect();
    assert_eq!(names, vec!["%rax", "%rbx", "%rcx", "%rdx", "%rsi", "%rdi", "%rsp", "%rbp", "%eax"]);
    for (r, name) in registers.iter().zip(names.iter()) {
        assert_eq!(*name, format!("%{:?}", r).to_lowercase());
    }
}

#[test]
fn each_type_has_its_move() {
    let mut emitter = CodeEmitter::new();
    let types = [AsmType::Byte, AsmType::Longword, AsmType::Quadword, AsmType::Double];
    let lines: Vec<String> = types
        .iter()
        .map(|ty| {
            emitter.emit_instruction(&Instruction::Mov {
                ty: *ty,
                src: Operand::Mem(8),
                dst: Operand::Reg(Register::RDI),
            })
        })
        .collect();
    assert_eq!(
        lines,
        vec![
            "movb -8(%rbp), %rdi",
            "movl -8(%rbp), %rdi",
            "movq -8(%rbp), %rdi",
            "movsd -8(%rbp), %rdi",
        ]
    );
}

#[test]
fn each_integer_type_has_its_negation_and_complement() {
    let mut emitter = CodeEmitter::new();
    let types = [AsmType::Byte, AsmType::Longword, AsmType::Quadword];
    let neg: Vec<String> = types
        .iter()
        .map(|ty| emitter.emit_instruction(&Instruction::Neg { ty: *ty, dst: Operand::Mem(4) }))
        .collect();
    let not: Vec<String> = types
        .iter()
        .map(|ty| {
            emitter.emit_instruction(&Instruction::Not { ty: *ty, dst: Operand::Reg(Register::EAX) })
        })
        .collect();
    assert_eq!(neg, vec!["negb -4(%rbp)", "negl -4(%rbp)", "negq -4(%rbp)"]);
    assert_eq!(not, vec!["notb %eax", "notl %eax", "notq %eax"]);
    assert_eq!(emitter.emit_instruction(&Instruction::Ret), "ret");
}

#[test]
fn emits_a_negation() {
    let slot = Operand::Mem(4);
    let program = Program(vec![function(
        "main",
        true,
        vec![
            Instruction::Mov { ty: AsmType::Longword, src: Operand::Imm(5), dst: slot },
            Instruction::Neg { ty: AsmType::Longword, dst: slot },
            Instruction::Mov { ty: AsmType::Longword, src: slot, dst: Operand::Reg(Register::EAX) },
            Instruction::Ret,
        ],
    )]);
    assert_eq!(
        emit(&program),
        format!(
            ".globl main\nmain:\n    movl $5, -4(%rbp)\n    negl -4(%rbp)\n    movl -4(%rbp), %eax\n    ret\n{}",
            STACK_NOTE
        )
    );
}
