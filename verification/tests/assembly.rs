use nqcc::assembly::{AsmType, Instruction, Operand, Program, Register, TopLevel};

const TYPES: [AsmType; 5] = [
    AsmType::Byte,
    AsmType::Longword,
    AsmType::Quadword,
    AsmType::Double,
    AsmType::ByteArray { size: 16, alignment: 8 },
];

#[test]
fn sizes_and_alignments() {
    let sizes: Vec<u64> = TYPES.iter().map(|t| t.byte_size()).collect();
    let alignments: Vec<u64> = TYPES.iter().map(|t| t.byte_alignment()).collect();
    assert_eq!(sizes, vec![1, 4, 8, 8, 16]);
    assert_eq!(alignments, vec![1, 4, 8, 8, 8]);
}

#[test]
fn validity_of_types() {
    assert!(TYPES.iter().all(|t| t.is_valid()));
    assert!(AsmType::ByteArray { size: 0, alignment: 1 }.is_valid());
    assert!(!AsmType::ByteArray { size: -1, alignment: 1 }.is_valid());
    assert!(!AsmType::ByteArray { size: 4, alignment: 0 }.is_valid());
}

#[test]
fn a_move_needs_a_type_with_a_mnemonic_and_a_place_to_write() {
    let reg = Operand::Reg(Register::RAX);
    let emittable: Vec<bool> = TYPES
        .iter()
        .map(|ty| Instruction::Mov { ty: *ty, src: Operand::Imm(1), dst: reg }.is_emittable())
        .collect();
    assert_eq!(emittable, vec![true, true, true, true, false]);
    assert!(!Instruction::Mov { ty: AsmType::Longword, src: reg, dst: Operand::Imm(1) }.is_emittable());
    assert!(Instruction::Mov { ty: AsmType::Longword, src: reg, dst: Operand::Mem(4) }.is_emittable());
}

#[test]
fn negation_and_complement_need_an_integer_type() {
    let slot = Operand::Mem(4);
    let neg: Vec<bool> =
        TYPES.iter().map(|ty| Instruction::Neg { ty: *ty, dst: slot }.is_emittable()).collect();
    let not: Vec<bool> =
        TYPES.iter().map(|ty| Instruction::Not { ty: *ty, dst: slot }.is_emittable()).collect();
    assert_eq!(neg, vec![true, true, true, false, false]);
    assert_eq!(not, vec![true, true, true, false, false]);
    assert!(!Instruction::Neg { ty: AsmType::Longword, dst: Operand::Imm(0) }.is_emittable());
    assert!(!Instruction::Not { ty: AsmType::Longword, dst: Operand::Imm(0) }.is_emittable());
    assert!(Instruction::Ret.is_emittable());
}

#[test]
fn a_program_is_emittable_when_all_its_instructions_are() {
    let good = TopLevel::Function {
        name: "f".to_string(),
        global: true,
        instructions: vec![Instruction::Ret],
    };
    let bad = TopLevel::Function {
        name: "g".to_string(),
        global: false,
        instructions: vec![
            Instruction::Ret,
            Instruction::Neg { ty: AsmType::Double, dst: Operand::Mem(8) },
        ],
    };
    assert!(good.is_emittable());
    assert!(!bad.is_emittable());
    assert!(Program(vec![]).is_emittable());
    assert!(Program(vec![good.clone(), good.clone()]).is_emittable());
    assert!(!Program(vec![good, bad]).is_emittable());
}
