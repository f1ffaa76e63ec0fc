//! The assembly model: what instruction selection produces and the emitter prints.
use vstd::prelude::*;

verus! {

#[derive(Debug, Clone, Copy, PartialEq, Eq, Structural)]
pub enum Register {
    RAX,
    RBX,
    RCX,
    RDX,
    RSI,
    RDI,
    RSP,
    RBP,
    EAX,
}

/// The size class of an operand.
#[derive(Debug, Clone, Copy, PartialEq, Eq, Structural)]
pub enum AsmType {
    /// 1 byte.
    Byte,
    /// 4 bytes.
    Longword,
    /// 8 bytes.
    Quadword,
    /// 8 bytes that hold a floating-point number.
    Double,
    /// `size` bytes, aligned to `alignment` bytes.
    ByteArray { size: i64, alignment: i64 },
}

/// An immediate, a register, or the stack slot at the given distance below the frame base.
#[derive(Debug, Clone, Copy, PartialEq, Eq, Structural)]
pub enum Operand {
    Imm(i64),
    Reg(Register),
    Mem(u64),
}

#[derive(Debug, Clone, Copy, PartialEq, Eq, Structural)]
pub enum Instruction {
    Mov { ty: AsmType, src: Operand, dst: Operand },
    Neg { ty: AsmType, dst: Operand },
    Not { ty: AsmType, dst: Operand },
    Ret,
}

#[derive(Debug, Clone, PartialEq)]
pub enum TopLevel {
    Function { name: String, global: bool, instructions: Vec<Instruction> },
}

/// An assembly program: its functions in the order of the output.
#[derive(Debug, Clone, PartialEq)]
pub struct Program(pub Vec<TopLevel>);

/// The mathematical value of a [`TopLevel`].
pub enum TopLevelView {
    Function { name: Seq<char>, global: bool, instructions: Seq<Instruction> },
}

impl View for TopLevel {
    type V = TopLevelView;

    open spec fn view(&self) -> TopLevelView {
        match self {
            TopLevel::Function { name, global, instructions } => TopLevelView::Function {
                name: name@,
                global: *global,
                instructions: instructions@,
            },
        }
    }
}

impl DeepView for TopLevel {
    type V = TopLevelView;

    open spec fn deep_view(&self) -> TopLevelView {
        self@
    }
}

impl View for Program {
    type V = Seq<TopLevelView>;

    open spec fn view(&self) -> Seq<TopLevelView> {
        self.0.deep_view()
    }
}

impl AsmType {
    /// A byte array is valid with a size that is not negative and an alignment
    /// of at least one byte; the other types always are.
    pub open spec fn valid(self) -> bool {
        match self {
            AsmType::ByteArray { size, alignment } => size >= 0 && alignment >= 1,
            _ => true,
        }
    }

    /// The number of bytes that a value of the type takes.
    pub open spec fn size(self) -> nat {
        match self {
            AsmType::Byte => 1,
            AsmType::Longword => 4,
            AsmType::Quadword => 8,
            AsmType::Double => 8,
            AsmType::ByteArray { size, alignment } => if size >= 0 {
                size as nat
            } else {
                0
            },
        }
    }

    /// The number of bytes of which the address of a value of the type is a multiple.
    pub open spec fn alignment(self) -> nat {
        match self {
            AsmType::Byte => 1,
            AsmType::Longword => 4,
            AsmType::Quadword => 8,
            AsmType::Double => 8,
            AsmType::ByteArray { size, alignment } => if alignment >= 1 {
                alignment as nat
            } else {
                1
            },
        }
    }

    pub fn is_valid(&self) -> (b: bool)
        ensures
            b == self.valid(),
    {
        match self {
            AsmType::ByteArray { size, alignment } => *size >= 0 && *alignment >= 1,
            _ => true,
        }
    }

    /// The number of bytes that a value of a valid type takes.
    pub fn byte_size(&self) -> (n: u64)
        requires
            self.valid(),
        ensures
            n == self.size(),
    {
        match self {
            AsmType::Byte => 1,
            AsmType::Longword => 4,
            AsmType::Quadword => 8,
            AsmType::Double => 8,
            AsmType::ByteArray { size, alignment } => *size as u64,
        }
    }

    /// The alignment of a valid type in bytes.
    pub fn byte_alignment(&self) -> (n: u64)
        requires
            self.valid(),
        ensures
            n == self.alignment(),
            n >= 1,
    {
        match self {
            AsmType::Byte => 1,
            AsmType::Longword => 4,
            AsmType::Quadword => 8,
            AsmType::Double => 8,
            AsmType::ByteArray { size, alignment } => *alignment as u64,
        }
    }

    /// Whether the type is an integer of 1, 4 or 8 bytes.
    pub open spec fn integer(self) -> bool {
        self is Byte || self is Longword || self is Quadword
    }
}

impl Instruction {
    /// Whether the instruction can be written as text: a move has a type other
    /// than a byte array, a negation or complement has an integer type, and no
    /// destination is an immediate.
    pub open spec fn emittable(self) -> bool {
        match self {
            Instruction::Mov { ty, src, dst } => !(ty is ByteArray) && !(dst is Imm),
            Instruction::Neg { ty, dst } => ty.integer() && !(dst is Imm),
            Instruction::Not { ty, dst } => ty.integer() && !(dst is Imm),
            Instruction::Ret => true,
        }
    }

    pub fn is_emittable(&self) -> (b: bool)
        ensures
            b == self.emittable(),
    {
        match self {
            Instruction::Mov { ty, src, dst } => !matches!(ty, AsmType::ByteArray { .. })
                && !matches!(dst, Operand::Imm(_)),
            Instruction::Neg { ty, dst } => matches!(
                ty,
                AsmType::Byte | AsmType::Longword | AsmType::Quadword
            ) && !matches!(dst, Operand::Imm(_)),
            Instruction::Not { ty, dst } => matches!(
                ty,
                AsmType::Byte | AsmType::Longword | AsmType::Quadword
            ) && !matches!(dst, Operand::Imm(_)),
            Instruction::Ret => true,
        }
    }
}

/// Whether every instruction of the sequence can be written as text.
pub open spec fn emittable_code(instructions: Seq<Instruction>) -> bool {
    forall|k: int| 0 <= k < instructions.len() ==> (#[trigger] instructions[k]).emittable()
}

impl TopLevelView {
    pub open spec fn emittable(self) -> bool {
        match self {
            TopLevelView::Function { name, global, instructions } => emittable_code(instructions),
        }
    }
}

/// Whether every instruction of the program can be written as text.
pub open spec fn emittable_program(program: Seq<TopLevelView>) -> bool {
    forall|k: int| 0 <= k < program.len() ==> (#[trigger] program[k]).emittable()
}

impl TopLevel {
    #[verifier::loop_isolation(false)]
    pub fn is_emittable(&self) -> (b: bool)
        ensures
            b == self@.emittable(),
    {
        match self {
            TopLevel::Function { name, global, instructions } => {
                let mut i: usize = 0;
                while i < instructions.len()
                    invariant
                        i <= instructions.len(),
                        forall|k: int| 0 <= k < i ==> (#[trigger] instructions@[k]).emittable(),
                    decreases instructions.len() - i,
                {
                    if !instructions[i].is_emittable() {
                        return false;
                    }
                    i = i + 1;
                }
                true
            },
        }
    }
}

impl Program {
    /// Whether every instruction of the program can be written as text.
    #[verifier::loop_isolation(false)]
    pub fn is_emittable(&self) -> (b: bool)
        ensures
            b == emittable_program(self@),
    {
        let mut i: usize = 0;
        while i < self.0.len()
            invariant
                i <= self.0.len(),
                forall|k: int| 0 <= k < i ==> (#[trigger] self@[k]).emittable(),
            decreases self.0.len() - i,
        {
            assert(self@[i as int] == self.0[i as int]@);
            if !self.0[i].is_emittable() {
                return false;
            }
            i = i + 1;
        }
        true
    }
}

} // verus!
