//! The emitter: the assembly model to text in AT&T syntax.
//!
//! The text of a program is defined by [`program_text`]; [`CodeEmitter::emit`]
//! is proved to build exactly that text.
use vstd::prelude::*;
use crate::assembly::{
    emittable_code, emittable_program, AsmType, Instruction, Operand, Program, Register, TopLevel,
    TopLevelView,
};
use crate::text::{decimal, push_decimal, push_signed_decimal, signed_decimal};

verus! {

/// A register as an operand: a percent sign and its name in lower case.
pub open spec fn register_text(r: Register) -> Seq<char> {
    match r {
        Register::RAX => "%rax"@,
        Register::RBX => "%rbx"@,
        Register::RCX => "%rcx"@,
        Register::RDX => "%rdx"@,
        Register::RSI => "%rsi"@,
        Register::RDI => "%rdi"@,
        Register::RSP => "%rsp"@,
        Register::RBP => "%rbp"@,
        Register::EAX => "%eax"@,
    }
}

/// An operand: `$` and the decimal value of an immediate, a register, or a
/// slot as its offset below the base pointer.
pub open spec fn operand_text(op: Operand) -> Seq<char> {
    match op {
        Operand::Imm(v) => "$"@ + signed_decimal(v as int),
        Operand::Reg(r) => register_text(r),
        Operand::Mem(offset) => "-"@ + decimal(offset as nat) + "(%rbp)"@,
    }
}

/// The mnemonic of a move of the given type; a byte array has none.
pub open spec fn mov_mnemonic(ty: AsmType) -> Seq<char> {
    match ty {
        AsmType::Byte => "movb"@,
        AsmType::Longword => "movl"@,
        AsmType::Quadword => "movq"@,
        AsmType::Double => "movsd"@,
        AsmType::ByteArray { .. } => ""@,
    }
}

/// The mnemonic of a negation of the given type; only the integer types have one.
pub open spec fn neg_mnemonic(ty: AsmType) -> Seq<char> {
    match ty {
        AsmType::Byte => "negb"@,
        AsmType::Longword => "negl"@,
        AsmType::Quadword => "negq"@,
        _ => ""@,
    }
}

/// The mnemonic of a complement of the given type; only the integer types have one.
pub open spec fn not_mnemonic(ty: AsmType) -> Seq<char> {
    match ty {
        AsmType::Byte => "notb"@,
        AsmType::Longword => "notl"@,
        AsmType::Quadword => "notq"@,
        _ => ""@,
    }
}

/// An instruction: its mnemonic and its operands, the source before the destination.
pub open spec fn instruction_text(instr: Instruction) -> Seq<char> {
    match instr {
        Instruction::Mov { ty, src, dst } => mov_mnemonic(ty) + " "@ + operand_text(src) + ", "@
            + operand_text(dst),
        Instruction::Neg { ty, dst } => neg_mnemonic(ty) + " "@ + operand_text(dst),
        Instruction::Not { ty, dst } => not_mnemonic(ty) + " "@ + operand_text(dst),
        Instruction::Ret => "ret"@,
    }
}

/// The instructions of a function: one line each, indented by four spaces.
pub open spec fn instructions_text(instructions: Seq<Instruction>) -> Seq<char>
    decreases instructions.len(),
{
    if instructions.len() == 0 {
        Seq::empty()
    } else {
        instructions_text(instructions.drop_last()) + "    "@ + instruction_text(
            instructions.last(),
        ) + "\n"@
    }
}

/// A function: the `.globl` directive if it is global, its label, its instructions.
pub open spec fn function_text(
    name: Seq<char>,
    global: bool,
    instructions: Seq<Instruction>,
) -> Seq<char> {
    let directive = if global {
        ".globl "@ + name + "\n"@
    } else {
        Seq::empty()
    };
    directive + name + ":\n"@ + instructions_text(instructions)
}

pub open spec fn top_level_text(top_level: TopLevelView) -> Seq<char> {
    match top_level {
        TopLevelView::Function { name, global, instructions } => function_text(
            name,
            global,
            instructions,
        ),
    }
}

/// The functions of a program, one after the other.
pub open spec fn top_levels_text(program: Seq<TopLevelView>) -> Seq<char>
    decreases program.len(),
{
    if program.len() == 0 {
        Seq::empty()
    } else {
        top_levels_text(program.drop_last()) + top_level_text(program.last())
    }
}

/// The section that marks the stack as not executable, after an empty line.
pub open spec fn stack_note() -> Seq<char> {
    "\n"@ + ".section .note.GNU-stack,\"\",@progbits"@ + "\n"@
}

/// The text of a program: its functions in order, then the stack note, once.
pub open spec fn program_text(program: Seq<TopLevelView>) -> Seq<char> {
    top_levels_text(program) + stack_note()
}

/// The text of a program depends on nothing but the program: emitting a
/// program again, or emitting another program of the same value, gives the
/// same text, character for character.
pub proof fn lemma_emission_is_repeatable(first: Program, second: Program, a: String, b: String)
    requires
        first@ == second@,
        a@ == program_text(first@),
        b@ == program_text(second@),
    ensures
        a@ == b@,
{
}

/// The emitter. It keeps no state between calls.
#[derive(Debug, Clone, Copy)]
pub struct CodeEmitter;

impl CodeEmitter {
    pub fn new() -> (emitter: Self) {
        Self
    }

    /// The text of a program of which every instruction can be written.
    pub fn emit(&mut self, program: &Program) -> (output: String)
        requires
            emittable_program(program@),
        ensures
            output@ == program_text(program@),
    {
        let mut output = String::new();
        let mut i: usize = 0;
        while i < program.0.len()
            invariant
                i <= program.0.len(),
                emittable_program(program@),
                output@ == top_levels_text(program@.take(i as int)),
            decreases program.0.len() - i,
        {
            assert(program@[i as int].emittable());
            let result = match &program.0[i] {
                TopLevel::Function { name, global, instructions } => self.emit_function(
                    name.as_str(),
                    *global,
                    instructions,
                ),
            };
            output.append(result.as_str());
            proof {
                let longer = program@.take(i + 1);
                assert(longer.drop_last() =~= program@.take(i as int));
            }
            i = i + 1;
        }
        assert(program@.take(i as int) =~= program@);
        output.append("\n");
        output.append(".section .note.GNU-stack,\"\",@progbits");
        output.append("\n");
        output
    }

    /// The text of one function.
    pub fn emit_function(
        &mut self,
        name: &str,
        global: bool,
        instructions: &Vec<Instruction>,
    ) -> (output: String)
        requires
            emittable_code(instructions@),
        ensures
            output@ == function_text(name@, global, instructions@),
    {
        let mut output = String::new();
        if global {
            output.append(".globl ");
            output.append(name);
            output.append("\n");
        }
        output.append(name);
        output.append(":\n");
        let ghost head = output@;
        let mut i: usize = 0;
        while i < instructions.len()
            invariant
                i <= instructions.len(),
                emittable_code(instructions@),
                output@ == head + instructions_text(instructions@.take(i as int)),
            decreases instructions.len() - i,
        {
            let instr_str = self.emit_instruction(&instructions[i]);
            output.append("    ");
            output.append(instr_str.as_str());
            output.append("\n");
            proof {
                let longer = instructions@.take(i + 1);
                assert(longer.drop_last() =~= instructions@.take(i as int));
            }
            i = i + 1;
        }
        assert(instructions@.take(i as int) =~= instructions@);
        output
    }

    /// The text of one instruction that can be written.
    pub fn emit_instruction(&mut self, instr: &Instruction) -> (output: String)
        requires
            instr.emittable(),
        ensures
            output@ == instruction_text(*instr),
    {
        let mut output = String::new();
        match instr {
            Instruction::Mov { ty, src, dst } => {
                let mnemonic = match ty {
                    AsmType::Byte => "movb",
                    AsmType::Longword => "movl",
                    AsmType::Quadword => "movq",
                    AsmType::Double => "movsd",
                    AsmType::ByteArray { .. } => "",
                };
                output.append(mnemonic);
                output.append(" ");
                push_operand(&mut output, src);
                output.append(", ");
                push_operand(&mut output, dst);
            },
            Instruction::Neg { ty, dst } => {
                let mnemonic = match ty {
                    AsmType::Byte => "negb",
                    AsmType::Longword => "negl",
                    AsmType::Quadword => "negq",
                    _ => "",
                };
                output.append(mnemonic);
                output.append(" ");
                push_operand(&mut output, dst);
            },
            Instruction::Not { ty, dst } => {
                let mnemonic = match ty {
                    AsmType::Byte => "notb",
                    AsmType::Longword => "notl",
                    AsmType::Quadword => "notq",
                    _ => "",
                };
                output.append(mnemonic);
                output.append(" ");
                push_operand(&mut output, dst);
            },
            Instruction::Ret => {
                output.append("ret");
            },
        }
        output
    }
}

/// Appends the text of an operand to `out`.
pub fn push_operand(out: &mut String, op: &Operand)
    ensures
        final(out)@ == old(out)@ + operand_text(*op),
{
    match op {
        Operand::Imm(val) => {
            out.append("$");
            push_signed_decimal(out, *val);
        },
        Operand::Reg(r) => {
            let name = match r {
                Register::RAX => "%rax",
                Register::RBX => "%rbx",
                Register::RCX => "%rcx",
                Register::RDX => "%rdx",
                Register::RSI => "%rsi",
                Register::RDI => "%rdi",
                Register::RSP => "%rsp",
                Register::RBP => "%rbp",
                Register::EAX => "%eax",
            };
            out.append(name);
        },
        Operand::Mem(offset) => {
            out.append("-");
            push_decimal(out, *offset);
            out.append("(%rbp)");
        },
    }
}

/// The text of a program of which every instruction can be written, from an
/// emitter of its own.
pub fn emit(program: &Program) -> (output: String)
    requires
        emittable_program(program@),
    ensures
        output@ == program_text(program@),
{
    let mut emitter = CodeEmitter::new();
    emitter.emit(program)
}

} // verus!
