//! Instruction selection: the intermediate representation to the assembly model.
//!
//! Selection is defined by [`select_program`] and the functions it calls;
//! [`CodeGenerator::generate`] is proved to compute it. Each function is
//! selected on its own: its frame is laid out first, and every temporary is
//! then addressed through its slot.
use vstd::prelude::*;
use crate::assembly::{
    emittable_code, emittable_program, AsmType, Instruction, Operand, Program, Register, TopLevel,
    TopLevelView,
};
use crate::errors::{unsupported_in, CompilerError, CompilerErrorView};
use crate::frame::{
    frame_end, layout_body, layout_of, lemma_temporary_has_slot, offset_of, FrameLayout,
    SlotView,
};
use crate::ir;
use crate::ir::{FunctionView, InstructionView, Value, ValueView};
use crate::text::{decimal, push_decimal};

verus! {

/// The operand that holds a value: an immediate for a constant, the slot of a temporary.
pub open spec fn operand_of(v: ValueView, slots: Seq<SlotView>) -> Operand {
    match v {
        ValueView::Constant(c) => Operand::Imm(c as i64),
        ValueView::Var(name) => Operand::Mem(offset_of(slots, name)->0 as u64),
    }
}

/// The instructions for one instruction of the intermediate representation,
/// or `None` where a unary operation has a constant for its destination.
///
/// A `Return` moves the value into the accumulator and returns. A unary
/// operation moves its source into the slot of its destination and negates or
/// complements the slot in place.
pub open spec fn select_instruction(ins: InstructionView, slots: Seq<SlotView>) -> Option<
    Seq<Instruction>,
> {
    match ins {
        InstructionView::Return(v) => Some(
            seq![
                Instruction::Mov {
                    ty: AsmType::Longword,
                    src: operand_of(v, slots),
                    dst: Operand::Reg(Register::EAX),
                },
                Instruction::Ret,
            ],
        ),
        InstructionView::Unary { op, src, dst } => if dst is Var {
            let slot = operand_of(dst, slots);
            Some(
                seq![
                    Instruction::Mov {
                        ty: AsmType::Longword,
                        src: operand_of(src, slots),
                        dst: slot,
                    },
                    match op {
                        ir::UnaryOperator::Negate => Instruction::Neg {
                            ty: AsmType::Longword,
                            dst: slot,
                        },
                        ir::UnaryOperator::Complement => Instruction::Not {
                            ty: AsmType::Longword,
                            dst: slot,
                        },
                    },
                ],
            )
        } else {
            None
        },
    }
}

/// The instructions for a body from index `from` on, after the instructions
/// `done`; or the index of the first instruction that cannot be selected.
pub open spec fn select_body(
    body: Seq<InstructionView>,
    from: int,
    slots: Seq<SlotView>,
    done: Seq<Instruction>,
) -> Result<Seq<Instruction>, int>
    decreases body.len() - from,
{
    if from < 0 || from >= body.len() {
        Ok(done)
    } else {
        match select_instruction(body[from], slots) {
            Some(instructions) => select_body(body, from + 1, slots, done + instructions),
            None => Err(from),
        }
    }
}

pub open spec fn frame_too_large(function: Seq<char>) -> CompilerErrorView {
    unsupported_in(function, "frame too large"@)
}

pub open spec fn constant_destination(function: Seq<char>, index: nat) -> CompilerErrorView {
    unsupported_in(function, "instruction "@ + decimal(index) + " writes to a constant"@)
}

/// The assembly of one function. Every function is global, and one without a
/// body has no instructions.
pub open spec fn select_function(f: FunctionView) -> Result<TopLevelView, CompilerErrorView> {
    match f.body {
        None => Ok(
            TopLevelView::Function { name: f.identifier, global: true, instructions: Seq::empty() },
        ),
        Some(body) => {
            let slots = layout_of(body);
            if frame_end(slots) > u64::MAX {
                Err(frame_too_large(f.identifier))
            } else {
                match select_body(body, 0, slots, Seq::empty()) {
                    Ok(instructions) => Ok(
                        TopLevelView::Function { name: f.identifier, global: true, instructions },
                    ),
                    Err(index) => Err(constant_destination(f.identifier, index as nat)),
                }
            }
        },
    }
}

/// The assembly of the functions from index `from` on, in order, after the
/// functions `done`; or the diagnostic of the first function that cannot be selected.
pub open spec fn select_functions(
    functions: Seq<FunctionView>,
    from: int,
    done: Seq<TopLevelView>,
) -> Result<Seq<TopLevelView>, CompilerErrorView>
    decreases functions.len() - from,
{
    if from < 0 || from >= functions.len() {
        Ok(done)
    } else {
        match select_function(functions[from]) {
            Ok(top_level) => select_functions(functions, from + 1, done.push(top_level)),
            Err(error) => Err(error),
        }
    }
}

/// The assembly of a program: one function for each of its functions, in the same order.
pub open spec fn select_program(functions: Seq<FunctionView>) -> Result<
    Seq<TopLevelView>,
    CompilerErrorView,
> {
    select_functions(functions, 0, Seq::empty())
}

/// What is selected for one instruction can be written as text.
pub proof fn lemma_selected_is_emittable(ins: InstructionView, slots: Seq<SlotView>)
    ensures
        select_instruction(ins, slots) matches Some(instructions) ==> emittable_code(instructions),
{
}

/// Whether a function of the assembly carries the name of a function of the
/// program and is global.
pub open spec fn stands_for(top_level: TopLevelView, function: FunctionView) -> bool {
    match top_level {
        TopLevelView::Function { name, global, instructions } => name == function.identifier
            && global,
    }
}

/// Selection keeps the functions of a program: one function of the assembly
/// for each function of the program, in the same order, under the same name,
/// and global.
pub proof fn lemma_selection_keeps_functions(
    functions: Seq<FunctionView>,
    from: int,
    done: Seq<TopLevelView>,
)
    requires
        0 <= from <= functions.len(),
        done.len() == from,
        forall|k: int| 0 <= k < from ==> stands_for(#[trigger] done[k], functions[k]),
    ensures
        select_functions(functions, from, done) matches Ok(top_levels) ==> top_levels.len()
            == functions.len() && forall|k: int|
            0 <= k < functions.len() ==> stands_for(#[trigger] top_levels[k], functions[k]),
    decreases functions.len() - from,
{
    if from < functions.len() {
        if let Ok(top_level) = select_function(functions[from]) {
            lemma_selection_keeps_functions(functions, from + 1, done.push(top_level));
        }
    }
}

/// The assembly of a program has one global function for each function of
/// the program, in the same order and under the same name.
pub proof fn lemma_selection_keeps_order(functions: Seq<FunctionView>)
    ensures
        select_program(functions) matches Ok(top_levels) ==> top_levels.len() == functions.len()
            && forall|k: int|
            0 <= k < functions.len() ==> stands_for(#[trigger] top_levels[k], functions[k]),
{
    lemma_selection_keeps_functions(functions, 0, Seq::empty());
}

/// The instruction selector.
#[derive(Debug, Clone, Copy)]
pub struct CodeGenerator;

impl CodeGenerator {
    pub fn new() -> (generator: Self) {
        Self
    }

    /// Selects instructions for a program. What it gives can be written as text.
    #[verifier::loop_isolation(false)]
    pub fn generate(&mut self, program: &ir::Program) -> (r: Result<Program, CompilerError>)
        ensures
            match select_program(program@) {
                Ok(top_levels) => r matches Ok(p) && p@ == top_levels,
                Err(error) => r matches Err(e) && e@ == error,
            },
            r matches Ok(p) ==> emittable_program(p@),
    {
        let mut stmts: Vec<TopLevel> = Vec::new();
        assert(stmts.deep_view() =~= Seq::<TopLevelView>::empty());
        let mut i: usize = 0;
        while i < program.0.len()
            invariant
                i <= program.0.len(),
                select_functions(program@, i as int, stmts.deep_view()) == select_program(program@),
                emittable_program(stmts.deep_view()),
            decreases program.0.len() - i,
        {
            let ghost so_far = stmts.deep_view();
            match self.generate_function(&program.0[i]) {
                Ok(top_level) => {
                    stmts.push(top_level);
                    assert(stmts.deep_view() =~= so_far.push(top_level@));
                },
                Err(e) => {
                    return Err(e);
                },
            }
            i = i + 1;
        }
        Ok(Program(stmts))
    }

    /// Selects instructions for one function.
    #[verifier::loop_isolation(false)]
    pub fn generate_function(&mut self, func: &ir::Function) -> (r: Result<TopLevel, CompilerError>)
        ensures
            match select_function(func@) {
                Ok(top_level) => r matches Ok(t) && t@ == top_level,
                Err(error) => r matches Err(e) && e@ == error,
            },
            r matches Ok(t) ==> t@.emittable(),
    {
        let mut instructions: Vec<Instruction> = Vec::new();
        if let Some(body) = &func.body {
            let ghost code = body.deep_view();
            let layout = match layout_body(body) {
                Ok(layout) => layout,
                Err(e) => {
                    return Err(e.within(func.identifier.as_str()));
                },
            };
            let mut i: usize = 0;
            while i < body.len()
                invariant
                    i <= body.len(),
                    select_body(code, i as int, layout@, instructions@) == select_body(
                        code,
                        0,
                        layout@,
                        Seq::empty(),
                    ),
                    emittable_code(instructions@),
                decreases body.len() - i,
            {
                let ghost so_far = instructions@;
                proof {
                    lemma_selected_is_emittable(code[i as int], layout@);
                }
                match &body[i] {
                    ir::Instruction::Return(val) => {
                        proof {
                            if let ValueView::Var(name) = val@ {
                                lemma_temporary_has_slot(code, i as int, name);
                            }
                        }
                        let op = operand(val, &layout);
                        instructions.push(
                            Instruction::Mov {
                                ty: AsmType::Longword,
                                src: op,
                                dst: Operand::Reg(Register::EAX),
                            },
                        );
                        instructions.push(Instruction::Ret);
                    },
                    ir::Instruction::Unary { op, src, dst } => {
                        proof {
                            if let ValueView::Var(name) = src@ {
                                lemma_temporary_has_slot(code, i as int, name);
                            }
                            if let ValueView::Var(name) = dst@ {
                                lemma_temporary_has_slot(code, i as int, name);
                            }
                        }
                        let src_op = operand(src, &layout);
                        let dst_op = match dst {
                            Value::Var(_) => operand(dst, &layout),
                            Value::Constant(_) => {
                                let mut what = String::new();
                                what.append("instruction ");
                                push_decimal(&mut what, i as u64);
                                what.append(" writes to a constant");
                                return Err(
                                    CompilerError::unsupported(
                                        func.identifier.as_str(),
                                        what.as_str(),
                                    ),
                                );
                            },
                        };
                        instructions.push(
                            Instruction::Mov { ty: AsmType::Longword, src: src_op, dst: dst_op },
                        );
                        match op {
                            ir::UnaryOperator::Negate => {
                                instructions.push(
                                    Instruction::Neg { ty: AsmType::Longword, dst: dst_op },
                                );
                            },
                            ir::UnaryOperator::Complement => {
                                instructions.push(
                                    Instruction::Not { ty: AsmType::Longword, dst: dst_op },
                                );
                            },
                        }
                    },
                }
                assert(instructions@ =~= so_far + select_instruction(code[i as int], layout@)->0);
                i = i + 1;
            }
        }
        Ok(TopLevel::Function { name: func.identifier.clone(), global: true, instructions })
    }
}

/// The operand that holds a value whose temporary, if it is one, has a slot.
fn operand(value: &Value, layout: &FrameLayout) -> (op: Operand)
    requires
        value@ matches ValueView::Var(name) ==> offset_of(layout@, name) is Some,
    ensures
        op == operand_of(value@, layout@),
{
    match value {
        Value::Constant(c) => Operand::Imm(*c as i64),
        Value::Var(name) => match layout.lookup(name.as_str()) {
            Some(offset) => Operand::Mem(offset),
            None => vstd::pervasive::unreached(),
        },
    }
}

/// Selects instructions for a program with a selector of its own.
pub fn select(program: &ir::Program) -> (r: Result<Program, CompilerError>)
    ensures
        match select_program(program@) {
            Ok(top_levels) => r matches Ok(p) && p@ == top_levels,
            Err(error) => r matches Err(e) && e@ == error,
        },
        r matches Ok(p) ==> emittable_program(p@),
{
    let mut generator = CodeGenerator::new();
    generator.generate(program)
}

} // verus!
