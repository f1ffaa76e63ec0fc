//! What holds of every lowered body: each temporary is defined once, by the
//! unary operation that writes it, and read only after that; and no
//! operation writes to a constant, so that instructions can be selected for it.
use vstd::prelude::*;
use crate::assembly::Instruction;
use crate::ast::{
    BlockItemView, DeclarationView, ExpressionView, FunctionDeclarationView, StatementView,
};
use crate::codegen::{select_body, select_instruction};
use crate::frame::SlotView;
use crate::ir::{
    closed_body, lower_declarations, lower_expr, lower_function, lower_items, lower_program,
    lower_statement, temp_name, FunctionView, InstructionView, ValueView,
};
use crate::text::{decimal, lemma_decimal_injective};

verus! {

/// The temporary that an instruction defines.
pub open spec fn defines(ins: InstructionView) -> Option<Seq<char>> {
    match ins {
        InstructionView::Unary { op, src, dst: ValueView::Var(name) } => Some(name),
        _ => None,
    }
}

/// The temporary that an instruction reads.
pub open spec fn reads(ins: InstructionView) -> Option<Seq<char>> {
    match ins {
        InstructionView::Return(ValueView::Var(name)) => Some(name),
        InstructionView::Unary { op, src: ValueView::Var(name), dst } => Some(name),
        _ => None,
    }
}

/// The temporaries that the instructions of `code` define, in order.
pub open spec fn definitions(code: Seq<InstructionView>) -> Seq<Seq<char>>
    decreases code.len(),
{
    if code.len() == 0 {
        Seq::empty()
    } else {
        match defines(code.last()) {
            Some(name) => definitions(code.drop_last()).push(name),
            None => definitions(code.drop_last()),
        }
    }
}

/// The names of the temporaries with the numbers from `from` up to, not including, `to`.
pub open spec fn temp_names(from: nat, to: nat) -> Seq<Seq<char>> {
    Seq::new((to - from) as nat, |k: int| temp_name((from + k) as nat))
}

/// Every temporary that an instruction reads is defined by an instruction before it.
pub open spec fn defined_before_use(code: Seq<InstructionView>) -> bool {
    forall|k: int|
        0 <= k < code.len() ==> (reads(#[trigger] code[k]) matches Some(name) ==> definitions(
            code.take(k),
        ).contains(name))
}

/// A value is a constant or a temporary that `code` defines.
pub open spec fn available(v: ValueView, code: Seq<InstructionView>) -> bool {
    v matches ValueView::Var(name) ==> definitions(code).contains(name)
}

/// Temporaries with different numbers have different names.
pub proof fn lemma_temp_name_injective(a: nat, b: nat)
    requires
        temp_name(a) == temp_name(b),
    ensures
        a == b,
{
    let prefix = "tmp."@;
    assert((prefix + decimal(a)).subrange(prefix.len() as int, (prefix + decimal(a)).len() as int)
        == decimal(a));
    assert((prefix + decimal(b)).subrange(prefix.len() as int, (prefix + decimal(b)).len() as int)
        == decimal(b));
    lemma_decimal_injective(a, b);
}

/// No name occurs twice among the names of consecutive temporaries.
pub proof fn lemma_temp_names_distinct(from: nat, to: nat)
    ensures
        temp_names(from, to).no_duplicates(),
{
    let names = temp_names(from, to);
    assert forall|i: int, j: int|
        0 <= i < names.len() && 0 <= j < names.len() && i != j implies names[i] != names[j] by {
        if names[i] == names[j] {
            lemma_temp_name_injective((from + i) as nat, (from + j) as nat);
        }
    }
}

pub proof fn lemma_temp_names_join(from: nat, mid: nat, to: nat)
    requires
        from <= mid <= to,
    ensures
        temp_names(from, mid) + temp_names(mid, to) == temp_names(from, to),
{
}

/// The definitions of two stretches of code, one after the other, are those
/// of the first and then those of the second.
pub proof fn lemma_definitions_concat(a: Seq<InstructionView>, b: Seq<InstructionView>)
    ensures
        definitions(a + b) == definitions(a) + definitions(b),
    decreases b.len(),
{
    if b.len() > 0 {
        assert((a + b).drop_last() == a + b.drop_last());
        lemma_definitions_concat(a, b.drop_last());
        match defines(b.last()) {
            Some(name) => {
                assert((definitions(a) + definitions(b.drop_last())).push(name) == definitions(a)
                    + definitions(b.drop_last()).push(name));
            },
            None => {},
        }
    }
}

pub proof fn lemma_definitions_push(code: Seq<InstructionView>, ins: InstructionView)
    ensures
        definitions(code.push(ins)) == match defines(ins) {
            Some(name) => definitions(code).push(name),
            None => definitions(code),
        },
{
    assert(code.push(ins).drop_last() == code);
}

/// Code in which every read follows its definition stays so when code follows
/// it that reads only what the two define before.
pub proof fn lemma_defined_before_use_concat(a: Seq<InstructionView>, b: Seq<InstructionView>)
    requires
        defined_before_use(a),
        forall|k: int|
            0 <= k < b.len() ==> (reads(#[trigger] b[k]) matches Some(name) ==> (definitions(a)
                + definitions(b.take(k))).contains(name)),
    ensures
        defined_before_use(a + b),
{
    let all = a + b;
    assert forall|k: int| 0 <= k < all.len() implies (reads(#[trigger] all[k]) matches Some(
        name,
    ) ==> definitions(all.take(k)).contains(name)) by {
        if k < a.len() {
            assert(all.take(k) == a.take(k));
        } else {
            let m = k - a.len();
            assert(all.take(k) == a + b.take(m));
            lemma_definitions_concat(a, b.take(m));
        }
    }
}

/// A name that is among the definitions of some code is among those of the
/// code with more code before or after it.
pub proof fn lemma_definitions_grow(
    a: Seq<InstructionView>,
    b: Seq<InstructionView>,
    name: Seq<char>,
)
    ensures
        definitions(a).contains(name) ==> definitions(a + b).contains(name),
        definitions(b).contains(name) ==> definitions(a + b).contains(name),
{
    lemma_definitions_concat(a, b);
    let da = definitions(a);
    let db = definitions(b);
    if da.contains(name) {
        let i = choose|i: int| 0 <= i < da.len() && da[i] == name;
        assert((da + db)[i] == name);
    }
    if db.contains(name) {
        let i = choose|i: int| 0 <= i < db.len() && db[i] == name;
        assert((da + db)[da.len() + i] == name);
    }
}

/// The code of an expression defines the temporaries from the number it
/// started with up to the number it ended with, in order; it reads only what
/// it has defined; and its value is a constant or one of those temporaries.
pub proof fn lemma_lower_expr(e: ExpressionView, n: nat)
    ensures
        n <= lower_expr(e, n).next,
        definitions(lower_expr(e, n).code) == temp_names(n, lower_expr(e, n).next),
        defined_before_use(lower_expr(e, n).code),
        lower_expr(e, n).value matches Ok(v) ==> available(v, lower_expr(e, n).code),
    decreases e,
{
    let l = lower_expr(e, n);
    match e {
        ExpressionView::Unary { operator, expr } => {
            let operand = lower_expr(*expr, n);
            lemma_lower_expr(*expr, n);
            match operand.value {
                Err(_) => {},
                Ok(src) => {
                    if operand.next < u64::MAX {
                        let name = temp_name(operand.next);
                        let ins = l.code.last();
                        lemma_definitions_push(operand.code, ins);
                        assert(temp_names(n, operand.next).push(name) =~= temp_names(
                            n,
                            (operand.next + 1) as nat,
                        ));
                        assert(definitions(l.code).last() == name);
                        let tail = seq![ins];
                        assert(operand.code.push(ins) == operand.code + tail);
                        assert forall|k: int| 0 <= k < tail.len() implies (reads(
                            #[trigger] tail[k],
                        ) matches Some(read) ==> (definitions(operand.code) + definitions(
                            tail.take(k),
                        )).contains(read)) by {
                            assert(definitions(operand.code) + definitions(tail.take(0))
                                == definitions(operand.code));
                        }
                        lemma_defined_before_use_concat(operand.code, tail);
                    }
                },
            }
        },
        ExpressionView::Grouping(inner) => {
            lemma_lower_expr(*inner, n);
        },
        _ => {},
    }
}

/// After code in which every read follows its definition, the code of a
/// statement defines the temporaries from the number it started with up to
/// the number it ended with, and every read still follows its definition.
pub proof fn lemma_lower_statement(s: StatementView, n: nat, done: Seq<InstructionView>)
    requires
        defined_before_use(done),
    ensures
        n <= lower_statement(s, n, done).next,
        definitions(lower_statement(s, n, done).code) == definitions(done) + temp_names(
            n,
            lower_statement(s, n, done).next,
        ),
        defined_before_use(lower_statement(s, n, done).code),
{
    match s {
        StatementView::ReturnStatement(Some(e)) => {
            let x = lower_expr(e, n);
            lemma_lower_expr(e, n);
            lemma_definitions_concat(done, x.code);
            assert forall|k: int| 0 <= k < x.code.len() implies (reads(
                #[trigger] x.code[k],
            ) matches Some(name) ==> (definitions(done) + definitions(x.code.take(k))).contains(
                name,
            )) by {
                if let Some(name) = reads(x.code[k]) {
                    lemma_definitions_grow(done, x.code.take(k), name);
                    lemma_definitions_concat(done, x.code.take(k));
                }
            }
            lemma_defined_before_use_concat(done, x.code);
            match x.value {
                Ok(v) => {
                    let ins = InstructionView::Return(v);
                    let tail = seq![ins];
                    lemma_definitions_push(done + x.code, ins);
                    assert((done + x.code).push(ins) == (done + x.code) + tail);
                    assert forall|k: int| 0 <= k < tail.len() implies (reads(
                        #[trigger] tail[k],
                    ) matches Some(name) ==> (definitions(done + x.code) + definitions(
                        tail.take(k),
                    )).contains(name)) by {
                        assert(definitions(done + x.code) + definitions(tail.take(0))
                            == definitions(done + x.code));
                        if let Some(name) = reads(tail[k]) {
                            lemma_definitions_grow(done, x.code, name);
                        }
                    }
                    lemma_defined_before_use_concat(done + x.code, tail);
                },
                Err(_) => {},
            }
        },
        StatementView::ReturnStatement(None) => {
            lemma_return_of_a_constant(done, 0);
        },
    }
}

/// A `Return` of a constant after code defines and reads nothing more.
pub proof fn lemma_return_of_a_constant(code: Seq<InstructionView>, c: i32)
    requires
        defined_before_use(code),
    ensures
        definitions(code.push(InstructionView::Return(ValueView::Constant(c)))) == definitions(
            code,
        ),
        defined_before_use(code.push(InstructionView::Return(ValueView::Constant(c)))),
{
    let ins = InstructionView::Return(ValueView::Constant(c));
    let tail = seq![ins];
    lemma_definitions_push(code, ins);
    assert(code.push(ins) == code + tail);
    lemma_defined_before_use_concat(code, tail);
}

/// The same, for the items of a block from index `from` on.
pub proof fn lemma_lower_items(
    items: Seq<BlockItemView>,
    from: int,
    n: nat,
    done: Seq<InstructionView>,
)
    requires
        defined_before_use(done),
    ensures
        n <= lower_items(items, from, n, done).next,
        definitions(lower_items(items, from, n, done).code) == definitions(done) + temp_names(
            n,
            lower_items(items, from, n, done).next,
        ),
        defined_before_use(lower_items(items, from, n, done).code),
    decreases items.len() - from,
{
    if 0 <= from < items.len() {
        if let BlockItemView::Stmt(s) = items[from] {
            let first = lower_statement(s, n, done);
            lemma_lower_statement(s, n, done);
            if first.failure is None {
                let last = lower_items(items, from + 1, first.next, first.code);
                lemma_lower_items(items, from + 1, first.next, first.code);
                lemma_temp_names_join(n, first.next, last.next);
                assert((definitions(done) + temp_names(n, first.next)) + temp_names(
                    first.next,
                    last.next,
                ) == definitions(done) + (temp_names(n, first.next) + temp_names(
                    first.next,
                    last.next,
                )));
            }
        }
    }
}

/// In the body of a lowered function every temporary is defined once: the
/// temporaries that the body defines are those with the numbers from the one
/// the pass started with up to the one it ended with, in order, and no two of
/// them have the same name. Every temporary that an instruction reads is
/// defined by an instruction before it.
pub proof fn lemma_single_definition(f: FunctionDeclarationView, n: nat)
    ensures
        lower_function(f, n).function matches Ok(function) ==> (function.body matches Some(code)
            ==> definitions(code) == temp_names(n, lower_function(f, n).next) && definitions(
            code,
        ).no_duplicates() && defined_before_use(code)),
{
    if let Some(items) = f.body {
        let empty = Seq::<InstructionView>::empty();
        let l = lower_items(items, 0, n, empty);
        lemma_lower_items(items, 0, n, empty);
        lemma_temp_names_distinct(n, l.next);
        if l.failure is None {
            if closed_body(l.code) != l.code {
                lemma_return_of_a_constant(l.code, 0);
            }
        }
    }
}

/// The temporaries that the bodies of the functions define, in order.
pub open spec fn program_definitions(functions: Seq<FunctionView>) -> Seq<Seq<char>>
    decreases functions.len(),
{
    if functions.len() == 0 {
        Seq::empty()
    } else {
        program_definitions(functions.drop_last()) + match functions.last().body {
            Some(code) => definitions(code),
            None => Seq::empty(),
        }
    }
}

pub proof fn lemma_lower_declarations(
    decls: Seq<DeclarationView>,
    from: int,
    n: nat,
    done: Seq<FunctionView>,
)
    ensures
        n <= lower_declarations(decls, from, n, done).next,
        lower_declarations(decls, from, n, done).program matches Ok(functions)
            ==> program_definitions(functions) == program_definitions(done) + temp_names(
            n,
            lower_declarations(decls, from, n, done).next,
        ),
    decreases decls.len() - from,
{
    if 0 <= from < decls.len() {
        match decls[from] {
            DeclarationView::FunDecl(f) => {
                if f.body is Some {
                    let l = lower_function(f, n);
                    lemma_single_definition(f, n);
                    lemma_lower_items(f.body->0, 0, n, Seq::empty());
                    if let Ok(function) = l.function {
                        let more = done.push(function);
                        let last = lower_declarations(decls, from + 1, l.next, more);
                        lemma_lower_declarations(decls, from + 1, l.next, more);
                        assert(more.drop_last() == done);
                        lemma_temp_names_join(n, l.next, last.next);
                        assert((program_definitions(done) + temp_names(n, l.next)) + temp_names(
                            l.next,
                            last.next,
                        ) == program_definitions(done) + (temp_names(n, l.next) + temp_names(
                            l.next,
                            last.next,
                        )));
                    }
                } else {
                    lemma_lower_declarations(decls, from + 1, n, done);
                }
            },
            _ => {
                lemma_lower_declarations(decls, from + 1, n, done);
            },
        }
    }
}

/// Through a whole lowered program every temporary is defined once: the
/// temporaries that the bodies define are those with the numbers from the one
/// the pass started with up to the one it ended with, in the order of the
/// program, and no two of them have the same name.
pub proof fn lemma_single_definition_in_program(decls: Seq<DeclarationView>, n: nat)
    ensures
        lower_program(decls, n).program matches Ok(functions) ==> program_definitions(functions)
            == temp_names(n, lower_program(decls, n).next) && program_definitions(
            functions,
        ).no_duplicates(),
{
    let empty = Seq::<FunctionView>::empty();
    lemma_lower_declarations(decls, 0, n, empty);
    let next = lower_program(decls, n).next;
    lemma_temp_names_distinct(n, next);
}

/// Whether every unary operation of `code` writes to a temporary.
pub open spec fn writes_temporaries(code: Seq<InstructionView>) -> bool {
    forall|k: int|
        0 <= k < code.len() ==> ((#[trigger] code[k]) matches InstructionView::Unary {
            op,
            src,
            dst,
        } ==> dst is Var)
}

pub proof fn lemma_expr_writes_temporaries(e: ExpressionView, n: nat)
    ensures
        writes_temporaries(lower_expr(e, n).code),
    decreases e,
{
    match e {
        ExpressionView::Unary { operator, expr } => {
            lemma_expr_writes_temporaries(*expr, n);
        },
        ExpressionView::Grouping(inner) => {
            lemma_expr_writes_temporaries(*inner, n);
        },
        _ => {},
    }
}

pub proof fn lemma_items_write_temporaries(
    items: Seq<BlockItemView>,
    from: int,
    n: nat,
    done: Seq<InstructionView>,
)
    requires
        writes_temporaries(done),
    ensures
        writes_temporaries(lower_items(items, from, n, done).code),
    decreases items.len() - from,
{
    if 0 <= from < items.len() {
        if let BlockItemView::Stmt(s) = items[from] {
            let first = lower_statement(s, n, done);
            if let StatementView::ReturnStatement(Some(e)) = s {
                lemma_expr_writes_temporaries(e, n);
            }
            if first.failure is None {
                lemma_items_write_temporaries(items, from + 1, first.next, first.code);
            }
        }
    }
}

/// Instructions can be selected for code in which every unary operation
/// writes to a temporary.
pub proof fn lemma_selectable(
    body: Seq<InstructionView>,
    from: int,
    slots: Seq<SlotView>,
    done: Seq<Instruction>,
)
    requires
        writes_temporaries(body),
    ensures
        select_body(body, from, slots, done) is Ok,
    decreases body.len() - from,
{
    if 0 <= from < body.len() {
        let selected = select_instruction(body[from], slots);
        assert(selected is Some);
        lemma_selectable(body, from + 1, slots, done + selected->0);
    }
}

/// Instructions can be selected for the body of every lowered function: no
/// operation in it writes to a constant.
pub proof fn lemma_lowered_body_is_selectable(
    f: FunctionDeclarationView,
    n: nat,
    slots: Seq<SlotView>,
)
    ensures
        lower_function(f, n).function matches Ok(function) ==> (function.body matches Some(code)
            ==> writes_temporaries(code) && select_body(code, 0, slots, Seq::empty()) is Ok),
{
    if let Some(items) = f.body {
        let l = lower_items(items, 0, n, Seq::empty());
        lemma_items_write_temporaries(items, 0, n, Seq::empty());
        if l.failure is None {
            lemma_selectable(closed_body(l.code), 0, slots, Seq::empty());
        }
    }
}

} // verus!
