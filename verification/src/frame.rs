//! Frame layout: a stack slot for each temporary of a function.
//!
//! Slots are handed out in the order in which the temporaries first appear.
//! A slot's offset is its distance below the frame base: each new slot lies
//! below all earlier ones, at the nearest offset that its type's alignment
//! allows, and the offset of the last slot is the size of the frame.
use vstd::prelude::*;
use vstd::arithmetic::div_mod::{lemma_fundamental_div_mod, lemma_mod_multiples_basic};
use crate::assembly::AsmType;
use crate::errors::{CompilerError, CompilerErrorView};
use crate::ir::{Instruction, InstructionView, Value, ValueView};
use crate::text::str_equal;

verus! {

/// The stack slot of one temporary.
#[derive(Debug, Clone, PartialEq)]
pub struct Slot {
    pub name: String,
    pub ty: AsmType,
    pub offset: u64,
}

/// The mathematical value of a [`Slot`].
pub struct SlotView {
    pub name: Seq<char>,
    pub ty: AsmType,
    pub offset: nat,
}

impl View for Slot {
    type V = SlotView;

    open spec fn view(&self) -> SlotView {
        SlotView { name: self.name@, ty: self.ty, offset: self.offset as nat }
    }
}

impl DeepView for Slot {
    type V = SlotView;

    open spec fn deep_view(&self) -> SlotView {
        self@
    }
}

/// The least multiple of `a` that is not less than `x`.
pub open spec fn round_up(x: nat, a: nat) -> nat {
    if a == 0 || x % a == 0 {
        x
    } else {
        (x + a - x % a) as nat
    }
}

pub proof fn lemma_round_up(x: nat, a: nat)
    requires
        a > 0,
    ensures
        round_up(x, a) % a == 0,
        x <= round_up(x, a) < x + a,
{
    if x % a != 0 {
        lemma_fundamental_div_mod(x as int, a as int);
        let q = x as int / a as int;
        assert(x + a - x % a == (q + 1) * a) by (nonlinear_arith)
            requires
                x == a * q + x % a,
        ;
        lemma_mod_multiples_basic(q + 1, a as int);
    }
}

/// The size of the frame that holds the slots: the offset of the last one.
pub open spec fn frame_end(slots: Seq<SlotView>) -> nat {
    if slots.len() == 0 {
        0
    } else {
        slots.last().offset
    }
}

/// The offset of a new slot of type `ty` below a frame of size `end`.
pub open spec fn slot_offset(end: nat, ty: AsmType) -> nat {
    round_up(end + ty.size(), ty.alignment())
}

/// The offset of the first slot with the given name.
pub open spec fn offset_of(slots: Seq<SlotView>, name: Seq<char>) -> Option<nat>
    decreases slots.len(),
{
    if slots.len() == 0 {
        None
    } else if slots[0].name == name {
        Some(slots[0].offset)
    } else {
        offset_of(slots.drop_first(), name)
    }
}

/// The layout after a request for a slot of type `ty` for `name`: a name that
/// has a slot keeps it, and a type that is not valid gets none.
pub open spec fn place(slots: Seq<SlotView>, name: Seq<char>, ty: AsmType) -> Seq<SlotView> {
    if offset_of(slots, name) is Some || !ty.valid() {
        slots
    } else {
        slots.push(SlotView { name, ty, offset: slot_offset(frame_end(slots), ty) })
    }
}

/// The size of the frame before slot `k` was added.
pub open spec fn end_before(slots: Seq<SlotView>, k: int) -> nat {
    if k <= 0 {
        0
    } else {
        slots[k - 1].offset
    }
}

/// Slot `k` has a valid type, an offset that its alignment divides, and lies
/// wholly below the slots before it.
pub open spec fn slot_ok(slots: Seq<SlotView>, k: int) -> bool {
    &&& slots[k].ty.valid()
    &&& slots[k].offset % slots[k].ty.alignment() == 0
    &&& slots[k].offset >= end_before(slots, k) + slots[k].ty.size()
}

/// No two slots have the same name, and each slot is in order.
pub open spec fn well_formed(slots: Seq<SlotView>) -> bool {
    &&& forall|i: int, j: int| 0 <= i < j < slots.len() ==> slots[i].name != slots[j].name
    &&& forall|k: int| 0 <= k < slots.len() ==> #[trigger] slot_ok(slots, k)
}

/// The sum of the sizes of the slots.
pub open spec fn total_size(slots: Seq<SlotView>) -> nat
    decreases slots.len(),
{
    if slots.len() == 0 {
        0
    } else {
        total_size(slots.drop_last()) + slots.last().ty.size()
    }
}

/// The names of the slots, in order.
pub open spec fn slot_names(slots: Seq<SlotView>) -> Seq<Seq<char>> {
    slots.map_values(|s: SlotView| s.name)
}

/// A name has a slot exactly when some slot carries it, and its offset is that
/// of the first such slot.
pub proof fn lemma_offset_of(slots: Seq<SlotView>, name: Seq<char>)
    ensures
        offset_of(slots, name) is None <==> forall|k: int|
            0 <= k < slots.len() ==> (#[trigger] slots[k]).name != name,
        offset_of(slots, name) matches Some(o) ==> exists|k: int|
            0 <= k < slots.len() && (#[trigger] slots[k]).name == name && slots[k].offset == o && (
            forall|m: int| 0 <= m < k ==> (#[trigger] slots[m]).name != name),
    decreases slots.len(),
{
    if slots.len() > 0 && slots[0].name != name {
        let rest = slots.drop_first();
        lemma_offset_of(rest, name);
        assert forall|k: int| 0 <= k < rest.len() implies rest[k] == slots[k + 1] by {}
        if offset_of(rest, name) is None {
            assert forall|k: int| 0 <= k < slots.len() implies (#[trigger] slots[k]).name
                != name by {
                if k > 0 {
                    assert(rest[k - 1] == slots[k]);
                }
            }
        } else {
            let o = offset_of(rest, name)->0;
            let k = choose|k: int|
                0 <= k < rest.len() && (#[trigger] rest[k]).name == name && rest[k].offset == o && (
                forall|m: int| 0 <= m < k ==> (#[trigger] rest[m]).name != name);
            assert forall|m: int| 0 <= m < k + 1 implies (#[trigger] slots[m]).name != name by {
                if m > 0 {
                    assert(rest[m - 1] == slots[m]);
                }
            }
        }
    }
}

/// The slot at index `i` is the one that `offset_of` finds for its name, where
/// no earlier slot has that name.
pub proof fn lemma_offset_of_index(slots: Seq<SlotView>, i: int)
    requires
        0 <= i < slots.len(),
        forall|m: int| 0 <= m < i ==> (#[trigger] slots[m]).name != slots[i].name,
    ensures
        offset_of(slots, slots[i].name) == Some(slots[i].offset),
    decreases i,
{
    if i > 0 {
        let rest = slots.drop_first();
        assert forall|m: int| 0 <= m < i - 1 implies (#[trigger] rest[m]).name != rest[i
            - 1].name by {}
        lemma_offset_of_index(rest, i - 1);
    }
}

/// A request leaves the slots that there are as they were, and afterwards the
/// name has a slot, if its type is valid.
pub proof fn lemma_place(slots: Seq<SlotView>, name: Seq<char>, ty: AsmType)
    ensures
        slots.len() <= place(slots, name, ty).len() <= slots.len() + 1,
        forall|k: int| 0 <= k < slots.len() ==> place(slots, name, ty)[k] == slots[k],
        forall|other: Seq<char>|
            offset_of(slots, other) is Some ==> offset_of(place(slots, name, ty), other)
                == offset_of(slots, other),
        forall|other: Seq<char>|
            other != name ==> offset_of(place(slots, name, ty), other) == offset_of(slots, other),
        ty.valid() ==> offset_of(place(slots, name, ty), name) is Some,
        ty.valid() && offset_of(slots, name) is None ==> offset_of(place(slots, name, ty), name)
            == Some(slot_offset(frame_end(slots), ty)) && slot_offset(frame_end(slots), ty)
            >= frame_end(slots) + ty.size(),
        frame_end(slots) <= frame_end(place(slots, name, ty)),
{
    let after = place(slots, name, ty);
    if offset_of(slots, name) is None && ty.valid() {
        lemma_round_up(frame_end(slots) + ty.size(), ty.alignment());
        lemma_offset_of(slots, name);
        lemma_offset_of_index(after, slots.len() as int);
        assert forall|other: Seq<char>|
            other != name || offset_of(slots, other) is Some implies offset_of(after, other)
            == offset_of(slots, other) by {
            lemma_offset_of(slots, other);
            lemma_offset_of(after, other);
            if offset_of(slots, other) is Some {
                let o = offset_of(slots, other)->0;
                let k = choose|k: int|
                    0 <= k < slots.len() && (#[trigger] slots[k]).name == other && slots[k].offset
                        == o && (forall|m: int| 0 <= m < k ==> (#[trigger] slots[m]).name != other);
                assert forall|m: int| 0 <= m < k implies (#[trigger] after[m]).name
                    != after[k].name by {}
                lemma_offset_of_index(after, k);
            } else {
                assert forall|k: int| 0 <= k < after.len() implies (#[trigger] after[k]).name
                    != other by {}
            }
        }
    }
}

/// A request keeps a layout well formed.
pub proof fn lemma_place_well_formed(slots: Seq<SlotView>, name: Seq<char>, ty: AsmType)
    requires
        well_formed(slots),
    ensures
        well_formed(place(slots, name, ty)),
{
    let after = place(slots, name, ty);
    if offset_of(slots, name) is None && ty.valid() {
        lemma_round_up(frame_end(slots) + ty.size(), ty.alignment());
        lemma_offset_of(slots, name);
        assert forall|k: int| 0 <= k < after.len() implies #[trigger] slot_ok(after, k) by {
            if k < slots.len() {
                assert(slot_ok(slots, k));
            }
        }
    }
}

/// In a well-formed layout a later slot lies below an earlier one by at least
/// its own size: offsets never decrease, and two slots of which the later has
/// a size have different offsets.
pub proof fn lemma_offsets_increase(slots: Seq<SlotView>, i: int, j: int)
    requires
        well_formed(slots),
        0 <= i < j < slots.len(),
    ensures
        slots[i].offset + slots[j].ty.size() <= slots[j].offset,
    decreases j - i,
{
    assert(slot_ok(slots, j));
    if i < j - 1 {
        lemma_offsets_increase(slots, i, j - 1);
    }
}

/// The frame of a well-formed layout has room for every slot: its size is at
/// least the sum of the sizes of the slots.
pub proof fn lemma_frame_covers_sizes(slots: Seq<SlotView>)
    requires
        well_formed(slots),
    ensures
        total_size(slots) <= frame_end(slots),
    decreases slots.len(),
{
    if slots.len() > 0 {
        let front = slots.drop_last();
        let last = slots.len() - 1;
        assert forall|k: int| 0 <= k < front.len() implies #[trigger] slot_ok(front, k) by {
            assert(slot_ok(slots, k));
        }
        lemma_frame_covers_sizes(front);
        assert(slot_ok(slots, last));
    }
}

/// The slots that the temporaries of a value ask for: one of four bytes for a temporary.
pub open spec fn place_value(slots: Seq<SlotView>, v: ValueView) -> Seq<SlotView> {
    match v {
        ValueView::Var(name) => place(slots, name, AsmType::Longword),
        ValueView::Constant(_) => slots,
    }
}

/// The slots after an instruction: its source is looked at before its destination.
pub open spec fn place_instruction(slots: Seq<SlotView>, ins: InstructionView) -> Seq<SlotView> {
    match ins {
        InstructionView::Return(v) => place_value(slots, v),
        InstructionView::Unary { op, src, dst } => place_value(place_value(slots, src), dst),
    }
}

/// The slots after the instructions of `body` from index `from` on.
pub open spec fn layout_from(body: Seq<InstructionView>, from: int, slots: Seq<SlotView>) -> Seq<
    SlotView,
>
    decreases body.len() - from,
{
    if from < 0 || from >= body.len() {
        slots
    } else {
        layout_from(body, from + 1, place_instruction(slots, body[from]))
    }
}

/// The layout of the frame of a function with the given body.
pub open spec fn layout_of(body: Seq<InstructionView>) -> Seq<SlotView> {
    layout_from(body, 0, Seq::empty())
}

/// Whether an instruction reads or writes the temporary `name`.
pub open spec fn mentions(ins: InstructionView, name: Seq<char>) -> bool {
    match ins {
        InstructionView::Return(v) => v == ValueView::Var(name),
        InstructionView::Unary { op, src, dst } => src == ValueView::Var(name) || dst
            == ValueView::Var(name),
    }
}

/// The temporaries of a body.
pub open spec fn temporaries(body: Seq<InstructionView>) -> Set<Seq<char>> {
    Set::new(|name: Seq<char>| exists|k: int| 0 <= k < body.len() && mentions(body[k], name))
}

/// Whether every slot holds four bytes.
pub open spec fn all_longwords(slots: Seq<SlotView>) -> bool {
    forall|k: int| 0 <= k < slots.len() ==> (#[trigger] slots[k]).ty == AsmType::Longword
}

pub proof fn lemma_place_instruction(slots: Seq<SlotView>, ins: InstructionView)
    requires
        well_formed(slots),
    ensures
        well_formed(place_instruction(slots, ins)),
        frame_end(slots) <= frame_end(place_instruction(slots, ins)),
        forall|name: Seq<char>|
            offset_of(slots, name) is Some ==> offset_of(place_instruction(slots, ins), name)
                == offset_of(slots, name),
        forall|name: Seq<char>|
            offset_of(place_instruction(slots, ins), name) is Some <==> (offset_of(slots, name)
                is Some || mentions(ins, name)),
        all_longwords(slots) ==> all_longwords(place_instruction(slots, ins)),
{
    match ins {
        InstructionView::Return(v) => {
            if let ValueView::Var(name) = v {
                lemma_place(slots, name, AsmType::Longword);
                lemma_place_well_formed(slots, name, AsmType::Longword);
            }
        },
        InstructionView::Unary { op, src, dst } => {
            let mid = place_value(slots, src);
            if let ValueView::Var(name) = src {
                lemma_place(slots, name, AsmType::Longword);
                lemma_place_well_formed(slots, name, AsmType::Longword);
            }
            if let ValueView::Var(name) = dst {
                lemma_place(mid, name, AsmType::Longword);
                lemma_place_well_formed(mid, name, AsmType::Longword);
            }
        },
    }
}

/// Laying out the rest of a body keeps the layout well formed and the slots
/// that there are, never shrinks the frame, and gives a slot to exactly the
/// temporaries that the rest of the body mentions, beside those that had one.
pub proof fn lemma_layout_from(body: Seq<InstructionView>, from: int, slots: Seq<SlotView>)
    requires
        0 <= from <= body.len(),
        well_formed(slots),
    ensures
        well_formed(layout_from(body, from, slots)),
        frame_end(slots) <= frame_end(layout_from(body, from, slots)),
        forall|name: Seq<char>|
            offset_of(slots, name) is Some ==> offset_of(layout_from(body, from, slots), name)
                == offset_of(slots, name),
        forall|name: Seq<char>|
            offset_of(layout_from(body, from, slots), name) is Some <==> (offset_of(slots, name)
                is Some || exists|k: int| from <= k < body.len() && mentions(body[k], name)),
        all_longwords(slots) ==> all_longwords(layout_from(body, from, slots)),
    decreases body.len() - from,
{
    if from < body.len() {
        let next = place_instruction(slots, body[from]);
        lemma_place_instruction(slots, body[from]);
        lemma_layout_from(body, from + 1, next);
    }
}

/// Whether, of the instructions from index `from` on, the one at index `k` is
/// the first that mentions the temporary `name`.
pub open spec fn first_mentioned_at(
    body: Seq<InstructionView>,
    from: int,
    name: Seq<char>,
    k: int,
) -> bool {
    &&& from <= k < body.len()
    &&& mentions(body[k], name)
    &&& forall|j: int| from <= j < k ==> !mentions(#[trigger] body[j], name)
}

/// No slot of a well-formed layout lies below the end of the frame.
pub proof fn lemma_slot_within_frame(slots: Seq<SlotView>, name: Seq<char>)
    requires
        well_formed(slots),
        offset_of(slots, name) is Some,
    ensures
        offset_of(slots, name)->0 <= frame_end(slots),
{
    lemma_offset_of(slots, name);
    let o = offset_of(slots, name)->0;
    let k = choose|k: int|
        0 <= k < slots.len() && (#[trigger] slots[k]).name == name && slots[k].offset == o && (
        forall|m: int| 0 <= m < k ==> (#[trigger] slots[m]).name != name);
    if k < slots.len() - 1 {
        lemma_offsets_increase(slots, k, slots.len() - 1);
    }
}

/// A temporary that an instruction is the first to mention gets its slot
/// below the frame that there was.
pub proof fn lemma_place_instruction_new(
    slots: Seq<SlotView>,
    ins: InstructionView,
    name: Seq<char>,
)
    requires
        offset_of(slots, name) is None,
        mentions(ins, name),
    ensures
        offset_of(place_instruction(slots, ins), name) is Some,
        offset_of(place_instruction(slots, ins), name)->0 > frame_end(slots),
{
    match ins {
        InstructionView::Return(v) => {
            lemma_place(slots, name, AsmType::Longword);
        },
        InstructionView::Unary { op, src, dst } => {
            let mid = place_value(slots, src);
            if let ValueView::Var(first) = src {
                lemma_place(slots, first, AsmType::Longword);
            }
            if let ValueView::Var(second) = dst {
                lemma_place(mid, second, AsmType::Longword);
            }
        },
    }
}

/// A temporary that gets its slot while the rest of a body is laid out gets
/// it below the frame that there was.
pub proof fn lemma_new_slots_lie_below(
    body: Seq<InstructionView>,
    from: int,
    slots: Seq<SlotView>,
    name: Seq<char>,
)
    requires
        0 <= from <= body.len(),
        well_formed(slots),
        offset_of(slots, name) is None,
        offset_of(layout_from(body, from, slots), name) is Some,
    ensures
        offset_of(layout_from(body, from, slots), name)->0 > frame_end(slots),
    decreases body.len() - from,
{
    if from < body.len() {
        let next = place_instruction(slots, body[from]);
        lemma_place_instruction(slots, body[from]);
        lemma_layout_from(body, from + 1, next);
        if offset_of(next, name) is Some {
            lemma_place_instruction_new(slots, body[from], name);
        } else {
            lemma_new_slots_lie_below(body, from + 1, next, name);
        }
    }
}

pub proof fn lemma_first_appearance_orders_from(
    body: Seq<InstructionView>,
    from: int,
    slots: Seq<SlotView>,
    a: Seq<char>,
    ka: int,
    b: Seq<char>,
    kb: int,
)
    requires
        0 <= from,
        well_formed(slots),
        offset_of(slots, a) is None,
        offset_of(slots, b) is None,
        first_mentioned_at(body, from, a, ka),
        first_mentioned_at(body, from, b, kb),
        ka < kb,
    ensures
        offset_of(layout_from(body, from, slots), a) is Some,
        offset_of(layout_from(body, from, slots), b) is Some,
        offset_of(layout_from(body, from, slots), a)->0 < offset_of(
            layout_from(body, from, slots),
            b,
        )->0,
    decreases body.len() - from,
{
    let next = place_instruction(slots, body[from]);
    let last = layout_from(body, from, slots);
    lemma_place_instruction(slots, body[from]);
    lemma_layout_from(body, from + 1, next);
    assert(!mentions(body[from], b));
    assert(first_mentioned_at(body, from + 1, b, kb));
    if ka == from {
        lemma_place_instruction_new(slots, body[from], a);
        lemma_slot_within_frame(next, a);
        assert(offset_of(last, b) is Some) by {
            assert(mentions(body[kb], b));
        }
        lemma_new_slots_lie_below(body, from + 1, next, b);
    } else {
        assert(!mentions(body[from], a));
        assert(first_mentioned_at(body, from + 1, a, ka));
        lemma_first_appearance_orders_from(body, from + 1, next, a, ka, b, kb);
    }
}

/// Slots follow the order of first appearance: of two temporaries of a body,
/// the one that an earlier instruction is the first to mention has its slot
/// nearer to the frame base, at the smaller offset.
pub proof fn lemma_slots_follow_first_appearance(
    body: Seq<InstructionView>,
    a: Seq<char>,
    ka: int,
    b: Seq<char>,
    kb: int,
)
    requires
        first_mentioned_at(body, 0, a, ka),
        first_mentioned_at(body, 0, b, kb),
        ka < kb,
    ensures
        offset_of(layout_of(body), a) is Some,
        offset_of(layout_of(body), b) is Some,
        offset_of(layout_of(body), a)->0 < offset_of(layout_of(body), b)->0,
{
    lemma_first_appearance_orders_from(body, 0, Seq::empty(), a, ka, b, kb);
}

pub proof fn lemma_source_before_destination_from(
    body: Seq<InstructionView>,
    from: int,
    slots: Seq<SlotView>,
    k: int,
    a: Seq<char>,
    b: Seq<char>,
)
    requires
        0 <= from,
        well_formed(slots),
        offset_of(slots, a) is None,
        offset_of(slots, b) is None,
        first_mentioned_at(body, from, a, k),
        first_mentioned_at(body, from, b, k),
        body[k] matches InstructionView::Unary { op, src, dst } && src == ValueView::Var(a) && dst
            == ValueView::Var(b),
        a != b,
    ensures
        offset_of(layout_from(body, from, slots), a) is Some,
        offset_of(layout_from(body, from, slots), b) is Some,
        offset_of(layout_from(body, from, slots), a)->0 < offset_of(
            layout_from(body, from, slots),
            b,
        )->0,
    decreases body.len() - from,
{
    let next = place_instruction(slots, body[from]);
    lemma_place_instruction(slots, body[from]);
    lemma_layout_from(body, from + 1, next);
    if k == from {
        let mid = place(slots, a, AsmType::Longword);
        lemma_place(slots, a, AsmType::Longword);
        lemma_place_well_formed(slots, a, AsmType::Longword);
        lemma_place(mid, b, AsmType::Longword);
        lemma_slot_within_frame(mid, a);
    } else {
        assert(!mentions(body[from], a));
        assert(!mentions(body[from], b));
        assert(first_mentioned_at(body, from + 1, a, k));
        assert(first_mentioned_at(body, from + 1, b, k));
        lemma_source_before_destination_from(body, from + 1, next, k, a, b);
    }
}

/// Within the instruction that is the first to mention them both, the source
/// of a unary operation has its slot at a smaller offset than the destination.
pub proof fn lemma_source_before_destination(
    body: Seq<InstructionView>,
    k: int,
    a: Seq<char>,
    b: Seq<char>,
)
    requires
        first_mentioned_at(body, 0, a, k),
        first_mentioned_at(body, 0, b, k),
        body[k] matches InstructionView::Unary { op, src, dst } && src == ValueView::Var(a) && dst
            == ValueView::Var(b),
        a != b,
    ensures
        offset_of(layout_of(body), a) is Some,
        offset_of(layout_of(body), b) is Some,
        offset_of(layout_of(body), a)->0 < offset_of(layout_of(body), b)->0,
{
    lemma_source_before_destination_from(body, 0, Seq::empty(), k, a, b);
}

/// Every temporary that an instruction of a body mentions has a slot in the
/// layout of the body.
pub proof fn lemma_temporary_has_slot(body: Seq<InstructionView>, k: int, name: Seq<char>)
    requires
        0 <= k < body.len(),
        mentions(body[k], name),
    ensures
        offset_of(layout_of(body), name) is Some,
{
    lemma_layout_from(body, 0, Seq::empty());
    assert(offset_of(layout_from(body, 0, Seq::empty()), name) is Some <==> (offset_of(
        Seq::<SlotView>::empty(),
        name,
    ) is Some || exists|j: int| 0 <= j < body.len() && mentions(body[j], name)));
}

/// The layout of a body is well formed, and every temporary of the body, and
/// nothing else, has one slot in it: as many slots as there are temporaries.
pub proof fn lemma_layout_of_body(body: Seq<InstructionView>)
    ensures
        well_formed(layout_of(body)),
        forall|name: Seq<char>|
            temporaries(body).contains(name) <==> offset_of(layout_of(body), name) is Some,
        slot_names(layout_of(body)).no_duplicates(),
        slot_names(layout_of(body)).to_set() == temporaries(body),
        temporaries(body).finite(),
        layout_of(body).len() == temporaries(body).len(),
{
    let slots = layout_of(body);
    let names = slot_names(slots);
    lemma_layout_from(body, 0, Seq::empty());
    assert forall|name: Seq<char>| temporaries(body).contains(name) <==> offset_of(
        slots,
        name,
    ) is Some by {
        assert(offset_of(layout_from(body, 0, Seq::empty()), name) is Some <==> (offset_of(
            Seq::<SlotView>::empty(),
            name,
        ) is Some || exists|k: int| 0 <= k < body.len() && mentions(body[k], name)));
    }
    assert forall|name: Seq<char>| names.to_set().contains(name) <==> temporaries(body).contains(
        name,
    ) by {
        lemma_offset_of(slots, name);
        if names.to_set().contains(name) {
            let k = choose|k: int| 0 <= k < names.len() && names[k] == name;
        }
        if temporaries(body).contains(name) {
            let o = offset_of(slots, name)->0;
            let k = choose|k: int|
                0 <= k < slots.len() && (#[trigger] slots[k]).name == name && slots[k].offset == o
                    && (forall|m: int| 0 <= m < k ==> (#[trigger] slots[m]).name != name);
            assert(names[k] == name);
        }
    }
    names.unique_seq_to_set();
    vstd::seq_lib::seq_to_set_is_finite(names);
}

/// The layout of a body gives every temporary of the body a slot of its own:
/// there are as many slots as temporaries, a later slot lies at least four
/// bytes below an earlier one, every offset is a multiple of four, and the
/// frame is as large as all the slots together.
pub proof fn lemma_body_layout(body: Seq<InstructionView>)
    ensures
        temporaries(body).finite(),
        layout_of(body).len() == temporaries(body).len(),
        forall|i: int, j: int|
            0 <= i < j < layout_of(body).len() ==> layout_of(body)[i].name != layout_of(
                body,
            )[j].name && layout_of(body)[i].offset + 4 <= layout_of(body)[j].offset,
        forall|k: int|
            0 <= k < layout_of(body).len() ==> (#[trigger] layout_of(body)[k]).offset % 4 == 0
                && layout_of(body)[k].offset >= 4,
        total_size(layout_of(body)) == 4 * layout_of(body).len(),
        total_size(layout_of(body)) <= frame_end(layout_of(body)),
{
    let slots = layout_of(body);
    lemma_layout_of_body(body);
    lemma_layout_from(body, 0, Seq::empty());
    lemma_frame_covers_sizes(slots);
    lemma_total_size_of_longwords(slots);
    assert forall|i: int, j: int| 0 <= i < j < slots.len() implies slots[i].name != slots[j].name
        && slots[i].offset + 4 <= slots[j].offset by {
        lemma_offsets_increase(slots, i, j);
    }
    assert forall|k: int| 0 <= k < slots.len() implies (#[trigger] slots[k]).offset % 4 == 0
        && slots[k].offset >= 4 by {
        assert(slot_ok(slots, k));
    }
}

/// Slots of four bytes take four times their number.
pub proof fn lemma_total_size_of_longwords(slots: Seq<SlotView>)
    requires
        all_longwords(slots),
    ensures
        total_size(slots) == 4 * slots.len(),
    decreases slots.len(),
{
    if slots.len() > 0 {
        let front = slots.drop_last();
        assert forall|k: int| 0 <= k < front.len() implies (#[trigger] front[k]).ty
            == AsmType::Longword by {}
        lemma_total_size_of_longwords(front);
    }
}

/// The frame layout of one function.
#[derive(Debug, Clone)]
pub struct FrameLayout {
    slots: Vec<Slot>,
    size: u64,
}

impl View for FrameLayout {
    type V = Seq<SlotView>;

    closed spec fn view(&self) -> Seq<SlotView> {
        self.slots.deep_view()
    }
}

impl FrameLayout {
    /// The number of bytes that the layout keeps as the size of its frame.
    pub closed spec fn size(&self) -> nat {
        self.size as nat
    }

    /// The slots are well formed and the size is the offset of the last slot.
    pub open spec fn wf(&self) -> bool {
        &&& well_formed(self@)
        &&& self.size() == frame_end(self@)
    }

    /// A layout without slots.
    pub fn new() -> (layout: Self)
        ensures
            layout.wf(),
            layout@ == Seq::<SlotView>::empty(),
    {
        let layout = FrameLayout { slots: Vec::new(), size: 0 };
        layout
    }

    /// The number of bytes of the frame.
    pub fn frame_size(&self) -> (size: u64)
        requires
            self.wf(),
        ensures
            size == frame_end(self@),
    {
        self.size
    }

    /// The number of slots.
    pub fn len(&self) -> (n: usize)
        ensures
            n == self@.len(),
    {
        self.slots.len()
    }

    /// The slots in the order in which they were handed out.
    pub fn slots(&self) -> (slots: &Vec<Slot>)
        ensures
            slots.deep_view() == self@,
    {
        &self.slots
    }

    /// The offset of the slot of `name`, if it has one.
    pub fn lookup(&self, name: &str) -> (offset: Option<u64>)
        ensures
            match offset_of(self@, name@) {
                Some(o) => offset == Some(o as u64) && o <= u64::MAX,
                None => offset is None,
            },
    {
        let mut i: usize = 0;
        while i < self.slots.len()
            invariant
                i <= self.slots.len(),
                forall|m: int| 0 <= m < i ==> (#[trigger] self@[m]).name != name@,
            decreases self.slots.len() - i,
        {
            if str_equal(self.slots[i].name.as_str(), name) {
                proof {
                    lemma_offset_of_index(self@, i as int);
                }
                return Some(self.slots[i].offset);
            }
            i = i + 1;
        }
        proof {
            lemma_offset_of(self@, name@);
        }
        None
    }

    /// Asks for a slot of type `ty` for `name`. A name that has a slot keeps
    /// it. Otherwise the name gets the next slot, unless the type is not valid
    /// or the frame would outgrow what an offset can hold: then the layout
    /// stays as it was.
    pub fn assign(&mut self, name: &str, ty: AsmType) -> (r: Result<u64, CompilerError>)
        requires
            old(self).wf(),
        ensures
            final(self).wf(),
            match offset_of(old(self)@, name@) {
                Some(o) => final(self)@ == old(self)@ && r == Ok::<u64, CompilerError>(o as u64),
                None => if !ty.valid() {
                    final(self)@ == old(self)@ && (r matches Err(e) && e@ == invalid_type())
                } else if slot_offset(frame_end(old(self)@), ty) > u64::MAX {
                    final(self)@ == old(self)@ && (r matches Err(e) && e@ == frame_too_large())
                } else {
                    final(self)@ == place(old(self)@, name@, ty) && r == Ok::<u64, CompilerError>(
                        slot_offset(frame_end(old(self)@), ty) as u64,
                    )
                },
            },
    {
        if let Some(offset) = self.lookup(name) {
            return Ok(offset);
        }
        if !ty.is_valid() {
            return Err(CompilerError::unsupported_construct("byte array of an invalid type"));
        }
        let size = ty.byte_size();
        let alignment = ty.byte_alignment();
        proof {
            lemma_round_up(frame_end(self@) + ty.size(), ty.alignment());
            lemma_place_well_formed(self@, name@, ty);
        }
        let unaligned = match self.size.checked_add(size) {
            Some(sum) => sum,
            None => {
                return Err(CompilerError::unsupported_construct("frame too large"));
            },
        };
        let excess = unaligned % alignment;
        let offset = if excess == 0 {
            unaligned
        } else {
            match unaligned.checked_add(alignment - excess) {
                Some(sum) => sum,
                None => {
                    return Err(CompilerError::unsupported_construct("frame too large"));
                },
            }
        };
        let ghost before = self@;
        let slot = Slot { name: String::from_str(name), ty, offset };
        self.slots.push(slot);
        self.size = offset;
        assert(self@ =~= before.push(slot@));
        Ok(offset)
    }
}

pub open spec fn invalid_type() -> CompilerErrorView {
    CompilerErrorView::Unsupported { message: "byte array of an invalid type"@ }
}

pub open spec fn frame_too_large() -> CompilerErrorView {
    CompilerErrorView::Unsupported { message: "frame too large"@ }
}

impl FrameLayout {
    /// Asks for the slots of the temporaries of a value.
    pub fn assign_value(&mut self, value: &Value) -> (r: Result<(), CompilerError>)
        requires
            old(self).wf(),
        ensures
            final(self).wf(),
            if frame_end(place_value(old(self)@, value@)) > u64::MAX {
                final(self)@ == old(self)@ && (r matches Err(e) && e@ == frame_too_large())
            } else {
                final(self)@ == place_value(old(self)@, value@) && r is Ok
            },
    {
        match value {
            Value::Constant(_) => Ok(()),
            Value::Var(name) => {
                proof {
                    lemma_offset_of(self@, name@);
                    lemma_place(self@, name@, AsmType::Longword);
                }
                match self.assign(name.as_str(), AsmType::Longword) {
                    Ok(_) => Ok(()),
                    Err(e) => Err(e),
                }
            },
        }
    }

    /// Asks for the slots of the temporaries of an instruction.
    pub fn assign_instruction(&mut self, instruction: &Instruction) -> (r: Result<
        (),
        CompilerError,
    >)
        requires
            old(self).wf(),
        ensures
            final(self).wf(),
            if frame_end(place_instruction(old(self)@, instruction@)) > u64::MAX {
                r matches Err(e) && e@ == frame_too_large()
            } else {
                r is Ok && final(self)@ == place_instruction(old(self)@, instruction@)
            },
    {
        match instruction {
            Instruction::Return(value) => self.assign_value(value),
            Instruction::Unary { op, src, dst } => {
                proof {
                    let mid = place_value(self@, src@);
                    if let ValueView::Var(name) = dst@ {
                        lemma_place(mid, name, AsmType::Longword);
                    }
                }
                match self.assign_value(src) {
                    Ok(_) => {},
                    Err(e) => {
                        return Err(e);
                    },
                }
                self.assign_value(dst)
            },
        }
    }
}

/// Lays out the frame of a body, or fails where the frame would outgrow what
/// an offset can hold.
#[verifier::loop_isolation(false)]
pub fn layout_body(body: &Vec<Instruction>) -> (r: Result<FrameLayout, CompilerError>)
    ensures
        if frame_end(layout_of(body.deep_view())) > u64::MAX {
            r matches Err(e) && e@ == frame_too_large()
        } else {
            r matches Ok(layout) && layout.wf() && layout@ == layout_of(body.deep_view())
        },
{
    let mut layout = FrameLayout::new();
    let ghost code = body.deep_view();
    let mut i: usize = 0;
    while i < body.len()
        invariant
            i <= body.len(),
            layout.wf(),
            layout_from(code, i as int, layout@) == layout_of(code),
        decreases body.len() - i,
    {
        proof {
            lemma_place_instruction(layout@, code[i as int]);
            lemma_layout_from(code, i + 1, place_instruction(layout@, code[i as int]));
        }
        match layout.assign_instruction(&body[i]) {
            Ok(_) => {},
            Err(e) => {
                return Err(e);
            },
        }
        i = i + 1;
    }
    Ok(layout)
}

} // verus!
