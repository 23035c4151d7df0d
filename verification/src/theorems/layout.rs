//! The stack frame: every variable has a slot of its own inside the frame,
//! and the exit code is read from the slot of the variable referenced last.

use crate::codegen::{
    allocate_stack_memory, frame_size, get_type_size, last_referenced, lemma_frame_prefix,
};
use crate::representations::{Symbol, Type};
use crate::symbols::Binding;
use vstd::prelude::*;

verus! {

/// The distance below the frame base at which the slot of a laid-out
/// variable starts.
pub open spec fn slot_start(symbol: Symbol) -> int {
    symbol.stack_offset->0 as int
}

/// The distance below the frame base at which the slot of a laid-out
/// variable ends: its start and the size of its type.
pub open spec fn slot_end(symbol: Symbol) -> int {
    slot_start(symbol) + get_type_size(symbol._type)->0
}

/// The size of every type is a multiple of eight bytes.
pub proof fn lemma_size_is_aligned(ty: Type)
    requires
        get_type_size(ty) is Some,
    ensures
        get_type_size(ty)->0 % 8 == 0,
    decreases ty,
{
    match ty {
        Type::Array(element, length) => {
            lemma_size_is_aligned(*element);
            let size = get_type_size(*element)->0 as int;
            let eighths = size / 8;
            assert(size * (length as int) == (eighths * (length as int)) * 8)
                by (nonlinear_arith)
                requires
                    size == eighths * 8,
        },
        _ => {},
    }
}

/// The bytes that laid-out variables take together are a multiple of eight.
proof fn lemma_frame_is_aligned(table: Seq<Binding>, upto: nat)
    requires
        upto <= table.len(),
        frame_size(table, upto) is Ok,
    ensures
        frame_size(table, upto)->Ok_0 % 8 == 0,
    decreases upto,
{
    if upto > 0 {
        lemma_frame_is_aligned(table, (upto - 1) as nat);
        lemma_size_is_aligned(table[upto - 1].symbol._type);
    }
}

/// After the frame is laid out, every variable has a slot that starts at a
/// multiple of eight bytes and lies within the frame, and the slots of two
/// different variables share no byte.
pub proof fn lemma_slots_disjoint(table: Seq<Binding>, i: int, j: int)
    requires
        allocate_stack_memory(table) is Ok,
        0 <= i < table.len(),
        0 <= j < table.len(),
        i != j,
    ensures
        ({
            let laid_out = allocate_stack_memory(table)->Ok_0.0;
            let total = allocate_stack_memory(table)->Ok_0.1;
            let one = laid_out[i].symbol;
            let other = laid_out[j].symbol;
            &&& laid_out.len() == table.len()
            &&& one.stack_offset is Some
            &&& other.stack_offset is Some
            &&& get_type_size(one._type) is Some
            &&& get_type_size(other._type) is Some
            &&& slot_start(one) % 8 == 0
            &&& 0 <= slot_start(one) <= slot_end(one) <= total
            &&& slot_end(one) <= slot_start(other) || slot_end(other) <= slot_start(one)
        }),
{
    let n = table.len();
    lemma_frame_prefix(table, (i + 1) as nat, n);
    lemma_frame_prefix(table, (j + 1) as nat, n);
    if i < j {
        lemma_frame_prefix(table, (i + 1) as nat, j as nat);
    } else {
        lemma_frame_prefix(table, (j + 1) as nat, i as nat);
    }
    lemma_frame_is_aligned(table, i as nat);
}

/// The variable whose value becomes the exit code is one that was
/// referenced on the latest line, and the last such variable of the table.
pub proof fn lemma_last_referenced(table: Seq<Binding>, upto: nat)
    requires
        upto <= table.len(),
    ensures
        match last_referenced(table, upto) {
            None => upto == 0,
            Some(best) => {
                &&& 0 <= best < upto
                &&& forall|j: int|
                    0 <= j < upto ==> (#[trigger] table[j]).symbol.last_ref
                        <= table[best].symbol.last_ref
                &&& forall|j: int|
                    best < j < upto ==> (#[trigger] table[j]).symbol.last_ref
                        < table[best].symbol.last_ref
            },
        },
    decreases upto,
{
    if upto > 0 {
        lemma_last_referenced(table, (upto - 1) as nat);
    }
}

} // verus!
