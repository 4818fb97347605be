//! Laws of the machine, stated over its model and proved.
use vstd::prelude::*;

use crate::decode::{field_a_of, field_b_of, field_c_of, literal_reg_of, literal_value_of, opcode_of};
use crate::machine::{
    abandon_view, allocate_view, amend_view, index_space, index_view, input_view, step_view,
    view_wf, Event, MachineView, UmError,
};

verus! {

/// The word under the finger.
pub open spec fn current_word(m: MachineView) -> u32 {
    m.arrays[0][m.finger as int]
}

/// Addition and Multiplication store the sum and the product of registers B
/// and C modulo 2^32 in register A, whatever their values.
pub proof fn lemma_arithmetic_wraps(m: MachineView)
    requires
        view_wf(m),
        m.finger < m.arrays[0].len(),
        opcode_of(current_word(m)) == 3 || opcode_of(current_word(m)) == 4,
    ensures
        ({
            let w = current_word(m);
            let rb = m.regs[field_b_of(w) as int] as nat;
            let rc = m.regs[field_c_of(w) as int] as nat;
            step_view(m) matches Ok((m2, Event::Continue)) && m2.regs[field_a_of(w) as int] as nat
                == (if opcode_of(w) == 3 {
                (rb + rc) % index_space()
            } else {
                (rb * rc) % index_space()
            })
        }),
{
    reveal(step_view);
}

/// Conditional Move with register C zero changes no register.
pub proof fn lemma_conditional_move_zero(m: MachineView)
    requires
        view_wf(m),
        m.finger < m.arrays[0].len(),
        opcode_of(current_word(m)) == 0,
        m.regs[field_c_of(current_word(m)) as int] == 0,
    ensures
        step_view(m) matches Ok((m2, Event::Continue)) && m2.regs == m.regs,
{
    reveal(step_view);
}

/// An index freed by Abandonment is handed out again before any new index:
/// after allocating, abandoning what was allocated and allocating again, no
/// slot has been added and the second index is the head of the reuse queue,
/// which is the abandoned one when nothing else was waiting.
pub proof fn lemma_reuse_before_growth(m: MachineView, b1: nat, n1: u32, b2: nat, n2: u32)
    requires
        view_wf(m),
        b1 < 8,
        b2 < 8,
        allocate_view(m, b1, n1) matches Ok((m1, _)) && abandon_view(m1, m1.regs[b1 as int])
            matches Ok((m2, _)),
    ensures
        ({
            let m1 = allocate_view(m, b1, n1).unwrap().0;
            let idx = m1.regs[b1 as int];
            let m2 = abandon_view(m1, idx).unwrap().0;
            allocate_view(m2, b2, n2) matches Ok((m3, _)) && m3.arrays.len() == m1.arrays.len()
                && m3.regs[b2 as int] == (if m1.free.len() == 0 {
                idx
            } else {
                m1.free[0]
            })
        }),
{
}

/// With no index waiting for reuse, abandoning two arrays and then allocating
/// twice hands the two indices back in the order they were abandoned.
pub proof fn lemma_reuse_in_abandon_order(
    m: MachineView,
    i: u32,
    j: u32,
    b1: nat,
    n1: u32,
    b2: nat,
    n2: u32,
)
    requires
        view_wf(m),
        m.free.len() == 0,
        b1 < 8,
        b2 < 8,
        abandon_view(m, i) matches Ok((m1, _)) && abandon_view(m1, j) matches Ok((m2, _)),
    ensures
        ({
            let m2 = abandon_view(abandon_view(m, i).unwrap().0, j).unwrap().0;
            allocate_view(m2, b1, n1) matches Ok((m3, _)) && (m3.regs[b1 as int] == i
                && (allocate_view(m3, b2, n2) matches Ok((m4, _)) && m4.regs[b2 as int] == j))
        }),
{
    let m2 = abandon_view(abandon_view(m, i).unwrap().0, j).unwrap().0;
    assert(m2.free =~= seq![i, j]);
}

/// Reading a word right after amending it gives the amended value.
pub proof fn lemma_amend_then_index(m: MachineView, i: u32, j: u32, v: u32, a: nat)
    requires
        view_wf(m),
        a < 8,
        amend_view(m, i, j, v) matches Ok((m1, _)),
    ensures
        ({
            let m1 = amend_view(m, i, j, v).unwrap().0;
            index_view(m1, a, i, j) matches Ok((m2, _)) && m2.regs[a as int] == v
        }),
{
}

/// Literal load puts the 25-bit immediate into the destination register,
/// with the seven high bits zero.
pub proof fn lemma_literal_load(m: MachineView)
    requires
        view_wf(m),
        m.finger < m.arrays[0].len(),
        opcode_of(current_word(m)) == 13,
    ensures
        ({
            let w = current_word(m);
            step_view(m) matches Ok((m2, Event::Continue))
                && m2.regs[literal_reg_of(w) as int] as nat == literal_value_of(w)
                && m2.regs[literal_reg_of(w) as int] < 0x200_0000
        }),
{
    reveal(step_view);
}

/// Input at the end of the stream sets register C to all ones and goes on
/// to the next instruction.
pub proof fn lemma_input_at_end(m: MachineView)
    requires
        view_wf(m),
        m.finger < m.arrays[0].len(),
        opcode_of(current_word(m)) == 11,
    ensures
        step_view(m) == Ok::<(MachineView, Event), UmError>((m, Event::Input)),
        input_view(m, None).regs[field_c_of(current_word(m)) as int] == 0xFFFF_FFFF,
        input_view(m, None).finger == m.finger + 1,
        input_view(m, None).arrays == m.arrays,
{
    reveal(step_view);
}

/// Load Program from index 0 is a jump: the program stays, and the finger
/// moves to register C.
pub proof fn lemma_load_zero_is_jump(m: MachineView)
    requires
        view_wf(m),
        m.finger < m.arrays[0].len(),
        opcode_of(current_word(m)) == 12,
        m.regs[field_b_of(current_word(m)) as int] == 0,
    ensures
        step_view(m) matches Ok((m2, Event::Continue)) && m2.arrays == m.arrays && m2.regs == m.regs
            && m2.finger == m.regs[field_c_of(current_word(m)) as int] as nat,
{
    reveal(step_view);
}

} // verus!
