//! The machine: registers, the array heap with its reuse queue, the finger,
//! and the step function that executes one instruction.
use std::collections::VecDeque;
use vstd::prelude::*;

use crate::decode::{
    field_a, field_a_of, field_b, field_b_of, field_c, field_c_of, literal_reg, literal_reg_of,
    literal_value, literal_value_of, opcode, opcode_of,
};

verus! {

/// A fatal fault that ends execution.
#[derive(Debug, Clone, Copy, PartialEq, Eq, Structural)]
pub enum UmError {
    /// The operator code of the fetched word is outside 0 to 13.
    UnknownOperator(u32),
    /// Division with a zero divisor.
    DivisionByZero,
    /// Output of a value that is not a Unicode scalar value.
    InvalidCharacter(u32),
    /// Access to an index that does not hold a live array.
    InvalidArray(u32),
    /// Access to an offset beyond the end of a live array.
    OutOfBounds { array: u32, offset: u32 },
    /// Abandonment of the program array.
    AbandonProgram,
    /// The finger points past the end of the program.
    FingerOutOfRange(usize),
    /// Every index a register can name is in use.
    HeapExhausted,
}

/// What a step asks of its caller.
#[derive(Debug, Clone, Copy, PartialEq, Eq, Structural)]
pub enum Event {
    /// The instruction was executed; the machine goes on.
    Continue,
    /// The instruction was executed and emits this character.
    Output(char),
    /// The instruction reads a byte: hand it over with `provide_input`.
    Input,
    /// The machine halted.
    Halt,
}

/// The abstract state of a machine.
pub struct MachineView {
    pub regs: Seq<u32>,
    pub arrays: Seq<Seq<u32>>,
    pub live: Seq<bool>,
    pub finger: nat,
    pub free: Seq<u32>,
}

/// The number of indices a 32-bit register can name.
pub open spec fn index_space() -> nat {
    0x1_0000_0000
}

pub open spec fn is_live(m: MachineView, i: u32) -> bool {
    (i as int) < m.arrays.len() && m.live[i as int]
}

pub open spec fn is_scalar(v: u32) -> bool {
    v <= 0x10FFFF && !(0xD800 <= v && v <= 0xDFFF)
}

pub open spec fn zeros(n: nat) -> Seq<u32> {
    Seq::new(n, |k: int| 0u32)
}

pub open spec fn view_wf(m: MachineView) -> bool {
    &&& m.regs.len() == 8
    &&& m.arrays.len() == m.live.len()
    &&& 1 <= m.arrays.len() <= index_space()
    &&& m.live[0]
    &&& m.free.no_duplicates()
    &&& forall|k: int|
        0 <= k < m.free.len() ==> {
            &&& 0 < #[trigger] m.free[k]
            &&& (m.free[k] as int) < m.arrays.len()
            &&& !m.live[m.free[k] as int]
        }
    &&& forall|i: int|
        0 < i < m.arrays.len() && !#[trigger] m.live[i] ==> m.free.contains(i as u32)
}

/// The state at the start: `program` in slot 0, all else zero and empty.
pub open spec fn initial_view(program: Seq<u32>) -> MachineView {
    MachineView {
        regs: Seq::new(8, |i: int| 0u32),
        arrays: seq![program],
        live: seq![true],
        finger: 0,
        free: Seq::empty(),
    }
}

pub open spec fn set_reg(m: MachineView, r: nat, v: u32) -> MachineView {
    MachineView { regs: m.regs.update(r as int, v), ..m }
}

pub open spec fn advance(m: MachineView) -> MachineView {
    MachineView { finger: m.finger + 1, ..m }
}

/// Executed and advanced past.
pub open spec fn cont(m: MachineView) -> Result<(MachineView, Event), UmError> {
    Ok((advance(m), Event::Continue))
}

/// The index the next allocation takes, if any.
pub open spec fn next_index(m: MachineView) -> Option<u32> {
    if m.free.len() > 0 {
        Some(m.free[0])
    } else if m.arrays.len() < index_space() {
        Some(m.arrays.len() as u32)
    } else {
        None
    }
}

/// The heap after allocating `n` zero words at `next_index(m)`.
pub open spec fn allocate_at(m: MachineView, idx: u32, n: nat) -> MachineView {
    if m.free.len() > 0 {
        MachineView {
            arrays: m.arrays.update(idx as int, zeros(n)),
            live: m.live.update(idx as int, true),
            free: m.free.drop_first(),
            ..m
        }
    } else {
        MachineView { arrays: m.arrays.push(zeros(n)), live: m.live.push(true), ..m }
    }
}

pub open spec fn abandon_at(m: MachineView, i: u32) -> MachineView {
    MachineView {
        arrays: m.arrays.update(i as int, Seq::empty()),
        live: m.live.update(i as int, false),
        free: m.free.push(i),
        ..m
    }
}

/// Array Index: register `a` takes word `j` of array `i`.
pub open spec fn index_view(m: MachineView, a: nat, i: u32, j: u32) -> Result<(MachineView, Event), UmError> {
    if !is_live(m, i) {
        Err(UmError::InvalidArray(i))
    } else if j as int >= m.arrays[i as int].len() {
        Err(UmError::OutOfBounds { array: i, offset: j })
    } else {
        cont(set_reg(m, a, m.arrays[i as int][j as int]))
    }
}

/// Array Amendment: word `j` of array `i` becomes `v`.
pub open spec fn amend_view(m: MachineView, i: u32, j: u32, v: u32) -> Result<(MachineView, Event), UmError> {
    if !is_live(m, i) {
        Err(UmError::InvalidArray(i))
    } else if j as int >= m.arrays[i as int].len() {
        Err(UmError::OutOfBounds { array: i, offset: j })
    } else {
        cont(MachineView { arrays: m.arrays.update(i as int, m.arrays[i as int].update(j as int, v)), ..m })
    }
}

/// Allocation: `n` zero words at the next index, which register `b` takes.
pub open spec fn allocate_view(m: MachineView, b: nat, n: u32) -> Result<(MachineView, Event), UmError> {
    match next_index(m) {
        Some(idx) => cont(set_reg(allocate_at(m, idx, n as nat), b, idx)),
        None => Err(UmError::HeapExhausted),
    }
}

/// Abandonment of array `i`, whose index joins the back of the reuse queue.
pub open spec fn abandon_view(m: MachineView, i: u32) -> Result<(MachineView, Event), UmError> {
    if i == 0 {
        Err(UmError::AbandonProgram)
    } else if !is_live(m, i) {
        Err(UmError::InvalidArray(i))
    } else {
        cont(abandon_at(m, i))
    }
}

/// Load Program: a copy of array `i` replaces slot 0 unless `i` is 0; the
/// finger moves to `f`.
pub open spec fn load_view(m: MachineView, i: u32, f: u32) -> Result<(MachineView, Event), UmError> {
    if i != 0 && !is_live(m, i) {
        Err(UmError::InvalidArray(i))
    } else {
        let arrays = if i == 0 {
            m.arrays
        } else {
            m.arrays.update(0, m.arrays[i as int])
        };
        Ok((MachineView { arrays, finger: f as nat, ..m }, Event::Continue))
    }
}

/// The state after reading `byte` (none at end of stream) into register C
/// of the current instruction.
pub open spec fn input_view(m: MachineView, byte: Option<u8>) -> MachineView {
    let w = m.arrays[0][m.finger as int];
    let v: u32 = match byte {
        Some(b) => b as u32,
        None => 0xFFFF_FFFF,
    };
    advance(set_reg(m, field_c_of(w), v))
}

/// Whether the current instruction is an Input that waits for its byte.
pub open spec fn awaits_input(m: MachineView) -> bool {
    m.finger < m.arrays[0].len() && opcode_of(m.arrays[0][m.finger as int]) == 11
}

/// One step of the machine on the instruction under the finger.
#[verifier::opaque]
pub open spec fn step_view(m: MachineView) -> Result<(MachineView, Event), UmError> {
    if m.finger >= m.arrays[0].len() {
        Err(UmError::FingerOutOfRange(m.finger as usize))
    } else {
        let w = m.arrays[0][m.finger as int];
        let a = field_a_of(w);
        let b = field_b_of(w);
        let c = field_c_of(w);
        let ra = m.regs[a as int];
        let rb = m.regs[b as int];
        let rc = m.regs[c as int];
        let op = opcode_of(w);
        if op == 0 {
            if rc != 0 {
                cont(set_reg(m, a, rb))
            } else {
                cont(m)
            }
        } else if op == 1 {
            index_view(m, a, rb, rc)
        } else if op == 2 {
            amend_view(m, ra, rb, rc)
        } else if op == 3 {
            cont(set_reg(m, a, ((rb as nat + rc as nat) % index_space()) as u32))
        } else if op == 4 {
            cont(set_reg(m, a, ((rb as nat * rc as nat) % index_space()) as u32))
        } else if op == 5 {
            if rc == 0 {
                Err(UmError::DivisionByZero)
            } else {
                cont(set_reg(m, a, rb / rc))
            }
        } else if op == 6 {
            cont(set_reg(m, a, !(rb & rc)))
        } else if op == 7 {
            Ok((m, Event::Halt))
        } else if op == 8 {
            allocate_view(m, b, rc)
        } else if op == 9 {
            abandon_view(m, rc)
        } else if op == 10 {
            if is_scalar(rc) {
                Ok((advance(m), Event::Output(rc as char)))
            } else {
                Err(UmError::InvalidCharacter(rc))
            }
        } else if op == 11 {
            Ok((m, Event::Input))
        } else if op == 12 {
            load_view(m, rb, rc)
        } else if op == 13 {
            cont(set_reg(m, literal_reg_of(w), literal_value_of(w) as u32))
        } else {
            Err(UmError::UnknownOperator(op as u32))
        }
    }
}

/// Relies on `char::from_u32`: `Some` exactly for Unicode scalar values,
/// holding the character with that code point.
#[verifier::external_body]
fn char_of(v: u32) -> (r: Option<char>)
    ensures
        r.is_some() <==> is_scalar(v),
        r matches Some(ch) ==> ch as u32 == v,
{
    char::from_u32(v)
}

/// A machine instance.
pub struct Machine {
    regs: Vec<u32>,
    arrays: Vec<Vec<u32>>,
    live: Vec<bool>,
    finger: usize,
    free: VecDeque<u32>,
}

impl View for Machine {
    type V = MachineView;

    closed spec fn view(&self) -> MachineView {
        MachineView {
            regs: self.regs@,
            arrays: self.arrays@.map_values(|a: Vec<u32>| a@),
            live: self.live@,
            finger: self.finger as nat,
            free: self.free@,
        }
    }
}

impl Machine {
    pub open spec fn wf(&self) -> bool {
        view_wf(self@)
    }

    /// A machine with `program` in slot 0, ready to run from its first word.
    pub fn new(program: Vec<u32>) -> (r: Machine)
        ensures
            r.wf(),
            r@ == initial_view(program@),
    {
        let mut arrays: Vec<Vec<u32>> = Vec::new();
        arrays.push(program);
        let mut live: Vec<bool> = Vec::new();
        live.push(true);
        let r = Machine { regs: vec![0u32; 8], arrays, live, finger: 0, free: VecDeque::new() };
        assert(r@.regs =~= initial_view(program@).regs);
        assert(r@.arrays =~= initial_view(program@).arrays);
        assert(r@.live =~= initial_view(program@).live);
        r
    }
}


impl Machine {
    /// Executes the instruction under the finger.
    pub fn step(&mut self) -> (r: Result<Event, UmError>)
        requires
            old(self).wf(),
        ensures
            final(self).wf(),
            r matches Ok(e) ==> step_view(old(self)@) == Ok::<(MachineView, Event), UmError>(
                (final(self)@, e),
            ),
            r matches Err(e) ==> step_view(old(self)@) == Err::<(MachineView, Event), UmError>(e)
                && final(self)@ == old(self)@,
    {
        reveal(step_view);
        if self.finger >= self.arrays[0].len() {
            return Err(UmError::FingerOutOfRange(self.finger));
        }
        let w = self.arrays[0][self.finger];
        let op = opcode(w);
        let a = field_a(w);
        let b = field_b(w);
        let c = field_c(w);
        let ra = self.regs[a];
        let rb = self.regs[b];
        let rc = self.regs[c];
        if op == 0 {
            if rc != 0 {
                self.regs.set(a, rb);
            }
            self.finger = self.finger + 1;
            Ok(Event::Continue)
        } else if op == 1 {
            self.array_index(a, rb, rc)
        } else if op == 2 {
            self.array_amend(ra, rb, rc)
        } else if op == 3 {
            self.regs.set(a, rb.wrapping_add(rc));
            assert(rb.wrapping_add(rc) == ((rb as nat + rc as nat) % index_space()) as u32);
            self.finger = self.finger + 1;
            Ok(Event::Continue)
        } else if op == 4 {
            self.regs.set(a, rb.wrapping_mul(rc));
            assert(rb.wrapping_mul(rc) == ((rb as nat * rc as nat) % index_space()) as u32);
            self.finger = self.finger + 1;
            Ok(Event::Continue)
        } else if op == 5 {
            if rc == 0 {
                return Err(UmError::DivisionByZero);
            }
            self.regs.set(a, rb / rc);
            self.finger = self.finger + 1;
            Ok(Event::Continue)
        } else if op == 6 {
            self.regs.set(a, !(rb & rc));
            self.finger = self.finger + 1;
            Ok(Event::Continue)
        } else if op == 7 {
            Ok(Event::Halt)
        } else if op == 8 {
            self.allocate(b, rc)
        } else if op == 9 {
            self.abandon(rc)
        } else if op == 10 {
            match char_of(rc) {
                Some(ch) => {
                    proof {
                        vstd::utf8::char_u32_cast(ch, rc);
                    }
                    self.finger = self.finger + 1;
                    Ok(Event::Output(ch))
                },
                None => Err(UmError::InvalidCharacter(rc)),
            }
        } else if op == 11 {
            Ok(Event::Input)
        } else if op == 12 {
            self.load_program(rb, rc)
        } else if op == 13 {
            let r = literal_reg(w);
            let v = literal_value(w);
            self.regs.set(r, v);
            self.finger = self.finger + 1;
            Ok(Event::Continue)
        } else {
            Err(UmError::UnknownOperator(op))
        }
    }
}


impl Machine {
    fn array_index(&mut self, a: usize, i: u32, j: u32) -> (r: Result<Event, UmError>)
        requires
            old(self).wf(),
            a < 8,
            old(self).finger < old(self).arrays@[0].len(),
        ensures
            final(self).wf(),
            r matches Ok(e) ==> index_view(old(self)@, a as nat, i, j) == Ok::<
                (MachineView, Event),
                UmError,
            >((final(self)@, e)),
            r matches Err(e) ==> index_view(old(self)@, a as nat, i, j) == Err::<
                (MachineView, Event),
                UmError,
            >(e) && final(self)@ == old(self)@,
    {
        let iu = i as usize;
        if iu >= self.arrays.len() || !self.live[iu] {
            return Err(UmError::InvalidArray(i));
        }
        let ju = j as usize;
        if ju >= self.arrays[iu].len() {
            return Err(UmError::OutOfBounds { array: i, offset: j });
        }
        let v = self.arrays[iu][ju];
        self.regs.set(a, v);
        self.finger = self.finger + 1;
        Ok(Event::Continue)
    }

    fn array_amend(&mut self, i: u32, j: u32, v: u32) -> (r: Result<Event, UmError>)
        requires
            old(self).wf(),
            old(self).finger < old(self).arrays@[0].len(),
        ensures
            final(self).wf(),
            r matches Ok(e) ==> amend_view(old(self)@, i, j, v) == Ok::<
                (MachineView, Event),
                UmError,
            >((final(self)@, e)),
            r matches Err(e) ==> amend_view(old(self)@, i, j, v) == Err::<
                (MachineView, Event),
                UmError,
            >(e) && final(self)@ == old(self)@,
    {
        let iu = i as usize;
        if iu >= self.arrays.len() || !self.live[iu] {
            return Err(UmError::InvalidArray(i));
        }
        let ju = j as usize;
        if ju >= self.arrays[iu].len() {
            return Err(UmError::OutOfBounds { array: i, offset: j });
        }
        let ghost pre = self@;
        self.arrays[iu].set(ju, v);
        self.finger = self.finger + 1;
        assert(self@.arrays =~= pre.arrays.update(iu as int, pre.arrays[iu as int].update(ju as int, v)));
        Ok(Event::Continue)
    }
}


impl Machine {
    fn allocate(&mut self, b: usize, n: u32) -> (r: Result<Event, UmError>)
        requires
            old(self).wf(),
            b < 8,
            old(self).finger < old(self).arrays@[0].len(),
        ensures
            final(self).wf(),
            r matches Ok(e) ==> allocate_view(old(self)@, b as nat, n) == Ok::<(MachineView, Event), UmError>(
                (final(self)@, e),
            ),
            r matches Err(e) ==> allocate_view(old(self)@, b as nat, n) == Err::<(MachineView, Event), UmError>(e)
                && final(self)@ == old(self)@,
    {
        let ghost pre = self@;
        if self.free.len() == 0 && self.arrays.len() as u64 >= 0x1_0000_0000u64 {
            return Err(UmError::HeapExhausted);
        }
        let fresh: Vec<u32> = vec![0u32; n as usize];
        assert(fresh@ =~= zeros(n as nat));
        match self.free.pop_front() {
            Some(idx) => {
                proof {
                    assert(pre.free[0] == idx);
                    assert(forall|k: int| 0 <= k < self.free@.len() ==> self.free@[k] == #[trigger] pre.free[k + 1]);
                }
                self.arrays.set(idx as usize, fresh);
                self.live.set(idx as usize, true);
                self.regs.set(b, idx);
                self.finger = self.finger + 1;
                proof {
                    let post = self@;
                    assert(post.arrays =~= allocate_at(pre, idx, n as nat).arrays);
                    assert(post.free =~= pre.free.drop_first());
                    assert forall|i: int| 0 < i < post.arrays.len() && !#[trigger] post.live[i]
                        implies post.free.contains(i as u32) by {
                        assert(pre.free.contains(i as u32));
                        let k = choose|k: int| 0 <= k < pre.free.len() && pre.free[k] == i as u32;
                        assert(k != 0);
                        assert(post.free[k - 1] == i as u32);
                    }
                }
                Ok(Event::Continue)
            },
            None => {
                let idx = self.arrays.len() as u32;
                self.arrays.push(fresh);
                self.live.push(true);
                self.regs.set(b, idx);
                self.finger = self.finger + 1;
                proof {
                    let post = self@;
                    assert(post.arrays =~= allocate_at(pre, idx, n as nat).arrays);
                    assert forall|i: int| 0 < i < post.arrays.len() && !#[trigger] post.live[i]
                        implies post.free.contains(i as u32) by {
                        assert(pre.live[i]);
                    }
                }
                Ok(Event::Continue)
            },
        }
    }

    fn abandon(&mut self, i: u32) -> (r: Result<Event, UmError>)
        requires
            old(self).wf(),
            old(self).finger < old(self).arrays@[0].len(),
        ensures
            final(self).wf(),
            r matches Ok(e) ==> abandon_view(old(self)@, i) == Ok::<(MachineView, Event), UmError>(
                (final(self)@, e),
            ),
            r matches Err(e) ==> abandon_view(old(self)@, i) == Err::<(MachineView, Event), UmError>(e)
                && final(self)@ == old(self)@,
    {
        if i == 0 {
            return Err(UmError::AbandonProgram);
        }
        let iu = i as usize;
        if iu >= self.arrays.len() || !self.live[iu] {
            return Err(UmError::InvalidArray(i));
        }
        let ghost pre = self@;
        self.arrays.set(iu, Vec::new());
        self.live.set(iu, false);
        self.free.push_back(i);
        self.finger = self.finger + 1;
        proof {
            let post = self@;
            assert(post.arrays =~= abandon_at(pre, i).arrays);
            assert(forall|k: int| 0 <= k < pre.free.len() ==> #[trigger] pre.free[k] != i);
            assert(post.free =~= pre.free.push(i));
            assert(post.free[pre.free.len() as int] == i);
            assert forall|j: int| 0 < j < post.arrays.len() && !#[trigger] post.live[j]
                implies post.free.contains(j as u32) by {
                if j != i as int {
                    assert(pre.free.contains(j as u32));
                    let k = choose|k: int| 0 <= k < pre.free.len() && pre.free[k] == j as u32;
                    assert(post.free[k] == j as u32);
                }
            }
        }
        Ok(Event::Continue)
    }

    fn load_program(&mut self, i: u32, f: u32) -> (r: Result<Event, UmError>)
        requires
            old(self).wf(),
        ensures
            final(self).wf(),
            r matches Ok(e) ==> load_view(old(self)@, i, f) == Ok::<(MachineView, Event), UmError>(
                (final(self)@, e),
            ),
            r matches Err(e) ==> load_view(old(self)@, i, f) == Err::<(MachineView, Event), UmError>(e)
                && final(self)@ == old(self)@,
    {
        let iu = i as usize;
        if i != 0 {
            if iu >= self.arrays.len() || !self.live[iu] {
                return Err(UmError::InvalidArray(i));
            }
            let ghost pre = self@;
            let copy = self.arrays[iu].clone();
            assert(copy@ =~= pre.arrays[iu as int]);
            self.arrays.set(0, copy);
            assert(self@.arrays =~= pre.arrays.update(0, pre.arrays[iu as int]));
        }
        self.finger = f as usize;
        Ok(Event::Continue)
    }
}


impl Machine {
    /// Whether the instruction under the finger is an Input.
    pub fn awaiting_input(&self) -> (r: bool)
        requires
            self.wf(),
        ensures
            r == awaits_input(self@),
    {
        self.finger < self.arrays[0].len() && opcode(self.arrays[0][self.finger]) == 11
    }

    /// Completes the pending Input: register C takes `byte`, or all ones
    /// when the stream is exhausted (`None`), and execution goes on.
    pub fn provide_input(&mut self, byte: Option<u8>)
        requires
            old(self).wf(),
            awaits_input(old(self)@),
        ensures
            final(self).wf(),
            final(self)@ == input_view(old(self)@, byte),
    {
        let len = self.arrays[0].len();
        assert(self.finger < len);
        let c = field_c(self.arrays[0][self.finger]);
        let v: u32 = match byte {
            Some(b) => b as u32,
            None => 0xFFFF_FFFFu32,
        };
        self.regs.set(c, v);
        self.finger = self.finger + 1;
    }

    /// The value of register `i`.
    pub fn reg(&self, i: usize) -> (r: u32)
        requires
            self.wf(),
            i < 8,
        ensures
            r == self@.regs[i as int],
    {
        self.regs[i]
    }

    /// Sets register `i` to `v`.
    pub fn set_reg(&mut self, i: usize, v: u32)
        requires
            old(self).wf(),
            i < 8,
        ensures
            final(self).wf(),
            final(self)@ == set_reg(old(self)@, i as nat, v),
    {
        self.regs.set(i, v);
    }

    /// The finger: the offset of the next instruction in slot 0.
    pub fn finger(&self) -> (r: usize)
        ensures
            r as nat == self@.finger,
    {
        self.finger
    }

    /// A copy of the live array at index `i`, or `None` where no live array is.
    pub fn array(&self, i: u32) -> (r: Option<Vec<u32>>)
        requires
            self.wf(),
        ensures
            r.is_some() <==> is_live(self@, i),
            r matches Some(v) ==> v@ == self@.arrays[i as int],
    {
        let iu = i as usize;
        if iu < self.arrays.len() && self.live[iu] {
            let v = self.arrays[iu].clone();
            assert(v@ =~= self@.arrays[i as int]);
            Some(v)
        } else {
            None
        }
    }

    /// The number of array slots, live or abandoned, slot 0 included.
    pub fn slot_count(&self) -> (r: usize)
        ensures
            r == self@.arrays.len(),
    {
        self.arrays.len()
    }
}


/// A step that asks for input changes nothing, and the finger is on an Input.
pub proof fn lemma_input_event(m: MachineView)
    requires
        step_view(m) matches Ok((m2, Event::Input)),
    ensures
        awaits_input(m),
        step_view(m) == Ok::<(MachineView, Event), UmError>((m, Event::Input)),
{
    reveal(step_view);
}

} // verus!
