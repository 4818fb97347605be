//! Running a machine to completion on an input held in memory.
use vstd::prelude::*;

use crate::machine::{lemma_input_event, input_view, initial_view, step_view, Event, Machine, MachineView, UmError};

verus! {

/// How a bounded run ended.
#[derive(Debug, Clone, Copy, PartialEq, Eq, Structural)]
pub enum Outcome {
    /// A Halt instruction was executed.
    Halted,
    /// A fatal fault ended execution.
    Failed(UmError),
    /// The step budget ran out first.
    OutOfSteps,
}

/// The result of a bounded run: how it ended and what it printed.
pub struct RunResult {
    pub outcome: Outcome,
    pub output: Vec<char>,
}

/// The next byte of `input`, or `None` at its end.
pub open spec fn head(input: Seq<u8>) -> Option<u8> {
    if input.len() > 0 {
        Some(input[0])
    } else {
        None
    }
}

/// What is left of `input` after one read.
pub open spec fn tail(input: Seq<u8>) -> Seq<u8> {
    if input.len() > 0 {
        input.drop_first()
    } else {
        input
    }
}

/// The outcome and output of running `m` for at most `steps` instructions,
/// reading from `input`.
pub open spec fn run_view(m: MachineView, input: Seq<u8>, steps: nat) -> (Outcome, Seq<char>)
    decreases steps,
{
    if steps == 0 {
        (Outcome::OutOfSteps, Seq::empty())
    } else {
        match step_view(m) {
            Err(e) => (Outcome::Failed(e), Seq::empty()),
            Ok((m2, Event::Halt)) => (Outcome::Halted, Seq::empty()),
            Ok((m2, Event::Output(ch))) => {
                let (o, out) = run_view(m2, input, (steps - 1) as nat);
                (o, seq![ch] + out)
            },
            Ok((m2, Event::Input)) => run_view(
                input_view(m2, head(input)),
                tail(input),
                (steps - 1) as nat,
            ),
            Ok((m2, Event::Continue)) => run_view(m2, input, (steps - 1) as nat),
        }
    }
}

/// Runs `program` from its first word for at most `max_steps` instructions,
/// reading bytes from `input` and collecting the characters it emits.
pub fn run(program: Vec<u32>, input: &Vec<u8>, max_steps: u64) -> (r: RunResult)
    ensures
        r.outcome == run_view(initial_view(program@), input@, max_steps as nat).0,
        r.output@ == run_view(initial_view(program@), input@, max_steps as nat).1,
{
    let mut m = Machine::new(program);
    run_machine(&mut m, input, max_steps)
}

/// Runs `m` for at most `max_steps` instructions, reading bytes from `input`
/// and collecting the characters it emits.
pub fn run_machine(m: &mut Machine, input: &Vec<u8>, max_steps: u64) -> (r: RunResult)
    requires
        old(m).wf(),
    ensures
        final(m).wf(),
        r.outcome == run_view(old(m)@, input@, max_steps as nat).0,
        r.output@ == run_view(old(m)@, input@, max_steps as nat).1,
{
    let ghost start = m@;
    let mut output: Vec<char> = Vec::new();
    let mut pos: usize = 0;
    let mut left: u64 = max_steps;
    assert(input@.subrange(0, input.len() as int) =~= input@);
    assert(Seq::<char>::empty() + run_view(m@, input@, max_steps as nat).1 =~= run_view(m@, input@, max_steps as nat).1);
    loop
        invariant
            start == old(m)@,
            m.wf(),
            pos <= input.len(),
            run_view(start, input@, max_steps as nat).0 == run_view(
                m@,
                input@.subrange(pos as int, input.len() as int),
                left as nat,
            ).0,
            run_view(start, input@, max_steps as nat).1 == output@ + run_view(
                m@,
                input@.subrange(pos as int, input.len() as int),
                left as nat,
            ).1,
        decreases left,
    {
        let ghost pre = m@;
        let ghost rest_in = input@.subrange(pos as int, input.len() as int);
        let ghost steps = left as nat;
        if left == 0 {
            assert(run_view(pre, rest_in, 0) == (Outcome::OutOfSteps, Seq::<char>::empty()));
            assert(output@ + Seq::<char>::empty() =~= output@);
            return RunResult { outcome: Outcome::OutOfSteps, output };
        }
        left = left - 1;
        match m.step() {
            Err(e) => {
                assert(run_view(pre, rest_in, steps) == (Outcome::Failed(e), Seq::<char>::empty()));
                assert(output@ + Seq::<char>::empty() =~= output@);
                return RunResult { outcome: Outcome::Failed(e), output };
            },
            Ok(Event::Halt) => {
                assert(run_view(pre, rest_in, steps) == (Outcome::Halted, Seq::<char>::empty()));
                assert(output@ + Seq::<char>::empty() =~= output@);
                return RunResult { outcome: Outcome::Halted, output };
            },
            Ok(Event::Output(ch)) => {
                let ghost before = output@;
                output.push(ch);
                proof {
                    let (o, out) = run_view(m@, rest_in, left as nat);
                    assert(before + (seq![ch] + out) =~= output@ + out);
                }
            },
            Ok(Event::Input) => {
                proof {
                    lemma_input_event(pre);
                }
                if pos < input.len() {
                    m.provide_input(Some(input[pos]));
                    pos = pos + 1;
                    assert(input@.subrange(pos as int, input.len() as int) =~= tail(rest_in));
                } else {
                    m.provide_input(None);
                    assert(input@.subrange(pos as int, input.len() as int) =~= tail(rest_in));
                }
            },
            Ok(Event::Continue) => {},
        }
    }
}

} // verus!
