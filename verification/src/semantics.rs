//! Small-step semantics of the machine, stated over ghost states.
//!
//! [`step`] gives the effect of the single instruction under the program
//! counter; [`run_from`] iterates it for a given amount of fuel.  A run of the
//! executable machine is correct exactly when some fuel makes [`run_from`]
//! reach the same terminal outcome.

use vstd::prelude::*;
use vstd::wrapping::i64_specs;

use crate::instruction::Instruction;

verus! {

/// Why a program step failed: the program referenced a memory address or a
/// jump target outside the machine's bounds.
#[derive(Clone, Copy, Eq, PartialEq, Structural, Debug)]
pub enum ProgramError {
    /// A memory-addressed instruction named an address outside the
    /// sixteen-cell memory bank; the payload is that address.
    OutOfBoundsAddress(usize),
    /// A jump named a 1-indexed line outside the program; the payload is that
    /// line number.
    OutOfBoundsJump(usize),
}

/// The complete abstract state of a machine: the two queues, the accumulator,
/// the program counter, the loaded program and the memory bank.
#[verifier::ext_equal]
pub ghost struct State {
    pub inbox: Seq<i64>,
    pub outbox: Seq<i64>,
    pub acc: i64,
    pub pc: nat,
    pub program: Seq<Instruction>,
    pub mem: Seq<i64>,
}

/// The outcome of zero or more steps: still running in some state, halted in
/// a final state, or failed at a state with a program error.
#[verifier::ext_equal]
pub ghost enum Outcome {
    Running(State),
    Halted(State),
    Failed(ProgramError, State),
}

/// The memory bank as construction leaves it: sixteen zeroed cells.
pub open spec fn zeroed_memory() -> Seq<i64> {
    Seq::new(16, |i: int| 0i64)
}

impl State {
    /// Well-formedness: the program ends in the halt sentinel, the program
    /// counter is in bounds, and the memory bank has its fixed size.
    pub open spec fn wf(self) -> bool {
        &&& self.program.len() >= 1
        &&& self.program.last() == Instruction::__Halt
        &&& self.pc < self.program.len()
        &&& self.mem.len() == 16
    }

    /// The same state with the input queue replaced, as a run seeds it.
    pub open spec fn with_inbox(self, inbox: Seq<i64>) -> State {
        State { inbox: inbox, ..self }
    }
}

/// The outcome of taking a jump to the 1-indexed line `line` in state `s`.
pub open spec fn jump_outcome(s: State, line: usize) -> Outcome {
    if 1 <= line && line <= s.program.len() {
        Outcome::Running(State { pc: (line - 1) as nat, ..s })
    } else {
        Outcome::Failed(ProgramError::OutOfBoundsJump(line), s)
    }
}

/// The effect of executing the single instruction under the program counter
/// of `s`.  Reading an empty inbox and the halt sentinel are the two halt
/// conditions; out-of-bounds addresses and jump targets fail.
pub open spec fn step(s: State) -> Outcome {
    match s.program[s.pc as int] {
        Instruction::Inbox => if s.inbox.len() == 0 {
            Outcome::Halted(s)
        } else {
            Outcome::Running(
                (State {
                    acc: s.inbox[0],
                    inbox: s.inbox.drop_first(),
                    pc: s.pc + 1,
                    ..s
                }),
            )
        },
        Instruction::Outbox => Outcome::Running(
            (State { outbox: s.outbox.push(s.acc), pc: s.pc + 1, ..s }),
        ),
        Instruction::CopyFrom(a) => if a < 16 {
            Outcome::Running((State { acc: s.mem[a as int], pc: s.pc + 1, ..s }))
        } else {
            Outcome::Failed(ProgramError::OutOfBoundsAddress(a), s)
        },
        Instruction::CopyTo(a) => if a < 16 {
            Outcome::Running(
                (State { mem: s.mem.update(a as int, s.acc), pc: s.pc + 1, ..s }),
            )
        } else {
            Outcome::Failed(ProgramError::OutOfBoundsAddress(a), s)
        },
        Instruction::Add(a) => if a < 16 {
            Outcome::Running(
                (State {
                    acc: i64_specs::wrapping_add(s.acc, s.mem[a as int]),
                    pc: s.pc + 1,
                    ..s
                }),
            )
        } else {
            Outcome::Failed(ProgramError::OutOfBoundsAddress(a), s)
        },
        Instruction::Sub(a) => if a < 16 {
            Outcome::Running(
                (State {
                    acc: i64_specs::wrapping_sub(s.acc, s.mem[a as int]),
                    pc: s.pc + 1,
                    ..s
                }),
            )
        } else {
            Outcome::Failed(ProgramError::OutOfBoundsAddress(a), s)
        },
        Instruction::Inc(a) => if a < 16 {
            Outcome::Running(
                (State {
                    mem: s.mem.update(a as int, i64_specs::wrapping_add(s.mem[a as int], 1)),
                    acc: i64_specs::wrapping_add(s.mem[a as int], 1),
                    pc: s.pc + 1,
                    ..s
                }),
            )
        } else {
            Outcome::Failed(ProgramError::OutOfBoundsAddress(a), s)
        },
        Instruction::Dec(a) => if a < 16 {
            Outcome::Running(
                (State {
                    mem: s.mem.update(a as int, i64_specs::wrapping_sub(s.mem[a as int], 1)),
                    acc: i64_specs::wrapping_sub(s.mem[a as int], 1),
                    pc: s.pc + 1,
                    ..s
                }),
            )
        } else {
            Outcome::Failed(ProgramError::OutOfBoundsAddress(a), s)
        },
        Instruction::Jump(line) => jump_outcome(s, line),
        Instruction::JumpIfZero(line) => if s.acc == 0 {
            jump_outcome(s, line)
        } else {
            Outcome::Running((State { pc: s.pc + 1, ..s }))
        },
        Instruction::JumpIfNeg(line) => if s.acc < 0 {
            jump_outcome(s, line)
        } else {
            Outcome::Running((State { pc: s.pc + 1, ..s }))
        },
        Instruction::__Halt => Outcome::Halted(s),
    }
}

/// Iterate [`step`] for at most `fuel` steps from `s`.  A terminal outcome
/// (halted or failed) is kept once reached; with the fuel spent the result is
/// `Running` at the state reached so far.
pub open spec fn run_from(s: State, fuel: nat) -> Outcome
    decreases fuel,
{
    if fuel == 0 {
        Outcome::Running(s)
    } else {
        match step(s) {
            Outcome::Running(s2) => run_from(s2, (fuel - 1) as nat),
            Outcome::Halted(h) => Outcome::Halted(h),
            Outcome::Failed(e, f) => Outcome::Failed(e, f),
        }
    }
}

/// True when execution from `s` reaches a terminal outcome — a halt or a
/// program error — after some number of steps.
pub open spec fn halts(s: State) -> bool {
    exists|n: nat| !((#[trigger] run_from(s, n)) is Running)
}

/// Spending one more unit of fuel from a still-running execution takes
/// exactly one more step from the state reached.
pub proof fn lemma_run_from_step_end(s: State, n: nat, m: State)
    requires
        run_from(s, n) == Outcome::Running(m),
    ensures
        run_from(s, n + 1) == step(m),
    decreases n,
{
    if n == 0 {
        assert(run_from(s, 1) == step(m)) by {
            reveal_with_fuel(run_from, 2);
        }
    } else {
        match step(s) {
            Outcome::Running(s2) => {
                lemma_run_from_step_end(s2, (n - 1) as nat, m);
            },
            Outcome::Halted(_) => {},
            Outcome::Failed(_, _) => {},
        }
    }
}

/// A terminal outcome is stable: extra fuel does not change it.
pub proof fn lemma_run_from_terminal(s: State, n: nat, m: nat)
    requires
        n <= m,
        !(run_from(s, n) is Running),
    ensures
        run_from(s, m) == run_from(s, n),
    decreases n,
{
    if n == 0 {
        // run_from(s, 0) is always Running, contradicting the hypothesis.
    } else {
        match step(s) {
            Outcome::Running(s2) => {
                lemma_run_from_terminal(s2, (n - 1) as nat, (m - 1) as nat);
            },
            Outcome::Halted(_) => {},
            Outcome::Failed(_, _) => {},
        }
    }
}

/// Fuel composes: running `a` steps to a still-running state `m` and then
/// `b` more is the same as running `a + b` steps from the start.
pub proof fn lemma_run_from_compose(s: State, a: nat, b: nat, m: State)
    requires
        run_from(s, a) == Outcome::Running(m),
    ensures
        run_from(s, a + b) == run_from(m, b),
    decreases a,
{
    if a == 0 {
    } else {
        match step(s) {
            Outcome::Running(s2) => {
                lemma_run_from_compose(s2, (a - 1) as nat, b, m);
            },
            Outcome::Halted(_) => {},
            Outcome::Failed(_, _) => {},
        }
    }
}

} // verus!
