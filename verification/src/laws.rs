//! General properties of the machine's semantics, proved once and for all
//! over the ghost states of [`crate::semantics`].

use vstd::prelude::*;

use crate::instruction::Instruction;
use crate::semantics::{
    lemma_run_from_compose, lemma_run_from_terminal, run_from, step, zeroed_memory, Outcome,
    ProgramError, State,
};

verus! {

/// Law: execution is deterministic.  Any two terminal outcomes reached from
/// the same state, with whatever amounts of fuel, are the same outcome.
pub proof fn lemma_terminal_outcome_unique(s: State, n1: nat, n2: nat)
    requires
        !(run_from(s, n1) is Running),
        !(run_from(s, n2) is Running),
    ensures
        run_from(s, n1) == run_from(s, n2),
{
    if n1 <= n2 {
        lemma_run_from_terminal(s, n1, n2);
    } else {
        lemma_run_from_terminal(s, n2, n1);
    }
}

/// Law: every step taken from a well-formed state leaves a well-formed
/// state, so the program counter is a valid index at the start of every
/// fetch.  Fall-through never walks past the end because the final
/// instruction — the halt sentinel appended at construction — never falls
/// through, and every taken jump is bounds-checked.
pub proof fn lemma_step_preserves_wf(s: State)
    requires
        s.wf(),
    ensures
        match step(s) {
            Outcome::Running(s2) => s2.wf(),
            Outcome::Halted(h) => h.wf(),
            Outcome::Failed(_, f) => f.wf(),
        },
{
}

/// Law: a conditional jump never alters the accumulator, the memory bank or
/// the two queues; it only redirects the program counter — to the jump's
/// target when the condition holds, to the next line when it does not — or
/// fails, leaving the state untouched, when the jump is taken to a line out
/// of bounds.
pub proof fn lemma_conditional_jump_preserves_state(s: State)
    requires
        s.pc < s.program.len(),
        (s.program[s.pc as int] matches Instruction::JumpIfZero(_))
            || (s.program[s.pc as int] matches Instruction::JumpIfNeg(_)),
    ensures
        match step(s) {
            Outcome::Running(s2) => s2.acc == s.acc && s2.mem == s.mem && s2.inbox == s.inbox
                && s2.outbox == s.outbox && s2.program == s.program && (
                match s.program[s.pc as int] {
                    Instruction::JumpIfZero(line) => if s.acc == 0 {
                        s2.pc + 1 == line
                    } else {
                        s2.pc == s.pc + 1
                    },
                    Instruction::JumpIfNeg(line) => if s.acc < 0 {
                        s2.pc + 1 == line
                    } else {
                        s2.pc == s.pc + 1
                    },
                    _ => false,
                }
            ),
            Outcome::Halted(_) => false,
            Outcome::Failed(e, s2) => s2 == s && (e matches ProgramError::OutOfBoundsJump(_)),
        },
{
}

/// Law: `CopyTo(a)` followed by `CopyFrom(a)` leaves the accumulator exactly
/// where it started: writing the held value to a cell and reading the same
/// cell back is the identity on the accumulator.
pub proof fn lemma_copy_to_then_copy_from(s: State, a: usize)
    requires
        s.pc + 1 < s.program.len(),
        s.program[s.pc as int] == Instruction::CopyTo(a),
        s.program[s.pc as int + 1] == Instruction::CopyFrom(a),
        a < 16,
        s.mem.len() == 16,
    ensures
        step(s) is Running,
        step(step(s)->Running_0) is Running,
        step(step(s)->Running_0)->Running_0.acc == s.acc,
{
}

/// Law: `Inc(a)` immediately followed by `CopyFrom(a)` gives the same
/// accumulator and the same memory as the `Inc(a)` alone, since the bump
/// already picks up the bumped value; only the program counter moves on.
pub proof fn lemma_inc_then_copy_from(s: State, a: usize)
    requires
        s.pc + 1 < s.program.len(),
        s.program[s.pc as int] == Instruction::Inc(a),
        s.program[s.pc as int + 1] == Instruction::CopyFrom(a),
        a < 16,
        s.mem.len() == 16,
    ensures
        step(s) is Running,
        step(step(s)->Running_0) is Running,
        step(step(s)->Running_0)->Running_0.acc == step(s)->Running_0.acc,
        step(step(s)->Running_0)->Running_0.mem == step(s)->Running_0.mem,
{
}

/// The echo program as the machine stores it after construction:
/// `Inbox; Outbox; Jump(1)` with the halt sentinel appended.
pub open spec fn echo_program() -> Seq<Instruction> {
    seq![
        Instruction::Inbox,
        Instruction::Outbox,
        Instruction::Jump(1),
        Instruction::__Halt,
    ]
}

/// The start state of a fresh machine loaded with `program` and seeded with
/// `input`.
pub open spec fn fresh_start(program: Seq<Instruction>, input: Seq<i64>) -> State {
    State {
        inbox: input,
        outbox: Seq::<i64>::empty(),
        acc: 0i64,
        pc: 0,
        program: program,
        mem: zeroed_memory(),
    }
}

/// `n` units of fuel take `s` to a halt whose outbox is exactly `out` and
/// whose inbox has been fully consumed.
pub open spec fn halts_with(s: State, n: nat, out: Seq<i64>) -> bool {
    run_from(s, n) matches Outcome::Halted(h) && h.outbox == out && h.inbox.len() == 0
}

/// From the top of the echo loop, the run halts with every remaining input
/// value appended to the outbox, in order.
proof fn lemma_echo_loop(s: State)
    requires
        s.program == echo_program(),
        s.pc == 0,
    ensures
        exists|n: nat| #[trigger] halts_with(s, n, s.outbox + s.inbox),
    decreases s.inbox.len(),
{
    if s.inbox.len() == 0 {
        assert(run_from(s, 1) == Outcome::Halted(s)) by {
            reveal_with_fuel(run_from, 2);
        }
        assert(s.outbox + s.inbox =~= s.outbox);
        assert(halts_with(s, 1, s.outbox + s.inbox));
    } else {
        let s1 = State { acc: s.inbox[0], inbox: s.inbox.drop_first(), pc: 1, ..s };
        let s2 = State { outbox: s.outbox.push(s.inbox[0]), pc: 2, ..s1 };
        let s3 = State { pc: 0, ..s2 };
        assert(step(s) =~= Outcome::Running(s1));
        assert(step(s1) =~= Outcome::Running(s2));
        assert(step(s2) =~= Outcome::Running(s3));
        assert(run_from(s, 3) == Outcome::Running(s3)) by {
            reveal_with_fuel(run_from, 4);
        }
        lemma_echo_loop(s3);
        let n3: nat = choose|n: nat| #[trigger] halts_with(s3, n, s3.outbox + s3.inbox);
        lemma_run_from_compose(s, 3, n3, s3);
        assert(s3.outbox + s3.inbox =~= s.outbox + s.inbox);
        assert(halts_with(s, 3 + n3, s.outbox + s.inbox));
    }
}

/// Law: the echo program `Inbox; Outbox; Jump(1)` (1-indexed), run on any
/// input, halts exactly when the input is exhausted, having copied the whole
/// input to the output in the same order.
pub proof fn lemma_echo_program_copies_input(input: Seq<i64>)
    ensures
        exists|n: nat| #[trigger] halts_with(fresh_start(echo_program(), input), n, input),
{
    let s = fresh_start(echo_program(), input);
    lemma_echo_loop(s);
    let n: nat = choose|m: nat| #[trigger] halts_with(s, m, s.outbox + s.inbox);
    assert(s.outbox + s.inbox =~= input);
}

/// Law: a program whose only instruction is the halt sentinel halts after a
/// single step on any input, emitting nothing and consuming nothing — and
/// more fuel never changes that outcome.
pub proof fn lemma_halt_alone_emits_nothing(input: Seq<i64>)
    ensures
        run_from(
            fresh_start(seq![Instruction::__Halt, Instruction::__Halt], input),
            1,
        ) == Outcome::Halted(fresh_start(seq![Instruction::__Halt, Instruction::__Halt], input)),
        forall|n: nat| n >= 1 ==> run_from(
            fresh_start(seq![Instruction::__Halt, Instruction::__Halt], input),
            n,
        ) == Outcome::Halted(
            fresh_start(seq![Instruction::__Halt, Instruction::__Halt], input),
        ),
{
    let s = fresh_start(seq![Instruction::__Halt, Instruction::__Halt], input);
    assert(step(s) == Outcome::Halted(s));
    assert(run_from(s, 1) == Outcome::Halted(s)) by {
        reveal_with_fuel(run_from, 2);
    }
    assert forall|n: nat| n >= 1 implies run_from(s, n) == Outcome::Halted(s) by {
        lemma_run_from_terminal(s, 1, n);
    }
}

} // verus!
