use vstd::prelude::*;

verus! {

/// One operation of the machine's instruction set.
///
/// `CopyFrom`, `CopyTo`, `Add`, `Sub`, `Inc` and `Dec` carry a memory address
/// (an index into the sixteen-cell memory bank).  `Jump`, `JumpIfZero` and
/// `JumpIfNeg` carry a 1-indexed line number, translated to a 0-indexed
/// offset when the jump is taken.
#[derive(Clone, Copy, Eq, PartialEq, Debug)]
pub enum Instruction {
    Inbox,
    Outbox,
    CopyFrom(usize),
    CopyTo(usize),
    Add(usize),
    Sub(usize),
    Inc(usize), // NB: bumping also picks up the bumped value
    Dec(usize),
    Jump(usize),
    JumpIfZero(usize),
    JumpIfNeg(usize),
    // Terminal sentinel: appended to every program at construction so the
    // fetch loop always has a safe instruction to land on.
    __Halt,
}

} // verus!
