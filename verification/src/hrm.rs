//! The executable machine: the runtime state and its fetch-decode-execute
//! loop, verified against the small-step semantics in [`crate::semantics`].

use vstd::prelude::*;
use vstd::pervasive::VecAdditionalExecFns;
use vstd::wrapping::i64_specs;

use crate::instruction::Instruction;
use crate::semantics::{
    halts, lemma_run_from_step_end, lemma_run_from_terminal, run_from, step, zeroed_memory,
    Outcome, ProgramError, State,
};

verus! {

/// What the dispatched instruction decided for the fetch loop: fall through
/// to the next line, jump to an absolute 0-indexed target, or stop.
#[derive(Debug, Copy, Clone, Eq, PartialEq)]
enum Next {
    Continue,
    Jump(usize),
    Halt,
}

/// The complete runtime state of one machine: the input and output queues,
/// the accumulator, the program counter, the loaded program and the
/// sixteen-cell memory bank.
pub struct Hrm {
    inbox: Vec<i64>,
    outbox: Vec<i64>,
    current_value: i64,
    instruction_ptr: usize,
    instructions: Vec<Instruction>,
    memory: Vec<i64>,
}

impl View for Hrm {
    type V = State;

    closed spec fn view(&self) -> State {
        State {
            inbox: self.inbox@,
            outbox: self.outbox@,
            acc: self.current_value,
            pc: self.instruction_ptr as nat,
            program: self.instructions@,
            mem: self.memory@,
        }
    }
}

impl Hrm {
    /// The machine's invariant, established by `new` and preserved by `run`.
    pub open spec fn wf(self) -> bool {
        self@.wf()
    }

    /// Creates a new machine loaded with the given instructions, with the
    /// halt sentinel appended so the fetch loop always has a terminal
    /// instruction to land on.
    pub fn new(instructions: Vec<Instruction>) -> (r: Hrm)
        ensures
            r.wf(),
            r@.program == instructions@.push(Instruction::__Halt),
            r@.inbox == Seq::<i64>::empty(),
            r@.outbox == Seq::<i64>::empty(),
            r@.acc == 0i64,
            r@.pc == 0,
            r@.mem == zeroed_memory(),
    {
        let mut instructions = instructions;
        instructions.push(Instruction::__Halt);
        let mut memory: Vec<i64> = Vec::new();
        while memory.len() < 16
            invariant
                memory@.len() <= 16,
                forall|i: int| 0 <= i < memory@.len() ==> memory@[i] == 0i64,
            decreases 16 - memory@.len(),
        {
            memory.push(0);
        }
        proof {
            assert(memory@ =~= zeroed_memory());
        }
        Hrm {
            inbox: Vec::new(),
            outbox: Vec::new(),
            current_value: 0,
            instruction_ptr: 0,
            instructions,
            memory,
        }
    }

    /// Grab the next value in the inbox, halt if empty.
    fn inbox(&mut self) -> (n: Next)
        ensures
            old(self)@.inbox.len() == 0 ==> n == Next::Halt && *final(self) == *old(self),
            old(self)@.inbox.len() > 0 ==> n == Next::Continue && final(self)@ == (State {
                acc: old(self)@.inbox[0],
                inbox: old(self)@.inbox.drop_first(),
                ..old(self)@
            }),
    {
        if self.inbox.len() > 0 {
            let value: i64 = self.inbox.remove(0);
            self.current_value = value;
            proof {
                assert(self@.inbox =~= old(self)@.inbox.drop_first());
                assert(self@ =~= (State {
                    acc: old(self)@.inbox[0],
                    inbox: old(self)@.inbox.drop_first(),
                    ..old(self)@
                }));
            }
            Next::Continue
        } else {
            Next::Halt
        }
    }

    /// Deposit the currently held value into the outbox.
    fn outbox(&mut self) -> (n: Next)
        ensures
            n == Next::Continue,
            final(self)@ == (State {
                outbox: old(self)@.outbox.push(old(self)@.acc),
                ..old(self)@
            }),
    {
        self.outbox.push(self.current_value);
        proof {
            assert(self@ =~= (State {
                outbox: old(self)@.outbox.push(old(self)@.acc),
                ..old(self)@
            }));
        }
        Next::Continue
    }

    /// Makes the currently held value a copy of a location in memory.
    fn copy_from(&mut self, location: usize) -> (r: Result<Next, ProgramError>)
        requires
            old(self)@.mem.len() == 16,
        ensures
            match r {
                Ok(n) => location < 16 && n == Next::Continue && final(self)@ == (State {
                    acc: old(self)@.mem[location as int],
                    ..old(self)@
                }),
                Err(e) => location >= 16 && e == ProgramError::OutOfBoundsAddress(location)
                    && *final(self) == *old(self),
            },
    {
        if location < 16 {
            self.current_value = self.memory[location];
            proof {
                assert(self@ =~= (State { acc: old(self)@.mem[location as int], ..old(self)@ }));
            }
            Ok(Next::Continue)
        } else {
            Err(ProgramError::OutOfBoundsAddress(location))
        }
    }

    /// Copies the currently held value to a location in memory.
    fn copy_to(&mut self, location: usize) -> (r: Result<Next, ProgramError>)
        requires
            old(self)@.mem.len() == 16,
        ensures
            match r {
                Ok(n) => location < 16 && n == Next::Continue && final(self)@ == (State {
                    mem: old(self)@.mem.update(location as int, old(self)@.acc),
                    ..old(self)@
                }),
                Err(e) => location >= 16 && e == ProgramError::OutOfBoundsAddress(location)
                    && *final(self) == *old(self),
            },
    {
        if location < 16 {
            self.memory.set(location, self.current_value);
            proof {
                assert(self@ =~= (State {
                    mem: old(self)@.mem.update(location as int, old(self)@.acc),
                    ..old(self)@
                }));
            }
            Ok(Next::Continue)
        } else {
            Err(ProgramError::OutOfBoundsAddress(location))
        }
    }

    /// Adds a value in memory to the currently held value, wrapping on
    /// overflow.
    fn add(&mut self, location: usize) -> (r: Result<Next, ProgramError>)
        requires
            old(self)@.mem.len() == 16,
        ensures
            match r {
                Ok(n) => location < 16 && n == Next::Continue && final(self)@ == (State {
                    acc: i64_specs::wrapping_add(old(self)@.acc, old(self)@.mem[location as int]),
                    ..old(self)@
                }),
                Err(e) => location >= 16 && e == ProgramError::OutOfBoundsAddress(location)
                    && *final(self) == *old(self),
            },
    {
        if location < 16 {
            let operand: i64 = self.memory[location];
            self.current_value = self.current_value.wrapping_add(operand);
            proof {
                assert(self@ =~= (State {
                    acc: i64_specs::wrapping_add(old(self)@.acc, old(self)@.mem[location as int]),
                    ..old(self)@
                }));
            }
            Ok(Next::Continue)
        } else {
            Err(ProgramError::OutOfBoundsAddress(location))
        }
    }

    /// Subtracts a value in memory from the currently held value, wrapping on
    /// overflow.
    fn sub(&mut self, location: usize) -> (r: Result<Next, ProgramError>)
        requires
            old(self)@.mem.len() == 16,
        ensures
            match r {
                Ok(n) => location < 16 && n == Next::Continue && final(self)@ == (State {
                    acc: i64_specs::wrapping_sub(old(self)@.acc, old(self)@.mem[location as int]),
                    ..old(self)@
                }),
                Err(e) => location >= 16 && e == ProgramError::OutOfBoundsAddress(location)
                    && *final(self) == *old(self),
            },
    {
        if location < 16 {
            let operand: i64 = self.memory[location];
            self.current_value = self.current_value.wrapping_sub(operand);
            proof {
                assert(self@ =~= (State {
                    acc: i64_specs::wrapping_sub(old(self)@.acc, old(self)@.mem[location as int]),
                    ..old(self)@
                }));
            }
            Ok(Next::Continue)
        } else {
            Err(ProgramError::OutOfBoundsAddress(location))
        }
    }

    /// Increments a value in memory and picks up the bumped value.
    /// NB: This is known as Bump+ in the game.
    fn inc(&mut self, location: usize) -> (r: Result<Next, ProgramError>)
        requires
            old(self)@.mem.len() == 16,
        ensures
            match r {
                Ok(n) => location < 16 && n == Next::Continue && final(self)@ == (State {
                    mem: old(self)@.mem.update(
                        location as int,
                        i64_specs::wrapping_add(old(self)@.mem[location as int], 1),
                    ),
                    acc: i64_specs::wrapping_add(old(self)@.mem[location as int], 1),
                    ..old(self)@
                }),
                Err(e) => location >= 16 && e == ProgramError::OutOfBoundsAddress(location)
                    && *final(self) == *old(self),
            },
    {
        if location < 16 {
            let bumped: i64 = self.memory[location].wrapping_add(1);
            self.memory.set(location, bumped);
            self.current_value = bumped;
            proof {
                assert(self@ =~= (State {
                    mem: old(self)@.mem.update(
                        location as int,
                        i64_specs::wrapping_add(old(self)@.mem[location as int], 1),
                    ),
                    acc: i64_specs::wrapping_add(old(self)@.mem[location as int], 1),
                    ..old(self)@
                }));
            }
            Ok(Next::Continue)
        } else {
            Err(ProgramError::OutOfBoundsAddress(location))
        }
    }

    /// Decrements a value in memory and picks up the bumped value.
    /// NB: This is known as Bump- in the game.
    fn dec(&mut self, location: usize) -> (r: Result<Next, ProgramError>)
        requires
            old(self)@.mem.len() == 16,
        ensures
            match r {
                Ok(n) => location < 16 && n == Next::Continue && final(self)@ == (State {
                    mem: old(self)@.mem.update(
                        location as int,
                        i64_specs::wrapping_sub(old(self)@.mem[location as int], 1),
                    ),
                    acc: i64_specs::wrapping_sub(old(self)@.mem[location as int], 1),
                    ..old(self)@
                }),
                Err(e) => location >= 16 && e == ProgramError::OutOfBoundsAddress(location)
                    && *final(self) == *old(self),
            },
    {
        if location < 16 {
            let bumped: i64 = self.memory[location].wrapping_sub(1);
            self.memory.set(location, bumped);
            self.current_value = bumped;
            proof {
                assert(self@ =~= (State {
                    mem: old(self)@.mem.update(
                        location as int,
                        i64_specs::wrapping_sub(old(self)@.mem[location as int], 1),
                    ),
                    acc: i64_specs::wrapping_sub(old(self)@.mem[location as int], 1),
                    ..old(self)@
                }));
            }
            Ok(Next::Continue)
        } else {
            Err(ProgramError::OutOfBoundsAddress(location))
        }
    }

    /// Resolves a jump to the 1-indexed line `line`: in bounds it yields the
    /// 0-indexed target, out of bounds it is a program error.
    fn jump(&mut self, line: usize) -> (r: Result<Next, ProgramError>)
        ensures
            *final(self) == *old(self),
            match r {
                Ok(n) => 1 <= line <= old(self)@.program.len()
                    && n == Next::Jump((line - 1) as usize),
                Err(e) => !(1 <= line <= old(self)@.program.len())
                    && e == ProgramError::OutOfBoundsJump(line),
            },
    {
        if 1 <= line && line <= self.instructions.len() {
            Ok(Next::Jump(line - 1))
        } else {
            Err(ProgramError::OutOfBoundsJump(line))
        }
    }

    /// Jumps to a 1-indexed line number if the currently held value is zero.
    fn jump_if_zero(&mut self, line: usize) -> (r: Result<Next, ProgramError>)
        ensures
            *final(self) == *old(self),
            match r {
                Ok(n) => (old(self)@.acc == 0 && 1 <= line <= old(self)@.program.len()
                    && n == Next::Jump((line - 1) as usize))
                    || (old(self)@.acc != 0 && n == Next::Continue),
                Err(e) => old(self)@.acc == 0 && !(1 <= line <= old(self)@.program.len())
                    && e == ProgramError::OutOfBoundsJump(line),
            },
    {
        if self.current_value == 0 {
            self.jump(line)
        } else {
            Ok(Next::Continue)
        }
    }

    /// Jumps to a 1-indexed line number if the currently held value is
    /// negative.
    fn jump_if_neg(&mut self, line: usize) -> (r: Result<Next, ProgramError>)
        ensures
            *final(self) == *old(self),
            match r {
                Ok(n) => (old(self)@.acc < 0 && 1 <= line <= old(self)@.program.len()
                    && n == Next::Jump((line - 1) as usize))
                    || (old(self)@.acc >= 0 && n == Next::Continue),
                Err(e) => old(self)@.acc < 0 && !(1 <= line <= old(self)@.program.len())
                    && e == ProgramError::OutOfBoundsJump(line),
            },
    {
        if self.current_value < 0 {
            self.jump(line)
        } else {
            Ok(Next::Continue)
        }
    }

    /// Runs the program against the given inbox, in a fetch-decode-execute
    /// loop, until it halts (by reading an empty inbox or reaching the halt
    /// sentinel) or fails at an out-of-bounds address or jump target.
    ///
    /// The run returns `Ok` exactly when the small-step semantics, started
    /// from this machine's state seeded with `inbox`, reaches a halt, and
    /// the outbox returned is exactly the halting state's; otherwise it
    /// returns the program error of the failing step.  By
    /// [`crate::laws::lemma_terminal_outcome_unique`] that terminal outcome
    /// is unique.
    ///
    /// The caller vouches that the seeded execution reaches a terminal
    /// outcome at all (`halts`); a program that jumps forever has no result
    /// to return, and this function is proved total.
    pub fn run(&mut self, inbox: Vec<i64>) -> (r: Result<Vec<i64>, ProgramError>)
        requires
            old(self).wf(),
            halts(old(self)@.with_inbox(inbox@)),
        ensures
            final(self).wf(),
            final(self)@.program == old(self)@.program,
            (r is Ok) <==> exists|n: nat| (#[trigger] run_from(
                old(self)@.with_inbox(inbox@),
                n,
            )) is Halted,
            match r {
                Ok(out) => out@ == final(self)@.outbox && exists|n: nat| #[trigger] run_from(
                    old(self)@.with_inbox(inbox@),
                    n,
                ) == Outcome::Halted(final(self)@),
                Err(e) => exists|n: nat| #[trigger] run_from(old(self)@.with_inbox(inbox@), n)
                    == Outcome::Failed(e, final(self)@),
            },
    {
        self.inbox = inbox;
        let ghost init: State = self@;
        let ghost mut steps: nat = 0;
        proof {
            assert(init =~= old(self)@.with_inbox(inbox@));
            assert(halts(init));
        }
        let ghost fuel: nat = choose|n: nat| !((#[trigger] run_from(init, n)) is Running);
        proof {
            assert(run_from(init, 0) == Outcome::Running(init));
        }

        loop
            invariant
                self.wf(),
                init == old(self)@.with_inbox(inbox@),
                self@.program == old(self)@.program,
                run_from(init, steps) == Outcome::Running(self@),
                !(run_from(init, fuel) is Running),
                steps < fuel,
            decreases fuel - steps,
        {
            let ghost pre: State = self@;
            proof {
                // The program is held in a Vec, so its length fits in usize
                // and the fall-through increment below cannot overflow.
                assert(self.instructions.len() == pre.program.len());
            }
            let current_instruction = self.instructions[self.instruction_ptr];

            let next = match current_instruction {
                Instruction::Inbox => Ok(self.inbox()),
                Instruction::Outbox => Ok(self.outbox()),
                Instruction::CopyFrom(location) => self.copy_from(location),
                Instruction::CopyTo(location) => self.copy_to(location),
                Instruction::Add(location) => self.add(location),
                Instruction::Sub(location) => self.sub(location),
                Instruction::Inc(location) => self.inc(location),
                Instruction::Dec(location) => self.dec(location),
                Instruction::Jump(line) => self.jump(line),
                Instruction::JumpIfZero(line) => self.jump_if_zero(line),
                Instruction::JumpIfNeg(line) => self.jump_if_neg(line),
                Instruction::__Halt => Ok(Next::Halt),
            };

            match next {
                Ok(Next::Continue) => {
                    proof {
                        lemma_run_from_step_end(init, steps, pre);
                        assert(pre.pc + 1 < pre.program.len());
                        assert(step(pre) =~= Outcome::Running(
                            (State { pc: pre.pc + 1, ..self@ }),
                        ));
                    }
                    self.instruction_ptr = self.instruction_ptr + 1;
                    proof {
                        steps = steps + 1;
                        assert(run_from(init, steps) == Outcome::Running(self@));
                    }
                },
                Ok(Next::Jump(target)) => {
                    proof {
                        lemma_run_from_step_end(init, steps, pre);
                        assert(target < pre.program.len());
                        assert(step(pre) =~= Outcome::Running(
                            (State { pc: target as nat, ..self@ }),
                        ));
                    }
                    self.instruction_ptr = target;
                    proof {
                        steps = steps + 1;
                        assert(run_from(init, steps) == Outcome::Running(self@));
                    }
                },
                Ok(Next::Halt) => {
                    proof {
                        lemma_run_from_step_end(init, steps, pre);
                        assert(step(pre) =~= Outcome::Halted(self@));
                        assert(run_from(init, steps + 1) == Outcome::Halted(self@));
                    }
                    let mut result: Vec<i64> = Vec::new();
                    let mut i: usize = 0;
                    while i < self.outbox.len()
                        invariant
                            i <= self.outbox@.len(),
                            result@ == self.outbox@.subrange(0, i as int),
                        decreases self.outbox@.len() - i,
                    {
                        result.push(self.outbox[i]);
                        i = i + 1;
                    }
                    proof {
                        assert(result@ =~= self@.outbox);
                    }
                    return Ok(result);
                },
                Err(error) => {
                    proof {
                        lemma_run_from_step_end(init, steps, pre);
                        assert(step(pre) =~= Outcome::Failed(error, self@));
                        assert(run_from(init, steps + 1) == Outcome::Failed(error, self@));
                        assert forall|n: nat| !((#[trigger] run_from(init, n)) is Halted) by {
                            if run_from(init, n) is Halted {
                                if n <= steps + 1 {
                                    lemma_run_from_terminal(init, n, steps + 1);
                                } else {
                                    lemma_run_from_terminal(init, steps + 1, n);
                                }
                            }
                        }
                    }
                    return Err(error);
                },
            }
        }
    }
}

} // verus!
