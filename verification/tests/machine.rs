use hrm::{Hrm, Instruction, ProgramError};

#[test]
fn echo_copies_input_in_order() {
    let program = vec![Instruction::Inbox, Instruction::Outbox, Instruction::Jump(1)];
    let mut machine = Hrm::new(program);
    let result = machine.run(vec![1, 2, 3]);
    assert_eq!(result, Ok(vec![1, 2, 3]));
}

#[test]
fn echo_halts_at_once_on_empty_input() {
    let program = vec![Instruction::Inbox, Instruction::Outbox, Instruction::Jump(1)];
    let mut machine = Hrm::new(program);
    let result = machine.run(vec![]);
    assert_eq!(result, Ok(vec![]));
}

#[test]
fn halt_alone_emits_nothing() {
    let program = vec![Instruction::__Halt];
    let mut machine = Hrm::new(program);
    let result = machine.run(vec![5, -6, 7]);
    assert_eq!(result, Ok(vec![]));
}

#[test]
fn empty_program_halts_on_appended_sentinel() {
    let mut machine = Hrm::new(vec![]);
    let result = machine.run(vec![1, 2]);
    assert_eq!(result, Ok(vec![]));
}

#[test]
fn program_without_halt_ends_at_appended_sentinel() {
    // The single Outbox falls through to the sentinel that construction
    // appended, so the run terminates instead of fetching past the end.
    let program = vec![Instruction::Outbox];
    let mut machine = Hrm::new(program);
    let result = machine.run(vec![]);
    assert_eq!(result, Ok(vec![0]));
}

#[test]
fn user_supplied_halt_stops_early() {
    let program = vec![Instruction::Inbox, Instruction::__Halt, Instruction::Outbox];
    let mut machine = Hrm::new(program);
    let result = machine.run(vec![9]);
    assert_eq!(result, Ok(vec![]));
}

#[test]
fn copy_to_then_copy_from_keeps_accumulator() {
    let program = vec![
        Instruction::Inbox,
        Instruction::CopyTo(3),
        Instruction::CopyFrom(3),
        Instruction::Outbox,
    ];
    let mut machine = Hrm::new(program);
    let result = machine.run(vec![42]);
    assert_eq!(result, Ok(vec![42]));
}

#[test]
fn inc_then_copy_from_same_as_inc_alone() {
    let with_copy = vec![
        Instruction::Inbox,
        Instruction::CopyTo(2),
        Instruction::Inc(2),
        Instruction::CopyFrom(2),
        Instruction::Outbox,
    ];
    let without_copy = vec![
        Instruction::Inbox,
        Instruction::CopyTo(2),
        Instruction::Inc(2),
        Instruction::Outbox,
    ];
    let mut machine_a = Hrm::new(with_copy);
    let mut machine_b = Hrm::new(without_copy);
    let out_a = machine_a.run(vec![9]);
    let out_b = machine_b.run(vec![9]);
    assert_eq!(out_a, Ok(vec![10]));
    assert_eq!(out_a, out_b);
}

#[test]
fn conditional_jump_taken_keeps_accumulator() {
    // A zero accumulator takes the jump straight to the second Outbox; the
    // emitted value shows the jump left the accumulator untouched.
    let program = vec![
        Instruction::Inbox,
        Instruction::JumpIfZero(4),
        Instruction::Outbox,
        Instruction::Outbox,
    ];
    let mut machine = Hrm::new(program);
    let result = machine.run(vec![0]);
    assert_eq!(result, Ok(vec![0]));
}

#[test]
fn conditional_jump_not_taken_keeps_accumulator() {
    let program = vec![
        Instruction::Inbox,
        Instruction::JumpIfZero(4),
        Instruction::Outbox,
        Instruction::Outbox,
    ];
    let mut machine = Hrm::new(program);
    let result = machine.run(vec![7]);
    assert_eq!(result, Ok(vec![7, 7]));
}

#[test]
fn jump_if_neg_redirects_only_on_negative() {
    let program = vec![
        Instruction::Inbox,
        Instruction::JumpIfNeg(4),
        Instruction::Outbox,
        Instruction::Jump(1),
    ];
    let mut machine = Hrm::new(program);
    let result = machine.run(vec![5, -1]);
    // 5 is emitted; -1 takes the jump to line 4, which loops back to Inbox,
    // and the empty inbox then halts the run.
    assert_eq!(result, Ok(vec![5]));
}

#[test]
fn add_and_sub_go_through_memory() {
    let program = vec![
        Instruction::Inbox,
        Instruction::CopyTo(0),
        Instruction::Inbox,
        Instruction::Add(0),
        Instruction::Outbox,
        Instruction::Sub(0),
        Instruction::Outbox,
    ];
    let mut machine = Hrm::new(program);
    let result = machine.run(vec![3, 4]);
    assert_eq!(result, Ok(vec![7, 4]));
}

#[test]
fn inc_and_dec_bump_memory_and_accumulator() {
    let program = vec![
        Instruction::Inbox,
        Instruction::CopyTo(1),
        Instruction::Inc(1),
        Instruction::Inc(1),
        Instruction::Outbox,
        Instruction::Dec(1),
        Instruction::Outbox,
    ];
    let mut machine = Hrm::new(program);
    let result = machine.run(vec![10]);
    assert_eq!(result, Ok(vec![12, 11]));
}

#[test]
fn add_wraps_on_overflow() {
    let program = vec![
        Instruction::Inbox,
        Instruction::CopyTo(0),
        Instruction::Inbox,
        Instruction::Add(0),
        Instruction::Outbox,
    ];
    let mut machine = Hrm::new(program);
    let result = machine.run(vec![i64::MAX, 1]);
    assert_eq!(result, Ok(vec![i64::MIN]));
}

#[test]
fn dec_wraps_at_minimum() {
    let program = vec![
        Instruction::Inbox,
        Instruction::CopyTo(0),
        Instruction::Dec(0),
        Instruction::Outbox,
    ];
    let mut machine = Hrm::new(program);
    let result = machine.run(vec![i64::MIN]);
    assert_eq!(result, Ok(vec![i64::MAX]));
}

#[test]
fn copy_from_out_of_bounds_address_fails() {
    let program = vec![Instruction::Inbox, Instruction::CopyFrom(16)];
    let mut machine = Hrm::new(program);
    let result = machine.run(vec![1]);
    assert_eq!(result, Err(ProgramError::OutOfBoundsAddress(16)));
}

#[test]
fn copy_to_out_of_bounds_address_fails() {
    let program = vec![Instruction::Inbox, Instruction::CopyTo(99)];
    let mut machine = Hrm::new(program);
    let result = machine.run(vec![1]);
    assert_eq!(result, Err(ProgramError::OutOfBoundsAddress(99)));
}

#[test]
fn jump_past_end_fails() {
    let program = vec![Instruction::Jump(5)];
    let mut machine = Hrm::new(program);
    let result = machine.run(vec![]);
    assert_eq!(result, Err(ProgramError::OutOfBoundsJump(5)));
}

#[test]
fn jump_to_line_zero_fails() {
    let program = vec![Instruction::Jump(0)];
    let mut machine = Hrm::new(program);
    let result = machine.run(vec![]);
    assert_eq!(result, Err(ProgramError::OutOfBoundsJump(0)));
}

#[test]
fn conditional_jump_not_taken_ignores_bad_target() {
    let program = vec![Instruction::Inbox, Instruction::JumpIfZero(99), Instruction::Outbox];
    let mut machine = Hrm::new(program);
    let result = machine.run(vec![5]);
    assert_eq!(result, Ok(vec![5]));
}

#[test]
fn conditional_jump_taken_to_bad_target_fails() {
    let program = vec![Instruction::Inbox, Instruction::JumpIfZero(99), Instruction::Outbox];
    let mut machine = Hrm::new(program);
    let result = machine.run(vec![0]);
    assert_eq!(result, Err(ProgramError::OutOfBoundsJump(99)));
}

#[test]
fn sign_filter_emits_one_zero_per_non_negative() {
    // Read a value; negatives loop straight back to the read, non-negatives
    // are zeroed through a scratch cell and emitted.
    let program = vec![
        Instruction::Inbox,
        Instruction::JumpIfNeg(1),
        Instruction::CopyTo(0),
        Instruction::Sub(0),
        Instruction::Outbox,
        Instruction::Jump(1),
    ];
    let mut machine = Hrm::new(program);
    let result = machine.run(vec![3, 6, -2, 0, 7, -9, 7]);
    assert_eq!(result, Ok(vec![0, 0, 0, 0, 0]));
}
