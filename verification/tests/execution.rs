use emulator::errors::ExecError;
use emulator::instructions::{exec_add, exec_cmp, exec_div, exec_jmp, exec_mov};
use emulator::machine::{run, RunOutcome};
use emulator::mem::Mem;

fn finished(outcome: RunOutcome) -> Mem {
    match outcome {
        RunOutcome::Finished(m) => m,
        other => panic!("expected normal termination, got {:?}", other),
    }
}

#[test]
fn empty_program_finishes_with_zero_registers() {
    let m = finished(run(vec![], 100));
    for reg in 1u8..=6u8 {
        assert_eq!(m.get_reg(reg).unwrap(), 0);
    }
}

#[test]
fn add_wraps_on_overflow() {
    // ADD of (2147483647, 1) into AX.
    let code = vec![1, 2, 127, 255, 255, 255, 2, 0, 0, 0, 1, 1, 1];
    let m = finished(run(code, 100));
    assert_eq!(m.get_reg(1).unwrap(), -2147483648);
}

#[test]
fn sub_wraps_on_overflow() {
    // SUB of (-2147483648, 1) into BX.
    let code = vec![2, 2, 128, 0, 0, 0, 2, 0, 0, 0, 1, 1, 2];
    let m = finished(run(code, 100));
    assert_eq!(m.get_reg(2).unwrap(), 2147483647);
}

#[test]
fn mul_wraps_on_overflow() {
    // MUL of (65536, 65536) into CX: the product is 2^32, which wraps to 0.
    let code = vec![3, 2, 0, 1, 0, 0, 2, 0, 1, 0, 0, 1, 3];
    let m = finished(run(code, 100));
    assert_eq!(m.get_reg(3).unwrap(), 0);
}

#[test]
fn exec_add_wraps_via_handler() {
    let code = vec![2, 127, 255, 255, 255, 2, 0, 0, 0, 1, 1, 4];
    let mut pc: usize = 0;
    let mut m = Mem::new();
    assert!(exec_add(&code, &mut pc, &mut m).is_ok());
    assert_eq!(pc, code.len());
    assert_eq!(m.get_reg(4).unwrap(), -2147483648);
}

#[test]
fn div_writes_quotient_and_remainder() {
    // DIV of (7, 2) into CX: quotient 3 to CX, remainder 1 to AX.
    let code = vec![4, 2, 0, 0, 0, 7, 2, 0, 0, 0, 2, 1, 3];
    let m = finished(run(code, 100));
    assert_eq!(m.get_reg(3).unwrap(), 3);
    assert_eq!(m.get_reg(1).unwrap(), 1);
}

#[test]
fn div_truncates_toward_zero_for_negative_dividend() {
    // DIV of (-7, 2): quotient -3, remainder -1.
    let code = vec![4, 2, 255, 255, 255, 249, 2, 0, 0, 0, 2, 1, 3];
    let m = finished(run(code, 100));
    assert_eq!(m.get_reg(3).unwrap(), -3);
    assert_eq!(m.get_reg(1).unwrap(), -1);
}

#[test]
fn div_min_by_minus_one_wraps() {
    // DIV of (i32::MIN, -1): the quotient wraps back to i32::MIN and the
    // remainder is 0.
    let code = vec![4, 2, 128, 0, 0, 0, 2, 255, 255, 255, 255, 1, 3];
    let m = finished(run(code, 100));
    assert_eq!(m.get_reg(3).unwrap(), i32::MIN);
    assert_eq!(m.get_reg(1).unwrap(), 0);
}

#[test]
fn div_by_zero_faults() {
    let code = vec![4, 2, 0, 0, 0, 7, 2, 0, 0, 0, 0, 1, 3];
    assert_eq!(run(code, 100), RunOutcome::Faulted(ExecError::DivisionByZero));
}

#[test]
fn div_by_zero_mutates_no_register() {
    let code = vec![2, 0, 0, 0, 7, 2, 0, 0, 0, 0, 1, 3];
    let mut pc: usize = 0;
    let mut m = Mem::new();
    assert!(m.set_reg(1, 9).is_ok());
    let before = m.clone();
    assert_eq!(exec_div(&code, &mut pc, &mut m), Err(ExecError::DivisionByZero));
    assert_eq!(m, before);
}

#[test]
fn cnd_sets_flag_zero_on_equal() {
    let code = vec![5, 2, 0, 0, 0, 5, 2, 0, 0, 0, 5];
    let m = finished(run(code, 100));
    assert_eq!(m.get_reg(6).unwrap(), 0);
}

#[test]
fn cnd_sets_flag_one_on_greater() {
    let code = vec![5, 2, 0, 0, 0, 5, 2, 0, 0, 0, 3];
    let m = finished(run(code, 100));
    assert_eq!(m.get_reg(6).unwrap(), 1);
}

#[test]
fn cnd_sets_flag_minus_one_on_less() {
    let code = vec![5, 2, 0, 0, 0, 3, 2, 0, 0, 0, 5];
    let m = finished(run(code, 100));
    assert_eq!(m.get_reg(6).unwrap(), -1);
}

#[test]
fn exec_cmp_reads_registers() {
    let code = vec![1, 1, 1, 2];
    let mut pc: usize = 0;
    let mut m = Mem::new();
    assert!(m.set_reg(1, 5).is_ok());
    assert!(m.set_reg(2, 5).is_ok());
    assert!(exec_cmp(&code, &mut pc, &mut m).is_ok());
    assert_eq!(m.get_reg(6).unwrap(), 0);
}

#[test]
fn mov_writes_destination() {
    let code = vec![2, 0, 0, 0, 42, 1, 5];
    let mut pc: usize = 0;
    let mut m = Mem::new();
    assert!(exec_mov(&code, &mut pc, &mut m).is_ok());
    assert_eq!(m.get_reg(5).unwrap(), 42);
}

#[test]
fn unknown_opcode_faults_with_the_byte() {
    assert_eq!(run(vec![99], 100), RunOutcome::Faulted(ExecError::UnknownOpcode(99)));
}

#[test]
fn unknown_value_tag_faults_with_the_byte() {
    assert_eq!(run(vec![1, 3], 100), RunOutcome::Faulted(ExecError::UnknownValueTag(3)));
}

#[test]
fn truncated_operand_faults() {
    assert_eq!(run(vec![1, 2, 0], 100), RunOutcome::Faulted(ExecError::UnexpectedEnd));
}

#[test]
fn constant_destination_faults() {
    // ADD of (1, 2) into the constant 3.
    let code = vec![1, 2, 0, 0, 0, 1, 2, 0, 0, 0, 2, 2, 0, 0, 0, 3];
    assert_eq!(run(code, 100), RunOutcome::Faulted(ExecError::InvalidDestination));
}

#[test]
fn register_jump_target_faults() {
    let code = vec![6, 1, 1];
    assert_eq!(run(code, 100), RunOutcome::Faulted(ExecError::InvalidJumpTarget));
}

#[test]
fn invalid_register_operand_faults() {
    let code = vec![1, 1, 9, 2, 0, 0, 0, 1, 1, 1];
    assert_eq!(run(code, 100), RunOutcome::Faulted(ExecError::UnknownRegister(9)));
}

#[test]
fn jump_to_negative_offset_halts_normally() {
    // JMP -1 installs a counter far past the program's end.
    let code = vec![6, 2, 255, 255, 255, 255];
    let m = finished(run(code, 100));
    assert_eq!(m.get_reg(1).unwrap(), 0);
}

#[test]
fn exec_jmp_moves_the_counter() {
    let code = vec![2, 0, 0, 0, 77];
    let mut pc: usize = 0;
    let mut m = Mem::new();
    assert!(exec_jmp(&code, &mut pc, &mut m).is_ok());
    assert_eq!(pc, 77);
}

#[test]
fn untaken_conditional_jump_falls_through() {
    // CND (1, 2) sets FX = -1; JGT must then fall through, and MOV runs.
    let code = vec![
        5, 2, 0, 0, 0, 1, 2, 0, 0, 0, 2, 9, 2, 0, 0, 0, 0, 13, 2, 0, 0, 0, 8, 1, 2,
    ];
    let m = finished(run(code, 100));
    assert_eq!(m.get_reg(2).unwrap(), 8);
    assert_eq!(m.get_reg(6).unwrap(), -1);
}
