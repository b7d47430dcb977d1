use emulator::lexer::assemble;
use emulator::machine::{run, RunOutcome};
use emulator::mem::Mem;

fn assemble_and_run(src: &str, fuel: u64) -> RunOutcome {
    let program = assemble(src).expect("assembly failed");
    run(program, fuel)
}

fn finished(outcome: RunOutcome) -> Mem {
    match outcome {
        RunOutcome::Finished(m) => m,
        other => panic!("expected normal termination, got {:?}", other),
    }
}

#[test]
fn mov_mov_add_fills_three_registers() {
    let m = finished(assemble_and_run("mov 5 ax\nmov 3 bx\nadd ax bx cx", 1000));
    assert_eq!(m.get_reg(1).unwrap(), 5);
    assert_eq!(m.get_reg(2).unwrap(), 3);
    assert_eq!(m.get_reg(3).unwrap(), 8);
    assert_eq!(m.get_reg(4).unwrap(), 0);
    assert_eq!(m.get_reg(5).unwrap(), 0);
    assert_eq!(m.get_reg(6).unwrap(), 0);
}

#[test]
fn countdown_loop_terminates_with_cx_zero() {
    let src = "mov 3 cx\n.top\nsub cx 1 cx\ncnd cx 0\njne .top";
    let m = finished(assemble_and_run(src, 1000));
    assert_eq!(m.get_reg(3).unwrap(), 0);
    assert_eq!(m.get_reg(6).unwrap(), 0);
}

#[test]
fn tight_loop_never_halts_normally() {
    let program = assemble(".L\njmp .L").expect("assembly failed");
    assert_eq!(run(program.clone(), 1), RunOutcome::OutOfFuel);
    assert_eq!(run(program.clone(), 100), RunOutcome::OutOfFuel);
    assert_eq!(run(program, 100_000), RunOutcome::OutOfFuel);
}

#[test]
fn add_overflow_wraps_end_to_end() {
    let m = finished(assemble_and_run("mov 2147483647 ax\nadd ax 1 bx", 1000));
    assert_eq!(m.get_reg(2).unwrap(), -2147483648);
}

#[test]
fn division_quotient_and_remainder_end_to_end() {
    let m = finished(assemble_and_run("mov 7 ax\nmov 2 bx\ndiv ax bx cx", 1000));
    assert_eq!(m.get_reg(3).unwrap(), 3);
    assert_eq!(m.get_reg(1).unwrap(), 1);
    assert_eq!(m.get_reg(2).unwrap(), 2);
}

#[test]
fn compare_constants_sets_each_flag_value() {
    let m = finished(assemble_and_run("cnd 5 5", 1000));
    assert_eq!(m.get_reg(6).unwrap(), 0);
    let m = finished(assemble_and_run("cnd 5 3", 1000));
    assert_eq!(m.get_reg(6).unwrap(), 1);
    let m = finished(assemble_and_run("cnd 3 5", 1000));
    assert_eq!(m.get_reg(6).unwrap(), -1);
}

#[test]
fn negative_literal_moves_through() {
    let m = finished(assemble_and_run("mov -123 dx", 1000));
    assert_eq!(m.get_reg(4).unwrap(), -123);
}

#[test]
fn forward_jump_skips_an_instruction() {
    // The unconditional jump hops over "mov 9 bx"; only CX is written.
    let src = "jmp .skip\nmov 9 bx\n.skip\nmov 4 cx";
    let m = finished(assemble_and_run(src, 1000));
    assert_eq!(m.get_reg(2).unwrap(), 0);
    assert_eq!(m.get_reg(3).unwrap(), 4);
}

#[test]
fn conditional_branch_picks_the_greater_side() {
    let src = "cnd 9 4\njgt .big\nmov 1 ex\njmp .done\n.big\nmov 2 ex\n.done";
    let m = finished(assemble_and_run(src, 1000));
    assert_eq!(m.get_reg(5).unwrap(), 2);
}

#[test]
fn loop_accumulates_a_sum() {
    // Sums 1..=4 into AX by counting DX down from 4.
    let src = "mov 4 dx\n.top\nadd ax dx ax\nsub dx 1 dx\ncnd dx 0\njne .top";
    let m = finished(assemble_and_run(src, 1000));
    assert_eq!(m.get_reg(1).unwrap(), 10);
    assert_eq!(m.get_reg(4).unwrap(), 0);
}
