//! The fetch-decode-execute engine. A run starts with all registers
//! zero and the program counter at byte 0, and steps until the counter
//! leaves the program (normal termination), an instruction fails
//! (error termination), or the caller's step ceiling runs out.

use vstd::prelude::*;

use crate::consts::{ADD, CND, DIV, JEQ, JGE, JGT, JLE, JLT, JMP, JNE, MOV, MUL, SUB, TAG_CONST};
use crate::errors::ExecError;
use crate::instructions::{
    arith_step, cnd_step, exec_add, exec_cmp, exec_div, exec_jeq, exec_jge, exec_jgt, exec_jle,
    exec_jlt, exec_jmp, exec_jne, exec_mov, exec_mul, exec_sub, jmp_step, mov_step,
};
use crate::mem::Mem;

verus! {

/// How a run ended.
#[derive(Clone, Copy, PartialEq, Eq, Structural, Debug)]
pub enum RunOutcome {
    /// The program counter left the program: normal termination, with
    /// the final register file as the program's observable output.
    Finished(Mem),
    /// An instruction failed to decode or to execute.
    Faulted(ExecError),
    /// The step ceiling ran out before the program halted.
    OutOfFuel,
}

/// One fetch-decode-execute step, with the program counter on an opcode
/// byte inside the program: the next counter and register file, or the
/// error that halts the run.
pub open spec fn step_spec(code: Seq<u8>, pc: int, m: Mem) -> Result<(int, Mem), ExecError>
    recommends
        0 <= pc < code.len(),
{
    let opcode = code[pc];
    if opcode == ADD || opcode == SUB || opcode == MUL || opcode == DIV {
        arith_step(code, pc + 1, m, opcode)
    } else if opcode == MOV {
        mov_step(code, pc + 1, m)
    } else if opcode == CND {
        cnd_step(code, pc + 1, m)
    } else if JMP <= opcode && opcode <= JLE {
        jmp_step(code, pc + 1, m, opcode)
    } else {
        Err(ExecError::UnknownOpcode(opcode))
    }
}

/// The outcome of running at most `fuel` steps from the given counter
/// and register file: the whole interpreter, one instruction per unit
/// of fuel.
pub open spec fn run_spec(code: Seq<u8>, pc: int, m: Mem, fuel: nat) -> RunOutcome
    decreases fuel,
{
    if !(0 <= pc < code.len()) {
        RunOutcome::Finished(m)
    } else if fuel == 0 {
        RunOutcome::OutOfFuel
    } else {
        match step_spec(code, pc, m) {
            Ok(next) => run_spec(code, next.0, next.1, (fuel - 1) as nat),
            Err(e) => RunOutcome::Faulted(e),
        }
    }
}

/// Law: the program that jumps unconditionally to its own start never
/// halts normally. Whatever the register file and however large the
/// step ceiling, running it exhausts the ceiling.
pub proof fn lemma_self_loop_never_finishes(m: Mem, fuel: nat)
    ensures
        run_spec(seq![JMP, TAG_CONST, 0u8, 0u8, 0u8, 0u8], 0, m, fuel) == RunOutcome::OutOfFuel,
    decreases fuel,
{
    let prog = seq![JMP, TAG_CONST, 0u8, 0u8, 0u8, 0u8];
    if fuel > 0 {
        assert(step_spec(prog, 0, m) == Ok::<(int, Mem), ExecError>((0, m)));
        lemma_self_loop_never_finishes(m, (fuel - 1) as nat);
    }
}

/// Fetches and executes the one instruction under the program counter.
pub fn step(code: &Vec<u8>, code_pointer: &mut usize, mem: &mut Mem) -> (r: Result<(), ExecError>)
    requires
        *old(code_pointer) < code@.len(),
    ensures
        match step_spec(code@, *old(code_pointer) as int, *old(mem)) {
            Ok(res) => r is Ok && *final(code_pointer) == res.0 && *final(mem) == res.1,
            Err(e) => r == Err::<(), ExecError>(e) && *final(mem) == *old(mem),
        },
{
    let len = code.len();
    let pc = *code_pointer;
    let opcode = code[pc];
    *code_pointer = pc + 1;
    if opcode == ADD {
        exec_add(code, code_pointer, mem)
    } else if opcode == SUB {
        exec_sub(code, code_pointer, mem)
    } else if opcode == MUL {
        exec_mul(code, code_pointer, mem)
    } else if opcode == DIV {
        exec_div(code, code_pointer, mem)
    } else if opcode == MOV {
        exec_mov(code, code_pointer, mem)
    } else if opcode == CND {
        exec_cmp(code, code_pointer, mem)
    } else if opcode == JMP {
        exec_jmp(code, code_pointer, mem)
    } else if opcode == JEQ {
        exec_jeq(code, code_pointer, mem)
    } else if opcode == JNE {
        exec_jne(code, code_pointer, mem)
    } else if opcode == JGT {
        exec_jgt(code, code_pointer, mem)
    } else if opcode == JLT {
        exec_jlt(code, code_pointer, mem)
    } else if opcode == JGE {
        exec_jge(code, code_pointer, mem)
    } else if opcode == JLE {
        exec_jle(code, code_pointer, mem)
    } else {
        Err(ExecError::UnknownOpcode(opcode))
    }
}

/// Runs a byte program from a fresh register file, executing at most
/// `fuel` instructions. The result distinguishes normal termination,
/// each execution error, and an exhausted step ceiling.
pub fn run(code: Vec<u8>, fuel: u64) -> (r: RunOutcome)
    ensures
        r == run_spec(code@, 0, Mem::spec_init(), fuel as nat),
{
    let mut code_pointer: usize = 0;
    let mut mem = Mem::new();
    let mut fuel_left: u64 = fuel;
    loop
        invariant
            run_spec(code@, code_pointer as int, mem, fuel_left as nat) == run_spec(
                code@,
                0,
                Mem::spec_init(),
                fuel as nat,
            ),
        decreases fuel_left,
    {
        if code_pointer >= code.len() {
            return RunOutcome::Finished(mem);
        }
        if fuel_left == 0 {
            return RunOutcome::OutOfFuel;
        }
        match step(&code, &mut code_pointer, &mut mem) {
            Ok(_) => {},
            Err(e) => return RunOutcome::Faulted(e),
        }
        fuel_left = fuel_left - 1;
    }
}

} // verus!
