//! The per-opcode execution handlers. Each handler decodes its operands
//! from the byte program, applies the opcode's effect to the register
//! file, and advances the program counter; its contract ties it exactly
//! to the corresponding specification-level step function.

use vstd::prelude::*;

use vstd::arithmetic::div_mod::{
    lemma_div_basics, lemma_div_is_ordered, lemma_div_is_ordered_by_denominator,
    lemma_div_nonincreasing, lemma_div_pos_is_pos, lemma_mod_bound,
};

use crate::consts::{ADD, AX, CND, DIV, FX, JEQ, JGE, JGT, JLE, JLT, JMP, JNE, MUL, SUB};
use crate::decode::{decode_val, parse_val, ValueRes};
use crate::errors::ExecError;
use crate::mem::{valid_reg, Mem};

verus! {

/// The value an operand stands for: a constant is itself, a register
/// reference is the register's current value; an id outside the file is
/// an error.
pub open spec fn eval_operand(m: Mem, v: ValueRes) -> Result<i32, ExecError> {
    match v {
        ValueRes::Reg(reg) => if valid_reg(reg) {
            Ok(m.spec_get(reg))
        } else {
            Err(ExecError::UnknownRegister(reg))
        },
        ValueRes::Const(c) => Ok(c),
    }
}

/// The comparison flag: 0 when the operands are equal, 1 when the first
/// is greater, -1 when it is smaller.
pub open spec fn cmp_flag(a: i32, b: i32) -> i32 {
    if a == b {
        0i32
    } else if a > b {
        1i32
    } else {
        -1i32
    }
}

/// Truncated (round-toward-zero) signed division on unbounded integers.
pub open spec fn trunc_div(x: int, d: int) -> int
    recommends
        d != 0,
{
    if x == 0 {
        0
    } else if x > 0 && d > 0 {
        x / d
    } else if x < 0 && d < 0 {
        (x * -1) / (d * -1)
    } else if x < 0 {
        ((x * -1) / d) * -1
    } else {
        (x / (d * -1)) * -1
    }
}

/// The remainder matching `trunc_div`: it carries the dividend's sign.
pub open spec fn trunc_rem(x: int, d: int) -> int
    recommends
        d != 0,
{
    if x == 0 {
        0
    } else if x > 0 && d > 0 {
        x % d
    } else if x < 0 && d < 0 {
        ((x * -1) % (d * -1)) * -1
    } else if x < 0 {
        ((x * -1) % d) * -1
    } else {
        x % (d * -1)
    }
}

/// The quotient the division instruction writes: truncated division,
/// except that i32::MIN / -1 wraps back to i32::MIN.
pub open spec fn div_wrapped(a: i32, b: i32) -> i32
    recommends
        b != 0,
{
    if a == i32::MIN && b == -1 {
        i32::MIN
    } else {
        trunc_div(a as int, b as int) as i32
    }
}

/// The remainder the division instruction writes into AX; 0 in the
/// wrapping i32::MIN / -1 case.
pub open spec fn rem_wrapped(a: i32, b: i32) -> i32
    recommends
        b != 0,
{
    if a == i32::MIN && b == -1 {
        0i32
    } else {
        trunc_rem(a as int, b as int) as i32
    }
}

/// The destination value of an arithmetic opcode, or the error a zero
/// divisor raises.
pub open spec fn arith_result(opcode: u8, a: i32, b: i32) -> Result<i32, ExecError>
    recommends
        opcode == ADD || opcode == SUB || opcode == MUL || opcode == DIV,
{
    if opcode == ADD {
        Ok(vstd::wrapping::i32_specs::wrapping_add(a, b))
    } else if opcode == SUB {
        Ok(vstd::wrapping::i32_specs::wrapping_sub(a, b))
    } else if opcode == MUL {
        Ok(vstd::wrapping::i32_specs::wrapping_mul(a, b))
    } else {
        if b == 0 {
            Err(ExecError::DivisionByZero)
        } else {
            Ok(div_wrapped(a, b))
        }
    }
}

/// Whether a jump opcode fires given the comparison flag.
pub open spec fn jump_taken(opcode: u8, flag: i32) -> bool {
    if opcode == JMP {
        true
    } else if opcode == JEQ {
        flag == 0
    } else if opcode == JNE {
        flag != 0
    } else if opcode == JGT {
        flag > 0
    } else if opcode == JLT {
        flag < 0
    } else if opcode == JGE {
        flag >= 0
    } else if opcode == JLE {
        flag <= 0
    } else {
        false
    }
}

/// The program counter a taken jump installs: the decoded constant,
/// reinterpreted as an unsigned 32-bit offset.
pub open spec fn jump_dest(t: i32) -> int {
    if t >= 0 {
        t as int
    } else {
        t as int + 0x1_0000_0000
    }
}

/// One arithmetic instruction's effect, with the program counter
/// standing just past the opcode byte: decode the two sources and the
/// destination, evaluate, write the destination, and for division also
/// write the remainder into AX.
pub open spec fn arith_step(code: Seq<u8>, pc: int, m: Mem, opcode: u8) -> Result<
    (int, Mem),
    ExecError,
>
    recommends
        opcode == ADD || opcode == SUB || opcode == MUL || opcode == DIV,
{
    match decode_val(code, pc) {
        Err(e) => Err(e),
        Ok((va, pc1)) => match decode_val(code, pc1) {
            Err(e) => Err(e),
            Ok((vb, pc2)) => match decode_val(code, pc2) {
                Err(e) => Err(e),
                Ok((vd, pc3)) => match eval_operand(m, va) {
                    Err(e) => Err(e),
                    Ok(a) => match eval_operand(m, vb) {
                        Err(e) => Err(e),
                        Ok(b) => match vd {
                            ValueRes::Const(_) => Err(ExecError::InvalidDestination),
                            ValueRes::Reg(d) => match arith_result(opcode, a, b) {
                                Err(e) => Err(e),
                                Ok(res) => if !valid_reg(d) {
                                    Err(ExecError::UnknownRegister(d))
                                } else if opcode == DIV {
                                    Ok((pc3, m.spec_set(d, res).spec_set(AX, rem_wrapped(a, b))))
                                } else {
                                    Ok((pc3, m.spec_set(d, res)))
                                },
                            },
                        },
                    },
                },
            },
        },
    }
}

/// One move instruction's effect: decode the value and the destination,
/// evaluate the value, and write it to the destination register.
pub open spec fn mov_step(code: Seq<u8>, pc: int, m: Mem) -> Result<(int, Mem), ExecError> {
    match decode_val(code, pc) {
        Err(e) => Err(e),
        Ok((va, pc1)) => match decode_val(code, pc1) {
            Err(e) => Err(e),
            Ok((vd, pc2)) => match eval_operand(m, va) {
                Err(e) => Err(e),
                Ok(a) => match vd {
                    ValueRes::Const(_) => Err(ExecError::InvalidDestination),
                    ValueRes::Reg(d) => if !valid_reg(d) {
                        Err(ExecError::UnknownRegister(d))
                    } else {
                        Ok((pc2, m.spec_set(d, a)))
                    },
                },
            },
        },
    }
}

/// One compare instruction's effect: decode and evaluate both operands
/// and write the comparison flag into FX.
pub open spec fn cnd_step(code: Seq<u8>, pc: int, m: Mem) -> Result<(int, Mem), ExecError> {
    match decode_val(code, pc) {
        Err(e) => Err(e),
        Ok((va, pc1)) => match decode_val(code, pc1) {
            Err(e) => Err(e),
            Ok((vb, pc2)) => match eval_operand(m, va) {
                Err(e) => Err(e),
                Ok(a) => match eval_operand(m, vb) {
                    Err(e) => Err(e),
                    Ok(b) => Ok((pc2, m.spec_set(FX, cmp_flag(a, b)))),
                },
            },
        },
    }
}

/// One jump instruction's effect: decode the target, which must be a
/// constant, and either install it as the program counter or fall
/// through, depending on the flag register.
pub open spec fn jmp_step(code: Seq<u8>, pc: int, m: Mem, opcode: u8) -> Result<
    (int, Mem),
    ExecError,
>
    recommends
        JMP <= opcode <= JLE,
{
    match decode_val(code, pc) {
        Err(e) => Err(e),
        Ok((v, pc1)) => match v {
            ValueRes::Reg(_) => Err(ExecError::InvalidJumpTarget),
            ValueRes::Const(t) => if jump_taken(opcode, m.spec_get(FX)) {
                Ok((jump_dest(t), m))
            } else {
                Ok((pc1, m))
            },
        },
    }
}

/// The truncated quotient and remainder stay within the 32-bit range
/// whenever the wrapping i32::MIN / -1 case is excluded.
proof fn lemma_trunc_div_rem_in_range(x: int, d: int)
    requires
        -0x8000_0000 <= x <= 0x7FFF_FFFF,
        -0x8000_0000 <= d <= 0x7FFF_FFFF,
        d != 0,
        !(x == -0x8000_0000 && d == -1),
    ensures
        -0x8000_0000 <= trunc_div(x, d) <= 0x7FFF_FFFF,
        -0x8000_0000 <= trunc_rem(x, d) <= 0x7FFF_FFFF,
{
    if x == 0 {
    } else if x > 0 && d > 0 {
        lemma_div_pos_is_pos(x, d);
        lemma_div_nonincreasing(x, d);
        lemma_mod_bound(x, d);
    } else if x < 0 && d < 0 {
        let px = x * -1;
        let pd = d * -1;
        lemma_div_pos_is_pos(px, pd);
        lemma_mod_bound(px, pd);
        if pd == 1 {
            lemma_div_basics(px);
        } else {
            lemma_div_is_ordered_by_denominator(px, 2, pd);
            lemma_div_is_ordered(px, 0x8000_0000, 2);
        }
    } else if x < 0 {
        let px = x * -1;
        lemma_div_pos_is_pos(px, d);
        lemma_div_nonincreasing(px, d);
        lemma_mod_bound(px, d);
    } else {
        let pd = d * -1;
        lemma_div_pos_is_pos(x, pd);
        lemma_div_nonincreasing(x, pd);
        lemma_mod_bound(x, pd);
    }
}

/// Computes the wrapping truncated quotient and remainder of two
/// machine words, the divisor being nonzero.
fn div_rem(a: i32, b: i32) -> (r: (i32, i32))
    requires
        b != 0,
    ensures
        r.0 == div_wrapped(a, b),
        r.1 == rem_wrapped(a, b),
{
    if a == i32::MIN && b == -1 {
        (i32::MIN, 0)
    } else {
        proof {
            lemma_trunc_div_rem_in_range(a as int, b as int);
        }
        let q = match a.checked_div(b) {
            Some(q) => q,
            None => 0,
        };
        let rem = match a.checked_rem(b) {
            Some(x) => x,
            None => 0,
        };
        (q, rem)
    }
}

/// Shared body of the four arithmetic instructions.
fn exec_op_helper(code: &Vec<u8>, code_pointer: &mut usize, mem: &mut Mem, opcode: u8) -> (r:
    Result<(), ExecError>)
    requires
        opcode == ADD || opcode == SUB || opcode == MUL || opcode == DIV,
    ensures
        match arith_step(code@, *old(code_pointer) as int, *old(mem), opcode) {
            Ok(res) => r is Ok && *final(code_pointer) == res.0 && *final(mem) == res.1,
            Err(e) => r == Err::<(), ExecError>(e) && *final(mem) == *old(mem),
        },
{
    let va = match parse_val(code, code_pointer) {
        Ok(v) => v,
        Err(e) => return Err(e),
    };
    let vb = match parse_val(code, code_pointer) {
        Ok(v) => v,
        Err(e) => return Err(e),
    };
    let vd = match parse_val(code, code_pointer) {
        Ok(v) => v,
        Err(e) => return Err(e),
    };
    let a = match va {
        ValueRes::Reg(reg) => match mem.get_reg(reg) {
            Ok(v) => v,
            Err(e) => return Err(e),
        },
        ValueRes::Const(c) => c,
    };
    let b = match vb {
        ValueRes::Reg(reg) => match mem.get_reg(reg) {
            Ok(v) => v,
            Err(e) => return Err(e),
        },
        ValueRes::Const(c) => c,
    };
    let d = match vd {
        ValueRes::Reg(reg) => reg,
        ValueRes::Const(_) => return Err(ExecError::InvalidDestination),
    };
    if opcode == DIV {
        if b == 0 {
            return Err(ExecError::DivisionByZero);
        }
        let qr = div_rem(a, b);
        match mem.set_reg(d, qr.0) {
            Ok(_) => {},
            Err(e) => return Err(e),
        }
        match mem.set_reg(AX, qr.1) {
            Ok(_) => {},
            Err(_) => {},
        }
    } else {
        let res = if opcode == ADD {
            a.wrapping_add(b)
        } else if opcode == SUB {
            a.wrapping_sub(b)
        } else {
            a.wrapping_mul(b)
        };
        match mem.set_reg(d, res) {
            Ok(_) => {},
            Err(e) => return Err(e),
        }
    }
    Ok(())
}

/// Shared body of the seven jump instructions.
fn exec_jmp_helper(code: &Vec<u8>, code_pointer: &mut usize, mem: &mut Mem, opcode: u8) -> (r:
    Result<(), ExecError>)
    requires
        JMP <= opcode <= JLE,
    ensures
        match jmp_step(code@, *old(code_pointer) as int, *old(mem), opcode) {
            Ok(res) => r is Ok && *final(code_pointer) == res.0 && *final(mem) == res.1,
            Err(e) => r == Err::<(), ExecError>(e) && *final(mem) == *old(mem),
        },
{
    let v = match parse_val(code, code_pointer) {
        Ok(v) => v,
        Err(e) => return Err(e),
    };
    let t = match v {
        ValueRes::Reg(_) => return Err(ExecError::InvalidJumpTarget),
        ValueRes::Const(t) => t,
    };
    let flag = match mem.get_reg(FX) {
        Ok(f) => f,
        Err(_) => 0,
    };
    let taken = if opcode == JMP {
        true
    } else if opcode == JEQ {
        flag == 0
    } else if opcode == JNE {
        flag != 0
    } else if opcode == JGT {
        flag > 0
    } else if opcode == JLT {
        flag < 0
    } else if opcode == JGE {
        flag >= 0
    } else {
        flag <= 0
    };
    if taken {
        if t >= 0 {
            *code_pointer = t as usize;
        } else {
            *code_pointer = ((t as i64) + 0x1_0000_0000) as usize;
        }
    }
    Ok(())
}

/// Executes an addition: dest = a + b, wrapping on overflow.
pub fn exec_add(code: &Vec<u8>, code_pointer: &mut usize, mem: &mut Mem) -> (r: Result<
    (),
    ExecError,
>)
    ensures
        match arith_step(code@, *old(code_pointer) as int, *old(mem), ADD) {
            Ok(res) => r is Ok && *final(code_pointer) == res.0 && *final(mem) == res.1,
            Err(e) => r == Err::<(), ExecError>(e) && *final(mem) == *old(mem),
        },
{
    exec_op_helper(code, code_pointer, mem, ADD)
}

/// Executes a subtraction: dest = a - b, wrapping on overflow.
pub fn exec_sub(code: &Vec<u8>, code_pointer: &mut usize, mem: &mut Mem) -> (r: Result<
    (),
    ExecError,
>)
    ensures
        match arith_step(code@, *old(code_pointer) as int, *old(mem), SUB) {
            Ok(res) => r is Ok && *final(code_pointer) == res.0 && *final(mem) == res.1,
            Err(e) => r == Err::<(), ExecError>(e) && *final(mem) == *old(mem),
        },
{
    exec_op_helper(code, code_pointer, mem, SUB)
}

/// Executes a multiplication: dest = a * b, wrapping on overflow.
pub fn exec_mul(code: &Vec<u8>, code_pointer: &mut usize, mem: &mut Mem) -> (r: Result<
    (),
    ExecError,
>)
    ensures
        match arith_step(code@, *old(code_pointer) as int, *old(mem), MUL) {
            Ok(res) => r is Ok && *final(code_pointer) == res.0 && *final(mem) == res.1,
            Err(e) => r == Err::<(), ExecError>(e) && *final(mem) == *old(mem),
        },
{
    exec_op_helper(code, code_pointer, mem, MUL)
}

/// Executes a division: dest = a / b truncated toward zero, the
/// remainder going to AX; a zero divisor is fatal and mutates nothing.
pub fn exec_div(code: &Vec<u8>, code_pointer: &mut usize, mem: &mut Mem) -> (r: Result<
    (),
    ExecError,
>)
    ensures
        match arith_step(code@, *old(code_pointer) as int, *old(mem), DIV) {
            Ok(res) => r is Ok && *final(code_pointer) == res.0 && *final(mem) == res.1,
            Err(e) => r == Err::<(), ExecError>(e) && *final(mem) == *old(mem),
        },
{
    exec_op_helper(code, code_pointer, mem, DIV)
}

/// Executes a move: dest = value.
pub fn exec_mov(code: &Vec<u8>, code_pointer: &mut usize, mem: &mut Mem) -> (r: Result<
    (),
    ExecError,
>)
    ensures
        match mov_step(code@, *old(code_pointer) as int, *old(mem)) {
            Ok(res) => r is Ok && *final(code_pointer) == res.0 && *final(mem) == res.1,
            Err(e) => r == Err::<(), ExecError>(e) && *final(mem) == *old(mem),
        },
{
    let va = match parse_val(code, code_pointer) {
        Ok(v) => v,
        Err(e) => return Err(e),
    };
    let vd = match parse_val(code, code_pointer) {
        Ok(v) => v,
        Err(e) => return Err(e),
    };
    let a = match va {
        ValueRes::Reg(reg) => match mem.get_reg(reg) {
            Ok(v) => v,
            Err(e) => return Err(e),
        },
        ValueRes::Const(c) => c,
    };
    let d = match vd {
        ValueRes::Reg(reg) => reg,
        ValueRes::Const(_) => return Err(ExecError::InvalidDestination),
    };
    match mem.set_reg(d, a) {
        Ok(_) => {},
        Err(e) => return Err(e),
    }
    Ok(())
}

/// Executes a compare: FX = -1, 0 or 1 as a is below, equal to, or
/// above b. Never fatal on valid operands.
pub fn exec_cmp(code: &Vec<u8>, code_pointer: &mut usize, mem: &mut Mem) -> (r: Result<
    (),
    ExecError,
>)
    ensures
        match cnd_step(code@, *old(code_pointer) as int, *old(mem)) {
            Ok(res) => r is Ok && *final(code_pointer) == res.0 && *final(mem) == res.1,
            Err(e) => r == Err::<(), ExecError>(e) && *final(mem) == *old(mem),
        },
{
    let va = match parse_val(code, code_pointer) {
        Ok(v) => v,
        Err(e) => return Err(e),
    };
    let vb = match parse_val(code, code_pointer) {
        Ok(v) => v,
        Err(e) => return Err(e),
    };
    let a = match va {
        ValueRes::Reg(reg) => match mem.get_reg(reg) {
            Ok(v) => v,
            Err(e) => return Err(e),
        },
        ValueRes::Const(c) => c,
    };
    let b = match vb {
        ValueRes::Reg(reg) => match mem.get_reg(reg) {
            Ok(v) => v,
            Err(e) => return Err(e),
        },
        ValueRes::Const(c) => c,
    };
    let flag: i32 = if a == b {
        0
    } else if a > b {
        1
    } else {
        -1
    };
    match mem.set_reg(FX, flag) {
        Ok(_) => {},
        Err(_) => {},
    }
    Ok(())
}

/// Executes an unconditional jump.
pub fn exec_jmp(code: &Vec<u8>, code_pointer: &mut usize, mem: &mut Mem) -> (r: Result<
    (),
    ExecError,
>)
    ensures
        match jmp_step(code@, *old(code_pointer) as int, *old(mem), JMP) {
            Ok(res) => r is Ok && *final(code_pointer) == res.0 && *final(mem) == res.1,
            Err(e) => r == Err::<(), ExecError>(e) && *final(mem) == *old(mem),
        },
{
    exec_jmp_helper(code, code_pointer, mem, JMP)
}

/// Executes a jump taken when FX == 0.
pub fn exec_jeq(code: &Vec<u8>, code_pointer: &mut usize, mem: &mut Mem) -> (r: Result<
    (),
    ExecError,
>)
    ensures
        match jmp_step(code@, *old(code_pointer) as int, *old(mem), JEQ) {
            Ok(res) => r is Ok && *final(code_pointer) == res.0 && *final(mem) == res.1,
            Err(e) => r == Err::<(), ExecError>(e) && *final(mem) == *old(mem),
        },
{
    exec_jmp_helper(code, code_pointer, mem, JEQ)
}

/// Executes a jump taken when FX != 0.
pub fn exec_jne(code: &Vec<u8>, code_pointer: &mut usize, mem: &mut Mem) -> (r: Result<
    (),
    ExecError,
>)
    ensures
        match jmp_step(code@, *old(code_pointer) as int, *old(mem), JNE) {
            Ok(res) => r is Ok && *final(code_pointer) == res.0 && *final(mem) == res.1,
            Err(e) => r == Err::<(), ExecError>(e) && *final(mem) == *old(mem),
        },
{
    exec_jmp_helper(code, code_pointer, mem, JNE)
}

/// Executes a jump taken when FX > 0.
pub fn exec_jgt(code: &Vec<u8>, code_pointer: &mut usize, mem: &mut Mem) -> (r: Result<
    (),
    ExecError,
>)
    ensures
        match jmp_step(code@, *old(code_pointer) as int, *old(mem), JGT) {
            Ok(res) => r is Ok && *final(code_pointer) == res.0 && *final(mem) == res.1,
            Err(e) => r == Err::<(), ExecError>(e) && *final(mem) == *old(mem),
        },
{
    exec_jmp_helper(code, code_pointer, mem, JGT)
}

/// Executes a jump taken when FX < 0.
pub fn exec_jlt(code: &Vec<u8>, code_pointer: &mut usize, mem: &mut Mem) -> (r: Result<
    (),
    ExecError,
>)
    ensures
        match jmp_step(code@, *old(code_pointer) as int, *old(mem), JLT) {
            Ok(res) => r is Ok && *final(code_pointer) == res.0 && *final(mem) == res.1,
            Err(e) => r == Err::<(), ExecError>(e) && *final(mem) == *old(mem),
        },
{
    exec_jmp_helper(code, code_pointer, mem, JLT)
}

/// Executes a jump taken when FX >= 0.
pub fn exec_jge(code: &Vec<u8>, code_pointer: &mut usize, mem: &mut Mem) -> (r: Result<
    (),
    ExecError,
>)
    ensures
        match jmp_step(code@, *old(code_pointer) as int, *old(mem), JGE) {
            Ok(res) => r is Ok && *final(code_pointer) == res.0 && *final(mem) == res.1,
            Err(e) => r == Err::<(), ExecError>(e) && *final(mem) == *old(mem),
        },
{
    exec_jmp_helper(code, code_pointer, mem, JGE)
}

/// Executes a jump taken when FX <= 0.
pub fn exec_jle(code: &Vec<u8>, code_pointer: &mut usize, mem: &mut Mem) -> (r: Result<
    (),
    ExecError,
>)
    ensures
        match jmp_step(code@, *old(code_pointer) as int, *old(mem), JLE) {
            Ok(res) => r is Ok && *final(code_pointer) == res.0 && *final(mem) == res.1,
            Err(e) => r == Err::<(), ExecError>(e) && *final(mem) == *old(mem),
        },
{
    exec_jmp_helper(code, code_pointer, mem, JLE)
}

} // verus!
