//! The operand encoding shared by the assembler and the interpreter: a
//! one-byte type tag followed by either a one-byte register id or a
//! four-byte big-endian signed constant.

use vstd::prelude::*;

use vstd::arithmetic::div_mod::{
    lemma_div_denominator, lemma_div_is_ordered, lemma_div_pos_is_pos, lemma_fundamental_div_mod,
    lemma_mod_bound,
};

use crate::consts::{TAG_CONST, TAG_REG};
use crate::errors::ExecError;

verus! {

/// An operand: a register reference or an immediate signed constant.
#[derive(Clone, Copy, PartialEq, Eq, Structural, Debug)]
pub enum ValueRes {
    Reg(u8),
    Const(i32),
}

/// The unsigned value of four big-endian bytes.
pub open spec fn be_unsigned(b0: u8, b1: u8, b2: u8, b3: u8) -> int {
    0x100_0000 * (b0 as int) + 0x1_0000 * (b1 as int) + 0x100 * (b2 as int) + (b3 as int)
}

/// The two's-complement signed value of four big-endian bytes.
pub open spec fn be_signed(b0: u8, b1: u8, b2: u8, b3: u8) -> int {
    if be_unsigned(b0, b1, b2, b3) >= 0x8000_0000 {
        be_unsigned(b0, b1, b2, b3) - 0x1_0000_0000
    } else {
        be_unsigned(b0, b1, b2, b3)
    }
}

/// What decoding one operand at position `pc` of the program yields:
/// the operand and the position just past it, or the reason decoding
/// fails there.
pub open spec fn decode_val(code: Seq<u8>, pc: int) -> Result<(ValueRes, int), ExecError> {
    if !(0 <= pc < code.len()) {
        Err(ExecError::UnexpectedEnd)
    } else if code[pc] == TAG_REG {
        if pc + 2 <= code.len() {
            Ok((ValueRes::Reg(code[pc + 1]), pc + 2))
        } else {
            Err(ExecError::UnexpectedEnd)
        }
    } else if code[pc] == TAG_CONST {
        if pc + 5 <= code.len() {
            Ok(
                (
                    ValueRes::Const(
                        be_signed(code[pc + 1], code[pc + 2], code[pc + 3], code[pc + 4]) as i32,
                    ),
                    pc + 5,
                ),
            )
        } else {
            Err(ExecError::UnexpectedEnd)
        }
    } else {
        Err(ExecError::UnknownValueTag(code[pc]))
    }
}

/// Reads the four bytes at `i` as a big-endian signed 32-bit constant.
fn read_be_i32(code: &Vec<u8>, i: usize) -> (v: i32)
    requires
        i + 4 <= code@.len(),
    ensures
        v as int == be_signed(code@[i as int], code@[i + 1], code@[i + 2], code@[i + 3]),
{
    let len = code.len();
    proof {
        assert(i + 4 <= len);
    }
    let b0 = code[i] as u32;
    let b1 = code[i + 1] as u32;
    let b2 = code[i + 2] as u32;
    let b3 = code[i + 3] as u32;
    let n: u32 = 0x100_0000 * b0 + 0x1_0000 * b1 + 0x100 * b2 + b3;
    if n >= 0x8000_0000 {
        let d: u32 = n - 0x8000_0000;
        i32::MIN + (d as i32)
    } else {
        n as i32
    }
}

/// Decodes one operand, advancing the program counter past it; on a
/// failure the counter is left where it was.
pub(crate) fn parse_val(code: &Vec<u8>, code_pointer: &mut usize) -> (r: Result<
    ValueRes,
    ExecError,
>)
    ensures
        match decode_val(code@, *old(code_pointer) as int) {
            Ok(res) => r == Ok::<ValueRes, ExecError>(res.0) && *final(code_pointer) == res.1,
            Err(e) => r == Err::<ValueRes, ExecError>(e) && *final(code_pointer) == *old(
                code_pointer,
            ),
        },
{
    let pc = *code_pointer;
    if pc >= code.len() {
        return Err(ExecError::UnexpectedEnd);
    }
    let tag = code[pc];
    if tag == TAG_REG {
        if code.len() - pc >= 2 {
            let reg = code[pc + 1];
            *code_pointer = pc + 2;
            Ok(ValueRes::Reg(reg))
        } else {
            Err(ExecError::UnexpectedEnd)
        }
    } else if tag == TAG_CONST {
        if code.len() - pc >= 5 {
            let v = read_be_i32(code, pc + 1);
            *code_pointer = pc + 5;
            Ok(ValueRes::Const(v))
        } else {
            Err(ExecError::UnexpectedEnd)
        }
    } else {
        Err(ExecError::UnknownValueTag(tag))
    }
}

/// The four big-endian bytes of an unsigned 32-bit value.
pub open spec fn enc_unsigned(n: int) -> Seq<u8>
    recommends
        0 <= n < 0x1_0000_0000,
{
    seq![
        (n / 0x100_0000) as u8,
        ((n / 0x1_0000) % 0x100) as u8,
        ((n / 0x100) % 0x100) as u8,
        (n % 0x100) as u8,
    ]
}

/// The four big-endian bytes of a signed 32-bit value, two's complement.
pub open spec fn enc_signed(v: int) -> Seq<u8>
    recommends
        -0x8000_0000 <= v < 0x8000_0000,
{
    enc_unsigned(
        if v < 0 {
            v + 0x1_0000_0000
        } else {
            v
        },
    )
}

/// Law: the constant encoding is consistent end to end. Decoding the
/// four bytes that encode any signed 32-bit value yields that value
/// again, so a constant the assembler emits is the constant the
/// interpreter reads.
pub proof fn lemma_enc_dec_roundtrip(v: int)
    requires
        -0x8000_0000 <= v < 0x8000_0000,
    ensures
        ({
            let b = enc_signed(v);
            be_signed(b[0], b[1], b[2], b[3]) == v
        }),
{
    let n = if v < 0 {
        v + 0x1_0000_0000
    } else {
        v
    };
    lemma_mod_bound(n, 0x100);
    let q1 = n / 0x100;
    lemma_div_pos_is_pos(n, 0x100);
    lemma_mod_bound(q1, 0x100);
    let q2 = q1 / 0x100;
    lemma_div_pos_is_pos(q1, 0x100);
    lemma_mod_bound(q2, 0x100);
    let q3 = q2 / 0x100;
    lemma_div_pos_is_pos(q2, 0x100);
    lemma_fundamental_div_mod(n, 0x100);
    lemma_fundamental_div_mod(q1, 0x100);
    lemma_fundamental_div_mod(q2, 0x100);
    lemma_div_denominator(n, 0x100, 0x100);
    lemma_div_denominator(n, 0x1_0000, 0x100);
    lemma_div_is_ordered(n, 0xFFFF_FFFF, 0x100_0000);
    lemma_div_pos_is_pos(0xFFFF_FFFF, 0x100_0000);
    assert(q2 == n / 0x1_0000);
    assert(q3 == n / 0x100_0000);
    assert(0 <= q3 < 0x100);
    assert(n == 0x100_0000 * q3 + 0x1_0000 * (q2 % 0x100) + 0x100 * (q1 % 0x100) + n % 0x100);
}

/// Appends the four big-endian bytes of `n` to `out`.
pub(crate) fn push_be_unsigned(out: &mut Vec<u8>, n: u32)
    ensures
        final(out)@ == old(out)@ + enc_unsigned(n as int),
{
    out.push((n / 0x100_0000) as u8);
    out.push((n / 0x1_0000 % 0x100) as u8);
    out.push((n / 0x100 % 0x100) as u8);
    out.push((n % 0x100) as u8);
    assert(out@ =~= old(out)@ + enc_unsigned(n as int));
}

/// Appends the four big-endian two's-complement bytes of `v` to `out`.
pub(crate) fn push_be_signed(out: &mut Vec<u8>, v: i32)
    ensures
        final(out)@ == old(out)@ + enc_signed(v as int),
{
    let n: u32 = if v >= 0 {
        v as u32
    } else {
        ((v as i64) + 0x1_0000_0000) as u32
    };
    push_be_unsigned(out, n);
}

} // verus!
