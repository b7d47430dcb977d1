//! The instruction set: register ids, opcode bytes, and operand type tags
//! shared by the assembler and the interpreter.

use vstd::prelude::*;

verus! {

/// Register id of AX, the register that also receives a division's remainder.
pub const AX: u8 = 1;
/// Register id of BX.
pub const BX: u8 = 2;
/// Register id of CX.
pub const CX: u8 = 3;
/// Register id of DX.
pub const DX: u8 = 4;
/// Register id of EX.
pub const EX: u8 = 5;
/// Register id of FX, the comparison-flag register read by conditional jumps.
pub const FX: u8 = 6;

/// Opcode: dest = a + b, wrapping.
pub const ADD: u8 = 1;
/// Opcode: dest = a - b, wrapping.
pub const SUB: u8 = 2;
/// Opcode: dest = a * b, wrapping.
pub const MUL: u8 = 3;
/// Opcode: dest = a / b (wrapping, truncated), remainder into AX.
pub const DIV: u8 = 4;
/// Opcode: compare a with b and set FX to -1, 0 or 1.
pub const CND: u8 = 5;
/// Opcode: unconditional jump.
pub const JMP: u8 = 6;
/// Opcode: jump if FX == 0.
pub const JEQ: u8 = 7;
/// Opcode: jump if FX != 0.
pub const JNE: u8 = 8;
/// Opcode: jump if FX > 0.
pub const JGT: u8 = 9;
/// Opcode: jump if FX < 0.
pub const JLT: u8 = 10;
/// Opcode: jump if FX >= 0.
pub const JGE: u8 = 11;
/// Opcode: jump if FX <= 0.
pub const JLE: u8 = 12;
/// Opcode: dest = value.
pub const MOV: u8 = 13;

/// Operand type tag: the next byte is a register id.
pub const TAG_REG: u8 = 1;
/// Operand type tag: the next four bytes are a big-endian signed constant.
pub const TAG_CONST: u8 = 2;

} // verus!
