//! The error taxonomy: one discriminated type for assembly failures and
//! one for execution failures. Every failure is terminal for the current
//! run and is reported to the caller; nothing panics.

use vstd::prelude::*;

verus! {

/// Why assembly of a source text failed.
#[derive(Clone, Copy, PartialEq, Eq, Structural, Debug)]
pub enum AsmError {
    /// A jump names a label that no definition token resolves, or the
    /// jump stands at the end of the source with no target token at all.
    UnresolvedLabel,
    /// A token that begins like a number is not a well-formed signed
    /// 32-bit decimal literal.
    MalformedLiteral,
    /// A token fits no category: not a mnemonic, not a register name,
    /// not a label definition, and not the start of a number.
    UnexpectedToken,
    /// A label offset would not fit the signed 32-bit constant encoding.
    ProgramTooLarge,
}

/// Why execution of a byte program halted with an error.
#[derive(Clone, Copy, PartialEq, Eq, Structural, Debug)]
pub enum ExecError {
    /// The fetched opcode byte names no instruction.
    UnknownOpcode(u8),
    /// A register operand or destination carries an id outside 1..=6.
    UnknownRegister(u8),
    /// The destination operand of an arithmetic or move instruction is a
    /// constant, not a register.
    InvalidDestination,
    /// A division instruction met a zero divisor.
    DivisionByZero,
    /// A jump's target operand is a register, not a constant.
    InvalidJumpTarget,
    /// An operand's type tag byte is neither the register tag nor the
    /// constant tag.
    UnknownValueTag(u8),
    /// The program ends in the middle of an operand encoding.
    UnexpectedEnd,
}

} // verus!
