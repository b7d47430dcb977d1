//! A small virtual machine for a fixed-register assembly language,
//! together with the two-pass assembler that turns mnemonic source text
//! into the byte-encoded programs the machine runs.

pub mod consts;
pub mod decode;
pub mod errors;
pub mod instructions;
pub mod lexer;
pub mod machine;
pub mod mem;
