//! The register file: six signed 32-bit registers, all zero at the start
//! of a run and mutated only by instruction execution.

use vstd::prelude::*;

use crate::consts::{AX, BX, CX, DX, EX, FX};
use crate::errors::ExecError;

verus! {

/// A register id is valid when it is one of the six byte codes 1..=6.
pub open spec fn valid_reg(reg: u8) -> bool {
    1 <= reg && reg <= 6
}

/// The register file.
#[derive(Clone, Copy, PartialEq, Eq, Structural, Debug)]
pub struct Mem {
    ax: i32,
    bx: i32,
    cx: i32,
    dx: i32,
    ex: i32,
    fx: i32,
}

impl Mem {
    /// The value a register holds; 0 for an id outside the file.
    pub closed spec fn spec_get(self, reg: u8) -> i32 {
        if reg == AX {
            self.ax
        } else if reg == BX {
            self.bx
        } else if reg == CX {
            self.cx
        } else if reg == DX {
            self.dx
        } else if reg == EX {
            self.ex
        } else if reg == FX {
            self.fx
        } else {
            0
        }
    }

    /// The register file after writing one register; unchanged for an id
    /// outside the file.
    pub closed spec fn spec_set(self, reg: u8, val: i32) -> Mem {
        if reg == AX {
            Mem { ax: val, ..self }
        } else if reg == BX {
            Mem { bx: val, ..self }
        } else if reg == CX {
            Mem { cx: val, ..self }
        } else if reg == DX {
            Mem { dx: val, ..self }
        } else if reg == EX {
            Mem { ex: val, ..self }
        } else if reg == FX {
            Mem { fx: val, ..self }
        } else {
            self
        }
    }

    /// The register file with every register zero.
    pub closed spec fn spec_init() -> Mem {
        Mem { ax: 0, bx: 0, cx: 0, dx: 0, ex: 0, fx: 0 }
    }

    /// A fresh register file, all six registers zero.
    pub fn new() -> (m: Mem)
        ensures
            m == Mem::spec_init(),
            forall|reg: u8| valid_reg(reg) ==> #[trigger] m.spec_get(reg) == 0,
    {
        Mem { ax: 0, bx: 0, cx: 0, dx: 0, ex: 0, fx: 0 }
    }

    /// Reads a register. Fails with `UnknownRegister`, touching nothing,
    /// when the id is outside 1..=6.
    pub fn get_reg(&self, reg: u8) -> (r: Result<i32, ExecError>)
        ensures
            match r {
                Ok(v) => valid_reg(reg) && v == self.spec_get(reg),
                Err(e) => !valid_reg(reg) && e == ExecError::UnknownRegister(reg),
            },
    {
        if reg == AX {
            Ok(self.ax)
        } else if reg == BX {
            Ok(self.bx)
        } else if reg == CX {
            Ok(self.cx)
        } else if reg == DX {
            Ok(self.dx)
        } else if reg == EX {
            Ok(self.ex)
        } else if reg == FX {
            Ok(self.fx)
        } else {
            Err(ExecError::UnknownRegister(reg))
        }
    }

    /// Writes a register. Fails with `UnknownRegister`, leaving the file
    /// unchanged, when the id is outside 1..=6.
    pub fn set_reg(&mut self, reg: u8, val: i32) -> (r: Result<(), ExecError>)
        ensures
            match r {
                Ok(_) => valid_reg(reg) && *final(self) == old(self).spec_set(reg, val),
                Err(e) => !valid_reg(reg) && e == ExecError::UnknownRegister(reg)
                    && *final(self) == *old(self),
            },
    {
        if reg == AX {
            self.ax = val;
        } else if reg == BX {
            self.bx = val;
        } else if reg == CX {
            self.cx = val;
        } else if reg == DX {
            self.dx = val;
        } else if reg == EX {
            self.ex = val;
        } else if reg == FX {
            self.fx = val;
        } else {
            return Err(ExecError::UnknownRegister(reg));
        }
        Ok(())
    }
}

/// Law: reading a register immediately after writing it yields the value
/// just written.
pub proof fn lemma_set_get_roundtrip(m: Mem, reg: u8, val: i32)
    requires
        valid_reg(reg),
    ensures
        m.spec_set(reg, val).spec_get(reg) == val,
{
}

/// Law: writing one register leaves every other register unchanged.
pub proof fn lemma_set_preserves_others(m: Mem, reg: u8, other: u8, val: i32)
    requires
        reg != other,
    ensures
        m.spec_set(reg, val).spec_get(other) == m.spec_get(other),
{
}

} // verus!
