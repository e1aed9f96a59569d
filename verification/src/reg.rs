//! The sixteen general-purpose register names, with a total bidirectional
//! mapping to 4-bit indices.

use vstd::prelude::*;

verus! {

/// A general-purpose 8-bit register name. `VF` doubles as the carry, borrow
/// and collision flag and is overwritten by several opcodes as a side effect.
#[derive(Copy, Clone, PartialEq, Eq, Structural, Hash, Debug)]
pub enum GPReg {
    V0,
    V1,
    V2,
    V3,
    V4,
    V5,
    V6,
    V7,
    V8,
    V9,
    VA,
    VB,
    VC,
    VD,
    VE,
    VF,
}

impl GPReg {
    /// The index of this register, as an unbounded integer.
    pub open spec fn spec_idx(self) -> int {
        match self {
            GPReg::V0 => 0x0,
            GPReg::V1 => 0x1,
            GPReg::V2 => 0x2,
            GPReg::V3 => 0x3,
            GPReg::V4 => 0x4,
            GPReg::V5 => 0x5,
            GPReg::V6 => 0x6,
            GPReg::V7 => 0x7,
            GPReg::V8 => 0x8,
            GPReg::V9 => 0x9,
            GPReg::VA => 0xA,
            GPReg::VB => 0xB,
            GPReg::VC => 0xC,
            GPReg::VD => 0xD,
            GPReg::VE => 0xE,
            GPReg::VF => 0xF,
        }
    }

    /// The register at index `i`; meaningful for `0 <= i < 16`.
    pub open spec fn spec_indexed(i: int) -> GPReg {
        if i == 0x0 {
            GPReg::V0
        } else if i == 0x1 {
            GPReg::V1
        } else if i == 0x2 {
            GPReg::V2
        } else if i == 0x3 {
            GPReg::V3
        } else if i == 0x4 {
            GPReg::V4
        } else if i == 0x5 {
            GPReg::V5
        } else if i == 0x6 {
            GPReg::V6
        } else if i == 0x7 {
            GPReg::V7
        } else if i == 0x8 {
            GPReg::V8
        } else if i == 0x9 {
            GPReg::V9
        } else if i == 0xA {
            GPReg::VA
        } else if i == 0xB {
            GPReg::VB
        } else if i == 0xC {
            GPReg::VC
        } else if i == 0xD {
            GPReg::VD
        } else if i == 0xE {
            GPReg::VE
        } else {
            GPReg::VF
        }
    }

    /// Maps a 4-bit index to its register name; `None` only for `reg > 0xF`.
    pub fn indexed(reg: u8) -> (r: Option<GPReg>)
        ensures
            reg <= 0xF ==> r == Some(GPReg::spec_indexed(reg as int)),
            reg > 0xF ==> r is None,
    {
        Some(
            match reg {
                0x0 => GPReg::V0,
                0x1 => GPReg::V1,
                0x2 => GPReg::V2,
                0x3 => GPReg::V3,
                0x4 => GPReg::V4,
                0x5 => GPReg::V5,
                0x6 => GPReg::V6,
                0x7 => GPReg::V7,
                0x8 => GPReg::V8,
                0x9 => GPReg::V9,
                0xA => GPReg::VA,
                0xB => GPReg::VB,
                0xC => GPReg::VC,
                0xD => GPReg::VD,
                0xE => GPReg::VE,
                0xF => GPReg::VF,
                _ => {
                    return None;
                },
            },
        )
    }

    pub fn to_idx(&self) -> (r: usize)
        ensures
            r == self.spec_idx(),
            r < 0x10,
    {
        match self {
            GPReg::V0 => 0x0,
            GPReg::V1 => 0x1,
            GPReg::V2 => 0x2,
            GPReg::V3 => 0x3,
            GPReg::V4 => 0x4,
            GPReg::V5 => 0x5,
            GPReg::V6 => 0x6,
            GPReg::V7 => 0x7,
            GPReg::V8 => 0x8,
            GPReg::V9 => 0x9,
            GPReg::VA => 0xA,
            GPReg::VB => 0xB,
            GPReg::VC => 0xC,
            GPReg::VD => 0xD,
            GPReg::VE => 0xE,
            GPReg::VF => 0xF,
        }
    }
}

/// The two mappings between register names and 4-bit indices invert each
/// other: the mapping is total and bijective over `0x0..=0xF`.
pub proof fn lemma_reg_index_bijective(r: GPReg, i: int)
    ensures
        GPReg::spec_indexed(r.spec_idx()) == r,
        0 <= i < 0x10 ==> GPReg::spec_indexed(i).spec_idx() == i,
        0 <= r.spec_idx() < 0x10,
{
}

} // verus!
