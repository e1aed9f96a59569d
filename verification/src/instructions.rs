//! The closed instruction set and the decoder.
//!
//! Operand legend: `x`/`y` name registers (one 4-bit nibble each), `kk` is an
//! 8-bit literal, `nnn` a 12-bit address, `n` a 4-bit count.

use vstd::prelude::*;

use crate::errors::{DecodeErr, Error};
use crate::numtypes::{u12, u4, Nibbles};
use crate::reg::GPReg;

verus! {

/// One decoded instruction. Created only by [`Instr::decode`]; consumed by
/// the machine once per step.
#[derive(Copy, Clone, PartialEq, Eq, Structural, Hash, Debug)]
pub enum Instr {
    /// `00E0`: clear the display.
    CLS,
    /// `00EE`: return from a subroutine (pop the call stack into `pc`).
    RET,
    /// `1nnn`: jump to `nnn`.
    JP(u12),
    /// `2nnn`: call the subroutine at `nnn` (push `pc`, jump).
    CALL(u12),
    /// `3xkk`: skip the next instruction if `Vx == kk`.
    SEQ(GPReg, u8),
    /// `4xkk`: skip the next instruction if `Vx != kk`.
    SNELIT(GPReg, u8),
    /// `5xy0`: skip the next instruction if `Vx == Vy`.
    SE(GPReg, GPReg),
    /// `6xkk`: `Vx = kk`.
    LDL(GPReg, u8),
    /// `7xkk`: `Vx = Vx + kk`, wrapping, no flag side effect.
    ADDL(GPReg, u8),
    /// `8xy0`: `Vx = Vy`.
    LD(GPReg, GPReg),
    /// `8xy1`: `Vx = Vx | Vy`; zeroes `VF` under the `vf_reset` quirk.
    OR(GPReg, GPReg),
    /// `8xy2`: `Vx = Vx & Vy`; zeroes `VF` under the `vf_reset` quirk.
    AND(GPReg, GPReg),
    /// `8xy3`: `Vx = Vx ^ Vy`; zeroes `VF` under the `vf_reset` quirk.
    XOR(GPReg, GPReg),
    /// `8xy4`: `Vx = Vx + Vy` wrapping, `VF` = carry.
    ADDC(GPReg, GPReg),
    /// `8xy5`: `Vx = Vx - Vy` wrapping, `VF` = NOT borrow (`Vx >= Vy`).
    SUBC(GPReg, GPReg),
    /// `8xy6`: shift right by one; the source is `Vx` under the `shifting`
    /// quirk, else `Vy`; `VF` = the bit shifted out.
    SHRC(GPReg, GPReg),
    /// `8xy7`: `Vx = Vy - Vx` wrapping, `VF` = NOT borrow (`Vy >= Vx`).
    SUBN(GPReg, GPReg),
    /// `8xyE`: shift left by one; the source is `Vx` under the `shifting`
    /// quirk, else `Vy`; `VF` = the bit shifted out.
    SHLC(GPReg, GPReg),
    /// `9xy0`: skip the next instruction if `Vx != Vy`.
    SNE(GPReg, GPReg),
    /// `Annn`: `I = nnn`.
    LDI(u12),
    /// `Bnnn`: jump to `V0 + nnn` (16-bit add, no masking).
    JPL(u12),
    /// `Cxkk`: `Vx = random byte & kk`.
    RND(GPReg, u8),
    /// `Dxyn`: XOR-blit the `n`-byte sprite at memory `I..I+n` to
    /// `(Vx, Vy)`; `VF` = collision. Start coordinates wrap; sprite pixels
    /// falling outside the frame after the wrapped start are clipped.
    DRW(GPReg, GPReg, u4),
    /// `Ex9E`: skip the next instruction if the key with the value of `Vx`
    /// is down.
    SKP(GPReg),
    /// `ExA1`: skip the next instruction if the key with the value of `Vx`
    /// is up.
    SKNP(GPReg),
    /// `Fx07`: `Vx = delay timer`.
    MOVDT(GPReg),
    /// `Fx0A`: block until a key-press event arrives, then `Vx = key value`.
    LDKB(GPReg),
    /// `Fx15`: `delay timer = Vx`.
    LDDT(GPReg),
    /// `Fx18`: `sound timer = Vx`.
    LDST(GPReg),
    /// `Fx1E`: `I = I + Vx`, masked to 12 bits.
    ADDI(GPReg),
    /// `Fx29`: `I = Vx * 5`, the font glyph address for digit `Vx`.
    LDSPR(GPReg),
    /// `Fx33`: store the three decimal digits of `Vx` at `I`, `I+1`, `I+2`
    /// (hundreds, tens, ones).
    LDBCD(GPReg),
    /// `Fx55`: copy `V0..=Vx` into memory at `I`; the `memory` quirk then
    /// advances `I` by `x + 1`.
    PUSHREG(GPReg),
    /// `Fx65`: read `V0..=Vx` from memory at `I`; the `memory` quirk then
    /// advances `I` by `x + 1`.
    POPREG(GPReg),
}

/// The byte composed of two nibbles, high then low.
pub open spec fn spec_byte(hi: u8, lo: u8) -> u8 {
    (hi << 4) | lo
}

/// The 12-bit address composed of three nibbles, high to low.
pub open spec fn spec_addr(hi: u8, mid: u8, lo: u8) -> u12 {
    u12::spec_of(((hi as u16) << 8) | ((mid as u16) << 4) | (lo as u16))
}

/// What a 16-bit word decodes to: the opcode table. Matching is exhaustive
/// over the high nibble, then dispatches on further nibbles for the
/// ambiguous families; every unmatched pattern yields a named decode error.
pub open spec fn spec_decode(w: u16) -> Result<Instr, Error> {
    let n3 = w.nibble_spec(3);
    let n2 = w.nibble_spec(2);
    let n1 = w.nibble_spec(1);
    let n0 = w.nibble_spec(0);
    let x = GPReg::spec_indexed(n2 as int);
    let y = GPReg::spec_indexed(n1 as int);
    if n3 == 0x0 {
        if n2 == 0x0 && n1 == 0xE && n0 == 0x0 {
            Ok(Instr::CLS)
        } else if n2 == 0x0 && n1 == 0xE && n0 == 0xE {
            Ok(Instr::RET)
        } else {
            Err(Error::InstrErr(DecodeErr::Opcode(w)))
        }
    } else if n3 == 0x1 {
        Ok(Instr::JP(spec_addr(n2, n1, n0)))
    } else if n3 == 0x2 {
        Ok(Instr::CALL(spec_addr(n2, n1, n0)))
    } else if n3 == 0x3 {
        Ok(Instr::SEQ(x, spec_byte(n1, n0)))
    } else if n3 == 0x4 {
        Ok(Instr::SNELIT(x, spec_byte(n1, n0)))
    } else if n3 == 0x5 {
        if n0 == 0x0 {
            Ok(Instr::SE(x, y))
        } else {
            Err(Error::InstrErr(DecodeErr::Opcode(w)))
        }
    } else if n3 == 0x6 {
        Ok(Instr::LDL(x, spec_byte(n1, n0)))
    } else if n3 == 0x7 {
        Ok(Instr::ADDL(x, spec_byte(n1, n0)))
    } else if n3 == 0x8 {
        if n0 == 0x0 {
            Ok(Instr::LD(x, y))
        } else if n0 == 0x1 {
            Ok(Instr::OR(x, y))
        } else if n0 == 0x2 {
            Ok(Instr::AND(x, y))
        } else if n0 == 0x3 {
            Ok(Instr::XOR(x, y))
        } else if n0 == 0x4 {
            Ok(Instr::ADDC(x, y))
        } else if n0 == 0x5 {
            Ok(Instr::SUBC(x, y))
        } else if n0 == 0x6 {
            Ok(Instr::SHRC(x, y))
        } else if n0 == 0x7 {
            Ok(Instr::SUBN(x, y))
        } else if n0 == 0xE {
            Ok(Instr::SHLC(x, y))
        } else {
            Err(Error::InstrErr(DecodeErr::Subcode(0x8, n0)))
        }
    } else if n3 == 0x9 {
        if n0 == 0x0 {
            Ok(Instr::SNE(x, y))
        } else {
            Err(Error::InstrErr(DecodeErr::Opcode(w)))
        }
    } else if n3 == 0xA {
        Ok(Instr::LDI(spec_addr(n2, n1, n0)))
    } else if n3 == 0xB {
        Ok(Instr::JPL(spec_addr(n2, n1, n0)))
    } else if n3 == 0xC {
        Ok(Instr::RND(x, spec_byte(n1, n0)))
    } else if n3 == 0xD {
        Ok(Instr::DRW(x, y, u4::spec_of(n0)))
    } else if n3 == 0xE {
        if n1 == 0x9 && n0 == 0xE {
            Ok(Instr::SKP(x))
        } else if n1 == 0xA && n0 == 0x1 {
            Ok(Instr::SKNP(x))
        } else {
            Err(Error::InstrErr(DecodeErr::Opcode(w)))
        }
    } else if n3 == 0xF {
        if n1 == 0x0 && n0 == 0x7 {
            Ok(Instr::MOVDT(x))
        } else if n1 == 0x0 && n0 == 0xA {
            Ok(Instr::LDKB(x))
        } else if n1 == 0x1 && n0 == 0x5 {
            Ok(Instr::LDDT(x))
        } else if n1 == 0x1 && n0 == 0x8 {
            Ok(Instr::LDST(x))
        } else if n1 == 0x1 && n0 == 0xE {
            Ok(Instr::ADDI(x))
        } else if n1 == 0x2 && n0 == 0x9 {
            Ok(Instr::LDSPR(x))
        } else if n1 == 0x3 && n0 == 0x3 {
            Ok(Instr::LDBCD(x))
        } else if n1 == 0x5 && n0 == 0x5 {
            Ok(Instr::PUSHREG(x))
        } else if n1 == 0x6 && n0 == 0x5 {
            Ok(Instr::POPREG(x))
        } else {
            Err(Error::InstrErr(DecodeErr::Opcode(w)))
        }
    } else {
        Err(Error::InstrErr(DecodeErr::Opcode(w)))
    }
}

/// Every nibble of a 16-bit word is a 4-bit value.
pub proof fn lemma_nibble_bounds(w: u16)
    ensures
        w.nibble_spec(0) < 0x10,
        w.nibble_spec(1) < 0x10,
        w.nibble_spec(2) < 0x10,
        w.nibble_spec(3) < 0x10,
{
    assert(((w & 0xF) as u8) < 0x10) by (bit_vector);
    assert((((w >> 4) & 0xF) as u8) < 0x10) by (bit_vector);
    assert((((w >> 8) & 0xF) as u8) < 0x10) by (bit_vector);
    assert((((w >> 12) & 0xF) as u8) < 0x10) by (bit_vector);
}

/// The register named by a register-position nibble, or the typed failure.
fn gpreg_at(word: u16, idx: u8) -> (r: Result<GPReg, Error>)
    ensures
        idx <= 0xF ==> r == Ok::<GPReg, Error>(GPReg::spec_indexed(idx as int)),
        idx > 0xF ==> r == Err::<GPReg, Error>(Error::InstrErr(DecodeErr::Reg(word, idx))),
{
    match GPReg::indexed(idx) {
        Some(g) => Ok(g),
        None => Err(Error::InstrErr(DecodeErr::Reg(word, idx))),
    }
}

impl Instr {
    /// Splits `value` into its four nibbles and matches the opcode table.
    /// Pure and total: the same word always decodes to the same result, and
    /// every word yields either an instruction or a named decode error.
    pub fn decode(value: u16) -> (r: Result<Instr, Error>)
        ensures
            r == spec_decode(value),
    {
        proof {
            lemma_nibble_bounds(value);
        }
        let nb = value.nibbles();

        Ok(
            match (nb[0], nb[1], nb[2], nb[3]) {
                (0x0, 0x0, 0xE, 0x0) => Instr::CLS,
                (0x0, 0x0, 0xE, 0xE) => Instr::RET,
                (0x1, hi, mid, lo) => Instr::JP(u12::from_nibbles(hi, mid, lo)),
                (0x2, hi, mid, lo) => Instr::CALL(u12::from_nibbles(hi, mid, lo)),
                (0x3, reg, hi, lo) => Instr::SEQ(gpreg_at(value, reg)?, hi << 4 | lo),
                (0x4, reg, hi, lo) => Instr::SNELIT(gpreg_at(value, reg)?, hi << 4 | lo),
                (0x5, reg1, reg2, 0x0) => Instr::SE(gpreg_at(value, reg1)?, gpreg_at(value, reg2)?),
                (0x6, reg, hi, lo) => Instr::LDL(gpreg_at(value, reg)?, hi << 4 | lo),
                (0x7, reg, hi, lo) => Instr::ADDL(gpreg_at(value, reg)?, hi << 4 | lo),
                (0x8, reg1, reg2, op) => {
                    let reg1 = gpreg_at(value, reg1)?;
                    let reg2 = gpreg_at(value, reg2)?;
                    match op {
                        0x0 => Instr::LD(reg1, reg2),
                        0x1 => Instr::OR(reg1, reg2),
                        0x2 => Instr::AND(reg1, reg2),
                        0x3 => Instr::XOR(reg1, reg2),
                        0x4 => Instr::ADDC(reg1, reg2),
                        0x5 => Instr::SUBC(reg1, reg2),
                        0x6 => Instr::SHRC(reg1, reg2),
                        0x7 => Instr::SUBN(reg1, reg2),
                        0xE => Instr::SHLC(reg1, reg2),
                        _ => {
                            return Err(Error::InstrErr(DecodeErr::Subcode(0x8, op)));
                        },
                    }
                },
                (0x9, reg1, reg2, 0x0) => Instr::SNE(
                    gpreg_at(value, reg1)?,
                    gpreg_at(value, reg2)?,
                ),
                (0xA, hi, mid, lo) => Instr::LDI(u12::from_nibbles(hi, mid, lo)),
                (0xB, hi, mid, lo) => Instr::JPL(u12::from_nibbles(hi, mid, lo)),
                (0xC, reg, hi, lo) => Instr::RND(gpreg_at(value, reg)?, hi << 4 | lo),
                (0xD, reg1, reg2, nib) => Instr::DRW(
                    gpreg_at(value, reg1)?,
                    gpreg_at(value, reg2)?,
                    u4::of(nib),
                ),
                (0xE, reg, 0x9, 0xE) => Instr::SKP(gpreg_at(value, reg)?),
                (0xE, reg, 0xA, 0x1) => Instr::SKNP(gpreg_at(value, reg)?),
                (0xF, reg, 0x0, 0x7) => Instr::MOVDT(gpreg_at(value, reg)?),
                (0xF, reg, 0x0, 0xA) => Instr::LDKB(gpreg_at(value, reg)?),
                (0xF, reg, 0x1, 0x5) => Instr::LDDT(gpreg_at(value, reg)?),
                (0xF, reg, 0x1, 0x8) => Instr::LDST(gpreg_at(value, reg)?),
                (0xF, reg, 0x1, 0xE) => Instr::ADDI(gpreg_at(value, reg)?),
                (0xF, reg, 0x2, 0x9) => Instr::LDSPR(gpreg_at(value, reg)?),
                (0xF, reg, 0x3, 0x3) => Instr::LDBCD(gpreg_at(value, reg)?),
                (0xF, reg, 0x5, 0x5) => Instr::PUSHREG(gpreg_at(value, reg)?),
                (0xF, reg, 0x6, 0x5) => Instr::POPREG(gpreg_at(value, reg)?),
                _ => {
                    return Err(Error::InstrErr(DecodeErr::Opcode(value)));
                },
            },
        )
    }
}

/// Decoder totality: every 16-bit word decodes to an instruction of the
/// closed set or to one of the three named decode errors.
pub proof fn lemma_decode_total(w: u16)
    ensures
        match spec_decode(w) {
            Ok(_) => true,
            Err(Error::InstrErr(e)) => e is Opcode || e is Subcode || e is Reg,
        },
{
}

/// Decoder determinism: decoding is a pure function of the word, so any two
/// results obtained for the same word are equal.
pub proof fn lemma_decode_deterministic(w: u16, r1: Result<Instr, Error>, r2: Result<
    Instr,
    Error,
>)
    requires
        r1 == spec_decode(w),
        r2 == spec_decode(w),
    ensures
        r1 == r2,
{
}

} // verus!
