//! Failure values of the decoder and of the execution engine.
//!
//! Both tiers are fatal to the running program: the engine never recovers
//! silently, every failure bubbles to the driver as an explicit result value.

use vstd::prelude::*;

verus! {

/// A 16-bit word that does not name any defined instruction.
#[derive(Copy, Clone, PartialEq, Eq, Structural, Debug)]
pub enum DecodeErr {
    /// The full instruction word matched no pattern of the opcode table.
    Opcode(u16),
    /// The family nibble matched but the trailing operation nibble did not
    /// (family, operation).
    Subcode(u8, u8),
    /// A register-position nibble failed to map to a register name
    /// (word, nibble). Structurally unreachable, since every 4-bit nibble
    /// names a register; retained as a typed failure mode.
    Reg(u16, u8),
}

/// A decode failure.
#[derive(Copy, Clone, PartialEq, Eq, Structural, Debug)]
pub enum Error {
    InstrErr(DecodeErr),
}

/// A fatal condition met while executing a structurally valid program.
///
/// Each variant carries the address of the failing instruction.
#[derive(Copy, Clone, PartialEq, Eq, Structural, Debug)]
pub enum RuntimeError {
    /// The fetched word did not decode; no effect was applied this step
    /// beyond the timer tick and the unconditional advance past the word.
    Decode(Error),
    /// A subroutine call found the 16-frame stack full.
    StackOverflow(u16),
    /// A return found the stack empty.
    StackUnderflow(u16),
    /// A key-state test named a key above 0xF (pc, offending value).
    InvalidKey(u16, u8),
}

} // verus!
