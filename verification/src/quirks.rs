//! Compatibility quirks: documented deviations in opcode semantics between
//! historical interpreter generations, made configurable rather than
//! hard-coded. Read-only configuration, consulted by the engine during
//! `OR`/`AND`/`XOR`, `SHR`/`SHL` and the register block load/store.

use vstd::prelude::*;

verus! {

/// Three independent flags selecting among documented behaviors.
#[derive(Copy, Clone, PartialEq, Eq, Structural, Debug, Default)]
pub struct Quirks {
    /// `VF` is reset to 0 by the `AND`, `OR` and `XOR` opcodes.
    pub vf_reset: bool,
    /// The register block load/store opcodes advance the value of `I`.
    pub memory: bool,
    /// The shift opcodes read their source from the shifted register itself,
    /// rather than from the second operand register.
    pub shifting: bool,
}

impl Quirks {
    /// The "COSMAC VIP"-era behavior preset.
    pub fn old_preset() -> (q: Quirks)
        ensures
            q == (Quirks { vf_reset: true, memory: false, shifting: false }),
    {
        Quirks { vf_reset: true, memory: false, shifting: false }
    }

    /// The modern-interpreter-era behavior preset.
    pub fn new_preset() -> (q: Quirks)
        ensures
            q == (Quirks { vf_reset: true, memory: true, shifting: false }),
    {
        Quirks { vf_reset: true, memory: true, shifting: false }
    }
}

} // verus!
