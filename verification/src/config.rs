use vstd::prelude::*;

verus! {

/// Interpreter behaviours on which CHIP-8 implementations historically disagree.
///
/// Each flag switches one instruction family from the original COSMAC VIP
/// behaviour to the later (CHIP-48 / SUPER-CHIP) one.
#[derive(Clone, Copy, Debug, PartialEq, Eq, Structural)]
pub struct QuirkConfig {
    /// `8XY6` / `8XYE` shift `VX` in place instead of first copying `VY` into `VX`.
    pub shift: bool,
    /// `FX55` / `FX65` leave `I` unchanged instead of advancing it past the last register.
    pub load_store: bool,
    /// `BNNN` jumps to `NNN + VX` (X being the high nibble of `NNN`) instead of `NNN + V0`.
    pub jumping: bool,
}

/// The COSMAC VIP behaviour: every quirk switched off.
pub open spec fn default_quirks() -> QuirkConfig {
    QuirkConfig { shift: false, load_store: false, jumping: false }
}

impl Default for QuirkConfig {
    fn default() -> (r: Self)
        ensures
            r == default_quirks(),
    {
        QuirkConfig { shift: false, load_store: false, jumping: false }
    }
}

} // verus!
