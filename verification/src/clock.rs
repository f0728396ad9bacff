use vstd::prelude::*;
use crate::registry::{ClockDomain, PeripheralEntry};

verus! {

/// The asserted-enabled state of one peripheral's bus clock, obtained
/// from `ClockController::enable` before the peripheral is used.
#[derive(Clone, Copy, PartialEq, Eq, Structural, Debug)]
pub struct ClockHandle {
    pub peripheral: u8,
    pub domain: ClockDomain,
}

/// The clock gate controller: a model of the four bus-clock mask
/// registers, one per clock domain.  Enabling a peripheral performs a
/// targeted bit-set on its domain's register, never a blind
/// overwrite, so sibling peripherals' enable bits are untouched.
pub struct ClockController {
    apba: u32,
    apbb: u32,
    apbc: u32,
    apbd: u32,
}

impl ClockController {
    /// The mask register of clock domain `d`.
    pub closed spec fn spec_mask(self, d: ClockDomain) -> u32 {
        match d {
            ClockDomain::ApbA => self.apba,
            ClockDomain::ApbB => self.apbb,
            ClockDomain::ApbC => self.apbc,
            ClockDomain::ApbD => self.apbd,
        }
    }

    /// A controller whose mask registers hold their reset value: every
    /// peripheral clock gated off.
    pub fn new() -> (r: ClockController)
        ensures
            forall|d: ClockDomain| r.spec_mask(d) == 0u32,
    {
        ClockController { apba: 0, apbb: 0, apbc: 0, apbd: 0 }
    }

    /// The mask register of clock domain `d`.
    pub fn mask(&self, d: ClockDomain) -> (r: u32)
        ensures
            r == self.spec_mask(d),
    {
        match d {
            ClockDomain::ApbA => self.apba,
            ClockDomain::ApbB => self.apbb,
            ClockDomain::ApbC => self.apbc,
            ClockDomain::ApbD => self.apbd,
        }
    }

    /// Asserts the clock-enable bit of peripheral `e` in its domain's
    /// mask register by a read-modify-write, leaving every other bit
    /// and every other domain unchanged, and hands out the clock
    /// handle.  Cannot fail; enabling an already enabled clock leaves
    /// the register as it is.
    pub fn enable(&mut self, e: &PeripheralEntry) -> (h: ClockHandle)
        requires
            e.enable_bit < 32,
        ensures
            final(self).spec_mask(e.domain) == old(self).spec_mask(e.domain) | (1u32
                << e.enable_bit),
            forall|d: ClockDomain|
                d != e.domain ==> final(self).spec_mask(d) == old(self).spec_mask(d),
            h.peripheral == e.index,
            h.domain == e.domain,
    {
        match e.domain {
            ClockDomain::ApbA => {
                self.apba = self.apba | (1u32 << e.enable_bit);
            },
            ClockDomain::ApbB => {
                self.apbb = self.apbb | (1u32 << e.enable_bit);
            },
            ClockDomain::ApbC => {
                self.apbc = self.apbc | (1u32 << e.enable_bit);
            },
            ClockDomain::ApbD => {
                self.apbd = self.apbd | (1u32 << e.enable_bit);
            },
        }
        ClockHandle { peripheral: e.index, domain: e.domain }
    }
}

/// Enabling is idempotent: enabling the same peripheral twice in
/// succession leaves every mask register exactly as one enabling
/// leaves it.  `c1` and `c2` are the states after the first and the
/// second enabling, as `ClockController::enable` describes them.
pub proof fn lemma_enable_idempotent(
    c0: ClockController,
    c1: ClockController,
    c2: ClockController,
    e: PeripheralEntry,
)
    requires
        e.enable_bit < 32,
        c1.spec_mask(e.domain) == c0.spec_mask(e.domain) | (1u32 << e.enable_bit),
        forall|d: ClockDomain| d != e.domain ==> c1.spec_mask(d) == c0.spec_mask(d),
        c2.spec_mask(e.domain) == c1.spec_mask(e.domain) | (1u32 << e.enable_bit),
        forall|d: ClockDomain| d != e.domain ==> c2.spec_mask(d) == c1.spec_mask(d),
    ensures
        forall|d: ClockDomain| c2.spec_mask(d) == c1.spec_mask(d),
{
    let m = c0.spec_mask(e.domain);
    let b = e.enable_bit;
    assert((m | (1u32 << b)) | (1u32 << b) == m | (1u32 << b)) by (bit_vector);
    assert forall|d: ClockDomain| c2.spec_mask(d) == c1.spec_mask(d) by {
        if d == e.domain {
        }
    }
}

/// Enabling one peripheral does not disturb its siblings: every bit of
/// the domain's mask register other than the asserted one reads after
/// the enabling as it read before.
pub proof fn lemma_enable_preserves_siblings(m: u32, bit: u8, k: u8)
    requires
        bit < 32,
        k < 32,
        k != bit,
    ensures
        (m | (1u32 << bit)) >> k & 1u32 == m >> k & 1u32,
{
    assert(bit < 32 && k < 32 && k != bit ==> ((m | (1u32 << bit)) >> k & 1u32 == m >> k
        & 1u32)) by (bit_vector);
}

} // verus!
