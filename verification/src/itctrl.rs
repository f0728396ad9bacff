use vstd::prelude::*;

verus! {

/// Reader of the trace unit's integration-mode control register
/// `ITCTRL`: part of the mechanical per-register accessor layer the
/// core consumes.
pub struct R {
    pub bits: u32,
}

impl R {
    /// A reader over the raw register value `bits`.
    pub fn new(bits: u32) -> (r: R)
        ensures
            r.bits == bits,
    {
        R { bits }
    }

    /// The raw register value.
    pub fn bits(&self) -> (r: u32)
        ensures
            r == self.bits,
    {
        self.bits
    }

    /// Bit 0
    pub fn integration(&self) -> (r: INTEGRATION_R)
        ensures
            r.bits == ((self.bits & 0x01) != 0),
    {
        INTEGRATION_R::new((self.bits & 0x01) != 0)
    }
}

/// Writer of the `ITCTRL` register, accumulating the value to be
/// written.
pub struct W {
    pub bits: u32,
}

impl W {
    /// A writer starting from the value `bits`.
    pub fn new(bits: u32) -> (r: W)
        ensures
            r.bits == bits,
    {
        W { bits }
    }

    /// Bit 0
    pub fn integration(self) -> (r: INTEGRATION_W)
        ensures
            r.w == self,
    {
        INTEGRATION_W { w: self }
    }
}

/// Field `INTEGRATION` reader
pub struct INTEGRATION_R {
    pub bits: bool,
}

impl INTEGRATION_R {
    /// A field reader over the extracted field value `bits`.
    pub(crate) fn new(bits: bool) -> (r: INTEGRATION_R)
        ensures
            r.bits == bits,
    {
        INTEGRATION_R { bits }
    }

    /// The field bit.
    pub fn bit(&self) -> (r: bool)
        ensures
            r == self.bits,
    {
        self.bits
    }
}

/// Field `INTEGRATION` writer
pub struct INTEGRATION_W {
    pub w: W,
}

impl INTEGRATION_W {
    /// Sets the field bit.
    pub fn set_bit(self) -> (r: W)
        ensures
            r.bits == self.w.bits | 1u32,
    {
        proof {
            let b = self.w.bits;
            assert((b & 0xffff_fffeu32) | 1u32 == b | 1u32) by (bit_vector);
        }
        self.bit(true)
    }

    /// Clears the field bit.
    pub fn clear_bit(self) -> (r: W)
        ensures
            r.bits == self.w.bits & 0xffff_fffeu32,
    {
        proof {
            let b = self.w.bits;
            assert((b & 0xffff_fffeu32) | 0u32 == b & 0xffff_fffeu32) by (bit_vector);
        }
        self.bit(false)
    }

    /// Writes the bit into the field position, leaving the other bits
    /// of the accumulated value unchanged.
    pub fn bit(self, value: bool) -> (r: W)
        ensures
            r.bits == (self.w.bits & 0xffff_fffeu32) | (if value {
                1u32
            } else {
                0u32
            }),
    {
        W { bits: (self.w.bits & 0xffff_fffeu32) | (if value { 1u32 } else { 0u32 }) }
    }
}

/// Marker for the `ITCTRL` register: one integration-mode bit.
pub struct ITCTRL_SPEC;

impl ITCTRL_SPEC {
    /// `reset()` sets ITCTRL to value 0.
    pub fn reset_value() -> (r: u32)
        ensures
            r == 0,
    {
        0
    }
}

} // verus!
