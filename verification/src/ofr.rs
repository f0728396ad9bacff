use vstd::prelude::*;

verus! {

/// Reader of the oversize-frames-received register `OFR` of the
/// Ethernet controller: part of the mechanical per-register accessor
/// layer the core consumes.
pub struct R {
    pub bits: u32,
}

impl R {
    /// A reader over the raw register value `bits`.
    pub fn new(bits: u32) -> (r: R)
        ensures
            r.bits == bits,
    {
        R { bits }
    }

    /// The raw register value.
    pub fn bits(&self) -> (r: u32)
        ensures
            r == self.bits,
    {
        self.bits
    }

    /// Bits 0:9 - Oversized Frames Received
    pub fn ofrx(&self) -> (r: OFRX_R)
        ensures
            r.bits == (self.bits & 0x03ff) as u16,
    {
        OFRX_R::new((self.bits & 0x03ff) as u16)
    }
}

/// Field `OFRX` reader - Oversized Frames Received
pub struct OFRX_R {
    pub bits: u16,
}

impl OFRX_R {
    /// A field reader over the extracted field value `bits`.
    pub(crate) fn new(bits: u16) -> (r: OFRX_R)
        ensures
            r.bits == bits,
    {
        OFRX_R { bits }
    }

    /// The field value.
    pub fn bits(&self) -> (r: u16)
        ensures
            r == self.bits,
    {
        self.bits
    }
}

/// Marker for the `OFR` register: read-only, ten counter bits.
pub struct OFR_SPEC;

impl OFR_SPEC {
    /// `reset()` sets OFR to value 0.
    pub fn reset_value() -> (r: u32)
        ensures
            r == 0,
    {
        0
    }
}

} // verus!
