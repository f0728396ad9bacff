use vstd::prelude::*;
use crate::pin::PinId;

verus! {

/// The supported chip variants.  Exactly one is selected by the caller;
/// it decides which peripheral instances, pin capabilities and
/// sanctioned pin groupings are exposed.
#[derive(Clone, Copy, PartialEq, Eq, Structural, Debug)]
pub enum Variant {
    Samd11,
    Samd21,
    Samd51G,
    Samd51N,
}

/// Which pins are broken out on the package of each variant.  Smaller
/// packages expose port A only; the 48-pin variant adds the two upper
/// port B pins, the 100-pin variant the whole of port B.
pub open spec fn pin_available_spec(v: Variant, p: PinId) -> bool {
    match v {
        Variant::Samd11 => p.port == 0 && p.num < 16,
        Variant::Samd21 => p.port == 0 && p.num < 32,
        Variant::Samd51G => (p.port == 0 && p.num < 32) || (p.port == 1 && (p.num == 22
            || p.num == 23)),
        Variant::Samd51N => (p.port == 0 && p.num < 32) || (p.port == 1 && p.num < 32),
    }
}

/// Whether pin `p` exists on the package of variant `v`.
pub fn pin_available(v: Variant, p: PinId) -> (r: bool)
    ensures
        r == pin_available_spec(v, p),
{
    match v {
        Variant::Samd11 => p.port == 0 && p.num < 16,
        Variant::Samd21 => p.port == 0 && p.num < 32,
        Variant::Samd51G => (p.port == 0 && p.num < 32) || (p.port == 1 && (p.num == 22
            || p.num == 23)),
        Variant::Samd51N => (p.port == 0 && p.num < 32) || (p.port == 1 && p.num < 32),
    }
}

} // verus!
