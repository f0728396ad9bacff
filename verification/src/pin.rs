use vstd::prelude::*;

verus! {

/// One physical package pin, named by its port (0 for port A, 1 for
/// port B) and its number within that port.
#[derive(Clone, Copy, PartialEq, Eq, Structural, Debug)]
pub struct PinId {
    pub port: u8,
    pub num: u8,
}

pub open spec fn spec_pa(n: u8) -> PinId {
    PinId { port: 0, num: n }
}

/// Pin `n` of port A.
#[verifier::when_used_as_spec(spec_pa)]
pub fn pa(n: u8) -> (r: PinId)
    ensures
        r == spec_pa(n),
{
    PinId { port: 0, num: n }
}

pub open spec fn spec_pb(n: u8) -> PinId {
    PinId { port: 1, num: n }
}

/// Pin `n` of port B.
#[verifier::when_used_as_spec(spec_pb)]
pub fn pb(n: u8) -> (r: PinId)
    ensures
        r == spec_pb(n),
{
    PinId { port: 1, num: n }
}

/// The functional role a pin serves for a peripheral of the synchronous
/// serial family: one line each for clock, incoming data, outgoing data
/// and chip select.
#[derive(Clone, Copy, PartialEq, Eq, Structural, Debug)]
pub enum Role {
    Clock,
    DataIn,
    DataOut,
    Select,
}

impl Role {
    /// The pad position this role occupies on the peripheral side.
    pub open spec fn spec_pad_index(self) -> u8 {
        match self {
            Role::DataOut => 0,
            Role::Clock => 1,
            Role::Select => 2,
            Role::DataIn => 3,
        }
    }

    /// The pad position this role occupies on the peripheral side.
    #[verifier::when_used_as_spec(spec_pad_index)]
    pub fn pad_index(self) -> (r: u8)
        ensures
            r == self.spec_pad_index(),
    {
        match self {
            Role::DataOut => 0,
            Role::Clock => 1,
            Role::Select => 2,
            Role::DataIn => 3,
        }
    }
}

/// A pin together with the alternate-function selector it must be
/// switched to so that it is electrically connected to the peripheral.
#[derive(Clone, Copy, PartialEq, Eq, Structural, Debug)]
pub struct PadSel {
    pub pin: PinId,
    pub alt: u8,
}

} // verus!
