use vstd::prelude::*;
use crate::pin::{PinId, Role, spec_pa, spec_pb, pa, pb};
use crate::variant::Variant;

verus! {

broadcast use vstd::seq_lib::lemma_seq_contains_after_push;

/// One entry of the pin capability table: pin `pin` may serve role
/// `role` of peripheral `peripheral` when its multiplexer is switched
/// to alternate function `alt`.  An entry tagged `undocumented` is an
/// empirically verified extension that the vendor's datasheet omits;
/// consumers may opt out of those per variant.
#[derive(Clone, Copy, PartialEq, Eq, Structural, Debug)]
pub struct Capability {
    pub pin: PinId,
    pub peripheral: u8,
    pub role: Role,
    pub alt: u8,
    pub undocumented: bool,
}

/// Capabilities of the first peripheral's documented pin group: pads
/// 0 to 3 on PA04 to PA07 under alternate function 3.
pub open spec fn table_sercom0() -> Seq<Capability> {
    seq![
        Capability { pin: spec_pa(4), peripheral: 0, role: Role::DataOut, alt: 3, undocumented: false },
        Capability { pin: spec_pa(5), peripheral: 0, role: Role::Clock, alt: 3, undocumented: false },
        Capability { pin: spec_pa(6), peripheral: 0, role: Role::Select, alt: 3, undocumented: false },
        Capability { pin: spec_pa(7), peripheral: 0, role: Role::DataIn, alt: 3, undocumented: false },
    ]
}

/// Capabilities of the second peripheral's documented pin group: pads
/// 0 to 3 on PA16 to PA19 under alternate function 2.
pub open spec fn table_sercom1_doc() -> Seq<Capability> {
    seq![
        Capability { pin: spec_pa(16), peripheral: 1, role: Role::DataOut, alt: 2, undocumented: false },
        Capability { pin: spec_pa(17), peripheral: 1, role: Role::Clock, alt: 2, undocumented: false },
        Capability { pin: spec_pa(18), peripheral: 1, role: Role::Select, alt: 2, undocumented: false },
        Capability { pin: spec_pa(19), peripheral: 1, role: Role::DataIn, alt: 2, undocumented: false },
    ]
}

/// Empirically verified extensions for the second peripheral on the
/// newer family, observed working on real boards but absent from the
/// datasheet.
pub open spec fn table_sercom1_undoc() -> Seq<Capability> {
    seq![
        Capability { pin: spec_pa(16), peripheral: 1, role: Role::DataIn, alt: 2, undocumented: true },
        Capability { pin: spec_pb(22), peripheral: 1, role: Role::Select, alt: 2, undocumented: true },
        Capability { pin: spec_pb(23), peripheral: 1, role: Role::DataOut, alt: 2, undocumented: true },
        Capability { pin: spec_pa(0), peripheral: 1, role: Role::DataIn, alt: 3, undocumented: true },
        Capability { pin: spec_pa(1), peripheral: 1, role: Role::Clock, alt: 3, undocumented: true },
    ]
}

/// Capabilities of the fifth peripheral's documented pin group on the
/// large package: pads 0 to 3 on PB08 to PB11 under alternate
/// function 3.
pub open spec fn table_sercom4() -> Seq<Capability> {
    seq![
        Capability { pin: spec_pb(8), peripheral: 4, role: Role::DataOut, alt: 3, undocumented: false },
        Capability { pin: spec_pb(9), peripheral: 4, role: Role::Clock, alt: 3, undocumented: false },
        Capability { pin: spec_pb(10), peripheral: 4, role: Role::Select, alt: 3, undocumented: false },
        Capability { pin: spec_pb(11), peripheral: 4, role: Role::DataIn, alt: 3, undocumented: false },
    ]
}

/// The pin capability table of variant `v`.
pub open spec fn cap_table_spec(v: Variant) -> Seq<Capability> {
    match v {
        Variant::Samd11 => table_sercom0(),
        Variant::Samd21 => table_sercom0() + table_sercom1_doc(),
        Variant::Samd51G => table_sercom0() + table_sercom1_doc() + table_sercom1_undoc(),
        Variant::Samd51N => table_sercom0() + table_sercom1_doc() + table_sercom1_undoc()
            + table_sercom4(),
    }
}

/// The capability table records that pin `pin` may serve role `role`
/// of peripheral `per` under alternate function `alt`.  With
/// `allow_undoc` false, only vendor-documented entries count.
pub open spec fn table_allows(
    v: Variant,
    per: u8,
    role: Role,
    pin: PinId,
    alt: u8,
    allow_undoc: bool,
) -> bool {
    exists|c: Capability|
        cap_table_spec(v).contains(c) && c.peripheral == per && c.role == role && c.pin == pin
            && c.alt == alt && (allow_undoc || !c.undocumented)
}

/// Pin `pin` can serve role `role` of peripheral `per` under some
/// alternate function, counting the empirically verified extensions.
pub open spec fn capable(v: Variant, per: u8, role: Role, pin: PinId) -> bool {
    exists|c: Capability|
        cap_table_spec(v).contains(c) && c.peripheral == per && c.role == role && c.pin == pin
}

/// The pin capability table of variant `v`, as a vector.
pub fn capability_table(v: Variant) -> (r: Vec<Capability>)
    ensures
        r@ == cap_table_spec(v),
{
    let mut out: Vec<Capability> = Vec::new();
    out.push(Capability { pin: pa(4), peripheral: 0, role: Role::DataOut, alt: 3, undocumented: false });
    out.push(Capability { pin: pa(5), peripheral: 0, role: Role::Clock, alt: 3, undocumented: false });
    out.push(Capability { pin: pa(6), peripheral: 0, role: Role::Select, alt: 3, undocumented: false });
    out.push(Capability { pin: pa(7), peripheral: 0, role: Role::DataIn, alt: 3, undocumented: false });
    match v {
        Variant::Samd11 => {},
        Variant::Samd21 | Variant::Samd51G | Variant::Samd51N => {
            out.push(Capability { pin: pa(16), peripheral: 1, role: Role::DataOut, alt: 2, undocumented: false });
            out.push(Capability { pin: pa(17), peripheral: 1, role: Role::Clock, alt: 2, undocumented: false });
            out.push(Capability { pin: pa(18), peripheral: 1, role: Role::Select, alt: 2, undocumented: false });
            out.push(Capability { pin: pa(19), peripheral: 1, role: Role::DataIn, alt: 2, undocumented: false });
        },
    }
    match v {
        Variant::Samd11 | Variant::Samd21 => {},
        Variant::Samd51G | Variant::Samd51N => {
            out.push(Capability { pin: pa(16), peripheral: 1, role: Role::DataIn, alt: 2, undocumented: true });
            out.push(Capability { pin: pb(22), peripheral: 1, role: Role::Select, alt: 2, undocumented: true });
            out.push(Capability { pin: pb(23), peripheral: 1, role: Role::DataOut, alt: 2, undocumented: true });
            out.push(Capability { pin: pa(0), peripheral: 1, role: Role::DataIn, alt: 3, undocumented: true });
            out.push(Capability { pin: pa(1), peripheral: 1, role: Role::Clock, alt: 3, undocumented: true });
        },
    }
    match v {
        Variant::Samd11 | Variant::Samd21 | Variant::Samd51G => {},
        Variant::Samd51N => {
            out.push(Capability { pin: pb(8), peripheral: 4, role: Role::DataOut, alt: 3, undocumented: false });
            out.push(Capability { pin: pb(9), peripheral: 4, role: Role::Clock, alt: 3, undocumented: false });
            out.push(Capability { pin: pb(10), peripheral: 4, role: Role::Select, alt: 3, undocumented: false });
            out.push(Capability { pin: pb(11), peripheral: 4, role: Role::DataIn, alt: 3, undocumented: false });
        },
    }
    proof {
        assert(out@ =~= cap_table_spec(v));
    }
    out
}

/// Everything pin `pin` can do on variant `v`: every capability table
/// entry that names it.
pub fn pin_capabilities(v: Variant, pin: PinId) -> (r: Vec<Capability>)
    ensures
        forall|k: int| 0 <= k < r@.len() ==> cap_table_spec(v).contains(#[trigger] r@[k]) && r@[k].pin == pin,
        forall|c: Capability| cap_table_spec(v).contains(c) && c.pin == pin ==> r@.contains(c),
{
    let table = capability_table(v);
    let mut out: Vec<Capability> = Vec::new();
    let mut i: usize = 0;
    while i < table.len()
        invariant
            i <= table@.len(),
            table@ == cap_table_spec(v),
            forall|k: int| 0 <= k < out@.len() ==> cap_table_spec(v).contains(#[trigger] out@[k]) && out@[k].pin == pin,
            forall|j: int| 0 <= j < i as int && (#[trigger] table@[j]).pin == pin ==> out@.contains(table@[j]),
        decreases table@.len() - i,
    {
        let c = table[i];
        if c.pin.port == pin.port && c.pin.num == pin.num {
            out.push(c);
        }
        i = i + 1;
    }
    proof {
        assert forall|c: Capability| cap_table_spec(v).contains(c) && c.pin == pin implies out@.contains(c) by {
            let j = choose|j: int| 0 <= j < cap_table_spec(v).len() && cap_table_spec(v)[j] == c;
            assert(table@[j] == c);
        }
    }
    out
}

/// Which pins can serve role `role` of peripheral `per` on variant
/// `v`, counting the empirically verified extensions.
pub fn pins_for_role(v: Variant, per: u8, role: Role) -> (r: Vec<PinId>)
    ensures
        forall|k: int| 0 <= k < r@.len() ==> capable(v, per, role, #[trigger] r@[k]),
        forall|p: PinId| capable(v, per, role, p) ==> r@.contains(p),
{
    let table = capability_table(v);
    let mut out: Vec<PinId> = Vec::new();
    let mut i: usize = 0;
    while i < table.len()
        invariant
            i <= table@.len(),
            table@ == cap_table_spec(v),
            forall|k: int| 0 <= k < out@.len() ==> capable(v, per, role, #[trigger] out@[k]),
            forall|j: int|
                0 <= j < i as int && (#[trigger] table@[j]).peripheral == per && table@[j].role
                    == role ==> out@.contains(table@[j].pin),
        decreases table@.len() - i,
    {
        let c = table[i];
        if c.peripheral == per && c.role == role {
            out.push(c.pin);
            proof {
                assert(cap_table_spec(v).contains(c));
            }
        }
        i = i + 1;
    }
    proof {
        assert forall|p: PinId| capable(v, per, role, p) implies out@.contains(p) by {
            let c = choose|c: Capability|
                cap_table_spec(v).contains(c) && c.peripheral == per && c.role == role && c.pin
                    == p;
            let j = choose|j: int| 0 <= j < cap_table_spec(v).len() && cap_table_spec(v)[j] == c;
            assert(table@[j] == c);
        }
    }
    out
}

} // verus!
