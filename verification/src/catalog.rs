use vstd::prelude::*;
use crate::pin::{PadSel, PinId, Role, spec_pa, spec_pb, pa, pb};
use crate::variant::{Variant, pin_available_spec};
use crate::capability::{table_allows, cap_table_spec};

verus! {

/// A sanctioned, complete pin grouping for one peripheral: exactly one
/// pin per required role, each with the alternate function it must be
/// switched to.  A grouping tagged `undocumented` has been verified on
/// real boards but is absent from the vendor's datasheet.
#[derive(Clone, Copy, PartialEq, Eq, Structural, Debug)]
pub struct IoSet {
    pub clock: PadSel,
    pub data_in: PadSel,
    pub data_out: PadSel,
    pub select: PadSel,
    pub undocumented: bool,
}

impl IoSet {
    /// The pad this grouping assigns to role `r`.
    pub open spec fn pad_for(self, r: Role) -> PadSel {
        match r {
            Role::Clock => self.clock,
            Role::DataIn => self.data_in,
            Role::DataOut => self.data_out,
            Role::Select => self.select,
        }
    }

    /// Whether this grouping claims pin `p` for one of its roles.
    pub open spec fn uses_pin(self, p: PinId) -> bool {
        p == self.clock.pin || p == self.data_in.pin || p == self.data_out.pin || p
            == self.select.pin
    }

    /// No pin appears twice within one grouping.
    pub open spec fn distinct_pins(self) -> bool {
        &&& self.clock.pin != self.data_in.pin
        &&& self.clock.pin != self.data_out.pin
        &&& self.clock.pin != self.select.pin
        &&& self.data_in.pin != self.data_out.pin
        &&& self.data_in.pin != self.select.pin
        &&& self.data_out.pin != self.select.pin
    }

    /// Every pin of this grouping is broken out on variant `v`.
    pub open spec fn pins_available(self, v: Variant) -> bool {
        &&& pin_available_spec(v, self.clock.pin)
        &&& pin_available_spec(v, self.data_in.pin)
        &&& pin_available_spec(v, self.data_out.pin)
        &&& pin_available_spec(v, self.select.pin)
    }
}

/// Every role/pin/alternate-function triple of grouping `s` for
/// peripheral `per` stands in the capability table of variant `v`; a
/// documented grouping rests on documented entries only, while a
/// grouping tagged as an empirically verified extension may also rest
/// on entries so tagged.
pub open spec fn ioset_backed(v: Variant, per: u8, s: IoSet) -> bool {
    &&& table_allows(v, per, Role::Clock, s.clock.pin, s.clock.alt, s.undocumented)
    &&& table_allows(v, per, Role::DataIn, s.data_in.pin, s.data_in.alt, s.undocumented)
    &&& table_allows(v, per, Role::DataOut, s.data_out.pin, s.data_out.alt, s.undocumented)
    &&& table_allows(v, per, Role::Select, s.select.pin, s.select.alt, s.undocumented)
}

/// The documented grouping of the first peripheral: PA04 to PA07 under
/// alternate function 3.
pub open spec fn ioset_sercom0_a() -> IoSet {
    IoSet {
        clock: PadSel { pin: spec_pa(5), alt: 3 },
        data_in: PadSel { pin: spec_pa(7), alt: 3 },
        data_out: PadSel { pin: spec_pa(4), alt: 3 },
        select: PadSel { pin: spec_pa(6), alt: 3 },
        undocumented: false,
    }
}

/// The documented grouping of the second peripheral: PA16 to PA19
/// under alternate function 2.
pub open spec fn ioset_sercom1_doc() -> IoSet {
    IoSet {
        clock: PadSel { pin: spec_pa(17), alt: 2 },
        data_in: PadSel { pin: spec_pa(19), alt: 2 },
        data_out: PadSel { pin: spec_pa(16), alt: 2 },
        select: PadSel { pin: spec_pa(18), alt: 2 },
        undocumented: false,
    }
}

/// The first empirically verified grouping of the second peripheral:
/// PA16, PA17, PB22 and PB23, observed working on real boards.
pub open spec fn ioset_sercom1_undoc1() -> IoSet {
    IoSet {
        clock: PadSel { pin: spec_pa(17), alt: 2 },
        data_in: PadSel { pin: spec_pa(16), alt: 2 },
        data_out: PadSel { pin: spec_pb(23), alt: 2 },
        select: PadSel { pin: spec_pb(22), alt: 2 },
        undocumented: true,
    }
}

/// The second empirically verified grouping of the second peripheral:
/// PA00, PA01, PB22 and PB23, observed working on real boards.
pub open spec fn ioset_sercom1_undoc2() -> IoSet {
    IoSet {
        clock: PadSel { pin: spec_pa(1), alt: 3 },
        data_in: PadSel { pin: spec_pa(0), alt: 3 },
        data_out: PadSel { pin: spec_pb(23), alt: 2 },
        select: PadSel { pin: spec_pb(22), alt: 2 },
        undocumented: true,
    }
}

/// The documented grouping of the fifth peripheral on the large
/// package: PB08 to PB11 under alternate function 3.
pub open spec fn ioset_sercom4_a() -> IoSet {
    IoSet {
        clock: PadSel { pin: spec_pb(9), alt: 3 },
        data_in: PadSel { pin: spec_pb(11), alt: 3 },
        data_out: PadSel { pin: spec_pb(8), alt: 3 },
        select: PadSel { pin: spec_pb(10), alt: 3 },
        undocumented: false,
    }
}

/// The sanctioned groupings of peripheral `per` on variant `v`.  The
/// catalog invents nothing: every triple of every grouping stands in
/// the variant's capability table (see
/// `lemma_catalog_within_capability_table`).
pub open spec fn catalog_spec(v: Variant, per: u8) -> Seq<IoSet> {
    match v {
        Variant::Samd11 => if per == 0 {
            seq![ioset_sercom0_a()]
        } else {
            Seq::empty()
        },
        Variant::Samd21 => if per == 0 {
            seq![ioset_sercom0_a()]
        } else if per == 1 {
            seq![ioset_sercom1_doc()]
        } else {
            Seq::empty()
        },
        Variant::Samd51G => if per == 0 {
            seq![ioset_sercom0_a()]
        } else if per == 1 {
            seq![ioset_sercom1_doc(), ioset_sercom1_undoc1(), ioset_sercom1_undoc2()]
        } else {
            Seq::empty()
        },
        Variant::Samd51N => if per == 0 {
            seq![ioset_sercom0_a()]
        } else if per == 1 {
            seq![ioset_sercom1_doc(), ioset_sercom1_undoc1(), ioset_sercom1_undoc2()]
        } else if per == 4 {
            seq![ioset_sercom4_a()]
        } else {
            Seq::empty()
        },
    }
}

/// The sanctioned groupings of peripheral `per` on variant `v`, as a
/// vector.
pub fn iosets(v: Variant, per: u8) -> (r: Vec<IoSet>)
    ensures
        r@ == catalog_spec(v, per),
{
    let mut out: Vec<IoSet> = Vec::new();
    if per == 0 {
        out.push(IoSet {
            clock: PadSel { pin: pa(5), alt: 3 },
            data_in: PadSel { pin: pa(7), alt: 3 },
            data_out: PadSel { pin: pa(4), alt: 3 },
            select: PadSel { pin: pa(6), alt: 3 },
            undocumented: false,
        });
    }
    match v {
        Variant::Samd11 => {},
        Variant::Samd21 | Variant::Samd51G | Variant::Samd51N => {
            if per == 1 {
                out.push(IoSet {
                    clock: PadSel { pin: pa(17), alt: 2 },
                    data_in: PadSel { pin: pa(19), alt: 2 },
                    data_out: PadSel { pin: pa(16), alt: 2 },
                    select: PadSel { pin: pa(18), alt: 2 },
                    undocumented: false,
                });
            }
        },
    }
    match v {
        Variant::Samd11 | Variant::Samd21 => {},
        Variant::Samd51G | Variant::Samd51N => {
            if per == 1 {
                out.push(IoSet {
                    clock: PadSel { pin: pa(17), alt: 2 },
                    data_in: PadSel { pin: pa(16), alt: 2 },
                    data_out: PadSel { pin: pb(23), alt: 2 },
                    select: PadSel { pin: pb(22), alt: 2 },
                    undocumented: true,
                });
                out.push(IoSet {
                    clock: PadSel { pin: pa(1), alt: 3 },
                    data_in: PadSel { pin: pa(0), alt: 3 },
                    data_out: PadSel { pin: pb(23), alt: 2 },
                    select: PadSel { pin: pb(22), alt: 2 },
                    undocumented: true,
                });
            }
        },
    }
    match v {
        Variant::Samd11 | Variant::Samd21 | Variant::Samd51G => {},
        Variant::Samd51N => {
            if per == 4 {
                out.push(IoSet {
                    clock: PadSel { pin: pb(9), alt: 3 },
                    data_in: PadSel { pin: pb(11), alt: 3 },
                    data_out: PadSel { pin: pb(8), alt: 3 },
                    select: PadSel { pin: pb(10), alt: 3 },
                    undocumented: false,
                });
            }
        },
    }
    proof {
        assert(out@ =~= catalog_spec(v, per));
    }
    out
}

/// Every cataloged grouping is well formed: its four pins are
/// distinct, every one of them is broken out on the variant, and every
/// role/pin/alternate-function triple stands in the variant's
/// capability table, documented groupings resting on documented
/// entries only.
pub proof fn lemma_catalog_within_capability_table(v: Variant, per: u8)
    ensures
        forall|k: int|
            0 <= k < catalog_spec(v, per).len() ==> {
                let s = #[trigger] catalog_spec(v, per)[k];
                s.distinct_pins() && s.pins_available(v) && ioset_backed(v, per, s)
            },
{
    lemma_table_membership(v);
    assert forall|k: int| 0 <= k < catalog_spec(v, per).len() implies {
        let s = #[trigger] catalog_spec(v, per)[k];
        s.distinct_pins() && s.pins_available(v) && ioset_backed(v, per, s)
    } by {
        let s = catalog_spec(v, per)[k];
        let t = cap_table_spec(v);
        if per == 0 {
            assert(t.contains(crate::capability::table_sercom0()[0]));
            assert(t.contains(crate::capability::table_sercom0()[1]));
            assert(t.contains(crate::capability::table_sercom0()[2]));
            assert(t.contains(crate::capability::table_sercom0()[3]));
            assert(s == ioset_sercom0_a());
            assert(ioset_backed(v, per, s));
        } else if per == 1 {
            assert(t.contains(crate::capability::table_sercom1_doc()[0]));
            assert(t.contains(crate::capability::table_sercom1_doc()[1]));
            assert(t.contains(crate::capability::table_sercom1_doc()[2]));
            assert(t.contains(crate::capability::table_sercom1_doc()[3]));
            if k == 0 {
                assert(s == ioset_sercom1_doc());
                assert(ioset_backed(v, per, s));
            } else {
                assert(t.contains(crate::capability::table_sercom1_undoc()[0]));
                assert(t.contains(crate::capability::table_sercom1_undoc()[1]));
                assert(t.contains(crate::capability::table_sercom1_undoc()[2]));
                assert(t.contains(crate::capability::table_sercom1_undoc()[3]));
                assert(t.contains(crate::capability::table_sercom1_undoc()[4]));
                if k == 1 {
                    assert(s == ioset_sercom1_undoc1());
                } else {
                    assert(s == ioset_sercom1_undoc2());
                }
                assert(ioset_backed(v, per, s));
            }
        } else {
            assert(t.contains(crate::capability::table_sercom4()[0]));
            assert(t.contains(crate::capability::table_sercom4()[1]));
            assert(t.contains(crate::capability::table_sercom4()[2]));
            assert(t.contains(crate::capability::table_sercom4()[3]));
            assert(s == ioset_sercom4_a());
            assert(ioset_backed(v, per, s));
        }
    }
}

/// The capability table of each variant contains each entry of each of
/// its groups; the witnesses are the entries' concrete positions.
proof fn lemma_table_membership(v: Variant)
    ensures
        forall|i: int|
            0 <= i < crate::capability::table_sercom0().len() ==> cap_table_spec(v).contains(
                #[trigger] crate::capability::table_sercom0()[i],
            ),
        v != Variant::Samd11 ==> forall|i: int|
            0 <= i < crate::capability::table_sercom1_doc().len() ==> cap_table_spec(v).contains(
                #[trigger] crate::capability::table_sercom1_doc()[i],
            ),
        v == Variant::Samd51G || v == Variant::Samd51N ==> forall|i: int|
            0 <= i < crate::capability::table_sercom1_undoc().len() ==> cap_table_spec(v).contains(
                #[trigger] crate::capability::table_sercom1_undoc()[i],
            ),
        v == Variant::Samd51N ==> forall|i: int|
            0 <= i < crate::capability::table_sercom4().len() ==> cap_table_spec(v).contains(
                #[trigger] crate::capability::table_sercom4()[i],
            ),
{
    let t = cap_table_spec(v);
    assert forall|i: int|
        0 <= i < crate::capability::table_sercom0().len() implies t.contains(
        #[trigger] crate::capability::table_sercom0()[i],
    ) by {
        assert(t[i] == crate::capability::table_sercom0()[i]);
    }
    if v != Variant::Samd11 {
        assert forall|i: int|
            0 <= i < crate::capability::table_sercom1_doc().len() implies t.contains(
            #[trigger] crate::capability::table_sercom1_doc()[i],
        ) by {
            assert(t[4 + i] == crate::capability::table_sercom1_doc()[i]);
        }
    }
    if v == Variant::Samd51G || v == Variant::Samd51N {
        assert forall|i: int|
            0 <= i < crate::capability::table_sercom1_undoc().len() implies t.contains(
            #[trigger] crate::capability::table_sercom1_undoc()[i],
        ) by {
            assert(t[8 + i] == crate::capability::table_sercom1_undoc()[i]);
        }
    }
    if v == Variant::Samd51N {
        assert forall|i: int|
            0 <= i < crate::capability::table_sercom4().len() implies t.contains(
            #[trigger] crate::capability::table_sercom4()[i],
        ) by {
            assert(t[13 + i] == crate::capability::table_sercom4()[i]);
        }
    }
}

} // verus!
