use vstd::prelude::*;
use crate::variant::Variant;

verus! {

/// The bus-clock gating register group a peripheral belongs to.
#[derive(Clone, Copy, PartialEq, Eq, Structural, Debug)]
pub enum ClockDomain {
    ApbA,
    ApbB,
    ApbC,
    ApbD,
}

/// The identifiers a DMA engine uses to start a transfer on the
/// peripheral's receive-ready and transmit-ready events.
#[derive(Clone, Copy, PartialEq, Eq, Structural, Debug)]
pub struct DmaTriggers {
    pub rx: u8,
    pub tx: u8,
}

/// One serial-communication peripheral instance of a chip variant: its
/// stable numeric identity, the clock domain it is gated through, the
/// bit position of its enable bit in that domain's mask register, and
/// its DMA trigger pair.
#[derive(Clone, Copy, PartialEq, Eq, Debug)]
pub struct PeripheralEntry {
    pub index: u8,
    pub domain: ClockDomain,
    pub enable_bit: u8,
    pub dma: Option<DmaTriggers>,
}

/// How many serial-communication peripheral instances each variant has.
pub open spec fn sercom_count_spec(v: Variant) -> int {
    match v {
        Variant::Samd11 => 2,
        Variant::Samd21 => 6,
        Variant::Samd51G => 6,
        Variant::Samd51N => 8,
    }
}

/// How many serial-communication peripheral instances variant `v` has.
pub fn sercom_count(v: Variant) -> (r: u8)
    ensures
        r == sercom_count_spec(v),
{
    match v {
        Variant::Samd11 => 2,
        Variant::Samd21 => 6,
        Variant::Samd51G => 6,
        Variant::Samd51N => 8,
    }
}

/// The registry entry of peripheral `i` on variant `v`.  The older
/// family gates every instance through the third bus bridge, starting
/// at bit 2 of its mask register, and numbers its DMA triggers from 1;
/// the newer family spreads the instances over three bridges and
/// numbers its DMA triggers from 4.  Receive and transmit triggers of
/// one instance are adjacent.
pub open spec fn entry_spec(v: Variant, i: int) -> PeripheralEntry {
    match v {
        Variant::Samd11 | Variant::Samd21 => PeripheralEntry {
            index: i as u8,
            domain: ClockDomain::ApbC,
            enable_bit: (2 + i) as u8,
            dma: Some(DmaTriggers { rx: (1 + 2 * i) as u8, tx: (2 + 2 * i) as u8 }),
        },
        Variant::Samd51G | Variant::Samd51N => PeripheralEntry {
            index: i as u8,
            domain: if i < 2 {
                ClockDomain::ApbA
            } else if i < 4 {
                ClockDomain::ApbB
            } else {
                ClockDomain::ApbD
            },
            enable_bit: if i < 2 {
                (12 + i) as u8
            } else if i < 4 {
                (7 + i) as u8
            } else {
                (i - 4) as u8
            },
            dma: Some(DmaTriggers { rx: (4 + 2 * i) as u8, tx: (5 + 2 * i) as u8 }),
        },
    }
}

/// The closed set of peripheral instances of variant `v`, in identity
/// order.
pub open spec fn registry_spec(v: Variant) -> Seq<PeripheralEntry> {
    Seq::new(sercom_count_spec(v) as nat, |i: int| entry_spec(v, i))
}

/// The registry entry of peripheral `i` on variant `v`.
pub fn peripheral_entry(v: Variant, i: u8) -> (r: PeripheralEntry)
    requires
        i < sercom_count_spec(v),
    ensures
        r == entry_spec(v, i as int),
{
    match v {
        Variant::Samd11 | Variant::Samd21 => PeripheralEntry {
            index: i,
            domain: ClockDomain::ApbC,
            enable_bit: 2 + i,
            dma: Some(DmaTriggers { rx: 1 + 2 * i, tx: 2 + 2 * i }),
        },
        Variant::Samd51G | Variant::Samd51N => PeripheralEntry {
            index: i,
            domain: if i < 2 {
                ClockDomain::ApbA
            } else if i < 4 {
                ClockDomain::ApbB
            } else {
                ClockDomain::ApbD
            },
            enable_bit: if i < 2 {
                12 + i
            } else if i < 4 {
                7 + i
            } else {
                i - 4
            },
            dma: Some(DmaTriggers { rx: 4 + 2 * i, tx: 5 + 2 * i }),
        },
    }
}

/// All peripheral instances of variant `v`, in identity order.
pub fn peripherals(v: Variant) -> (r: Vec<PeripheralEntry>)
    ensures
        r@ == registry_spec(v),
{
    let n = sercom_count(v);
    let mut out: Vec<PeripheralEntry> = Vec::new();
    let mut i: u8 = 0;
    while i < n
        invariant
            i <= n,
            n == sercom_count_spec(v),
            out@.len() == i as int,
            forall|k: int| 0 <= k < i as int ==> out@[k] == entry_spec(v, k),
        decreases n - i,
    {
        out.push(peripheral_entry(v, i));
        i = i + 1;
    }
    proof {
        assert(out@ =~= registry_spec(v));
    }
    out
}

/// The peripheral with numeric identity `index` on variant `v`, or
/// `None` when the variant has no such instance.
pub fn peripheral(v: Variant, index: u8) -> (r: Option<PeripheralEntry>)
    ensures
        index < sercom_count_spec(v) ==> r == Some(entry_spec(v, index as int)),
        index >= sercom_count_spec(v) ==> r is None,
{
    if index < sercom_count(v) {
        Some(peripheral_entry(v, index))
    } else {
        None
    }
}

/// Numeric identities are unique within a variant, and the DMA trigger
/// pairs of distinct peripherals never share an identifier, neither
/// among receive triggers, nor among transmit triggers, nor across the
/// two.
pub proof fn lemma_registry_identities_unique(v: Variant)
    ensures
        forall|i: int, j: int|
            0 <= i < j < registry_spec(v).len() ==> registry_spec(v)[i].index != registry_spec(
                v,
            )[j].index,
        forall|i: int, j: int|
            0 <= i < registry_spec(v).len() && 0 <= j < registry_spec(v).len() && i != j ==> ((
            #[trigger] registry_spec(v)[i].dma) matches Some(a) ==> ((
            #[trigger] registry_spec(v)[j].dma) matches Some(b) ==> a.rx != b.rx && a.tx != b.tx
                && a.rx != b.tx)),
{
}

} // verus!
