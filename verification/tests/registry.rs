use sercom_hal::registry::{peripheral, peripherals, sercom_count, ClockDomain, DmaTriggers};
use sercom_hal::variant::Variant;

#[test]
fn counts_per_variant() {
    assert_eq!(sercom_count(Variant::Samd11), 2);
    assert_eq!(sercom_count(Variant::Samd21), 6);
    assert_eq!(sercom_count(Variant::Samd51G), 6);
    assert_eq!(sercom_count(Variant::Samd51N), 8);
    assert_eq!(peripherals(Variant::Samd11).len(), 2);
    assert_eq!(peripherals(Variant::Samd51N).len(), 8);
}

#[test]
fn entries_of_the_older_family() {
    let regs = peripherals(Variant::Samd21);
    for (i, e) in regs.iter().enumerate() {
        assert_eq!(e.index, i as u8);
        assert_eq!(e.domain, ClockDomain::ApbC);
        assert_eq!(e.enable_bit, 2 + i as u8);
        assert_eq!(
            e.dma,
            Some(DmaTriggers { rx: 1 + 2 * i as u8, tx: 2 + 2 * i as u8 })
        );
    }
}

#[test]
fn entries_of_the_newer_family() {
    let regs = peripherals(Variant::Samd51N);
    assert_eq!(regs[0].domain, ClockDomain::ApbA);
    assert_eq!(regs[0].enable_bit, 12);
    assert_eq!(regs[1].domain, ClockDomain::ApbA);
    assert_eq!(regs[1].enable_bit, 13);
    assert_eq!(regs[2].domain, ClockDomain::ApbB);
    assert_eq!(regs[2].enable_bit, 9);
    assert_eq!(regs[3].domain, ClockDomain::ApbB);
    assert_eq!(regs[3].enable_bit, 10);
    assert_eq!(regs[4].domain, ClockDomain::ApbD);
    assert_eq!(regs[4].enable_bit, 0);
    assert_eq!(regs[7].domain, ClockDomain::ApbD);
    assert_eq!(regs[7].enable_bit, 3);
    assert_eq!(regs[5].dma, Some(DmaTriggers { rx: 14, tx: 15 }));
}

#[test]
fn identities_and_triggers_unique() {
    for v in [Variant::Samd11, Variant::Samd21, Variant::Samd51G, Variant::Samd51N] {
        let regs = peripherals(v);
        for i in 0..regs.len() {
            for j in 0..regs.len() {
                if i != j {
                    assert_ne!(regs[i].index, regs[j].index);
                    let a = regs[i].dma.unwrap();
                    let b = regs[j].dma.unwrap();
                    assert_ne!(a.rx, b.rx);
                    assert_ne!(a.tx, b.tx);
                    assert_ne!(a.rx, b.tx);
                }
            }
        }
    }
}

#[test]
fn lookup_by_identity() {
    let e = peripheral(Variant::Samd51G, 1).unwrap();
    assert_eq!(e.index, 1);
    assert_eq!(e.domain, ClockDomain::ApbA);
    assert!(peripheral(Variant::Samd51G, 6).is_none());
    assert!(peripheral(Variant::Samd11, 2).is_none());
}
