use sercom_hal::capability::{capability_table, pin_capabilities, pins_for_role};
use sercom_hal::catalog::iosets;
use sercom_hal::pin::{pa, pb, Role};
use sercom_hal::variant::{pin_available, Variant};

#[test]
fn table_sizes_per_variant() {
    assert_eq!(capability_table(Variant::Samd11).len(), 4);
    assert_eq!(capability_table(Variant::Samd21).len(), 8);
    assert_eq!(capability_table(Variant::Samd51G).len(), 13);
    assert_eq!(capability_table(Variant::Samd51N).len(), 17);
}

#[test]
fn what_one_pin_can_do() {
    let caps = pin_capabilities(Variant::Samd51G, pa(16));
    assert_eq!(caps.len(), 2);
    assert!(caps
        .iter()
        .any(|c| c.role == Role::DataOut && c.alt == 2 && !c.undocumented));
    assert!(caps
        .iter()
        .any(|c| c.role == Role::DataIn && c.alt == 2 && c.undocumented));
    assert!(pin_capabilities(Variant::Samd21, pa(16))
        .iter()
        .all(|c| !c.undocumented));
    assert!(pin_capabilities(Variant::Samd11, pb(22)).is_empty());
}

#[test]
fn which_pins_serve_a_role() {
    let pins = pins_for_role(Variant::Samd51G, 1, Role::DataIn);
    assert!(pins.contains(&pa(19)));
    assert!(pins.contains(&pa(16)));
    assert!(pins.contains(&pa(0)));
    assert_eq!(pins.len(), 3);
    let older = pins_for_role(Variant::Samd21, 1, Role::DataIn);
    assert_eq!(older, vec![pa(19)]);
}

#[test]
fn catalog_sizes() {
    assert_eq!(iosets(Variant::Samd11, 0).len(), 1);
    assert_eq!(iosets(Variant::Samd11, 1).len(), 0);
    assert_eq!(iosets(Variant::Samd21, 1).len(), 1);
    assert_eq!(iosets(Variant::Samd51G, 1).len(), 3);
    assert_eq!(iosets(Variant::Samd51N, 4).len(), 1);
    assert_eq!(iosets(Variant::Samd51G, 4).len(), 0);
}

#[test]
fn catalog_stays_within_the_capability_table() {
    // Every cataloged triple appears in the variant's capability
    // table; documented groupings rest on documented entries only.
    for v in [Variant::Samd11, Variant::Samd21, Variant::Samd51G, Variant::Samd51N] {
        let table = capability_table(v);
        for per in 0..8u8 {
            for s in iosets(v, per) {
                let pads = [
                    (Role::Clock, s.clock),
                    (Role::DataIn, s.data_in),
                    (Role::DataOut, s.data_out),
                    (Role::Select, s.select),
                ];
                for (role, pad) in pads {
                    assert!(table.iter().any(|c| c.peripheral == per
                        && c.role == role
                        && c.pin == pad.pin
                        && c.alt == pad.alt
                        && (s.undocumented || !c.undocumented)));
                    assert!(pin_available(v, pad.pin));
                }
            }
        }
    }
}

#[test]
fn roles_occupy_fixed_pad_positions() {
    assert_eq!(Role::DataOut.pad_index(), 0);
    assert_eq!(Role::Clock.pad_index(), 1);
    assert_eq!(Role::Select.pad_index(), 2);
    assert_eq!(Role::DataIn.pad_index(), 3);
}

#[test]
fn packages_break_out_different_pins() {
    assert!(pin_available(Variant::Samd51N, pb(0)));
    assert!(!pin_available(Variant::Samd51G, pb(0)));
    assert!(pin_available(Variant::Samd51G, pb(22)));
    assert!(!pin_available(Variant::Samd21, pb(22)));
    assert!(pin_available(Variant::Samd11, pa(7)));
    assert!(!pin_available(Variant::Samd11, pa(16)));
}
