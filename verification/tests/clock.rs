use sercom_hal::clock::ClockController;
use sercom_hal::pin::{pa, pb, Role};
use sercom_hal::registry::{peripheral, ClockDomain};
use sercom_hal::resolver::{PadResolver, RoleAssignment};
use sercom_hal::variant::Variant;

#[test]
fn enable_sets_the_right_bit() {
    let mut ctrl = ClockController::new();
    let e = peripheral(Variant::Samd51G, 1).unwrap();
    let h = ctrl.enable(&e);
    assert_eq!(h.peripheral, 1);
    assert_eq!(h.domain, ClockDomain::ApbA);
    assert_eq!(ctrl.mask(ClockDomain::ApbA), 1 << 13);
    assert_eq!(ctrl.mask(ClockDomain::ApbB), 0);
    assert_eq!(ctrl.mask(ClockDomain::ApbC), 0);
    assert_eq!(ctrl.mask(ClockDomain::ApbD), 0);
}

#[test]
fn enable_twice_is_a_no_op() {
    let mut ctrl = ClockController::new();
    let e = peripheral(Variant::Samd51G, 4).unwrap();
    ctrl.enable(&e);
    let once = ctrl.mask(ClockDomain::ApbD);
    ctrl.enable(&e);
    assert_eq!(ctrl.mask(ClockDomain::ApbD), once);
    assert_eq!(ctrl.mask(ClockDomain::ApbA), 0);
}

#[test]
fn enable_preserves_sibling_bits() {
    let mut ctrl = ClockController::new();
    let e0 = peripheral(Variant::Samd51G, 0).unwrap();
    let e1 = peripheral(Variant::Samd51G, 1).unwrap();
    ctrl.enable(&e0);
    let before = ctrl.mask(ClockDomain::ApbA);
    ctrl.enable(&e1);
    let after = ctrl.mask(ClockDomain::ApbA);
    // Every bit other than peripheral 1's stays as it was.
    for k in 0..32 {
        if k != e1.enable_bit {
            assert_eq!((after >> k) & 1, (before >> k) & 1);
        }
    }
    assert_eq!(after, (1 << 12) | (1 << 13));
}

#[test]
fn full_bring_up_flow() {
    // Select a peripheral, resolve a sanctioned pin grouping, then
    // enable its bus clock: what a protocol driver consumes.
    let v = Variant::Samd51G;
    let e = peripheral(v, 1).unwrap();
    let mut res = PadResolver::new(v, true);
    let req = vec![
        RoleAssignment { role: Role::Clock, pin: pa(17), alt: 2 },
        RoleAssignment { role: Role::DataIn, pin: pa(16), alt: 2 },
        RoleAssignment { role: Role::DataOut, pin: pb(23), alt: 2 },
        RoleAssignment { role: Role::Select, pin: pb(22), alt: 2 },
    ];
    let binding = res.resolve(e.index, &req).unwrap();
    let mut ctrl = ClockController::new();
    let handle = ctrl.enable(&e);
    assert_eq!(handle.peripheral, binding.peripheral());
    assert_eq!(ctrl.mask(ClockDomain::ApbA), 1 << 13);
    assert_eq!(e.dma.unwrap().rx, 6);
    assert_eq!(e.dma.unwrap().tx, 7);
}

#[test]
fn older_family_is_gated_through_one_domain() {
    let mut ctrl = ClockController::new();
    let e = peripheral(Variant::Samd21, 2).unwrap();
    let h = ctrl.enable(&e);
    assert_eq!(h.domain, ClockDomain::ApbC);
    assert_eq!(ctrl.mask(ClockDomain::ApbC), 1 << 4);
}
