use sercom_hal::pin::{pa, pb, Role};
use sercom_hal::resolver::{PadResolver, ResolveError, RoleAssignment};
use sercom_hal::variant::Variant;

fn assign(role: Role, pin: sercom_hal::pin::PinId, alt: u8) -> RoleAssignment {
    RoleAssignment { role, pin, alt }
}

fn undoc_request_1() -> Vec<RoleAssignment> {
    vec![
        assign(Role::Clock, pa(17), 2),
        assign(Role::DataIn, pa(16), 2),
        assign(Role::DataOut, pb(23), 2),
        assign(Role::Select, pb(22), 2),
    ]
}

fn doc_request_1() -> Vec<RoleAssignment> {
    vec![
        assign(Role::Clock, pa(17), 2),
        assign(Role::DataIn, pa(19), 2),
        assign(Role::DataOut, pa(16), 2),
        assign(Role::Select, pa(18), 2),
    ]
}

#[test]
fn cataloged_request_succeeds_with_exact_pins() {
    let mut res = PadResolver::new(Variant::Samd51G, true);
    let b = res.resolve(1, &undoc_request_1()).unwrap();
    assert_eq!(b.peripheral(), 1);
    assert_eq!(b.pad(Role::Clock).pin, pa(17));
    assert_eq!(b.pad(Role::DataIn).pin, pa(16));
    assert_eq!(b.pad(Role::DataOut).pin, pb(23));
    assert_eq!(b.pad(Role::Select).pin, pb(22));
    assert_eq!(b.pad(Role::Clock).alt, 2);
    assert!(res.is_claimed(pa(17)));
    assert!(res.is_claimed(pb(22)));
    assert!(!res.is_claimed(pa(19)));
}

#[test]
fn request_order_does_not_matter() {
    let mut res = PadResolver::new(Variant::Samd51G, true);
    let shuffled = vec![
        assign(Role::Select, pb(22), 2),
        assign(Role::DataOut, pb(23), 2),
        assign(Role::Clock, pa(17), 2),
        assign(Role::DataIn, pa(16), 2),
    ];
    let b = res.resolve(1, &shuffled).unwrap();
    assert_eq!(b.pad(Role::Clock).pin, pa(17));
    assert_eq!(b.pad(Role::DataIn).pin, pa(16));
}

#[test]
fn mixing_two_cataloged_groupings_is_unsanctioned() {
    // Each pairing is valid in some grouping, but the mixture
    // {clock PA17, data-in PA00, data-out PB23, select PB22} is not
    // itself cataloged, so it must be rejected.
    let mut res = PadResolver::new(Variant::Samd51G, true);
    let mixed = vec![
        assign(Role::Clock, pa(17), 2),
        assign(Role::DataIn, pa(0), 3),
        assign(Role::DataOut, pb(23), 2),
        assign(Role::Select, pb(22), 2),
    ];
    assert_eq!(res.resolve(1, &mixed), Err(ResolveError::Unsanctioned));
    assert!(!res.is_claimed(pa(17)));
}

#[test]
fn second_undocumented_grouping_is_cataloged() {
    let mut res = PadResolver::new(Variant::Samd51G, true);
    let second = vec![
        assign(Role::Clock, pa(1), 3),
        assign(Role::DataIn, pa(0), 3),
        assign(Role::DataOut, pb(23), 2),
        assign(Role::Select, pb(22), 2),
    ];
    let b = res.resolve(1, &second).unwrap();
    assert_eq!(b.pad(Role::Clock).pin, pa(1));
    assert_eq!(b.pad(Role::Clock).alt, 3);
    assert_eq!(b.pad(Role::DataOut).alt, 2);
}

#[test]
fn incapable_pin_is_unsanctioned() {
    // PA11 cannot serve data-in of peripheral 0 per the capability
    // table, so the request matches no cataloged grouping.
    let mut res = PadResolver::new(Variant::Samd51G, true);
    let req = vec![
        assign(Role::DataOut, pa(4), 3),
        assign(Role::Clock, pa(5), 3),
        assign(Role::Select, pa(6), 3),
        assign(Role::DataIn, pa(11), 3),
    ];
    assert_eq!(res.resolve(0, &req), Err(ResolveError::Unsanctioned));
}

#[test]
fn missing_role_is_rejected() {
    let mut res = PadResolver::new(Variant::Samd51G, true);
    let req = vec![
        assign(Role::Clock, pa(17), 2),
        assign(Role::DataIn, pa(16), 2),
        assign(Role::DataOut, pb(23), 2),
    ];
    assert_eq!(res.resolve(1, &req), Err(ResolveError::RoleCoverage));
}

#[test]
fn duplicate_role_is_rejected() {
    let mut res = PadResolver::new(Variant::Samd51G, true);
    let req = vec![
        assign(Role::Clock, pa(17), 2),
        assign(Role::Clock, pa(16), 2),
        assign(Role::DataOut, pb(23), 2),
        assign(Role::Select, pb(22), 2),
    ];
    assert_eq!(res.resolve(1, &req), Err(ResolveError::RoleCoverage));
}

#[test]
fn extra_assignment_is_rejected() {
    let mut res = PadResolver::new(Variant::Samd51G, true);
    let mut req = undoc_request_1();
    req.push(assign(Role::DataIn, pa(19), 2));
    assert_eq!(res.resolve(1, &req), Err(ResolveError::RoleCoverage));
}

#[test]
fn unavailable_pin_is_rejected_distinctly() {
    // PB00 is not broken out on the 48-pin package.
    let mut res = PadResolver::new(Variant::Samd51G, true);
    let req = vec![
        assign(Role::Clock, pa(17), 2),
        assign(Role::DataIn, pa(16), 2),
        assign(Role::DataOut, pb(23), 2),
        assign(Role::Select, pb(0), 2),
    ];
    assert_eq!(res.resolve(1, &req), Err(ResolveError::PinUnavailable));
}

#[test]
fn overlapping_pins_rejected_while_binding_lives() {
    let mut res = PadResolver::new(Variant::Samd51G, true);
    let first = res.resolve(1, &doc_request_1());
    assert!(first.is_ok());
    // The undocumented grouping shares PA16 and PA17 with the
    // documented one.
    assert_eq!(
        res.resolve(1, &undoc_request_1()),
        Err(ResolveError::PinClaimed)
    );
}

#[test]
fn release_then_identical_request_succeeds() {
    let mut res = PadResolver::new(Variant::Samd51G, true);
    let b = res.resolve(1, &undoc_request_1()).unwrap();
    res.release(b);
    assert!(!res.is_claimed(pa(17)));
    let again = res.resolve(1, &undoc_request_1()).unwrap();
    assert_eq!(again.pad(Role::Clock).pin, pa(17));
    assert_eq!(again.pad(Role::Select).pin, pb(22));
}

#[test]
fn release_frees_only_the_bindings_pins() {
    let mut res = PadResolver::new(Variant::Samd51G, true);
    let req0 = vec![
        assign(Role::DataOut, pa(4), 3),
        assign(Role::Clock, pa(5), 3),
        assign(Role::Select, pa(6), 3),
        assign(Role::DataIn, pa(7), 3),
    ];
    let b0 = res.resolve(0, &req0).unwrap();
    let b1 = res.resolve(1, &doc_request_1()).unwrap();
    res.release(b0);
    assert!(!res.is_claimed(pa(4)));
    assert!(res.is_claimed(pa(17)));
    res.release(b1);
    assert!(!res.is_claimed(pa(17)));
}

#[test]
fn undocumented_tier_can_be_opted_out() {
    let mut res = PadResolver::new(Variant::Samd51G, false);
    assert_eq!(
        res.resolve(1, &undoc_request_1()),
        Err(ResolveError::Unsanctioned)
    );
    assert!(res.resolve(1, &doc_request_1()).is_ok());
}

#[test]
fn absent_peripheral_has_empty_catalog() {
    let mut res = PadResolver::new(Variant::Samd21, true);
    // Port B is not broken out on this variant at all, so the
    // grouping borrowed from the newer family fails on availability.
    assert_eq!(
        res.resolve(1, &undoc_request_1()),
        Err(ResolveError::PinUnavailable)
    );
    // Peripheral 2 exists but has no cataloged grouping.
    assert_eq!(
        res.resolve(2, &doc_request_1()),
        Err(ResolveError::Unsanctioned)
    );
    assert!(res.resolve(1, &doc_request_1()).is_ok());
    let mut small = PadResolver::new(Variant::Samd11, true);
    let req0 = vec![
        assign(Role::DataOut, pa(4), 3),
        assign(Role::Clock, pa(5), 3),
        assign(Role::Select, pa(6), 3),
        assign(Role::DataIn, pa(7), 3),
    ];
    assert!(small.resolve(0, &req0).is_ok());
    assert_eq!(
        small.resolve(9, &req0),
        Err(ResolveError::Unsanctioned)
    );
}
