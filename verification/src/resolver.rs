use vstd::prelude::*;
use crate::pin::{PadSel, PinId, Role};
use crate::variant::{Variant, pin_available_spec, pin_available};
use crate::catalog::{IoSet, catalog_spec, iosets, lemma_catalog_within_capability_table};
use crate::capability::capable;

verus! {

broadcast use vstd::seq_lib::lemma_seq_contains_after_push;

/// One element of a caller's request: pin `pin`, switched to alternate
/// function `alt`, shall serve role `role`.
#[derive(Clone, Copy, PartialEq, Eq, Structural, Debug)]
pub struct RoleAssignment {
    pub role: Role,
    pub pin: PinId,
    pub alt: u8,
}

/// Why a resolution request was rejected.  Nothing is retried and no
/// state changes on rejection.
#[derive(Clone, Copy, PartialEq, Eq, Structural, Debug)]
pub enum ResolveError {
    /// The request does not assign each required role exactly once.
    RoleCoverage,
    /// A named pin is not broken out on the active variant's package.
    PinUnavailable,
    /// The triples match no cataloged grouping of the peripheral.
    Unsanctioned,
    /// A named pin is owned by another live pad binding.
    PinClaimed,
}

/// The validated result of a resolution: one pad per role, realized by
/// switching each pin to the recorded alternate function.  A binding
/// is only handed out by `PadResolver::resolve` and stays immutable;
/// handing it back to `PadResolver::release` frees its pins.
#[derive(PartialEq, Eq, Debug)]
pub struct PadBinding {
    peripheral: u8,
    clock: PadSel,
    data_in: PadSel,
    data_out: PadSel,
    select: PadSel,
}

impl PadBinding {
    /// The peripheral this binding was resolved for.
    pub closed spec fn spec_peripheral(self) -> u8 {
        self.peripheral
    }

    /// The pad this binding assigns to role `r`.
    pub closed spec fn pad_for(self, r: Role) -> PadSel {
        match r {
            Role::Clock => self.clock,
            Role::DataIn => self.data_in,
            Role::DataOut => self.data_out,
            Role::Select => self.select,
        }
    }

    /// Whether this binding owns pin `p`.
    pub open spec fn uses_pin(self, p: PinId) -> bool {
        p == self.pad_for(Role::Clock).pin || p == self.pad_for(Role::DataIn).pin || p
            == self.pad_for(Role::DataOut).pin || p == self.pad_for(Role::Select).pin
    }

    /// The peripheral this binding was resolved for.
    pub fn peripheral(&self) -> (r: u8)
        ensures
            r == self.spec_peripheral(),
    {
        self.peripheral
    }

    /// The pad this binding assigns to role `r`.
    pub fn pad(&self, r: Role) -> (p: PadSel)
        ensures
            p == self.pad_for(r),
    {
        match r {
            Role::Clock => self.clock,
            Role::DataIn => self.data_in,
            Role::DataOut => self.data_out,
            Role::Select => self.select,
        }
    }
}

/// Role `r` is assigned by exactly one element of the request.
pub open spec fn exactly_one(a: Seq<RoleAssignment>, r: Role) -> bool {
    &&& exists|i: int| 0 <= i < a.len() && (#[trigger] a[i]).role == r
    &&& forall|i: int, j: int|
        0 <= i < a.len() && 0 <= j < a.len() && (#[trigger] a[i]).role == r && (
        #[trigger] a[j]).role == r ==> i == j
}

/// The request assigns each of the four required roles exactly once,
/// and nothing else.
pub open spec fn covers_roles(a: Seq<RoleAssignment>) -> bool {
    &&& a.len() == 4
    &&& exactly_one(a, Role::Clock)
    &&& exactly_one(a, Role::DataIn)
    &&& exactly_one(a, Role::DataOut)
    &&& exactly_one(a, Role::Select)
}

/// The position at which the request assigns role `r`.
pub open spec fn role_index(a: Seq<RoleAssignment>, r: Role) -> int {
    choose|i: int| 0 <= i < a.len() && (#[trigger] a[i]).role == r
}

/// The pad the request assigns to role `r`.
pub open spec fn pad_of(a: Seq<RoleAssignment>, r: Role) -> PadSel
    recommends
        exactly_one(a, r),
{
    PadSel { pin: a[role_index(a, r)].pin, alt: a[role_index(a, r)].alt }
}

/// When position `k` assigns role `r` and no other position does, the
/// request's pad for `r` is the one at `k`.
pub proof fn lemma_pad_of_unique(a: Seq<RoleAssignment>, r: Role, k: int)
    requires
        0 <= k < a.len(),
        a[k].role == r,
        forall|j: int| 0 <= j < a.len() && (#[trigger] a[j]).role == r ==> j == k,
    ensures
        role_index(a, r) == k,
        pad_of(a, r) == (PadSel { pin: a[k].pin, alt: a[k].alt }),
{
    assert(exists|i: int| 0 <= i < a.len() && (#[trigger] a[i]).role == r) by {
        assert(a[k].role == r);
    }
}

/// Every pin the request names is broken out on variant `v`.
pub open spec fn assignment_available(v: Variant, a: Seq<RoleAssignment>) -> bool {
    forall|i: int| 0 <= i < a.len() ==> pin_available_spec(v, (#[trigger] a[i]).pin)
}

/// Whether a grouping of this trust tier may be used.
pub open spec fn tier_allowed(allow_undoc: bool, s: IoSet) -> bool {
    allow_undoc || !s.undocumented
}

/// The request equals grouping `s` as a set of role/pin/alternate-
/// function triples.
pub open spec fn matches_ioset(a: Seq<RoleAssignment>, s: IoSet) -> bool {
    &&& covers_roles(a)
    &&& pad_of(a, Role::Clock) == s.clock
    &&& pad_of(a, Role::DataIn) == s.data_in
    &&& pad_of(a, Role::DataOut) == s.data_out
    &&& pad_of(a, Role::Select) == s.select
}

/// The request equals some cataloged grouping of an allowed trust tier
/// for peripheral `per` on variant `v`.
pub open spec fn sanctioned(v: Variant, per: u8, allow_undoc: bool, a: Seq<RoleAssignment>) -> bool {
    exists|k: int|
        0 <= k < catalog_spec(v, per).len() && tier_allowed(
            allow_undoc,
            #[trigger] catalog_spec(v, per)[k],
        ) && matches_ioset(a, catalog_spec(v, per)[k])
}

/// Validates resolution requests against the catalog and keeps the pin
/// ownership table: each pin is owned by at most one live pad binding.
pub struct PadResolver {
    variant: Variant,
    allow_undocumented: bool,
    claimed: Vec<PinId>,
}

impl PadResolver {
    /// The chip variant this resolver validates against.
    pub closed spec fn spec_variant(self) -> Variant {
        self.variant
    }

    /// Whether the empirically verified catalog tier is opted in.
    pub closed spec fn spec_allow_undocumented(self) -> bool {
        self.allow_undocumented
    }

    /// The pins currently owned by live bindings.
    pub closed spec fn claims(self) -> Seq<PinId> {
        self.claimed@
    }

    /// Pin `p` is owned by a live binding.
    pub open spec fn claimed_pin(self, p: PinId) -> bool {
        self.claims().contains(p)
    }

    /// The ownership table lists each owned pin once.
    pub open spec fn wf(self) -> bool {
        forall|i: int, j: int|
            0 <= i < j < self.claims().len() ==> self.claims()[i] != self.claims()[j]
    }

    /// A fresh resolver for variant `variant` with no pin claimed.
    /// `allow_undocumented` opts in the empirically verified catalog
    /// tier.
    pub fn new(variant: Variant, allow_undocumented: bool) -> (r: PadResolver)
        ensures
            r.spec_variant() == variant,
            r.spec_allow_undocumented() == allow_undocumented,
            r.claims() == Seq::<PinId>::empty(),
            r.wf(),
    {
        let r = PadResolver { variant, allow_undocumented, claimed: Vec::new() };
        proof {
            assert(r.claims() =~= Seq::<PinId>::empty());
        }
        r
    }

    /// The chip variant this resolver validates against.
    pub fn variant(&self) -> (r: Variant)
        ensures
            r == self.spec_variant(),
    {
        self.variant
    }

    /// Whether the empirically verified catalog tier is opted in.
    pub fn allows_undocumented(&self) -> (r: bool)
        ensures
            r == self.spec_allow_undocumented(),
    {
        self.allow_undocumented
    }

    /// Whether pin `p` is owned by a live binding.
    pub fn is_claimed(&self, p: PinId) -> (r: bool)
        ensures
            r == self.claimed_pin(p),
    {
        let mut i: usize = 0;
        while i < self.claimed.len()
            invariant
                i <= self.claimed@.len(),
                forall|j: int| 0 <= j < i as int ==> self.claimed@[j] != p,
            decreases self.claimed@.len() - i,
        {
            if self.claimed[i] == p {
                return true;
            }
            i = i + 1;
        }
        false
    }

    /// Records pin `p` as owned.
    fn claim_pin(&mut self, p: PinId)
        requires
            old(self).wf(),
            !old(self).claimed_pin(p),
        ensures
            final(self).wf(),
            final(self).claims() == old(self).claims().push(p),
            final(self).spec_variant() == old(self).spec_variant(),
            final(self).spec_allow_undocumented() == old(self).spec_allow_undocumented(),
    {
        proof {
            assert(forall|i: int|
                0 <= i < old(self).claims().len() ==> old(self).claims()[i] != p) by {
                assert forall|i: int|
                    0 <= i < old(self).claims().len() implies old(self).claims()[i] != p by {
                    if old(self).claims()[i] == p {
                        assert(old(self).claims().contains(p));
                    }
                }
            }
        }
        self.claimed.push(p);
    }

    /// Validates the request `a` for peripheral `per` and, on success,
    /// claims its pins and hands out the pad binding.
    ///
    /// The request succeeds if and only if it assigns each required
    /// role exactly once, names only pins broken out on the variant,
    /// equals a cataloged grouping of an allowed trust tier as a set
    /// of role/pin/alternate-function triples, and reuses no pin owned
    /// by a live binding.  Each rejection is discriminated, checked in
    /// that order, and leaves the ownership table unchanged.
    #[verifier::loop_isolation(false)]
    pub fn resolve(&mut self, per: u8, a: &Vec<RoleAssignment>) -> (r: Result<
        PadBinding,
        ResolveError,
    >)
        requires
            old(self).wf(),
        ensures
            final(self).wf(),
            final(self).spec_variant() == old(self).spec_variant(),
            final(self).spec_allow_undocumented() == old(self).spec_allow_undocumented(),
            r is Err ==> final(self).claims() == old(self).claims(),
            r == Err::<PadBinding, ResolveError>(ResolveError::RoleCoverage) <==> !covers_roles(
                a@,
            ),
            r == Err::<PadBinding, ResolveError>(ResolveError::PinUnavailable) <==> covers_roles(
                a@,
            ) && !assignment_available(old(self).spec_variant(), a@),
            r == Err::<PadBinding, ResolveError>(ResolveError::Unsanctioned) <==> covers_roles(a@)
                && assignment_available(old(self).spec_variant(), a@) && !sanctioned(
                old(self).spec_variant(),
                per,
                old(self).spec_allow_undocumented(),
                a@,
            ),
            r == Err::<PadBinding, ResolveError>(ResolveError::PinClaimed) <==> covers_roles(a@)
                && assignment_available(old(self).spec_variant(), a@) && sanctioned(
                old(self).spec_variant(),
                per,
                old(self).spec_allow_undocumented(),
                a@,
            ) && claims_overlap(*old(self), a@),
            r is Ok <==> resolution_granted(*old(self), per, a@),
            r matches Ok(b) ==> b.spec_peripheral() == per && b.pad_for(Role::Clock) == pad_of(
                a@,
                Role::Clock,
            ) && b.pad_for(Role::DataIn) == pad_of(a@, Role::DataIn) && b.pad_for(Role::DataOut)
                == pad_of(a@, Role::DataOut) && b.pad_for(Role::Select) == pad_of(
                a@,
                Role::Select,
            ) && (forall|p: PinId|
                final(self).claimed_pin(p) <==> old(self).claimed_pin(p) || b.uses_pin(p)),
    {
        if a.len() != 4 {
            return Err(ResolveError::RoleCoverage);
        }
        let oc = find_role_index(a, Role::Clock);
        let oi = find_role_index(a, Role::DataIn);
        let oo = find_role_index(a, Role::DataOut);
        let os = find_role_index(a, Role::Select);
        let (kc, ki, ko, ks) = match (oc, oi, oo, os) {
            (Some(kc), Some(ki), Some(ko), Some(ks)) => (kc, ki, ko, ks),
            _ => {
                return Err(ResolveError::RoleCoverage);
            },
        };
        proof {
            assert(covers_roles(a@));
            lemma_pad_of_unique(a@, Role::Clock, kc as int);
            lemma_pad_of_unique(a@, Role::DataIn, ki as int);
            lemma_pad_of_unique(a@, Role::DataOut, ko as int);
            lemma_pad_of_unique(a@, Role::Select, ks as int);
            assert forall|i: int| #![trigger a@[i]] 0 <= i < a@.len() implies i == kc as int || i
                == ki as int || i == ko as int || i == ks as int by {
                match a@[i].role {
                    Role::Clock => assert(i == kc as int),
                    Role::DataIn => assert(i == ki as int),
                    Role::DataOut => assert(i == ko as int),
                    Role::Select => assert(i == ks as int),
                }
            }
        }
        let mut i: usize = 0;
        while i < a.len()
            invariant
                i <= a@.len(),
                self == old(self),
                forall|j: int|
                    0 <= j < i as int ==> pin_available_spec(
                        old(self).spec_variant(),
                        (#[trigger] a@[j]).pin,
                    ),
            decreases a@.len() - i,
        {
            if !pin_available(self.variant, a[i].pin) {
                return Err(ResolveError::PinUnavailable);
            }
            i = i + 1;
        }
        assert(assignment_available(old(self).spec_variant(), a@));
        let cand_clock = PadSel { pin: a[kc].pin, alt: a[kc].alt };
        let cand_data_in = PadSel { pin: a[ki].pin, alt: a[ki].alt };
        let cand_data_out = PadSel { pin: a[ko].pin, alt: a[ko].alt };
        let cand_select = PadSel { pin: a[ks].pin, alt: a[ks].alt };
        let sets = iosets(self.variant, per);
        let mut k: usize = 0;
        let mut matched: Option<usize> = None;
        while k < sets.len()
            invariant
                k <= sets@.len(),
                self == old(self),
                sets@ == catalog_spec(old(self).spec_variant(), per),
                cand_clock == pad_of(a@, Role::Clock),
                cand_data_in == pad_of(a@, Role::DataIn),
                cand_data_out == pad_of(a@, Role::DataOut),
                cand_select == pad_of(a@, Role::Select),
                covers_roles(a@),
                matched is None ==> forall|j: int|
                    0 <= j < k as int ==> !(tier_allowed(
                        old(self).spec_allow_undocumented(),
                        #[trigger] sets@[j],
                    ) && sets@[j].clock == cand_clock && sets@[j].data_in == cand_data_in
                        && sets@[j].data_out == cand_data_out && sets@[j].select == cand_select),
                matched matches Some(m) ==> m < sets@.len() && tier_allowed(
                    old(self).spec_allow_undocumented(),
                    sets@[m as int],
                ) && matches_ioset(a@, sets@[m as int]),
            decreases sets@.len() - k,
        {
            if matched.is_none() {
                let s = sets[k];
                let tier_ok = self.allow_undocumented || !s.undocumented;
                if tier_ok && s.clock == cand_clock && s.data_in == cand_data_in && s.data_out
                    == cand_data_out && s.select == cand_select {
                    matched = Some(k);
                }
            }
            k = k + 1;
        }
        let m = match matched {
            Some(m) => m,
            None => {
                proof {
                    assert(!sanctioned(
                        old(self).spec_variant(),
                        per,
                        old(self).spec_allow_undocumented(),
                        a@,
                    )) by {
                        if sanctioned(
                            old(self).spec_variant(),
                            per,
                            old(self).spec_allow_undocumented(),
                            a@,
                        ) {
                            let k0 = choose|k0: int|
                                0 <= k0 < catalog_spec(old(self).spec_variant(), per).len()
                                    && tier_allowed(
                                    old(self).spec_allow_undocumented(),
                                    #[trigger] catalog_spec(old(self).spec_variant(), per)[k0],
                                ) && matches_ioset(
                                    a@,
                                    catalog_spec(old(self).spec_variant(), per)[k0],
                                );
                            assert(false);
                        }
                    }
                }
                return Err(ResolveError::Unsanctioned);
            },
        };
        let s = sets[m];
        proof {
            assert(sanctioned(
                old(self).spec_variant(),
                per,
                old(self).spec_allow_undocumented(),
                a@,
            )) by {
                assert((m as int) < catalog_spec(old(self).spec_variant(), per).len()
                    && tier_allowed(
                    old(self).spec_allow_undocumented(),
                    catalog_spec(old(self).spec_variant(), per)[m as int],
                ) && matches_ioset(a@, catalog_spec(old(self).spec_variant(), per)[m as int]));
            }
            lemma_catalog_within_capability_table(old(self).spec_variant(), per);
            assert(s.distinct_pins());
        }
        let c1 = self.is_claimed(s.clock.pin);
        let c2 = self.is_claimed(s.data_in.pin);
        let c3 = self.is_claimed(s.data_out.pin);
        let c4 = self.is_claimed(s.select.pin);
        if c1 || c2 || c3 || c4 {
            proof {
                assert(claims_overlap(*old(self), a@)) by {
                    if c1 {
                        assert(a@[kc as int].pin == s.clock.pin);
                    } else if c2 {
                        assert(a@[ki as int].pin == s.data_in.pin);
                    } else if c3 {
                        assert(a@[ko as int].pin == s.data_out.pin);
                    } else {
                        assert(a@[ks as int].pin == s.select.pin);
                    }
                }
            }
            return Err(ResolveError::PinClaimed);
        }
        proof {
            assert(!claims_overlap(*old(self), a@)) by {
                if claims_overlap(*old(self), a@) {
                    let i0 = choose|i0: int|
                        0 <= i0 < a@.len() && old(self).claimed_pin((#[trigger] a@[i0]).pin);
                    assert(i0 == kc as int || i0 == ki as int || i0 == ko as int || i0
                        == ks as int);
                    assert(false);
                }
            }
        }
        self.claim_pin(s.clock.pin);
        self.claim_pin(s.data_in.pin);
        self.claim_pin(s.data_out.pin);
        self.claim_pin(s.select.pin);
        Ok(
            PadBinding {
                peripheral: per,
                clock: s.clock,
                data_in: s.data_in,
                data_out: s.data_out,
                select: s.select,
            },
        )
    }

    /// Hands binding `b` back, returning its pins to the unclaimed
    /// state.  A pin is owned afterwards exactly when it was owned
    /// before and the binding did not own it.
    #[verifier::loop_isolation(false)]
    pub fn release(&mut self, b: PadBinding)
        requires
            old(self).wf(),
        ensures
            final(self).wf(),
            final(self).spec_variant() == old(self).spec_variant(),
            final(self).spec_allow_undocumented() == old(self).spec_allow_undocumented(),
            forall|p: PinId|
                final(self).claimed_pin(p) <==> old(self).claimed_pin(p) && !b.uses_pin(p),
    {
        let mut kept: Vec<PinId> = Vec::new();
        let mut i: usize = 0;
        while i < self.claimed.len()
            invariant
                i <= self.claimed@.len(),
                self == old(self),
                forall|p: PinId|
                    kept@.contains(p) ==> old(self).claims().contains(p) && !b.uses_pin(p),
                forall|j: int|
                    0 <= j < i as int && !b.uses_pin((#[trigger] self.claimed@[j]))
                        ==> kept@.contains(self.claimed@[j]),
                forall|p: PinId| kept@.contains(p) ==> exists|j: int|
                    0 <= j < i as int && self.claimed@[j] == p,
                forall|m: int, n: int| 0 <= m < n < kept@.len() ==> kept@[m] != kept@[n],
            decreases self.claimed@.len() - i,
        {
            let p = self.claimed[i];
            let used = p == b.clock.pin || p == b.data_in.pin || p == b.data_out.pin || p
                == b.select.pin;
            if !used {
                proof {
                    assert(!kept@.contains(p)) by {
                        if kept@.contains(p) {
                            let j = choose|j: int|
                                0 <= j < i as int && self.claimed@[j] == p;
                            assert(old(self).claims()[j] == p);
                            assert(old(self).claims()[i as int] == p);
                            assert(false);
                        }
                    }
                }
                kept.push(p);
            }
            i = i + 1;
        }
        proof {
            assert forall|p: PinId|
                old(self).claims().contains(p) && !b.uses_pin(p) implies kept@.contains(p) by {
                let j = choose|j: int|
                    0 <= j < old(self).claims().len() && old(self).claims()[j] == p;
                assert(!b.uses_pin(self.claimed@[j]));
            }
        }
        self.claimed = kept;
    }
}

/// Pins of a live binding occur in the request: some named pin is
/// already owned.
pub open spec fn claims_overlap(res: PadResolver, a: Seq<RoleAssignment>) -> bool {
    exists|i: int| 0 <= i < a.len() && res.claimed_pin((#[trigger] a[i]).pin)
}

/// The request will be granted: it covers the roles, names only
/// available pins, equals a cataloged grouping of an allowed tier and
/// reuses no owned pin.
pub open spec fn resolution_granted(res: PadResolver, per: u8, a: Seq<RoleAssignment>) -> bool {
    &&& covers_roles(a)
    &&& assignment_available(res.spec_variant(), a)
    &&& sanctioned(res.spec_variant(), per, res.spec_allow_undocumented(), a)
    &&& !claims_overlap(res, a)
}

/// A request that copies a cataloged grouping of an allowed trust
/// tier, on a resolver that owns none of the named pins, is granted:
/// `resolve` then returns a binding referencing exactly the grouping's
/// pads.
pub proof fn lemma_cataloged_request_granted(
    res: PadResolver,
    per: u8,
    a: Seq<RoleAssignment>,
    k: int,
)
    requires
        0 <= k < catalog_spec(res.spec_variant(), per).len(),
        tier_allowed(res.spec_allow_undocumented(), catalog_spec(res.spec_variant(), per)[k]),
        matches_ioset(a, catalog_spec(res.spec_variant(), per)[k]),
        forall|i: int| 0 <= i < a.len() ==> !res.claimed_pin((#[trigger] a[i]).pin),
    ensures
        resolution_granted(res, per, a),
{
    let v = res.spec_variant();
    let s = catalog_spec(v, per)[k];
    lemma_catalog_within_capability_table(v, per);
    assert(sanctioned(v, per, res.spec_allow_undocumented(), a));
    assert forall|i: int| 0 <= i < a.len() implies pin_available_spec(
        v,
        (#[trigger] a[i]).pin,
    ) by {
        let r = a[i].role;
        assert(forall|j: int| 0 <= j < a.len() && (#[trigger] a[j]).role == r ==> j == i);
        lemma_pad_of_unique(a, r, i);
        assert(s.pins_available(v));
        match r {
            Role::Clock => assert(a[i].pin == s.clock.pin),
            Role::DataIn => assert(a[i].pin == s.data_in.pin),
            Role::DataOut => assert(a[i].pin == s.data_out.pin),
            Role::Select => assert(a[i].pin == s.select.pin),
        }
    }
}

/// A request that assigns a role to a pin the capability table does
/// not allow for that role of the peripheral, not even as an
/// empirically verified extension, matches no cataloged grouping: it
/// can only be rejected as unsanctioned.
pub proof fn lemma_incapable_pin_unsanctioned(
    v: Variant,
    per: u8,
    allow_undoc: bool,
    a: Seq<RoleAssignment>,
    i: int,
)
    requires
        0 <= i < a.len(),
        covers_roles(a),
        !capable(v, per, a[i].role, a[i].pin),
    ensures
        !sanctioned(v, per, allow_undoc, a),
{
    if sanctioned(v, per, allow_undoc, a) {
        let k = choose|k: int|
            0 <= k < catalog_spec(v, per).len() && tier_allowed(
                allow_undoc,
                #[trigger] catalog_spec(v, per)[k],
            ) && matches_ioset(a, catalog_spec(v, per)[k]);
        let s = catalog_spec(v, per)[k];
        let r = a[i].role;
        assert(forall|j: int| 0 <= j < a.len() && (#[trigger] a[j]).role == r ==> j == i);
        lemma_pad_of_unique(a, r, i);
        lemma_catalog_within_capability_table(v, per);
        assert(crate::catalog::ioset_backed(v, per, s));
        match r {
            Role::Clock => assert(a[i].pin == s.clock.pin),
            Role::DataIn => assert(a[i].pin == s.data_in.pin),
            Role::DataOut => assert(a[i].pin == s.data_out.pin),
            Role::Select => assert(a[i].pin == s.select.pin),
        }
        assert(capable(v, per, r, a[i].pin));
        assert(false);
    }
}

/// While a binding lives, every pin it owns stays claimed, so a second
/// request that reuses any of them overlaps the ownership table and is
/// not granted; when it covers its roles, names available pins and
/// copies a sanctioned grouping, `resolve` rejects it as
/// pin-already-claimed.
pub proof fn lemma_live_binding_blocks_reuse(
    res: PadResolver,
    per: u8,
    a: Seq<RoleAssignment>,
    b: PadBinding,
    i: int,
)
    requires
        0 <= i < a.len(),
        b.uses_pin(a[i].pin),
        forall|p: PinId| b.uses_pin(p) ==> res.claimed_pin(p),
    ensures
        claims_overlap(res, a),
        !resolution_granted(res, per, a),
{
    assert(res.claimed_pin(a[i].pin));
}

/// Claim, release, re-claim round-trips cleanly: releasing the binding
/// returned by a granted request restores the previous ownership
/// table, so the identical request is granted again.  `r1` is the
/// state after the grant, `r2` the state after the release, as
/// `resolve` and `release` describe them.
pub proof fn lemma_release_enables_reresolve(
    r0: PadResolver,
    r1: PadResolver,
    r2: PadResolver,
    per: u8,
    a: Seq<RoleAssignment>,
    b: PadBinding,
)
    requires
        resolution_granted(r0, per, a),
        b.pad_for(Role::Clock) == pad_of(a, Role::Clock),
        b.pad_for(Role::DataIn) == pad_of(a, Role::DataIn),
        b.pad_for(Role::DataOut) == pad_of(a, Role::DataOut),
        b.pad_for(Role::Select) == pad_of(a, Role::Select),
        forall|p: PinId| r1.claimed_pin(p) <==> r0.claimed_pin(p) || b.uses_pin(p),
        forall|p: PinId| r2.claimed_pin(p) <==> r1.claimed_pin(p) && !b.uses_pin(p),
        r2.spec_variant() == r0.spec_variant(),
        r2.spec_allow_undocumented() == r0.spec_allow_undocumented(),
    ensures
        forall|p: PinId| r2.claimed_pin(p) <==> r0.claimed_pin(p),
        resolution_granted(r2, per, a),
{
    assert forall|p: PinId| b.uses_pin(p) implies !r0.claimed_pin(p) by {
        if r0.claimed_pin(p) {
            if p == b.pad_for(Role::Clock).pin {
                lemma_request_pin_unclaimed(r0, a, Role::Clock, p);
            } else if p == b.pad_for(Role::DataIn).pin {
                lemma_request_pin_unclaimed(r0, a, Role::DataIn, p);
            } else if p == b.pad_for(Role::DataOut).pin {
                lemma_request_pin_unclaimed(r0, a, Role::DataOut, p);
            } else {
                lemma_request_pin_unclaimed(r0, a, Role::Select, p);
            }
        }
    }
    assert forall|p: PinId| r2.claimed_pin(p) <==> r0.claimed_pin(p) by {}
    assert(!claims_overlap(r2, a)) by {
        if claims_overlap(r2, a) {
            let i0 = choose|i0: int|
                0 <= i0 < a.len() && r2.claimed_pin((#[trigger] a[i0]).pin);
            assert(r0.claimed_pin(a[i0].pin));
            assert(claims_overlap(r0, a));
            assert(false);
        }
    }
}

/// In a granted request, the pin assigned to role `r` is not claimed:
/// helper for the round-trip law.
proof fn lemma_request_pin_unclaimed(r0: PadResolver, a: Seq<RoleAssignment>, r: Role, p: PinId)
    requires
        covers_roles(a),
        !claims_overlap(r0, a),
        p == pad_of(a, r).pin,
    ensures
        !r0.claimed_pin(p),
{
    let idx = role_index(a, r);
    assert(0 <= idx < a.len() && a[idx].role == r) by {
        assert(exactly_one(a, r));
    }
    if r0.claimed_pin(p) {
        assert(r0.claimed_pin(a[idx].pin));
        assert(claims_overlap(r0, a));
        assert(false);
    }
}

/// The position assigning role `r`, when the request assigns it
/// exactly once; `None` when it assigns it never or more than once.
fn find_role_index(a: &Vec<RoleAssignment>, r: Role) -> (res: Option<usize>)
    ensures
        res matches Some(k) ==> (k as int) < a@.len() && a@[k as int].role == r && (forall|j: int|
            0 <= j < a@.len() && (#[trigger] a@[j]).role == r ==> j == k as int),
        res is None ==> !exactly_one(a@, r),
{
    let mut found: Option<usize> = None;
    let mut i: usize = 0;
    while i < a.len()
        invariant
            i <= a@.len(),
            found matches Some(k) ==> (k as int) < i as int && a@[k as int].role == r && (forall|
                j: int,
            |
                0 <= j < i as int && (#[trigger] a@[j]).role == r ==> j == k as int),
            found is None ==> forall|j: int| 0 <= j < i as int ==> (#[trigger] a@[j]).role != r,
        decreases a@.len() - i,
    {
        if a[i].role == r {
            match found {
                None => {
                    found = Some(i);
                },
                Some(k) => {
                    proof {
                        assert(a@[k as int].role == r && a@[i as int].role == r && k as int != i as int);
                    }
                    return None;
                },
            }
        }
        i = i + 1;
    }
    found
}

} // verus!
