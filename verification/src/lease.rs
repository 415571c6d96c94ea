//! Keeping leased addresses alive.
//!
//! A bridge's pending downlink waits for the bridge's uplink to become
//! active, then leases a network id from the upstream seed router, retrying
//! with a doubling back-off. A bus device claims a node id. Either way the
//! lease is then refreshed before it expires; after three refreshes in a row
//! have failed the lease is taken to be gone upstream and is sought again
//! from scratch.

use vstd::prelude::*;
use vstd::arithmetic::power2::pow2;

verus! {

/// The first wait before asking for a seed lease, and the wait after the
/// uplink was found inactive, in milliseconds.
pub const SEED_RETRY_START_MS: u32 = 150;
/// The longest wait between seed lease requests, in milliseconds.
pub const SEED_RETRY_MAX_MS: u32 = 5000;
/// The wait before the next refresh once a refresh has failed, in seconds.
pub const REFRESH_RETRY_S: u32 = 2;
/// How many failed refreshes in a row give a lease up.
pub const MAX_REFRESH_FAILURES: u8 = 3;
/// The wait after a failed bus address claim, in milliseconds.
pub const CLAIM_RETRY_MS: u32 = 250;

/// A lease as plain values: the leased id and its timing, in seconds.
#[derive(Clone, Copy, PartialEq, Eq, Debug, Structural)]
pub struct Lease {
    pub id: u16,
    pub expires_seconds: u16,
    pub min_refresh_seconds: u16,
}

/// Seconds to wait before the next refresh: while refreshes succeed, the
/// time left before the refresh window opens (at least one second); after a
/// failed refresh, a short fixed retry.
pub open spec fn refresh_delay_s(lease: Lease, failures: u8) -> u32 {
    if failures == 0 {
        if lease.expires_seconds > lease.min_refresh_seconds {
            (lease.expires_seconds - lease.min_refresh_seconds) as u32
        } else {
            1
        }
    } else {
        REFRESH_RETRY_S
    }
}

fn refresh_delay(lease: &Lease, failures: u8) -> (s: u32)
    ensures
        s == refresh_delay_s(*lease, failures),
        1 <= s <= u16::MAX,
{
    if failures == 0 {
        let left = lease.expires_seconds.saturating_sub(lease.min_refresh_seconds) as u32;
        if left >= 1 { left } else { 1 }
    } else {
        REFRESH_RETRY_S
    }
}

/// Where a seed-lease keeper stands.
#[derive(Clone, Copy, PartialEq, Eq, Debug, Structural)]
pub enum SeedPhase {
    /// Waiting `retry_ms`, then asking for a lease if the uplink is active.
    Assigning { retry_ms: u32 },
    /// Holding `lease`; `failures` refreshes in a row have failed.
    Holding { lease: Lease, failures: u8 },
}

/// What happened since the last step.
#[derive(Clone, Copy, PartialEq, Eq, Debug, Structural)]
pub enum SeedEvent {
    /// The bridge's uplink is not active yet.
    UpstreamInactive,
    /// The upstream seed router granted a lease.
    Assigned(Lease),
    /// Asking for a lease failed.
    AssignFailed,
    /// The lease was refreshed.
    Refreshed(Lease),
    /// Refreshing the lease failed.
    RefreshFailed,
}

pub open spec fn seed_phase_ok(p: SeedPhase) -> bool {
    match p {
        SeedPhase::Assigning { retry_ms } => SEED_RETRY_START_MS <= retry_ms <= SEED_RETRY_MAX_MS,
        SeedPhase::Holding { failures, .. } => failures < MAX_REFRESH_FAILURES,
    }
}

/// The doubled retry wait, capped.
pub open spec fn backed_off(retry_ms: u32) -> u32 {
    if retry_ms * 2 < SEED_RETRY_MAX_MS {
        (retry_ms * 2) as u32
    } else {
        SEED_RETRY_MAX_MS
    }
}

/// The phase after `event`. Events that do not belong to the current phase
/// leave it as it is.
pub open spec fn seed_next(p: SeedPhase, event: SeedEvent) -> SeedPhase {
    match (p, event) {
        (SeedPhase::Assigning { .. }, SeedEvent::UpstreamInactive) => SeedPhase::Assigning { retry_ms: SEED_RETRY_START_MS },
        (SeedPhase::Assigning { retry_ms }, SeedEvent::AssignFailed) => SeedPhase::Assigning { retry_ms: backed_off(retry_ms) },
        (SeedPhase::Assigning { .. }, SeedEvent::Assigned(lease)) => SeedPhase::Holding { lease, failures: 0 },
        (SeedPhase::Holding { .. }, SeedEvent::Refreshed(lease)) => SeedPhase::Holding { lease, failures: 0 },
        (SeedPhase::Holding { lease, failures }, SeedEvent::RefreshFailed) =>
            if failures + 1 >= MAX_REFRESH_FAILURES {
                SeedPhase::Assigning { retry_ms: SEED_RETRY_START_MS }
            } else {
                SeedPhase::Holding { lease, failures: (failures + 1) as u8 }
            },
        _ => p,
    }
}

/// How long to wait, in milliseconds, before acting in phase `p`.
pub open spec fn seed_wait_ms(p: SeedPhase) -> u32 {
    match p {
        SeedPhase::Assigning { retry_ms } => retry_ms,
        SeedPhase::Holding { lease, failures } => (refresh_delay_s(lease, failures) * 1000) as u32,
    }
}

/// The decisions of a bridge downlink's seed lease: what to wait for and
/// what to do next. The caller waits, asks upstream, and reports back.
pub struct SeedLeaser {
    phase: SeedPhase,
}

impl View for SeedLeaser {
    type V = SeedPhase;

    closed spec fn view(&self) -> SeedPhase {
        self.phase
    }
}

impl SeedLeaser {
    #[verifier::type_invariant]
    spec fn inv(&self) -> bool {
        seed_phase_ok(self.phase)
    }

    /// A keeper that first waits the initial retry time.
    pub fn new() -> (s: Self)
        ensures
            s@ == (SeedPhase::Assigning { retry_ms: SEED_RETRY_START_MS }),
    {
        SeedLeaser { phase: SeedPhase::Assigning { retry_ms: SEED_RETRY_START_MS } }
    }

    pub fn phase(&self) -> (p: SeedPhase)
        ensures
            p == self@,
    {
        self.phase
    }

    /// Milliseconds to wait before the next request or refresh.
    pub fn wait_ms(&self) -> (ms: u32)
        ensures
            seed_phase_ok(self@),
            ms == seed_wait_ms(self@),
            ms >= 1,
    {
        proof {
            use_type_invariant(self);
        }
        match &self.phase {
            SeedPhase::Assigning { retry_ms } => *retry_ms,
            SeedPhase::Holding { lease, failures } => refresh_delay(lease, *failures) * 1000,
        }
    }

    /// Take in what happened.
    pub fn step(&mut self, event: SeedEvent)
        ensures
            seed_phase_ok(final(self)@),
            final(self)@ == seed_next(old(self)@, event),
    {
        proof {
            use_type_invariant(&*self);
        }
        let next = match (self.phase, event) {
            (SeedPhase::Assigning { .. }, SeedEvent::UpstreamInactive) => SeedPhase::Assigning { retry_ms: SEED_RETRY_START_MS },
            (SeedPhase::Assigning { retry_ms }, SeedEvent::AssignFailed) => {
                let doubled = retry_ms * 2;
                SeedPhase::Assigning { retry_ms: if doubled < SEED_RETRY_MAX_MS { doubled } else { SEED_RETRY_MAX_MS } }
            },
            (SeedPhase::Assigning { .. }, SeedEvent::Assigned(lease)) => SeedPhase::Holding { lease, failures: 0 },
            (SeedPhase::Holding { .. }, SeedEvent::Refreshed(lease)) => SeedPhase::Holding { lease, failures: 0 },
            (SeedPhase::Holding { lease, failures }, SeedEvent::RefreshFailed) => {
                if failures + 1 >= MAX_REFRESH_FAILURES {
                    SeedPhase::Assigning { retry_ms: SEED_RETRY_START_MS }
                } else {
                    SeedPhase::Holding { lease, failures: failures + 1 }
                }
            },
            (p, _) => p,
        };
        self.phase = next;
    }
}

/// Where a bus device's address claim stands.
#[derive(Clone, Copy, PartialEq, Eq, Debug, Structural)]
pub enum ClaimPhase {
    /// About to claim a node id; after a failed claim, a short wait comes first.
    Claiming { after_failure: bool },
    /// Holding `lease`; `failures` refreshes in a row have failed.
    Holding { lease: Lease, failures: u8 },
}

/// What happened since the last step of a bus claim.
#[derive(Clone, Copy, PartialEq, Eq, Debug, Structural)]
pub enum ClaimEvent {
    /// A node id was claimed.
    Claimed(Lease),
    /// The claim failed.
    ClaimFailed,
    /// The claim took too long.
    ClaimTimedOut,
    /// The lease was refreshed.
    Refreshed(Lease),
    /// Refreshing failed or took too long.
    RefreshFailed,
}

/// What the caller must do after a step, besides waiting.
#[derive(Clone, Copy, PartialEq, Eq, Debug, Structural)]
pub enum ClaimAction {
    Proceed,
    /// The lease is given up: put the uplink back on the candidate address
    /// before claiming again.
    ResetAddress,
}

pub open spec fn claim_phase_ok(p: ClaimPhase) -> bool {
    match p {
        ClaimPhase::Claiming { .. } => true,
        ClaimPhase::Holding { failures, .. } => failures < MAX_REFRESH_FAILURES,
    }
}

/// The phase after `event`, and what the caller must do. Events that do not
/// belong to the current phase leave it as it is.
pub open spec fn claim_next(p: ClaimPhase, event: ClaimEvent) -> (ClaimPhase, ClaimAction) {
    match (p, event) {
        (ClaimPhase::Claiming { .. }, ClaimEvent::Claimed(lease)) => (ClaimPhase::Holding { lease, failures: 0 }, ClaimAction::Proceed),
        (ClaimPhase::Claiming { .. }, ClaimEvent::ClaimFailed) => (ClaimPhase::Claiming { after_failure: true }, ClaimAction::Proceed),
        (ClaimPhase::Claiming { .. }, ClaimEvent::ClaimTimedOut) => (ClaimPhase::Claiming { after_failure: false }, ClaimAction::Proceed),
        (ClaimPhase::Holding { .. }, ClaimEvent::Refreshed(lease)) => (ClaimPhase::Holding { lease, failures: 0 }, ClaimAction::Proceed),
        (ClaimPhase::Holding { lease, failures }, ClaimEvent::RefreshFailed) =>
            if failures + 1 >= MAX_REFRESH_FAILURES {
                (ClaimPhase::Claiming { after_failure: false }, ClaimAction::ResetAddress)
            } else {
                (ClaimPhase::Holding { lease, failures: (failures + 1) as u8 }, ClaimAction::Proceed)
            },
        _ => (p, ClaimAction::Proceed),
    }
}

/// How long to wait, in milliseconds, before acting in phase `p`; zero means
/// act at once.
pub open spec fn claim_wait_ms(p: ClaimPhase) -> u32 {
    match p {
        ClaimPhase::Claiming { after_failure } => if after_failure { CLAIM_RETRY_MS } else { 0 },
        ClaimPhase::Holding { lease, failures } => (refresh_delay_s(lease, failures) * 1000) as u32,
    }
}

/// The node ids a bus device tries, in order: its candidate up to 254, then
/// from 3 up to just below the candidate.
pub open spec fn claim_order(candidate: u8) -> Seq<u8> {
    Seq::new((255 - candidate) as nat, |i: int| (candidate + i) as u8)
        + Seq::new(if candidate > 3 { (candidate - 3) as nat } else { 0 }, |i: int| (3 + i) as u8)
}

pub fn claim_candidates(candidate: u8) -> (ids: Vec<u8>)
    ensures
        ids@ == claim_order(candidate),
{
    let mut ids: Vec<u8> = Vec::new();
    let mut c: u16 = candidate as u16;
    while c <= 254
        invariant
            candidate <= c <= 255,
            ids@ == Seq::new((c - candidate) as nat, |i: int| (candidate + i) as u8),
        decreases 255 - c,
    {
        ids.push(c as u8);
        c = c + 1;
        assert(ids@ =~= Seq::new((c - candidate) as nat, |i: int| (candidate + i) as u8));
    }
    let ghost high = ids@;
    let mut d: u8 = 3;
    while d < candidate
        invariant
            3 <= d,
            d <= candidate || candidate < 3,
            d == 3 || d <= candidate,
            ids@ == high + Seq::new((d - 3) as nat, |i: int| (3 + i) as u8),
        decreases 255 - d,
    {
        ids.push(d);
        d = d + 1;
        assert(ids@ =~= high + Seq::new((d - 3) as nat, |i: int| (3 + i) as u8));
    }
    assert(ids@ =~= claim_order(candidate));
    ids
}

/// The decisions of a bus device's address claim.
pub struct BusClaimer {
    phase: ClaimPhase,
}

impl View for BusClaimer {
    type V = ClaimPhase;

    closed spec fn view(&self) -> ClaimPhase {
        self.phase
    }
}

impl BusClaimer {
    #[verifier::type_invariant]
    spec fn inv(&self) -> bool {
        claim_phase_ok(self.phase)
    }

    pub fn new() -> (c: Self)
        ensures
            c@ == (ClaimPhase::Claiming { after_failure: false }),
    {
        BusClaimer { phase: ClaimPhase::Claiming { after_failure: false } }
    }

    pub fn phase(&self) -> (p: ClaimPhase)
        ensures
            p == self@,
    {
        self.phase
    }

    /// Milliseconds to wait before the next claim or refresh.
    pub fn wait_ms(&self) -> (ms: u32)
        ensures
            ms == claim_wait_ms(self@),
    {
        proof {
            use_type_invariant(self);
        }
        match &self.phase {
            ClaimPhase::Claiming { after_failure } => if *after_failure { CLAIM_RETRY_MS } else { 0 },
            ClaimPhase::Holding { lease, failures } => refresh_delay(lease, *failures) * 1000,
        }
    }

    /// Take in what happened; the answer says whether the uplink address
    /// must be reset.
    pub fn step(&mut self, event: ClaimEvent) -> (a: ClaimAction)
        ensures
            claim_phase_ok(final(self)@),
            (final(self)@, a) == claim_next(old(self)@, event),
    {
        proof {
            use_type_invariant(&*self);
        }
        let (next, action) = match (self.phase, event) {
            (ClaimPhase::Claiming { .. }, ClaimEvent::Claimed(lease)) => (ClaimPhase::Holding { lease, failures: 0 }, ClaimAction::Proceed),
            (ClaimPhase::Claiming { .. }, ClaimEvent::ClaimFailed) => (ClaimPhase::Claiming { after_failure: true }, ClaimAction::Proceed),
            (ClaimPhase::Claiming { .. }, ClaimEvent::ClaimTimedOut) => (ClaimPhase::Claiming { after_failure: false }, ClaimAction::Proceed),
            (ClaimPhase::Holding { .. }, ClaimEvent::Refreshed(lease)) => (ClaimPhase::Holding { lease, failures: 0 }, ClaimAction::Proceed),
            (ClaimPhase::Holding { lease, failures }, ClaimEvent::RefreshFailed) => {
                if failures + 1 >= MAX_REFRESH_FAILURES {
                    (ClaimPhase::Claiming { after_failure: false }, ClaimAction::ResetAddress)
                } else {
                    (ClaimPhase::Holding { lease, failures: failures + 1 }, ClaimAction::Proceed)
                }
            },
            (p, _) => (p, ClaimAction::Proceed),
        };
        self.phase = next;
        action
    }
}

/// The seed phase after `k` failed lease requests in a row.
pub open spec fn after_assign_failures(p: SeedPhase, k: nat) -> SeedPhase
    decreases k,
{
    if k == 0 {
        p
    } else {
        seed_next(after_assign_failures(p, (k - 1) as nat), SeedEvent::AssignFailed)
    }
}

/// Back-off: starting from the first wait, each failed lease request
/// doubles the wait, up to five seconds: after `k` failures the wait is
/// `min(150 * 2^k, 5000)` milliseconds.
pub proof fn law_seed_backoff_doubles_to_cap(k: nat)
    ensures
        after_assign_failures(SeedPhase::Assigning { retry_ms: SEED_RETRY_START_MS }, k) == (SeedPhase::Assigning {
            retry_ms: if 150 * pow2(k) < 5000 { (150 * pow2(k)) as u32 } else { 5000u32 },
        }),
    decreases k,
{
    vstd::arithmetic::power2::lemma_pow2_pos(k);
    if k == 0 {
        vstd::arithmetic::power2::lemma2_to64();
    }
    if k > 0 {
        law_seed_backoff_doubles_to_cap((k - 1) as nat);
        vstd::arithmetic::power2::lemma_pow2_unfold(k);
        let a = pow2((k - 1) as nat);
        assert(150 * pow2(k) == 2 * (150 * a)) by (nonlinear_arith)
            requires
                pow2(k) == 2 * a,
        ;
    }
}

/// A failed request while the uplink is down starts the back-off over:
/// finding the uplink inactive always resets the wait to its first value.
pub proof fn law_inactive_uplink_resets_backoff(retry_ms: u32)
    ensures
        seed_next(SeedPhase::Assigning { retry_ms }, SeedEvent::UpstreamInactive) == (SeedPhase::Assigning {
            retry_ms: SEED_RETRY_START_MS,
        }),
{
}

/// Three failed refreshes in a row give the lease up and start leasing from
/// scratch; one or two keep the lease, and a successful refresh clears the
/// count.
pub proof fn law_seed_lease_given_up_after_three_failures(lease: Lease, fresh: Lease)
    ensures
        ({
            let p0 = SeedPhase::Holding { lease, failures: 0 };
            let p1 = seed_next(p0, SeedEvent::RefreshFailed);
            let p2 = seed_next(p1, SeedEvent::RefreshFailed);
            let p3 = seed_next(p2, SeedEvent::RefreshFailed);
            &&& p1 == (SeedPhase::Holding { lease, failures: 1 })
            &&& p2 == (SeedPhase::Holding { lease, failures: 2 })
            &&& p3 == (SeedPhase::Assigning { retry_ms: SEED_RETRY_START_MS })
            &&& seed_next(p2, SeedEvent::Refreshed(fresh)) == (SeedPhase::Holding { lease: fresh, failures: 0 })
        }),
{
}

/// The same holds of a bus device's claim, which on giving up also asks for
/// its uplink address to be reset.
pub proof fn law_claim_given_up_after_three_failures(lease: Lease)
    ensures
        ({
            let (p1, a1) = claim_next(ClaimPhase::Holding { lease, failures: 0 }, ClaimEvent::RefreshFailed);
            let (p2, a2) = claim_next(p1, ClaimEvent::RefreshFailed);
            let (p3, a3) = claim_next(p2, ClaimEvent::RefreshFailed);
            &&& a1 == ClaimAction::Proceed && a2 == ClaimAction::Proceed
            &&& p2 == (ClaimPhase::Holding { lease, failures: 2 })
            &&& p3 == (ClaimPhase::Claiming { after_failure: false })
            &&& a3 == ClaimAction::ResetAddress
        }),
{
}

/// A healthy lease is refreshed before it expires: the wait is at least one
/// second, and when the lease lasts at least a second the wait never runs
/// past its lifetime.
pub proof fn law_refresh_within_lifetime(lease: Lease)
    ensures
        seed_wait_ms(SeedPhase::Holding { lease, failures: 0 }) >= 1000,
        lease.expires_seconds >= 1 ==> seed_wait_ms(SeedPhase::Holding { lease, failures: 0 }) <= lease.expires_seconds * 1000,
        claim_wait_ms(ClaimPhase::Holding { lease, failures: 0 }) == seed_wait_ms(SeedPhase::Holding { lease, failures: 0 }),
{
}

/// Every phase a seed keeper can reach keeps its wait between the first
/// value and five seconds, and fewer than three failed refreshes on record.
pub proof fn law_seed_phase_stays_in_bounds(p: SeedPhase, e: SeedEvent)
    requires
        seed_phase_ok(p),
    ensures
        seed_phase_ok(seed_next(p, e)),
{
}

/// A granted lease is always taken up: whatever the back-off has grown to,
/// a seed keeper that is granted a lease holds exactly that lease, with no
/// failed refresh on record, and next waits for the lease's refresh window.
pub proof fn law_granted_seed_lease_is_held(retry_ms: u32, lease: Lease)
    ensures
        seed_next(SeedPhase::Assigning { retry_ms }, SeedEvent::Assigned(lease)) == (SeedPhase::Holding { lease, failures: 0 }),
        seed_wait_ms(seed_next(SeedPhase::Assigning { retry_ms }, SeedEvent::Assigned(lease))) == refresh_delay_s(lease, 0) * 1000,
{
}

/// A successful refresh always wipes the record of failed refreshes and
/// holds the refreshed lease, whatever failures came before, for a seed
/// keeper and a bus claim alike; a bus claim then carries on without a
/// reset. So only three failures with no success between them give a lease
/// up.
pub proof fn law_refresh_clears_failures(old_lease: Lease, failures: u8, lease: Lease)
    ensures
        seed_next(SeedPhase::Holding { lease: old_lease, failures }, SeedEvent::Refreshed(lease)) == (SeedPhase::Holding { lease, failures: 0 }),
        claim_next(ClaimPhase::Holding { lease: old_lease, failures }, ClaimEvent::Refreshed(lease)) == (
            ClaimPhase::Holding { lease, failures: 0 },
            ClaimAction::Proceed,
        ),
        claim_wait_ms(claim_next(ClaimPhase::Holding { lease: old_lease, failures }, ClaimEvent::Refreshed(lease)).0) == refresh_delay_s(lease, 0) * 1000,
{
}

/// A claimed node id is always held, whether or not a claim failed before.
pub proof fn law_claimed_id_is_held(after_failure: bool, lease: Lease)
    ensures
        claim_next(ClaimPhase::Claiming { after_failure }, ClaimEvent::Claimed(lease)) == (
            ClaimPhase::Holding { lease, failures: 0 },
            ClaimAction::Proceed,
        ),
{
}

/// A refresh failure followed by a success leaves the lease held with a
/// clean record: after fail, succeed, fail, fail a bus claim still holds
/// its address.
pub proof fn law_claim_failures_must_be_in_a_row(lease: Lease)
    ensures
        ({
            let (p1, _) = claim_next(ClaimPhase::Holding { lease, failures: 0 }, ClaimEvent::RefreshFailed);
            let (p2, _) = claim_next(p1, ClaimEvent::Refreshed(lease));
            let (p3, a3) = claim_next(p2, ClaimEvent::RefreshFailed);
            let (p4, a4) = claim_next(p3, ClaimEvent::RefreshFailed);
            &&& p2 == (ClaimPhase::Holding { lease, failures: 0 })
            &&& p4 == (ClaimPhase::Holding { lease, failures: 2 })
            &&& a3 == ClaimAction::Proceed && a4 == ClaimAction::Proceed
        }),
{
}

} // verus!
