use ergot_demo::{
    claim_candidates, BusClaimer, ClaimAction, ClaimEvent, ClaimPhase, Lease, SeedEvent, SeedLeaser, SeedPhase,
};

fn lease(expires: u16, min_refresh: u16) -> Lease {
    Lease { id: 4, expires_seconds: expires, min_refresh_seconds: min_refresh }
}

#[test]
fn seed_backoff_doubles_up_to_five_seconds() {
    let mut s = SeedLeaser::new();
    let mut waits = vec![s.wait_ms()];
    for _ in 0..7 {
        s.step(SeedEvent::AssignFailed);
        waits.push(s.wait_ms());
    }
    assert_eq!(waits, vec![150, 300, 600, 1200, 2400, 4800, 5000, 5000]);
    s.step(SeedEvent::UpstreamInactive);
    assert_eq!(s.wait_ms(), 150);
}

#[test]
fn seed_lease_is_refreshed_before_expiry() {
    let mut s = SeedLeaser::new();
    s.step(SeedEvent::Assigned(lease(30, 10)));
    assert_eq!(s.phase(), SeedPhase::Holding { lease: lease(30, 10), failures: 0 });
    assert_eq!(s.wait_ms(), 20_000);
    s.step(SeedEvent::Refreshed(lease(10, 10)));
    assert_eq!(s.wait_ms(), 1_000);
}

#[test]
fn three_failed_refreshes_give_the_seed_lease_up() {
    let mut s = SeedLeaser::new();
    s.step(SeedEvent::Assigned(lease(30, 10)));
    s.step(SeedEvent::RefreshFailed);
    assert_eq!(s.wait_ms(), 2_000);
    s.step(SeedEvent::RefreshFailed);
    assert_eq!(s.phase(), SeedPhase::Holding { lease: lease(30, 10), failures: 2 });
    s.step(SeedEvent::RefreshFailed);
    assert_eq!(s.phase(), SeedPhase::Assigning { retry_ms: 150 });
}

#[test]
fn a_successful_refresh_clears_the_failures() {
    let mut s = SeedLeaser::new();
    s.step(SeedEvent::Assigned(lease(30, 10)));
    s.step(SeedEvent::RefreshFailed);
    s.step(SeedEvent::RefreshFailed);
    s.step(SeedEvent::Refreshed(lease(30, 5)));
    assert_eq!(s.phase(), SeedPhase::Holding { lease: lease(30, 5), failures: 0 });
    s.step(SeedEvent::AssignFailed);
    assert_eq!(s.phase(), SeedPhase::Holding { lease: lease(30, 5), failures: 0 });
}

#[test]
fn bus_claim_retries_and_resets_its_address() {
    let mut c = BusClaimer::new();
    assert_eq!(c.wait_ms(), 0);
    assert_eq!(c.step(ClaimEvent::ClaimFailed), ClaimAction::Proceed);
    assert_eq!(c.wait_ms(), 250);
    assert_eq!(c.step(ClaimEvent::ClaimTimedOut), ClaimAction::Proceed);
    assert_eq!(c.wait_ms(), 0);
    c.step(ClaimEvent::Claimed(lease(30, 10)));
    assert_eq!(c.wait_ms(), 20_000);
    assert_eq!(c.step(ClaimEvent::RefreshFailed), ClaimAction::Proceed);
    assert_eq!(c.step(ClaimEvent::RefreshFailed), ClaimAction::Proceed);
    assert_eq!(c.step(ClaimEvent::RefreshFailed), ClaimAction::ResetAddress);
    assert_eq!(c.phase(), ClaimPhase::Claiming { after_failure: false });
}

#[test]
fn claim_candidates_wrap_round_from_the_candidate() {
    assert_eq!(claim_candidates(252), {
        let mut v = vec![252, 253, 254];
        v.extend(3..252);
        v
    });
    let all = claim_candidates(3);
    assert_eq!(all, (3..=254).collect::<Vec<u8>>());
    assert_eq!(claim_candidates(255), (3..255).collect::<Vec<u8>>());
    assert_eq!(claim_candidates(1).len(), 254);
}
