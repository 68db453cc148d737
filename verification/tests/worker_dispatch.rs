use turbine::worker_dispatch::{Claim, WorkerDispatch};

#[test]
fn fresh_dispatch_hands_out_the_top_worker() {
    let mut d = WorkerDispatch::new(3);
    assert_eq!(d.idle_len(), 3);
    assert_eq!(d.claim(0), Claim::Picked(2));
    assert_eq!(d.claim(0), Claim::Picked(1));
    assert_eq!(d.idle_len(), 1);
}

#[test]
fn returned_worker_is_claimed_next() {
    let mut d = WorkerDispatch::new(3);
    assert_eq!(d.claim(0), Claim::Picked(2));
    assert_eq!(d.claim(0), Claim::Picked(1));
    d.return_idle(2);
    assert_eq!(d.claim(0), Claim::Picked(2));
}

#[test]
fn unhealthy_worker_is_skipped_and_dropped() {
    let mut d = WorkerDispatch::new(2);
    d.mark_unhealthy(1);
    assert!(!d.is_pickable(1));
    assert_eq!(d.claim(0), Claim::Skipped(1));
    assert_eq!(d.claim(1), Claim::Picked(0));
    assert_eq!(d.claim(0), Claim::Empty);
}

#[test]
fn skips_run_out() {
    let mut d = WorkerDispatch::new(1);
    d.mark_unhealthy(0);
    assert_eq!(d.claim(1), Claim::GaveUp(0));
    assert_eq!(d.claim(0), Claim::Empty);
}

#[test]
fn quota_exhausts_a_worker_until_it_is_respawned() {
    let mut d = WorkerDispatch::new(1);
    d.set_max_requests(2);
    assert!(d.is_pickable(0));
    d.record_served(0);
    assert!(d.is_pickable(0));
    d.record_served(0);
    assert!(!d.is_pickable(0));
    d.mark_healthy(0);
    assert!(d.is_pickable(0));
}

#[test]
fn no_quota_never_exhausts() {
    let mut d = WorkerDispatch::new(1);
    for _ in 0..100 {
        d.record_served(0);
    }
    assert!(d.is_pickable(0));
}

#[test]
fn out_of_range_index_is_ignored() {
    let mut d = WorkerDispatch::new(1);
    d.mark_unhealthy(5);
    d.record_served(5);
    assert!(d.is_pickable(0));
    assert!(!d.is_pickable(5));
}

#[test]
fn refresh_clears_flags_and_adds_grown_workers() {
    let mut d = WorkerDispatch::new(4);
    for _ in 0..4 {
        assert!(matches!(d.claim(0), Claim::Picked(_)));
    }
    d.mark_unhealthy(0);
    assert_eq!(d.refresh(2), 0);
    assert_eq!(d.slots(), 2);
    assert!(d.is_pickable(0));
    assert_eq!(d.idle_len(), 0);
    assert_eq!(d.refresh(4), 2);
    assert_eq!(d.idle_len(), 2);
    assert_eq!(d.claim(0), Claim::Picked(3));
    assert_eq!(d.claim(0), Claim::Picked(2));
}
