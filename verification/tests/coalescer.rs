use turbine::coalescer::{Coalescer, LeaderOrFollower};

#[test]
fn single_call_runs_once() {
    let mut c = Coalescer::new();
    let mut leaders = 0;
    let mut guards = Vec::new();
    for _ in 0..50 {
        match c.acquire("key") {
            LeaderOrFollower::Leader(g) => {
                leaders += 1;
                guards.push(g);
            }
            LeaderOrFollower::Follower => {}
        }
    }
    // All 50 concurrent calls collapsed to a single execution.
    assert_eq!(leaders, 1);
    assert_eq!(c.inflight_count(), 1);
}

#[test]
fn different_keys_run_in_parallel() {
    let mut c = Coalescer::new();
    assert!(matches!(c.acquire("a"), LeaderOrFollower::Leader(_)));
    assert!(matches!(c.acquire("b"), LeaderOrFollower::Leader(_)));
    assert_eq!(c.inflight_count(), 2);
}

#[test]
fn inflight_cleared_after_completion() {
    let mut c = Coalescer::new();
    match c.acquire("key") {
        LeaderOrFollower::Leader(mut g) => {
            assert_eq!(g.key(), "key");
            g.publish(&mut c);
            // publishing twice does nothing
            g.publish(&mut c);
        }
        LeaderOrFollower::Follower => panic!("first caller must lead"),
    }
    assert_eq!(c.inflight_count(), 0);
    assert!(matches!(c.acquire("key"), LeaderOrFollower::Leader(_)));
}

#[test]
fn aborted_leader_frees_the_key() {
    let mut c = Coalescer::new();
    let g = match c.acquire("k") {
        LeaderOrFollower::Leader(g) => g,
        LeaderOrFollower::Follower => panic!("first caller must lead"),
    };
    assert!(matches!(c.acquire("k"), LeaderOrFollower::Follower));
    g.abort(&mut c);
    assert_eq!(c.inflight_count(), 0);
}
