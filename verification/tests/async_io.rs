use turbine::async_io::{AsyncIo, AsyncIoError};

fn io(roots: Vec<String>) -> AsyncIo {
    AsyncIo::with_roots(roots, 1_048_576, 60_000)
}

#[test]
fn empty_allowed_roots_rejects_everything() {
    let a = io(vec![]);
    assert!(matches!(a.resolve("/etc/passwd", false), Err(AsyncIoError::PathNotAllowed)));
    assert!(matches!(
        a.resolve_given("/x", Some("/x".to_string()), None, false),
        Err(AsyncIoError::PathNotAllowed)
    ));
}

#[test]
fn resolution_inside_and_outside_roots() {
    let a = io(vec!["/srv/data".to_string()]);
    let ok = a.resolve_given("/srv/data/a.txt", Some("/srv/data/a.txt".to_string()), None, false);
    assert_eq!(ok.unwrap(), "/srv/data/a.txt");
    assert!(a
        .resolve_given("/srv/other/a.txt", Some("/srv/other/a.txt".to_string()), None, false)
        .is_err());
    // Component-wise: /srv/database is not under /srv/data.
    assert!(a
        .resolve_given("/srv/database", Some("/srv/database".to_string()), None, false)
        .is_err());
}

#[test]
fn new_file_resolves_through_parent() {
    let a = io(vec!["/srv/data".to_string()]);
    let r = a.resolve_given("/srv/data/new.txt", None, Some("/srv/data".to_string()), true);
    assert_eq!(r.unwrap(), "/srv/data/new.txt");
    assert!(a.resolve_given("/srv/data/new.txt", None, Some("/srv/data".to_string()), false).is_err());
    assert!(a.resolve_given("/srv/data/new.txt", None, None, true).is_err());
}

#[test]
fn read_respects_length_cap() {
    let a = AsyncIo::with_roots(vec![], 100, 10);
    assert_eq!(a.read_cap(0), 100);
    assert_eq!(a.read_cap(40), 40);
    assert_eq!(a.read_cap(400), 100);
}

#[test]
fn write_rejects_oversize_payload() {
    let a = AsyncIo::with_roots(vec![], 4, 10);
    assert!(a.check_write_size(4).is_ok());
    assert!(matches!(a.check_write_size(5), Err(AsyncIoError::TooLarge(4))));
}

#[test]
fn timer_rules() {
    let mut a = AsyncIo::with_roots(vec![], 4, 1_000);
    assert!(matches!(a.plan_timer(false, 1), Err(AsyncIoError::TimerWithoutQueue)));
    assert!(matches!(a.plan_timer(true, 1_001), Err(AsyncIoError::DelayTooLong(1_000))));
    assert!(a.plan_timer(true, 1_000).is_ok());
    a.record_timer_fired();
    a.record_read();
    a.record_write();
    let s = a.stats();
    assert_eq!((s.reads, s.writes, s.timers_scheduled, s.timers_fired, s.allowed_roots), (1, 1, 1, 1, 0));
}

#[test]
fn new_drops_roots_that_do_not_resolve() {
    let a = AsyncIo::new(vec!["/nonexistent-turbine-root".to_string()], 1, 1);
    assert_eq!(a.stats().allowed_roots, 0);
}

#[test]
fn timer_without_queue_fails() {
    let mut a = AsyncIo::with_roots(vec![], 1024, 60_000);
    assert!(matches!(a.plan_timer(false, 1), Err(AsyncIoError::TimerWithoutQueue)));
}

#[test]
fn timer_rejects_delay_over_limit() {
    let mut a = AsyncIo::with_roots(vec![], 1024, 100);
    assert!(matches!(a.plan_timer(true, 500), Err(AsyncIoError::DelayTooLong(100))));
}
