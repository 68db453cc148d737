use turbine::task_queue::{QueueError, TaskQueue};

#[test]
fn push_then_pop_returns_same_payload() {
    let mut q = TaskQueue::new(8, 16);
    let id = q.push("email", b"hello".to_vec()).unwrap();
    let job = q.try_pop("email").unwrap();
    assert_eq!(job.id, id);
    assert_eq!(job.payload, b"hello");
}

#[test]
fn pop_on_missing_channel_is_none() {
    let mut q = TaskQueue::new(8, 16);
    assert!(q.try_pop("nope").is_none());
    assert_eq!(q.channel_count(), 0);
}

#[test]
fn push_rejects_when_channel_full() {
    let mut q = TaskQueue::new(8, 2);
    q.push("c", b"1".to_vec()).unwrap();
    q.push("c", b"2".to_vec()).unwrap();
    match q.push("c", b"3".to_vec()) {
        Err(QueueError::Full(name, cap)) => {
            assert_eq!(name, "c");
            assert_eq!(cap, 2);
        }
        other => panic!("expected Full, got {other:?}"),
    }
    assert_eq!(q.stats().rejected, 1);
}

#[test]
fn push_rejects_beyond_channel_cap() {
    let mut q = TaskQueue::new(1, 4);
    q.push("a", b"1".to_vec()).unwrap();
    assert!(matches!(q.push("b", b"1".to_vec()), Err(QueueError::TooManyChannels(1))));
    assert_eq!(q.channel_count(), 1);
}

#[test]
fn ids_are_monotonic_across_channels() {
    let mut q = TaskQueue::new(8, 16);
    let a = q.push("a", Vec::new()).unwrap();
    let b = q.push("b", Vec::new()).unwrap();
    let c = q.push("a", Vec::new()).unwrap();
    assert_eq!((a, b, c), (1, 2, 3));
}

#[test]
fn fifo_order() {
    let mut q = TaskQueue::new(8, 16);
    q.push("f", b"first".to_vec()).unwrap();
    q.push("f", b"second".to_vec()).unwrap();
    assert_eq!(q.try_pop("f").unwrap().payload, b"first");
    assert_eq!(q.try_pop("f").unwrap().payload, b"second");
    assert!(q.try_pop("f").is_none());
}

#[test]
fn size_and_clear() {
    let mut q = TaskQueue::new(8, 16);
    q.push("s", b"1".to_vec()).unwrap();
    q.push("s", b"2".to_vec()).unwrap();
    assert_eq!(q.size("s"), 2);
    assert_eq!(q.size("other"), 0);
    assert_eq!(q.clear("s"), 2);
    assert_eq!(q.size("s"), 0);
    assert_eq!(q.clear("missing"), 0);
}

#[test]
fn stats_track_activity() {
    let mut q = TaskQueue::new(8, 1);
    q.push("s", b"1".to_vec()).unwrap();
    assert!(q.push("s", b"2".to_vec()).is_err());
    q.try_pop("s").unwrap();
    let s = q.stats();
    assert_eq!((s.channels, s.pushed, s.popped, s.rejected), (1, 1, 1, 1));
}

#[test]
fn full_push_still_consumes_an_id() {
    let mut q = TaskQueue::new(8, 1);
    assert_eq!(q.push("s", Vec::new()).unwrap(), 1);
    assert!(q.push("s", Vec::new()).is_err());
    assert_eq!(q.push("t", Vec::new()).unwrap(), 3);
}
