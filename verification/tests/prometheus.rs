use turbine::async_io::AsyncIoStats;
use turbine::prometheus::{render, MetricsSources};
use turbine::task_queue::QueueStats;
use turbine::websocket::WsStats;

const MARKER: &str = "# HELP turbine_build_info Build/runtime marker (always 1).\n# TYPE turbine_build_info gauge\nturbine_build_info 1\n";

#[test]
fn render_without_primitives_is_the_marker() {
    let s = MetricsSources { shared_table: None, task_queue: None, ws_hub: None, async_io: None };
    assert_eq!(render(&s), MARKER);
}

#[test]
fn render_shared_table() {
    let s = MetricsSources { shared_table: Some((3, 1)), task_queue: None, ws_hub: None, async_io: None };
    let expected = format!(
        "{MARKER}# HELP turbine_shared_table_size Current number of entries in the shared table.\n\
         # TYPE turbine_shared_table_size gauge\nturbine_shared_table_size 3\n\
         # HELP turbine_shared_table_evictions_total Total entries evicted due to capacity/TTL.\n\
         # TYPE turbine_shared_table_evictions_total counter\nturbine_shared_table_evictions_total 1\n"
    );
    assert_eq!(render(&s), expected);
}

#[test]
fn render_all_primitives_in_order() {
    let s = MetricsSources {
        shared_table: Some((0, 0)),
        task_queue: Some(QueueStats { channels: 2, pushed: 10, popped: 7, rejected: 1 }),
        ws_hub: Some(WsStats { channels: 1, published: 5, subscribed: 4, rejected: 0 }),
        async_io: Some(AsyncIoStats { reads: 9, writes: 8, timers_scheduled: 3, timers_fired: 2, allowed_roots: 1 }),
    };
    let out = render(&s);
    assert!(out.starts_with(MARKER));
    assert!(out.contains("turbine_task_queue_pushed_total 10\n"));
    assert!(out.contains("turbine_ws_subscribed_total 4\n"));
    assert!(out.contains("turbine_async_timers_fired_total 2\n"));
    assert!(out.ends_with("# TYPE turbine_async_allowed_roots gauge\nturbine_async_allowed_roots 1\n"));
    let t = out.find("turbine_shared_table_size").unwrap();
    let q = out.find("turbine_task_queue_channels").unwrap();
    let w = out.find("turbine_ws_channels").unwrap();
    let a = out.find("turbine_async_reads_total").unwrap();
    assert!(t < q && q < w && w < a);
    assert_eq!(out.lines().count(), 3 + 3 * (2 + 4 + 4 + 5));
}
