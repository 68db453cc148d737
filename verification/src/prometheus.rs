//! The body of `/_/metrics` in the Prometheus text format (v0.0.4).
//!
//! A build marker is always there, so a scrape is never empty; each
//! primitive that is configured adds its gauges and counters.
use vstd::prelude::*;

use crate::async_io::AsyncIoStats;
use crate::task_queue::QueueStats;
use crate::text::{decimal, decimal_chars, push_all, push_str, string_of};
use crate::websocket::WsStats;

verus! {

/// What the metrics page reports on: the primitives that are configured.
pub struct MetricsSources {
    /// Size and evictions of the shared table.
    pub shared_table: Option<(usize, u64)>,
    pub task_queue: Option<QueueStats>,
    pub ws_hub: Option<WsStats>,
    pub async_io: Option<AsyncIoStats>,
}

/// One metric: its help line, its type line and its sample.
pub open spec fn metric(name: Seq<char>, help: Seq<char>, kind: Seq<char>, value: nat) -> Seq<char> {
    "# HELP "@ + name + " "@ + help + "\n"@ + "# TYPE "@ + name + " "@ + kind + "\n"@ + name + " "@
        + decimal(value) + "\n"@
}

/// The build marker.
pub open spec fn build_info() -> Seq<char> {
    metric("turbine_build_info"@, "Build/runtime marker (always 1)."@, "gauge"@, 1)
}

/// The shared table's metrics.
pub open spec fn table_metrics(size: nat, evictions: nat) -> Seq<char> {
    metric(
        "turbine_shared_table_size"@,
        "Current number of entries in the shared table."@,
        "gauge"@,
        size,
    ) + metric(
        "turbine_shared_table_evictions_total"@,
        "Total entries evicted due to capacity/TTL."@,
        "counter"@,
        evictions,
    )
}

/// The task queue's metrics.
pub open spec fn queue_metrics(s: QueueStats) -> Seq<char> {
    metric("turbine_task_queue_channels"@, "Active channels."@, "gauge"@, s.channels as nat)
        + metric(
        "turbine_task_queue_pushed_total"@,
        "Jobs enqueued since startup."@,
        "counter"@,
        s.pushed as nat,
    ) + metric(
        "turbine_task_queue_popped_total"@,
        "Jobs consumed since startup."@,
        "counter"@,
        s.popped as nat,
    ) + metric(
        "turbine_task_queue_rejected_total"@,
        "Jobs rejected (queue full / channel cap)."@,
        "counter"@,
        s.rejected as nat,
    )
}

/// The websocket hub's metrics.
pub open spec fn ws_metrics(s: WsStats) -> Seq<char> {
    metric("turbine_ws_channels"@, "Active websocket channels."@, "gauge"@, s.channels as nat)
        + metric(
        "turbine_ws_published_total"@,
        "Messages published to websocket channels."@,
        "counter"@,
        s.published as nat,
    ) + metric(
        "turbine_ws_subscribed_total"@,
        "Websocket subscribe events since startup."@,
        "counter"@,
        s.subscribed as nat,
    ) + metric(
        "turbine_ws_rejected_total"@,
        "Websocket subscribe/publish rejections."@,
        "counter"@,
        s.rejected as nat,
    )
}

/// The async I/O metrics.
pub open spec fn async_metrics(s: AsyncIoStats) -> Seq<char> {
    metric("turbine_async_reads_total"@, "Async file reads completed."@, "counter"@, s.reads as nat)
        + metric(
        "turbine_async_writes_total"@,
        "Async file writes completed."@,
        "counter"@,
        s.writes as nat,
    ) + metric(
        "turbine_async_timers_scheduled_total"@,
        "Timers scheduled."@,
        "counter"@,
        s.timers_scheduled as nat,
    ) + metric(
        "turbine_async_timers_fired_total"@,
        "Timers that fired and enqueued a task."@,
        "counter"@,
        s.timers_fired as nat,
    ) + metric(
        "turbine_async_allowed_roots"@,
        "Number of configured async I/O roots."@,
        "gauge"@,
        s.allowed_roots as nat,
    )
}

/// The whole page: the marker, then the metrics of each configured
/// primitive in a fixed order.
pub open spec fn metrics_page(s: MetricsSources) -> Seq<char> {
    build_info() + table_part(s.shared_table) + queue_part(s.task_queue) + ws_part(s.ws_hub)
        + async_part(s.async_io)
}

fn push_metric(out: &mut Vec<char>, name: &str, help: &str, kind: &str, value: u64)
    ensures
        final(out)@ == old(out)@ + metric(name@, help@, kind@, value as nat),
{
    let ghost start = out@;
    push_str(out, "# HELP ");
    push_str(out, name);
    push_str(out, " ");
    push_str(out, help);
    push_str(out, "\n");
    push_str(out, "# TYPE ");
    push_str(out, name);
    push_str(out, " ");
    push_str(out, kind);
    push_str(out, "\n");
    push_str(out, name);
    push_str(out, " ");
    let d = decimal_chars(value);
    push_all(out, d.as_slice());
    push_str(out, "\n");
    assert(out@ =~= start + metric(name@, help@, kind@, value as nat));
}

/// The shared table's part of the page.
pub open spec fn table_part(t: Option<(usize, u64)>) -> Seq<char> {
    match t {
        Some((size, ev)) => table_metrics(size as nat, ev as nat),
        None => Seq::empty(),
    }
}

/// The task queue's part of the page.
pub open spec fn queue_part(q: Option<QueueStats>) -> Seq<char> {
    match q {
        Some(q) => queue_metrics(q),
        None => Seq::empty(),
    }
}

/// The websocket hub's part of the page.
pub open spec fn ws_part(w: Option<WsStats>) -> Seq<char> {
    match w {
        Some(w) => ws_metrics(w),
        None => Seq::empty(),
    }
}

/// The async I/O part of the page.
pub open spec fn async_part(a: Option<AsyncIoStats>) -> Seq<char> {
    match a {
        Some(a) => async_metrics(a),
        None => Seq::empty(),
    }
}

fn push_table(out: &mut Vec<char>, t: Option<(usize, u64)>)
    ensures
        final(out)@ == old(out)@ + table_part(t),
{
    let ghost start = out@;
    if let Some((size, ev)) = t {
        push_metric(out, "turbine_shared_table_size", "Current number of entries in the shared table.", "gauge", size as u64);
        push_metric(out, "turbine_shared_table_evictions_total", "Total entries evicted due to capacity/TTL.", "counter", ev);
    }
    assert(out@ =~= start + table_part(t));
}

fn push_queue(out: &mut Vec<char>, q: Option<QueueStats>)
    ensures
        final(out)@ == old(out)@ + queue_part(q),
{
    let ghost start = out@;
    if let Some(q) = q {
        push_metric(out, "turbine_task_queue_channels", "Active channels.", "gauge", q.channels as u64);
        push_metric(out, "turbine_task_queue_pushed_total", "Jobs enqueued since startup.", "counter", q.pushed);
        push_metric(out, "turbine_task_queue_popped_total", "Jobs consumed since startup.", "counter", q.popped);
        push_metric(out, "turbine_task_queue_rejected_total", "Jobs rejected (queue full / channel cap).", "counter", q.rejected);
    }
    assert(out@ =~= start + queue_part(q));
}

fn push_ws(out: &mut Vec<char>, w: Option<WsStats>)
    ensures
        final(out)@ == old(out)@ + ws_part(w),
{
    let ghost start = out@;
    if let Some(w) = w {
        push_metric(out, "turbine_ws_channels", "Active websocket channels.", "gauge", w.channels as u64);
        push_metric(out, "turbine_ws_published_total", "Messages published to websocket channels.", "counter", w.published);
        push_metric(out, "turbine_ws_subscribed_total", "Websocket subscribe events since startup.", "counter", w.subscribed);
        push_metric(out, "turbine_ws_rejected_total", "Websocket subscribe/publish rejections.", "counter", w.rejected);
    }
    assert(out@ =~= start + ws_part(w));
}

fn push_async(out: &mut Vec<char>, a: Option<AsyncIoStats>)
    ensures
        final(out)@ == old(out)@ + async_part(a),
{
    let ghost start = out@;
    if let Some(a) = a {
        push_metric(out, "turbine_async_reads_total", "Async file reads completed.", "counter", a.reads);
        push_metric(out, "turbine_async_writes_total", "Async file writes completed.", "counter", a.writes);
        push_metric(out, "turbine_async_timers_scheduled_total", "Timers scheduled.", "counter", a.timers_scheduled);
        push_metric(out, "turbine_async_timers_fired_total", "Timers that fired and enqueued a task.", "counter", a.timers_fired);
        push_metric(out, "turbine_async_allowed_roots", "Number of configured async I/O roots.", "gauge", a.allowed_roots as u64);
    }
    assert(out@ =~= start + async_part(a));
}

/// Renders the metrics page.
pub fn render(s: &MetricsSources) -> (r: String)
    ensures
        r@ == metrics_page(*s),
{
    let mut out: Vec<char> = Vec::new();
    push_metric(&mut out, "turbine_build_info", "Build/runtime marker (always 1).", "gauge", 1);
    push_table(&mut out, s.shared_table);
    push_queue(&mut out, s.task_queue);
    push_ws(&mut out, s.ws_hub);
    push_async(&mut out, s.async_io);
    assert(out@ =~= metrics_page(*s));
    string_of(out.as_slice())
}

} // verus!
