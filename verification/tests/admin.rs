use turbine::admin::{
    append_flag, async_read_response, async_route, async_timer_response, async_write_response,
    body_error_response, json_err, map_async_err, not_found, parse_i64, read_path_of, sub_path,
    table_needs_body, table_params, table_response, table_route, task_pop_response,
    task_push_response, task_route, task_size_response, task_wait_ms, u64_query, ws_publish_response,
    ws_route, AdminResponse, AsyncRoute, TableRoute, TaskRoute, WsRoute,
};
use turbine::async_io::AsyncIoError;
use turbine::shared_table::SharedTable;
use turbine::task_queue::TaskQueue;

fn text(r: &AdminResponse) -> String {
    String::from_utf8(r.body.clone()).unwrap()
}

#[test]
fn routes() {
    assert_eq!(table_route("GET", "/size"), TableRoute::Size);
    assert_eq!(table_route("GET", ""), TableRoute::Get);
    assert_eq!(table_route("GET", "/get"), TableRoute::Get);
    assert_eq!(table_route("POST", "/"), TableRoute::Put);
    assert_eq!(table_route("DELETE", "/del"), TableRoute::Del);
    assert_eq!(table_route("PUT", "/"), TableRoute::Unknown);
    assert_eq!(task_route("GET", "/pop"), TaskRoute::Pop);
    assert_eq!(task_route("POST", "/push"), TaskRoute::Push);
    assert_eq!(async_route("POST", "/timer"), AsyncRoute::Timer);
    assert!(matches!(ws_route("GET", "/chat"), WsRoute::Subscribe(c) if c == "chat"));
    assert!(matches!(ws_route("GET", "/stats"), WsRoute::Stats));
    assert!(matches!(ws_route("GET", "//"), WsRoute::MissingChannel));
    assert!(matches!(ws_route("GET", "/publish"), WsRoute::Reserved));
    assert!(matches!(ws_route("GET", "/"), WsRoute::Unknown));
}

#[test]
fn params_and_paths() {
    assert_eq!(sub_path("/_/table/size", "/_/table"), "/size");
    assert_eq!(sub_path("/other", "/_/table"), "");
    let p = table_params("key=a&ttl_ms=250&delta=-4");
    assert_eq!(p.key.as_deref(), Some("a"));
    assert_eq!((p.ttl_ms, p.delta), (250, -4));
    let d = table_params("delta=x");
    assert_eq!((d.key, d.ttl_ms, d.delta), (None, 0, 1));
    assert_eq!(parse_i64("-9223372036854775808"), Some(i64::MIN));
    assert_eq!(parse_i64("+7"), Some(7));
    assert_eq!(parse_i64("-+7"), None);
    assert_eq!(parse_i64("9223372036854775808"), None);
    assert_eq!(parse_i64("-"), None);
    assert_eq!(u64_query("n=12", "n", 3), 12);
    assert_eq!(u64_query("n=-1", "n", 3), 3);
    assert_eq!(task_wait_ms("wait_ms=90000", 30000), 30000);
    assert!(append_flag("append=true"));
    assert!(!append_flag("append=yes"));
    assert!(table_needs_body(TableRoute::Put, &table_params("key=k")));
    assert!(!table_needs_body(TableRoute::Put, &table_params("")));
}

#[test]
fn table_endpoint_flow() {
    let mut t = SharedTable::new(1);
    let now = t.now();
    let r = table_response(&mut t, TableRoute::Put, &table_params("key=a"), b"v".to_vec(), now);
    assert_eq!(r.status, 204);
    let r = table_response(&mut t, TableRoute::Get, &table_params("key=a"), Vec::new(), now);
    assert_eq!((r.status, r.content_type.as_str(), r.body.as_slice()), (200, "application/octet-stream", &b"v"[..]));
    let r = table_response(&mut t, TableRoute::Put, &table_params("key=b"), b"w".to_vec(), now);
    assert_eq!((r.status, text(&r)), (507, "{\"error\":\"table full\",\"max_entries\":1}".to_string()));
    let r = table_response(&mut t, TableRoute::Incr, &table_params("key=a"), Vec::new(), now);
    assert_eq!(r.status, 409);
    let r = table_response(&mut t, TableRoute::Exists, &table_params("key=a"), Vec::new(), now);
    assert_eq!((r.status, text(&r)), (200, "{\"exists\":true}".to_string()));
    let r = table_response(&mut t, TableRoute::Size, &table_params(""), Vec::new(), now);
    assert_eq!(text(&r), "{\"size\":1,\"evictions\":0}");
    let r = table_response(&mut t, TableRoute::Del, &table_params("key=a"), Vec::new(), now);
    assert_eq!(text(&r), "{\"deleted\":true}");
    let r = table_response(&mut t, TableRoute::Incr, &table_params("key=c&delta=-2"), Vec::new(), now);
    assert_eq!(text(&r), "{\"value\":-2}");
    let r = table_response(&mut t, TableRoute::Clear, &table_params(""), Vec::new(), now);
    assert_eq!(text(&r), "{\"cleared\":1}");
    let r = table_response(&mut t, TableRoute::Get, &table_params(""), Vec::new(), now);
    assert_eq!((r.status, text(&r)), (400, "{\"error\":\"missing key\"}".to_string()));
    let r = table_response(&mut t, TableRoute::Unknown, &table_params(""), Vec::new(), now);
    assert_eq!((r.status, text(&r)), (404, "Not found".to_string()));
}

#[test]
fn task_endpoint_flow() {
    let mut q = TaskQueue::new(4, 1);
    let now = q.now();
    let r = task_push_response(&mut q, "jobs", b"p".to_vec(), now);
    assert_eq!(text(&r), "{\"id\":1}");
    let r = task_push_response(&mut q, "jobs", b"p".to_vec(), now);
    assert_eq!((r.status, text(&r)), (507, "{\"error\":\"channel full\",\"capacity\":1}".to_string()));
    let r = task_size_response(&q, Some("jobs"));
    assert_eq!(text(&r), "{\"size\":1}");
    let r = task_size_response(&q, None);
    assert_eq!(r.status, 400);
    let r = task_pop_response(q.try_pop("jobs"));
    assert_eq!(r.status, 200);
    assert_eq!(r.headers, vec![("X-Task-Id".to_string(), "1".to_string())]);
    let r = task_pop_response(q.try_pop("jobs"));
    assert_eq!(r.status, 204);
}

#[test]
fn async_answers() {
    let r = map_async_err(AsyncIoError::Io("PermissionDenied".to_string()));
    assert_eq!((r.status, text(&r)), (502, "{\"error\":\"io\",\"kind\":\"PermissionDenied\"}".to_string()));
    let r = async_read_response(Err(AsyncIoError::Io("NotFound".to_string())));
    assert_eq!((r.status, r.body.len()), (404, 0));
    let r = async_read_response(Ok(b"abc".to_vec()));
    assert_eq!((r.status, r.body.as_slice()), (200, &b"abc"[..]));
    let r = async_write_response(Err(AsyncIoError::TooLarge(9)));
    assert_eq!(text(&r), "{\"error\":\"payload too large\",\"max\":9}");
    let r = async_write_response(Ok(3));
    assert_eq!(text(&r), "{\"bytes\":3}");
    let r = async_timer_response(Err(AsyncIoError::DelayTooLong(5)));
    assert_eq!((r.status, text(&r)), (400, "{\"error\":\"delay too long\",\"max_ms\":5}".to_string()));
    let r = async_timer_response(Ok(()));
    assert_eq!((r.status, text(&r)), (202, "{\"scheduled\":true}".to_string()));
    assert_eq!(read_path_of(b"  /tmp/x \n").as_deref(), Some("/tmp/x"));
    assert!(read_path_of(&[0xff]).is_none());
}

#[test]
fn fixed_answers() {
    assert_eq!(body_error_response(true).status, 413);
    assert_eq!(text(&body_error_response(false)), "{\"error\":\"invalid request\"}");
    assert_eq!(not_found().status, 404);
    assert_eq!(json_err(401, "{}").content_type, "application/json");
    assert_eq!(text(&ws_publish_response(Some(2))), "{\"delivered\":2}");
    assert_eq!(ws_publish_response(None).status, 507);
}
