use turbine::config::{CorsConfig, WorkerPoolRouteConfig};
use turbine::server::{
    access_log_line, bearer_authorized, blocked_list_json, cache_cleared_json, clean_path,
    coalesce_key, content_length_field, cors_headers, execution_verdict, forwarded_headers,
    host_domain, hsts, internal_route, is_answered_preflight, listen_port, native_status,
    php_entry_code, pool_for_path, response_content_type, response_headers, response_status,
    scan_params, serve_sendfile_reply, should_compress, static_candidate, static_reply,
    unblock_ip_text, unblock_json,
    worker_wait_secs, execution_denial, front_stage, php_gate, ExecutionVerdict, FrontStage, InternalRoute,
    PoolChoice,
};

fn s(x: &str) -> String {
    x.to_string()
}

fn pairs(v: &[(&str, &str)]) -> Vec<(String, String)> {
    v.iter().map(|(a, b)| (s(a), s(b))).collect()
}

#[test]
fn clean_path_drops_the_query() {
    assert_eq!(clean_path("/a/b?x=1&y=2"), "/a/b");
    assert_eq!(clean_path("/x"), "/x");
    assert_eq!(clean_path("?q"), "");
}

#[test]
fn dashboard_needs_no_token() {
    let r = internal_route("/_/dashboard", "GET", None, Some("t"), true, true, false);
    assert_eq!(r, InternalRoute::Dashboard);
}

#[test]
fn internal_endpoints_need_the_token() {
    assert_eq!(
        internal_route("/_/metrics", "GET", None, Some("t"), true, true, false),
        InternalRoute::Unauthorized
    );
    assert_eq!(
        internal_route("/_/metrics", "GET", Some("Bearer x"), Some("t"), true, true, false),
        InternalRoute::Unauthorized
    );
    assert_eq!(
        internal_route("/_/metrics", "GET", Some("Bearer t"), Some("t"), true, true, false),
        InternalRoute::Metrics
    );
    // disabled dashboard page falls under the token check too
    assert_eq!(
        internal_route("/_/dashboard", "GET", None, Some("t"), false, true, false),
        InternalRoute::Unauthorized
    );
}

#[test]
fn internal_routes_without_token() {
    let r = |p: &str, m: &str, stats: bool, table: bool| internal_route(p, m, None, None, true, stats, table);
    assert_eq!(r("/_/status", "GET", true, false), InternalRoute::Status);
    assert_eq!(r("/_/status", "GET", false, false), InternalRoute::NotFound);
    assert_eq!(r("/_/metrics", "GET", false, false), InternalRoute::NotFound);
    assert_eq!(r("/_/cache/clear", "DELETE", false, false), InternalRoute::CacheClear);
    assert_eq!(r("/_/security/blocked", "GET", false, false), InternalRoute::SecurityBlocked);
    assert_eq!(r("/_/security/blocked", "POST", false, false), InternalRoute::NotFound);
    assert_eq!(r("/_/security/unblock", "POST", false, false), InternalRoute::SecurityUnblock);
    assert_eq!(r("/_/table/size", "GET", false, true), InternalRoute::Table);
    assert_eq!(r("/_/table/size", "GET", false, false), InternalRoute::NotFound);
    assert_eq!(r("/_/nope", "GET", true, true), InternalRoute::NotFound);
}

#[test]
fn bearer_token_check() {
    assert!(bearer_authorized(Some("Bearer abc"), "abc"));
    assert!(!bearer_authorized(Some("bearer abc"), "abc"));
    assert!(!bearer_authorized(Some("Bearer abcd"), "abc"));
    assert!(!bearer_authorized(None, "abc"));
}

#[test]
fn cache_clear_body() {
    assert_eq!(cache_cleared_json(3), "{\"cleared\": 3}");
}

#[test]
fn blocked_list_body() {
    let es = vec![(s("1.2.3.4"), Some(60)), (s("::1"), None)];
    assert_eq!(
        blocked_list_json(&es),
        "{\"blocked\":[{\"ip\":\"1.2.3.4\",\"expires_in_secs\":60},{\"ip\":\"::1\",\"expires_in_secs\":null}],\"count\":2}"
    );
    assert_eq!(blocked_list_json(&[]), "{\"blocked\":[],\"count\":0}");
}

#[test]
fn unblock_ip_is_read_from_the_body() {
    assert_eq!(unblock_ip_text(b"{\"ip\":\"1.2.3.4\"}"), "1.2.3.4");
    assert_eq!(unblock_ip_text(b"{\"ip\": \" 10.0.0.1 \"}"), "10.0.0.1");
    assert_eq!(unblock_ip_text(b"{}"), "");
    assert_eq!(unblock_ip_text(b"{\"ip\""), "");
}

#[test]
fn unblock_answers() {
    assert_eq!(unblock_json("1.2.3.4", true), "{\"unblocked\":true,\"ip\":\"1.2.3.4\"}");
    assert_eq!(
        unblock_json("1.2.3.4", false),
        "{\"unblocked\":false,\"ip\":\"1.2.3.4\",\"note\":\"IP was not blocked\"}"
    );
}

#[test]
fn host_header_to_vhost_key() {
    assert_eq!(host_domain("Example.COM:443"), "example.com");
    assert_eq!(host_domain("site.org"), "site.org");
}

#[test]
fn scan_list_adds_raw_body_without_form_fields() {
    let q = pairs(&[("q", "1")]);
    let r = scan_params(&q, &Vec::new(), b"{\"a\":1}");
    assert_eq!(r, pairs(&[("q", "1"), ("_body", "{\"a\":1}")]));
    let p = pairs(&[("a", "1")]);
    let r = scan_params(&q, &p, b"a=1");
    assert_eq!(r, pairs(&[("q", "1"), ("a", "1")]));
    let r = scan_params(&Vec::new(), &Vec::new(), b"");
    assert!(r.is_empty());
}

#[test]
fn scan_list_caps_the_body() {
    let body = vec![b'x'; 10_000];
    let r = scan_params(&Vec::new(), &Vec::new(), &body);
    assert_eq!(r.len(), 1);
    assert_eq!(r[0].1.len(), 8192);
}

#[test]
fn sandbox_verdicts() {
    let wl = vec![s("index.php")];
    let dd = vec![s("uploads/")];
    assert_eq!(execution_verdict(&wl, &dd, "admin.php"), ExecutionVerdict::NotWhitelisted);
    assert_eq!(execution_verdict(&wl, &dd, "index.php"), ExecutionVerdict::Allowed);
    assert_eq!(execution_verdict(&Vec::new(), &dd, "uploads/x.php"), ExecutionVerdict::InDataDirectory(0));
    assert_eq!(execution_verdict(&Vec::new(), &dd, "app.php"), ExecutionVerdict::Allowed);
    let dd2 = vec![s("data"), s("storage//")];
    assert_eq!(execution_verdict(&Vec::new(), &dd2, "storage/a.php"), ExecutionVerdict::InDataDirectory(1));
}

#[test]
fn worker_wait() {
    assert_eq!(worker_wait_secs(5, 30), 5);
    assert_eq!(worker_wait_secs(0, 0), 60);
    assert_eq!(worker_wait_secs(0, 30), 30);
}

#[test]
fn ports_of_listen_addresses() {
    assert_eq!(listen_port("0.0.0.0:9000"), 9000);
    assert_eq!(listen_port("[::1]:8443"), 8443);
    assert_eq!(listen_port("localhost"), 8080);
    assert_eq!(listen_port("0.0.0.0:99999"), 8080);
    assert_eq!(listen_port("0.0.0.0:+81"), 81);
}

#[test]
fn entry_code_includes_the_script() {
    assert_eq!(
        php_entry_code("SG;", true, "BOOT;", "/app/it's.php"),
        "SG;session_start(); BOOT;include '/app/it\\'s.php';"
    );
    assert_eq!(php_entry_code("", false, "", "/a.php"), "include '/a.php';");
}

#[test]
fn coalescing_keys() {
    assert_eq!(coalesce_key("GET", "/a", true), Some(s("GET:/a")));
    assert_eq!(coalesce_key("POST", "/a", true), None);
    assert_eq!(coalesce_key("GET", "/a", false), None);
}

#[test]
fn native_request_fields() {
    assert_eq!(content_length_field(0), -1);
    assert_eq!(content_length_field(5), 5);
    assert_eq!(native_status(0), 200);
    assert_eq!(native_status(404), 404);
}

#[test]
fn reply_content_type() {
    let h = pairs(&[("X-A", "1"), ("content-type", "text/plain")]);
    assert_eq!(response_content_type(&h, b"{}"), "text/plain");
    assert_eq!(response_content_type(&Vec::new(), b"{}"), "application/json");
}

#[test]
fn entity_headers_are_not_forwarded() {
    let h = pairs(&[("Content-Type", "x"), ("X-A", "1"), ("content-length", "3"), ("Set-Cookie", "a=b")]);
    assert_eq!(forwarded_headers(&h), pairs(&[("X-A", "1"), ("Set-Cookie", "a=b")]));
}

#[test]
fn statuses_sent() {
    assert_eq!(response_status(200), 200);
    assert_eq!(response_status(999), 999);
    assert_eq!(response_status(42), 500);
    assert_eq!(response_status(1000), 500);
}

#[test]
fn base_response_headers() {
    let h = response_headers("text/html", 5, &pairs(&[("X-A", "1")]));
    assert_eq!(h.len(), 9);
    assert_eq!(h[0], (s("Content-Type"), s("text/html")));
    assert_eq!(h[1], (s("Content-Length"), s("5")));
    assert_eq!(h[2], (s("Server"), s("Turbine/0.1.0")));
    assert_eq!(h[7], (s("Permissions-Policy"), s("camera=(), microphone=(), geolocation=()")));
    assert_eq!(h[8], (s("X-A"), s("1")));
    assert_eq!(hsts(), (s("Strict-Transport-Security"), s("max-age=63072000; includeSubDomains; preload")));
}

fn cors(origins: &[&str], credentials: bool) -> CorsConfig {
    CorsConfig {
        enabled: true,
        allow_origins: origins.iter().map(|o| s(o)).collect(),
        allow_credentials: credentials,
        allow_methods: vec![s("GET"), s("POST")],
        allow_headers: vec![s("Content-Type")],
        expose_headers: Vec::new(),
        max_age: 600,
    }
}

#[test]
fn cors_headers_any_origin() {
    let h = cors_headers(&cors(&["*"], false), "https://a.com");
    assert_eq!(
        h,
        pairs(&[
            ("Access-Control-Allow-Origin", "*"),
            ("Access-Control-Allow-Methods", "GET, POST"),
            ("Access-Control-Allow-Headers", "Content-Type"),
            ("Access-Control-Max-Age", "600"),
        ])
    );
}

#[test]
fn cors_headers_with_credentials_echo_origin() {
    let mut c = cors(&["*"], true);
    c.expose_headers = vec![s("X-A"), s("X-B")];
    c.max_age = 0;
    let h = cors_headers(&c, "https://a.com");
    assert_eq!(
        h,
        pairs(&[
            ("Access-Control-Allow-Origin", "https://a.com"),
            ("Access-Control-Allow-Credentials", "true"),
            ("Access-Control-Allow-Methods", "GET, POST"),
            ("Access-Control-Allow-Headers", "Content-Type"),
            ("Access-Control-Expose-Headers", "X-A, X-B"),
        ])
    );
}

#[test]
fn preflights() {
    let c = cors(&["https://a.com"], false);
    assert!(is_answered_preflight(&c, true, Some("https://a.com")));
    assert!(!is_answered_preflight(&c, true, Some("https://b.com")));
    assert!(!is_answered_preflight(&c, false, Some("https://a.com")));
    assert!(!is_answered_preflight(&c, true, None));
    let mut off = c.clone();
    off.enabled = false;
    assert!(!is_answered_preflight(&off, true, Some("https://a.com")));
}

#[test]
fn compression_decision() {
    assert!(should_compress(true, "gzip", false, "text/html", 2000, 1024));
    assert!(!should_compress(true, "gzip", false, "text/html", 10, 1024));
    assert!(!should_compress(true, "gzip", true, "text/html", 2000, 1024));
    assert!(!should_compress(true, "", false, "text/html", 2000, 1024));
    assert!(!should_compress(true, "gzip", false, "image/png", 2000, 1024));
    assert!(!should_compress(false, "gzip", false, "text/html", 2000, 1024));
}

#[test]
fn access_log_format() {
    assert_eq!(
        access_log_line("1.2.3.4", 1700000000, "GET", "/x", 200, 12),
        "1.2.3.4 - - [1700000000] \"GET /x\" 200 12ms\n"
    );
}

#[test]
fn static_candidates() {
    assert_eq!(static_candidate("/css/app.css?v=1"), Some(s("css/app.css")));
    assert_eq!(static_candidate("/index.php"), None);
    assert_eq!(static_candidate("/"), None);
    assert_eq!(static_candidate("//"), None);
    assert_eq!(static_candidate("/../etc/passwd"), None);
    assert_eq!(static_candidate("/a..b"), None);
}

#[test]
fn static_reply_with_etag() {
    let body = b"console.log(1)".to_vec();
    let etag = format!("\"{:x}\"", xxhash_rust::xxh3::xxh3_64(&body));
    let r = static_reply("js/app.js", body.clone(), None);
    assert_eq!(r.status, 200);
    assert_eq!(r.content_type, "application/javascript; charset=utf-8");
    assert_eq!(r.body, body);
    assert_eq!(r.headers, vec![(s("Cache-Control"), s("public, max-age=3600")), (s("ETag"), etag.clone())]);

    let r = static_reply("js/app.js", body.clone(), Some(&format!(" {etag} ")));
    assert_eq!(r.status, 304);
    assert!(r.body.is_empty());
    assert_eq!(r.headers, vec![(s("ETag"), etag.clone())]);

    let r = static_reply("x/assets/app.js", body.clone(), Some("\"0\""));
    assert_eq!(r.status, 200);
    assert_eq!(r.headers[0].1, "public, max-age=31536000, immutable");
}

#[test]
fn pools_by_route() {
    let routes = vec![
        WorkerPoolRouteConfig { match_path: s("/api/slow/*"), min_workers: 1, max_workers: 2, name: None },
        WorkerPoolRouteConfig { match_path: s("/api/*"), min_workers: 1, max_workers: 2, name: Some(s("api")) },
    ];
    assert_eq!(pool_for_path(&routes, "/api/slow/x", true), Some(PoolChoice::Named(0)));
    assert_eq!(pool_for_path(&routes, "/api/x", true), Some(PoolChoice::Named(1)));
    assert_eq!(pool_for_path(&routes, "/home", true), Some(PoolChoice::Default));
    assert_eq!(pool_for_path(&routes, "/home", false), None);
}

#[test]
fn sendfile_replaces_the_reply() {
    let h = pairs(&[("X-Sendfile", "/f"), ("X-A", "1"), ("x-accel-redirect", "/g")]);
    let r = serve_sendfile_reply(&h, s("image/png"), vec![1, 2, 3]);
    assert_eq!(r.status, 200);
    assert_eq!(r.content_type, "image/png");
    assert_eq!(r.body, vec![1, 2, 3]);
    assert_eq!(r.headers, pairs(&[("X-A", "1")]));
}

#[test]
fn static_file_path_stays_under_the_document_root() {
    assert_eq!(turbine::server::static_file_path("/etc", "passwd"), Some("/etc/passwd".to_string()));
    assert_eq!(turbine::server::static_file_path("/usr", "../etc/passwd"), None);
    assert_eq!(turbine::server::static_file_path("/etc", "no-such-file-here"), None);
    assert_eq!(turbine::server::static_file_path("/", "etc"), None);
}

#[test]
fn execution_denials_are_forbidden_texts() {
    assert!(execution_denial(&ExecutionVerdict::Allowed).is_none());
    let d = execution_denial(&ExecutionVerdict::NotWhitelisted).unwrap();
    assert_eq!(d.status, 403);
    assert_eq!(d.body, b"403 Forbidden: file not in execution whitelist".to_vec());
    let d = execution_denial(&ExecutionVerdict::InDataDirectory(0)).unwrap();
    assert_eq!(d.body, b"403 Forbidden: execution denied in data directory".to_vec());
    assert_eq!(d.content_type, "text/plain");
    let u = turbine::admin::unauthorized();
    assert_eq!(u.status, 401);
    assert_eq!(u.body, b"{\"error\": \"Unauthorized\"}".to_vec());
}

#[test]
fn php_gate_checks_execution_rules_before_the_security_verdict() {
    let d = php_gate(&ExecutionVerdict::NotWhitelisted, Some("sqli")).unwrap();
    assert_eq!(d.body, b"403 Forbidden: file not in execution whitelist".to_vec());
    let d = php_gate(&ExecutionVerdict::Allowed, Some("sqli")).unwrap();
    assert_eq!(d.status, 403);
    assert_eq!(d.body, b"403 Forbidden: sqli".to_vec());
    assert!(php_gate(&ExecutionVerdict::Allowed, None).is_none());
}

#[test]
fn front_stage_routes_internal_then_acme_then_app() {
    assert!(matches!(front_stage("/_/status"), FrontStage::Internal));
    assert!(matches!(front_stage("/.well-known/acme-challenge/tok"), FrontStage::AcmeChallenge));
    assert!(matches!(front_stage("/index.php"), FrontStage::App));
    assert!(matches!(front_stage("/_"), FrontStage::App));
}
