use turbine::cli::{cache_clear_request, check_report, response_body, status_request};
use turbine::config::{RuntimeConfig, VirtualHostConfig};

#[test]
fn requests_to_a_running_server() {
    assert_eq!(
        status_request("127.0.0.1:8080"),
        "GET /_/status HTTP/1.1\r\nHost: 127.0.0.1:8080\r\nConnection: close\r\n\r\n"
    );
    assert_eq!(
        cache_clear_request("localhost:9000"),
        "POST /_/cache/clear HTTP/1.1\r\nHost: localhost:9000\r\nConnection: close\r\n\r\n"
    );
}

#[test]
fn body_of_a_raw_response() {
    assert_eq!(
        response_body("HTTP/1.1 200 OK\r\nA: b\r\n\r\n{\"ok\":1}"),
        Some("{\"ok\":1}".to_string())
    );
    assert_eq!(response_body("HTTP/1.1 200 OK\r\n\r\n"), Some(String::new()));
    assert_eq!(response_body("garbage"), None);
}

#[test]
fn clean_report() {
    let c = RuntimeConfig::default();
    let r = check_report("/app/turbine.toml", &c, &Vec::new(), &Vec::new());
    assert!(!r.failed);
    assert_eq!(r.err, "");
    assert!(r.out.starts_with("\x1b[1mTurbine Configuration Check\x1b[0m\n  File: /app/turbine.toml\n\n\x1b[1mSettings:\x1b[0m\n"));
    assert!(r.out.contains("  workers          = 4\n  worker_mode      = process\n  persistent       = false\n  listen           = 127.0.0.1:9000\n  request_timeout  = 30s\n  max_requests     = 10000\n"));
    assert!(!r.out.contains("tokio_threads"));
    assert!(!r.out.contains("virtual_hosts"));
    assert!(r.out.ends_with("\n\x1b[32m✓ Configuration is valid. No errors or warnings.\x1b[0m\n"));
}

#[test]
fn report_with_errors_and_warnings() {
    let mut c = RuntimeConfig::default();
    c.server.tokio_worker_threads = Some(8);
    c.virtual_hosts = vec![VirtualHostConfig {
        domain: "a.com".to_string(),
        root: "/srv/a".to_string(),
        aliases: vec!["www.a.com".to_string(), "b.com".to_string()],
        entry_point: None,
        tls_cert: None,
        tls_key: None,
    }];
    let errors = vec!["bad listen".to_string()];
    let warnings = vec!["w1".to_string(), "w2".to_string()];
    let r = check_report("t.toml", &c, &errors, &warnings);
    assert!(r.failed);
    assert_eq!(r.err, "\x1b[31m✗ Configuration has errors that must be fixed.\x1b[0m\n");
    assert!(r.out.contains("  tokio_threads    = 8\n"));
    assert!(r.out.contains("  virtual_hosts    = 1\n    a.com → /srv/a (+ www.a.com, b.com)\n\n"));
    assert!(r.out.ends_with(
        "\x1b[31m✗ 1 error(s):\x1b[0m\n  \x1b[31m•\x1b[0m bad listen\n\n\x1b[33m⚠ 2 warning(s):\x1b[0m\n  \x1b[33m•\x1b[0m w1\n  \x1b[33m•\x1b[0m w2\n\n"
    ));
}

#[test]
fn report_with_warnings_only() {
    let c = RuntimeConfig::default();
    let r = check_report("t.toml", &c, &Vec::new(), &vec!["w".to_string()]);
    assert!(!r.failed);
    assert!(r.out.ends_with("\n\x1b[33m⚠ Configuration is valid but has warnings.\x1b[0m\n"));
}
