use turbine::features::{
    check_x_sendfile, emit_log_entry, extract_early_hints, extract_structured_logs,
    matches_pool_route, mime_for_sendfile, parse_early_hint_markers, parse_log_json,
    php_turbine_log_function, php_turbine_table_functions, php_turbine_task_functions,
    php_turbine_ws_functions, resolve_sendfile_path, sendfile_target_path, LogSeverity,
    PhpLogEntry,
};

#[test]
fn test_extract_early_hints() {
    let headers = vec![
        ("Link".to_string(), "</style.css>; rel=preload; as=style".to_string()),
        ("Content-Type".to_string(), "text/html".to_string()),
        ("Link".to_string(), "</app.js>; rel=preload; as=script".to_string()),
    ];
    let hints = extract_early_hints(&headers);
    assert_eq!(hints.len(), 2);
    assert!(hints[0].contains("style.css"));
    assert!(hints[1].contains("app.js"));
}

#[test]
fn test_check_x_sendfile() {
    let headers = vec![
        ("Content-Type".to_string(), "text/html".to_string()),
        ("X-Accel-Redirect".to_string(), "/files/report.pdf".to_string()),
    ];
    assert_eq!(check_x_sendfile(&headers), Some("/files/report.pdf".to_string()));

    let headers_sendfile = vec![("x-sendfile".to_string(), "/data/file.zip".to_string())];
    assert_eq!(check_x_sendfile(&headers_sendfile), Some("/data/file.zip".to_string()));

    let no_sendfile = vec![("Content-Type".to_string(), "text/html".to_string())];
    assert_eq!(check_x_sendfile(&no_sendfile), None);
}

#[test]
fn test_structured_log_extract() {
    let body = b"Hello World\n__TURBINE_LOG__\t{\"level\":\"warn\",\"msg\":\"Memory high\",\"usage\":\"10485760\"}\nMore output";
    let (cleaned, entries) = extract_structured_logs(body);
    assert_eq!(entries.len(), 1);
    assert_eq!(entries[0].level, "warn");
    assert_eq!(entries[0].message, "Memory high");
    assert_eq!(entries[0].context.len(), 1);
    let cleaned_str = String::from_utf8(cleaned).unwrap();
    assert!(cleaned_str.contains("Hello World"));
    assert!(cleaned_str.contains("More output"));
    assert!(!cleaned_str.contains("TURBINE_LOG"));
}

#[test]
fn test_matches_pool_route() {
    assert!(matches_pool_route("/api/slow/*", "/api/slow/endpoint"));
    assert!(matches_pool_route("/api/slow/*", "/api/slow/"));
    assert!(!matches_pool_route("/api/slow/*", "/api/fast/endpoint"));
    assert!(matches_pool_route("/webhook", "/webhook"));
    assert!(!matches_pool_route("/webhook", "/webhooks"));
}

#[test]
fn test_php_log_function_syntax() {
    let code = php_turbine_log_function();
    assert!(code.contains("function turbine_log"));
    assert!(code.contains("TURBINE_LOG__"));
}

// ───── further cases ─────

#[test]
fn php_helper_functions_define_their_api() {
    assert!(php_turbine_table_functions().contains("function turbine_table_set"));
    assert!(php_turbine_task_functions().contains("function turbine_task_push"));
    assert!(php_turbine_ws_functions().contains("function turbine_ws_publish"));
}

#[test]
fn early_hint_markers_are_parsed() {
    let hints = parse_early_hint_markers("__TURBINE_EARLY_HINT__\t</a.css>; rel=preload\nnoise\n");
    assert_eq!(hints, vec!["</a.css>; rel=preload".to_string()]);
}

#[test]
fn log_json_parsing() {
    let e = parse_log_json("{\"level\":\"error\",\"msg\":\"boom\",\"code\":\"7\"}").unwrap();
    assert_eq!((e.level.as_str(), e.message.as_str()), ("error", "boom"));
    assert_eq!(e.context, vec![("code".to_string(), "7".to_string())]);
    assert!(parse_log_json("not json").is_none());
}

#[test]
fn log_severity_and_context() {
    let entry = PhpLogEntry {
        level: "warning".to_string(),
        message: "m".to_string(),
        context: vec![("a".to_string(), "1".to_string()), ("b".to_string(), "2".to_string())],
    };
    let (sev, ctx) = emit_log_entry(&entry);
    assert!(matches!(sev, LogSeverity::Warn));
    assert_eq!(ctx, "a=1 b=2");
}

#[test]
fn sendfile_paths_and_types() {
    assert_eq!(sendfile_target_path("/files/a.pdf", "/srv"), "/srv/files/a.pdf");
    assert!(resolve_sendfile_path("/../../etc/passwd", "/nonexistent-root").is_none());
    assert_eq!(mime_for_sendfile("x/report.pdf"), "application/pdf");
    assert_eq!(mime_for_sendfile("x/report.PDF"), "application/octet-stream");
    assert_eq!(mime_for_sendfile("x/archive.tgz"), "application/gzip");
    assert_eq!(mime_for_sendfile("x/unknown.bin"), "application/octet-stream");
}

#[test]
fn structured_logs_keep_plain_lines_in_order() {
    let body = b"\n\nfirst\n__TURBINE_LOG__\t{\"level\":\"warn\"}\nsecond\n__TURBINE_LOG__\t{\"msg\":\"hi\"}\nthird";
    let (cleaned, entries) = extract_structured_logs(body);
    assert_eq!(cleaned, b"first\nsecond\nthird".to_vec());
    assert_eq!(entries.len(), 1);
    assert_eq!(entries[0].message, "hi");
    assert_eq!(entries[0].level, "info");
    let plain = b"no markers here\n";
    let (same, none) = extract_structured_logs(plain);
    assert_eq!(same, plain.to_vec());
    assert!(none.is_empty());
}
