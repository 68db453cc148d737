use turbine::compat::{
    contains_php_code, escape_php, is_extension_blocked, parse_cookie_header, parse_urlencoded,
    plan_upload, url_decode, AppDetector, AppStructure, FullHttpRequest, StrMap, UploadPlan,
    UploadSecurityConfig, UploadedFile,
};

fn generic_structure() -> AppStructure {
    AppStructure {
        app_root: "/app".to_string(),
        document_root: "/app".to_string(),
        entry_point: "index.php".to_string(),
        front_controller: false,
        has_composer: false,
        has_env: false,
        autoload_path: None,
    }
}

fn front_controller_structure() -> AppStructure {
    AppStructure {
        app_root: "/app".to_string(),
        document_root: "/app/public".to_string(),
        entry_point: "index.php".to_string(),
        front_controller: true,
        has_composer: true,
        has_env: true,
        autoload_path: Some("/app/vendor/autoload.php".to_string()),
    }
}

#[test]
fn parse_simple_get() {
    let raw = b"GET /index.php?foo=bar HTTP/1.1\r\nHost: localhost\r\n\r\n";
    let req = FullHttpRequest::parse(raw).unwrap();
    assert_eq!(req.method, "GET");
    assert_eq!(req.path, "/index.php");
    assert_eq!(req.query_string, "foo=bar");
    assert!(req.body.is_empty());
}

#[test]
fn parse_post_with_body() {
    let raw = b"POST /api HTTP/1.1\r\nHost: localhost\r\nContent-Type: application/x-www-form-urlencoded\r\nContent-Length: 11\r\n\r\nfoo=1&bar=2";
    let req = FullHttpRequest::parse(raw).unwrap();
    assert_eq!(req.method, "POST");
    assert_eq!(req.path, "/api");
    let params = req.post_params();
    assert_eq!(params.len(), 2);
    assert_eq!(params[0], ("foo".to_string(), "1".to_string()));
}

#[test]
fn parse_json_request() {
    let raw = b"POST /api HTTP/1.1\r\nContent-Type: application/json\r\n\r\n{\"key\":\"value\"}";
    let req = FullHttpRequest::parse(raw).unwrap();
    assert!(req.is_json());
    assert!(req.post_params().is_empty());
}

#[test]
fn parse_cookies() {
    let raw = b"GET / HTTP/1.1\r\nCookie: session=abc123; theme=dark\r\n\r\n";
    let req = FullHttpRequest::parse(raw).unwrap();
    assert_eq!(req.cookies.get("session").unwrap(), "abc123");
    assert_eq!(req.cookies.get("theme").unwrap(), "dark");
}

#[test]
fn parse_headers_lowercase() {
    let raw = b"GET / HTTP/1.1\r\nX-Custom-Header: myvalue\r\nAccept: text/html\r\n\r\n";
    let req = FullHttpRequest::parse(raw).unwrap();
    assert_eq!(req.headers.get("x-custom-header").unwrap(), "myvalue");
    assert_eq!(req.headers.get("accept").unwrap(), "text/html");
}

#[test]
fn get_params_from_query_string() {
    let raw = b"GET /page?a=1&b=hello+world&c=%2F HTTP/1.1\r\n\r\n";
    let req = FullHttpRequest::parse(raw).unwrap();
    let params = req.get_params();
    assert_eq!(params.len(), 3);
    assert_eq!(params[1], ("b".to_string(), "hello world".to_string()));
    assert_eq!(params[2], ("c".to_string(), "/".to_string()));
}

#[test]
fn superglobals_code_contains_expected_vars() {
    let raw = b"GET /test?x=1 HTTP/1.1\r\nHost: localhost\r\nCookie: sid=abc\r\n\r\n";
    let req = FullHttpRequest::parse(raw).unwrap();
    let code = req.php_superglobals_code("/app", "test.php", "127.0.0.1", 8080, false);

    assert!(code.contains("$_SERVER['REQUEST_METHOD'] = 'GET'"));
    assert!(code.contains("$_SERVER['QUERY_STRING'] = 'x=1'"));
    assert!(code.contains("$_SERVER['SCRIPT_FILENAME']"));
    assert!(code.contains("$_SERVER['REMOTE_ADDR'] = '127.0.0.1'"));
    assert!(code.contains("$_SERVER['HTTP_HOST'] = 'localhost'"));
    assert!(code.contains("$_GET = ["));
    assert!(code.contains("$_COOKIE = ["));
    assert!(code.contains("$_REQUEST = array_merge"));
}

#[test]
fn escape_php_handles_quotes() {
    assert_eq!(escape_php("it's a test"), "it\\'s a test");
    assert_eq!(escape_php("path\\to"), "path\\\\to");
}

#[test]
fn cookie_parsing() {
    let cookies = parse_cookie_header("a=1; b=two; c=three%20four");
    assert_eq!(cookies.get("a").unwrap(), "1");
    assert_eq!(cookies.get("b").unwrap(), "two");
}

#[test]
fn app_structure_resolve_front_controller() {
    let structure = front_controller_structure();
    assert_eq!(structure.resolve_path("/"), "index.php");
    assert_eq!(structure.resolve_path("/api/users"), "index.php");
    assert_eq!(structure.resolve_path("/login?redirect=/"), "index.php");
}

#[test]
fn app_structure_resolve_generic() {
    let structure = generic_structure();
    assert_eq!(structure.resolve_path("/"), "index.php");
    assert_eq!(structure.resolve_path("/info.php"), "info.php");
    assert_eq!(structure.resolve_path("/api/users.php?id=1"), "api/users.php");
}

#[test]
fn bootstrap_code_with_env_and_autoload() {
    let structure = front_controller_structure();
    let code = structure.php_bootstrap_code();
    assert!(code.contains("chdir("));
    assert!(code.contains(".env"));
    assert!(code.contains("require_once"));
    assert!(code.contains("autoload.php"));
}

#[test]
fn full_request_body_injection() {
    let raw = b"POST /api HTTP/1.1\r\nContent-Type: application/json\r\n\r\n{\"name\":\"test\"}";
    let req = FullHttpRequest::parse(raw).unwrap();
    let code = req.php_superglobals_code("/app", "index.php", "127.0.0.1", 8080, false);
    assert!(code.contains("__turbine_raw_body"));
    assert!(code.contains("TurbineInputStream"));
}

#[test]
fn upload_security_blocks_php_extension() {
    let security = UploadSecurityConfig::default();
    let fname = "shell.php";
    let fname_lower = fname.to_lowercase();
    let blocked = security
        .blocked_extensions
        .iter()
        .any(|ext| fname_lower.ends_with(&ext.to_lowercase()));
    assert!(blocked, "shell.php should be blocked");
    assert!(is_extension_blocked(fname, &security.blocked_extensions));
}

#[test]
fn upload_security_blocks_double_extension() {
    let security = UploadSecurityConfig::default();
    let fname = "avatar.php.jpg";
    let fname_lower = fname.to_lowercase();
    let blocked = security.blocked_extensions.iter().any(|ext| {
        let with_dot = format!("{}.", ext.to_lowercase());
        fname_lower.contains(&with_dot)
    });
    assert!(blocked, "avatar.php.jpg should be blocked (double extension)");
    assert!(is_extension_blocked(fname, &security.blocked_extensions));
}

#[test]
fn upload_security_allows_normal_images() {
    let security = UploadSecurityConfig::default();
    let fname = "photo.jpg";
    let fname_lower = fname.to_lowercase();
    let ext_blocked = security.blocked_extensions.iter().any(|ext| {
        fname_lower.ends_with(&ext.to_lowercase()) || {
            let with_dot = format!("{}.", ext.to_lowercase());
            fname_lower.contains(&with_dot)
        }
    });
    assert!(!ext_blocked, "photo.jpg should NOT be blocked");
    assert!(!is_extension_blocked(fname, &security.blocked_extensions));
}

#[test]
fn upload_security_blocks_all_php_variants() {
    let security = UploadSecurityConfig::default();
    for ext in &[".phtml", ".phar", ".php7", ".php8", ".inc", ".phps", ".pht", ".pgif"] {
        let fname = format!("test{ext}");
        let fname_lower = fname.to_lowercase();
        let blocked = security
            .blocked_extensions
            .iter()
            .any(|blocked_ext| fname_lower.ends_with(&blocked_ext.to_lowercase()));
        assert!(blocked, "{fname} should be blocked");
        assert!(is_extension_blocked(&fname, &security.blocked_extensions));
    }
}

#[test]
fn upload_content_scan_detects_php_code() {
    let data = b"GIF89a\x00\x00<?php system($_GET['cmd']); ?>";
    assert!(contains_php_code(data), "Should detect <?php in uploaded content");
}

#[test]
fn upload_content_scan_allows_clean_binary() {
    let data = b"\x89PNG\r\n\x1a\n\x00\x00\x00\rIHDR some binary data";
    assert!(!contains_php_code(data), "Clean PNG binary should NOT be flagged");
}

#[test]
fn upload_content_scan_detects_short_tag() {
    let data = b"<?= phpinfo(); ?>";
    assert!(contains_php_code(data), "Should detect <?= short tag in content");
}

#[test]
fn execution_whitelist_blocks_non_entry_generic() {
    let structure = generic_structure();
    let whitelist = vec!["index.php".to_string()];
    let path = structure.resolve_path("/admin/shell.php");
    assert!(!whitelist.contains(&path), "admin/shell.php should NOT be in whitelist");
}

#[test]
fn execution_whitelist_allows_entry_point() {
    let whitelist = vec!["index.php".to_string()];
    assert!(whitelist.contains(&"index.php".to_string()), "index.php should be in whitelist");
}

#[test]
fn data_directory_blocks_execution() {
    let data_dirs = vec!["storage/".to_string(), "uploads/".to_string()];
    let php_path = "storage/framework/shell.php";
    let blocked = data_dirs.iter().any(|dir| {
        let normalized = dir.trim_end_matches('/');
        php_path.starts_with(normalized)
    });
    assert!(blocked, "PHP in storage/ should be blocked");
}

#[test]
fn data_directory_allows_entry_point() {
    let data_dirs = vec!["storage/".to_string(), "uploads/".to_string()];
    let php_path = "index.php";
    let blocked = data_dirs.iter().any(|dir| {
        let normalized = dir.trim_end_matches('/');
        php_path.starts_with(normalized)
    });
    assert!(!blocked, "index.php should NOT be blocked by data dirs");
}

// ───── further cases ─────

#[test]
fn parse_rejects_missing_blank_line() {
    assert!(FullHttpRequest::parse(b"GET / HTTP/1.1\r\nHost: x\r\n").is_none());
}

#[test]
fn parse_rejects_short_request_line() {
    assert!(FullHttpRequest::parse(b"GET\r\n\r\n").is_none());
    assert!(FullHttpRequest::parse(b"\r\n\r\n").is_none());
}

#[test]
fn parse_defaults_http_version_and_reads_length() {
    let req = FullHttpRequest::parse(b"PUT /x\r\nContent-Length: 4\r\n\r\nabcd").unwrap();
    assert_eq!(req.http_version, "HTTP/1.1");
    assert_eq!(req.content_length, Some(4));
    assert_eq!(req.body, b"abcd".to_vec());
    assert_eq!(req.content_type, None);
}

#[test]
fn parse_later_header_replaces_earlier() {
    let req = FullHttpRequest::parse(b"GET / HTTP/1.0\r\nA: 1\r\na: 2\r\n\r\n").unwrap();
    assert_eq!(req.http_version, "HTTP/1.0");
    assert_eq!(req.headers.get("a").unwrap(), "2");
    assert_eq!(req.headers.len(), 1);
}

#[test]
fn parse_without_request_line_is_none() {
    let raw: &[u8] = &[0xFF, b'\r', b'\n', b'\r', b'\n'];
    assert!(FullHttpRequest::parse(raw).is_none());
    let ok = FullHttpRequest::parse(b"GET / HTTP/1.1\r\n\r\n").unwrap();
    assert_eq!(ok.path, "/");
    assert!(ok.body.is_empty());
}

#[test]
fn get_method_has_no_post_params() {
    let req = FullHttpRequest::parse(
        b"GET /f HTTP/1.1\r\nContent-Type: application/x-www-form-urlencoded\r\n\r\na=1",
    )
    .unwrap();
    assert!(req.post_params().is_empty());
}

#[test]
fn urlencoded_edge_cases() {
    assert!(parse_urlencoded("").is_empty());
    let p = parse_urlencoded("=x&k&a=b=c");
    assert_eq!(
        p,
        vec![("k".to_string(), "".to_string()), ("a".to_string(), "b=c".to_string())]
    );
}

#[test]
fn url_decode_cases() {
    assert_eq!(url_decode("a+b%20c"), "a b c");
    assert_eq!(url_decode("100%"), "100%");
    assert_eq!(url_decode("%zz"), "%zz");
    assert_eq!(url_decode("%41%62"), "Ab");
    assert_eq!(url_decode("%C3%A9"), "é");
}

#[test]
fn cookie_without_equals_is_skipped() {
    let c = parse_cookie_header("flag; x = 1 ; x=2");
    assert_eq!(c.len(), 1);
    assert_eq!(c.get("x").unwrap(), "2");
    assert!(c.get("flag").is_none());
}

#[test]
fn str_map_insert_and_get() {
    let mut m = StrMap::new();
    assert!(m.is_empty());
    m.insert("k".to_string(), "v".to_string());
    m.insert("j".to_string(), "w".to_string());
    m.insert("k".to_string(), "z".to_string());
    assert_eq!(m.get("k").unwrap(), "z");
    assert_eq!(m.get("j").unwrap(), "w");
    assert_eq!(m.len(), 2);
    assert_eq!(m.entries()[0].0, "k");
}

#[test]
fn superglobals_exact_prefix_and_tls() {
    let req = FullHttpRequest::parse(b"GET /a?b=1 HTTP/1.1\r\n\r\n").unwrap();
    let code = req.php_superglobals_code("/srv", "a.php", "::1", 443, true);
    assert!(code.starts_with(
        "$_SERVER['REQUEST_METHOD'] = 'GET'; $_SERVER['REQUEST_URI'] = '/a?b=1'; \
         $_SERVER['QUERY_STRING'] = 'b=1'; $_SERVER['SCRIPT_NAME'] = '/a.php'; \
         $_SERVER['SCRIPT_FILENAME'] = '/srv/a.php'; $_SERVER['DOCUMENT_ROOT'] = '/srv'; "
    ));
    assert!(code.contains("$_SERVER['SERVER_PORT'] = '443'; "));
    assert!(code.contains("$_SERVER['HTTPS'] = 'on'; $_SERVER['REQUEST_SCHEME'] = 'https'; "));
    assert!(code.contains("$_GET = ['b' => '1', ]; "));
    assert!(code.contains("$_POST = []; "));
    assert!(code.contains("$_COOKIE = []; "));
    assert!(code.ends_with("$_FILES = []; "));
}

#[test]
fn superglobals_lists_files() {
    let mut req = FullHttpRequest::parse(b"POST /u HTTP/1.1\r\n\r\n").unwrap();
    req.files.push(UploadedFile {
        field_name: "f".to_string(),
        file_name: "a'b.txt".to_string(),
        content_type: "text/plain".to_string(),
        data: vec![1, 2, 3],
        tmp_path: "/tmp/t0".to_string(),
    });
    let code = req.php_superglobals_code("/srv", "index.php", "1.2.3.4", 80, false);
    assert!(code.contains(
        "$_FILES = ['f' => ['name' => 'a\\'b.txt', 'type' => 'text/plain', 'tmp_name' => '/tmp/t0', 'error' => 0, 'size' => 3], ]; "
    ));
    assert!(code.contains("$GLOBALS['__turbine_uploaded_files'] = ['/tmp/t0' => true, ]; "));
}

#[test]
fn bootstrap_code_exact_without_env() {
    let s = AppStructure {
        app_root: "/w".to_string(),
        document_root: "/w/it's".to_string(),
        entry_point: "index.php".to_string(),
        front_controller: false,
        has_composer: false,
        has_env: false,
        autoload_path: None,
    };
    assert_eq!(s.php_bootstrap_code(), "chdir('/w/it\\'s'); ");
}

#[test]
fn bootstrap_env_uses_app_root() {
    let code = front_controller_structure().php_bootstrap_code();
    assert!(code.contains("if (file_exists('/app/.env'))"));
    assert!(code.ends_with("require_once '/app/vendor/autoload.php'; "));
}

#[test]
fn resolve_given_prefers_files_then_indexes() {
    let s = generic_structure();
    assert_eq!(s.resolve_path_given("/x.css", true, false), "x.css");
    assert_eq!(s.resolve_path_given("/admin/", false, true), "admin/index.php");
    assert_eq!(s.resolve_path_given("/admin/", false, false), "admin/");
    assert_eq!(s.resolve_path_given("", false, false), "index.php");
}

#[test]
fn detect_given_layouts() {
    let a = AppDetector::detect_given("/app", true, true, true, false);
    assert_eq!(a.document_root, "/app/public");
    assert!(a.front_controller);
    assert_eq!(a.autoload_path.as_deref(), Some("/app/vendor/autoload.php"));
    let b = AppDetector::detect_given("/app", false, true, false, true);
    assert_eq!(b.document_root, "/app");
    assert!(!b.front_controller);
    assert!(b.has_env);
    let c = AppDetector::detect_given("/app", true, true, false, false);
    assert!(!c.has_composer && !c.has_env && c.autoload_path.is_none());
}

#[test]
fn detect_on_missing_directory_is_plain() {
    let s = AppDetector::detect("/nonexistent-turbine-dir");
    assert_eq!(s.document_root, "/nonexistent-turbine-dir");
    assert!(!s.front_controller);
}

#[test]
fn upload_plans() {
    let sec = UploadSecurityConfig::default();
    match plan_upload("name", None, "", b"Bob", &sec, "/tmp", 7, 0) {
        UploadPlan::TextField { name, value } => {
            assert_eq!(name, "name");
            assert_eq!(value, "Bob");
        }
        _ => panic!("text field expected"),
    }
    assert!(matches!(plan_upload("f", Some(""), "", b"x", &sec, "/tmp", 7, 0), UploadPlan::Skip));
    assert!(matches!(
        plan_upload("f", Some("A.PHP"), "", b"x", &sec, "/tmp", 7, 0),
        UploadPlan::BlockedExtension
    ));
    assert!(matches!(
        plan_upload("f", Some("a.png"), "", b"<?PHP x", &sec, "/tmp", 7, 0),
        UploadPlan::BlockedContent
    ));
    match plan_upload("f", Some("a.png"), "", b"img", &sec, "/tmp", 7, 2) {
        UploadPlan::Store { tmp_path, content_type } => {
            assert_eq!(tmp_path, "/tmp/turbine_upload_7_2");
            assert_eq!(content_type, "application/octet-stream");
        }
        _ => panic!("store expected"),
    }
}

#[test]
fn bootstrap_env_of_root_layout_is_the_detected_file() {
    let s = AppDetector::detect_given("/srv/site", false, true, false, true);
    assert_eq!(s.document_root, "/srv/site");
    let code = s.php_bootstrap_code();
    assert!(code.contains("if (file_exists('/srv/site/.env'))"));
    let p = AppDetector::detect_given("/srv/site", false, true, true, false);
    assert!(p.php_bootstrap_code().contains("if (file_exists('/srv/site/.env'))"));
}

#[test]
fn parse_body_is_bytes_after_first_blank_line() {
    let raw = "GET /caf\u{e9}?q=\u{2603} HTTP/1.1\r\nX-Note: \u{263a}\r\n\r\nhello\r\n\r\nworld".as_bytes();
    let req = FullHttpRequest::parse(raw).unwrap();
    assert_eq!(req.body, b"hello\r\n\r\nworld".to_vec());
    assert_eq!(req.path, "/caf\u{e9}");
    assert!(FullHttpRequest::parse(b"GET / HTTP/1.1\r\nHost: x\r\n").is_none());
}

#[test]
fn parse_body_follows_blank_line_after_invalid_utf8() {
    let raw = b"\xffGET / HTTP/1.1\r\n\r\nabcdef";
    let req = FullHttpRequest::parse(raw).unwrap();
    assert_eq!(req.body, b"abcdef".to_vec());
    assert_eq!(req.method, "\u{fffd}GET");
    assert_eq!(req.path, "/");
}
