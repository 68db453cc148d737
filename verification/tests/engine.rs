use turbine::engine::{php_ini_text, EngineError, PhpEngine, PhpIniOverrides};
use turbine::output::headers_from_list;

#[test]
fn ini_defaults_are_hardened_and_unbuffered() {
    let o = PhpIniOverrides::default();
    let ini = php_ini_text(&o, None, None);
    assert!(ini.starts_with("opcache.enable=1\nopcache.enable_cli=1\nopcache.memory_consumption=128\n"));
    assert!(ini.contains("opcache.validate_timestamps=0\n"));
    assert!(ini.contains("opcache.jit_buffer_size=64M\n"));
    assert!(ini.contains("output_buffering=0\ndisplay_errors=0\nlog_errors=1\nmemory_limit=256M\n"));
    assert!(ini.contains("session.cookie_httponly=1\nsession.cookie_secure=0\n"));
    assert!(ini.ends_with("allow_url_include=Off\nallow_url_fopen=Off\n"));
    assert!(!ini.contains("zend_extension="));
    assert!(!ini.contains("opcache.preload"));
}

#[test]
fn ini_with_shared_opcache_preload_and_extras() {
    let mut o = PhpIniOverrides::default();
    o.preload_script = "/app/preload.php".to_string();
    o.open_basedir = "/app".to_string();
    o.extensions = vec!["redis.so".to_string()];
    o.zend_extensions = vec!["xdebug.so".to_string()];
    o.extra_ini = vec![
        ("Output_Buffering".to_string(), "4096".to_string()),
        ("date.timezone".to_string(), "UTC".to_string()),
    ];
    let ini = php_ini_text(&o, Some("/ext/opcache.so"), Some("www"));
    assert!(ini.starts_with("zend_extension=/ext/opcache.so\n"));
    assert!(ini.contains("opcache.preload=/app/preload.php\nopcache.preload_user=www\n"));
    assert!(ini.contains("open_basedir=/app\n"));
    assert!(ini.ends_with("extension=redis.so\nzend_extension=xdebug.so\ndate.timezone=UTC\n"));
    assert!(!ini.contains("4096"));
    // A preload script that does not exist is skipped.
    let skipped = php_ini_text(&o, None, None);
    assert!(!skipped.contains("opcache.preload"));
}

#[test]
fn engine_request_lifecycle() {
    let mut e = PhpEngine::started();
    assert!(e.is_request_active());
    assert!(e.end_request());
    assert!(!e.is_request_active());
    assert!(!e.end_request());
    e.begin_request();
    assert!(e.is_request_active());
}

#[test]
fn engine_error_messages() {
    assert_eq!(EngineError::InitFailed.message(), "PHP embed SAPI initialization failed");
    assert_eq!(
        EngineError::EvalFailed { code: "echo 1;".to_string() }.message(),
        "PHP eval failed for: echo 1;"
    );
}

#[test]
fn headers_list_lines_are_split_and_trimmed() {
    let raw = b"Content-Type: text/html; charset=UTF-8\r\nX-Powered-By:  PHP/8.3 \nno colon here\nSet-Cookie: a=b: c\n";
    let h = headers_from_list(raw);
    assert_eq!(
        h,
        vec![
            ("Content-Type".to_string(), "text/html; charset=UTF-8".to_string()),
            ("X-Powered-By".to_string(), "PHP/8.3".to_string()),
            ("Set-Cookie".to_string(), "a=b: c".to_string()),
        ]
    );
}

#[test]
fn headers_list_empty_or_invalid_utf8_gives_nothing() {
    assert!(headers_from_list(b"").is_empty());
    assert!(headers_from_list(&[0x58, 0x3a, 0xff, 0xfe, 0x0a]).is_empty());
}
