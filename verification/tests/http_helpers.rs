use turbine::config::CorsConfig;
use turbine::http_helpers::{
    cors_origin_allowed, detect_content_type, mime_type_for_extension, parse_php_size, query_param,
};

#[test]
fn query_param_finds_value() {
    assert_eq!(query_param("a=1&b=2", "b"), Some("2".to_string()));
    assert_eq!(query_param("a=1&b=2", "c"), None);
    assert_eq!(query_param("", "a"), None);
}

#[test]
fn query_param_key_without_value() {
    assert_eq!(query_param("a&a=1", "a"), None);
    assert_eq!(query_param("x=1=2", "x"), Some("1=2".to_string()));
}

#[test]
fn parse_php_size_handles_suffixes() {
    assert_eq!(parse_php_size("1024"), Some(1024));
    assert_eq!(parse_php_size("2K"), Some(2048));
    assert_eq!(parse_php_size("4M"), Some(4 * 1024 * 1024));
    assert_eq!(parse_php_size("1g"), Some(1024 * 1024 * 1024));
    assert_eq!(parse_php_size("0"), None);
    assert_eq!(parse_php_size(""), None);
    assert_eq!(parse_php_size("garbage"), None);
}

#[test]
fn parse_php_size_trims_and_overflows() {
    assert_eq!(parse_php_size("  16 M "), Some(16 * 1024 * 1024));
    assert_eq!(parse_php_size("+3"), Some(3));
    assert_eq!(parse_php_size("99999999999999999999G"), None);
    assert_eq!(parse_php_size("18446744073709551615G"), None);
}

#[test]
fn mime_type_mapping() {
    assert_eq!(mime_type_for_extension("foo.css"), "text/css; charset=utf-8");
    assert_eq!(mime_type_for_extension("a/b/c.JPG"), "image/jpeg");
    assert_eq!(mime_type_for_extension("unknown.xyz"), "application/octet-stream");
    assert_eq!(mime_type_for_extension("noext"), "application/octet-stream");
}

#[test]
fn detect_content_type_basic() {
    assert_eq!(detect_content_type(b"{\"x\":1}"), "application/json");
    assert_eq!(detect_content_type(b"<!DOCTYPE html>..."), "text/html; charset=utf-8");
    assert_eq!(detect_content_type(b"hello world"), "text/plain; charset=utf-8");
}

#[test]
fn detect_content_type_only_looks_at_prefix() {
    let mut late = vec![b'x'; 300];
    late.extend_from_slice(b"<html>");
    assert_eq!(detect_content_type(&late), "text/plain; charset=utf-8");
    assert_eq!(detect_content_type(b"[1,2]"), "application/json");
    assert_eq!(detect_content_type(b""), "text/plain; charset=utf-8");
}

#[test]
fn cors_origins() {
    let mut cors = CorsConfig::default();
    assert!(!cors_origin_allowed(&cors, "https://a.example"));
    cors.allow_origins = vec!["https://a.example".to_string()];
    assert!(cors_origin_allowed(&cors, "https://a.example"));
    assert!(!cors_origin_allowed(&cors, "https://b.example"));
    cors.allow_origins.push("*".to_string());
    assert!(cors_origin_allowed(&cors, "https://b.example"));
}
