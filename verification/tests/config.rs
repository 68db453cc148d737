use turbine::config::{RuntimeConfig, VirtualHostConfig, WorkerPoolRouteConfig};

// ── Defaults ────────────────────────────────────────────────────

#[test]
fn runtime_config_default() {
    let config = RuntimeConfig::default();
    assert_eq!(config.server.worker_mode, "process");
    assert!(config.server.persistent_workers.is_none());
    assert!(config.security.enabled);
    assert!(config.cache.enabled);
    assert!(config.compression.enabled);
    assert!(!config.cors.enabled);
    assert!(!config.watcher.enabled);
    assert!(config.worker_pools.is_empty());
}

// ── Validation ──────────────────────────────────────────────────

#[test]
fn validate_does_not_panic_on_defaults() {
    let config = RuntimeConfig::default();
    config.validate(); // should NOT panic
}

#[test]
fn template_is_non_empty() {
    let template = RuntimeConfig::template();
    assert!(template.len() > 100);
    assert!(template.contains("[server]"));
    assert!(template.contains("[php]"));
    assert!(template.contains("[security]"));
    assert!(template.contains("[compression]"));
}

// ── Unknown fields are ignored ──────────────────────────────────

#[test]
fn check_defaults_no_errors() {
    let config = RuntimeConfig::default();
    let (errors, _warnings) = config.check();
    assert!(
        errors.is_empty(),
        "Default config should have no errors: {:?}",
        errors
    );
}

#[test]
fn check_invalid_worker_mode() {
    let mut config = RuntimeConfig::default();
    config.server.worker_mode = "fork".into();
    let (errors, _) = config.check();
    assert!(errors
        .iter()
        .any(|e| e.contains("worker_mode") && e.contains("fork")));
}

#[test]
fn check_valid_worker_modes() {
    for mode in &["process", "thread"] {
        let mut config = RuntimeConfig::default();
        config.server.worker_mode = mode.to_string();
        let (errors, _) = config.check();
        assert!(
            !errors.iter().any(|e| e.contains("worker_mode")),
            "worker_mode = \"{}\" should be valid",
            mode
        );
    }
}

#[test]
fn check_invalid_execution_mode() {
    let mut config = RuntimeConfig::default();
    config.sandbox.execution_mode = "custom".into();
    let (errors, _) = config.check();
    assert!(errors
        .iter()
        .any(|e| e.contains("execution_mode") && e.contains("custom")));
}

#[test]
fn check_tls_enabled_without_cert() {
    let mut config = RuntimeConfig::default();
    config.server.tls.enabled = true;
    config.server.tls.cert_file = None;
    config.server.tls.key_file = None;
    let (errors, _) = config.check();
    assert!(errors.iter().any(|e| e.contains("cert_file")));
    assert!(errors.iter().any(|e| e.contains("key_file")));
}

#[test]
fn check_tls_disabled_no_error() {
    let mut config = RuntimeConfig::default();
    config.server.tls.enabled = false;
    config.server.tls.cert_file = None;
    let (errors, _) = config.check();
    assert!(!errors.iter().any(|e| e.contains("cert_file")));
}

#[test]
fn check_tls_cert_file_not_found() {
    let mut config = RuntimeConfig::default();
    config.server.tls.enabled = true;
    config.server.tls.cert_file = Some("/nonexistent/cert.pem".into());
    config.server.tls.key_file = Some("/nonexistent/key.pem".into());
    let (errors, _) = config.check();
    assert!(errors
        .iter()
        .any(|e| e.contains("cert.pem") && e.contains("not found")));
    assert!(errors
        .iter()
        .any(|e| e.contains("key.pem") && e.contains("not found")));
}

#[test]
fn check_strict_without_whitelist() {
    let mut config = RuntimeConfig::default();
    config.sandbox.execution_mode = "strict".into();
    config.sandbox.execution_whitelist = vec![];
    let (errors, _) = config.check();
    assert!(errors
        .iter()
        .any(|e| e.contains("strict") && e.contains("whitelist")));
}

#[test]
fn check_strict_with_whitelist_ok() {
    let mut config = RuntimeConfig::default();
    config.sandbox.execution_mode = "strict".into();
    config.sandbox.execution_whitelist = vec!["/index.php".into()];
    let (errors, _) = config.check();
    assert!(!errors.iter().any(|e| e.contains("whitelist")));
}

#[test]
fn check_worker_pool_min_gt_max() {
    let mut config = RuntimeConfig::default();
    config.worker_pools.push(WorkerPoolRouteConfig {
        match_path: "/api/.*".into(),
        min_workers: 10,
        max_workers: 5,
        name: None,
    });
    let (errors, _) = config.check();
    assert!(errors
        .iter()
        .any(|e| e.contains("min_workers") && e.contains("max_workers")));
}

#[test]
fn check_warn_workers_zero_timeout_zero() {
    let mut config = RuntimeConfig::default();
    config.server.workers = 0;
    config.server.request_timeout = 0;
    let (_, warnings) = config.check();
    assert!(warnings
        .iter()
        .any(|w| w.contains("workers = 0") && w.contains("request_timeout = 0")));
}

#[test]
fn check_warn_security_all_guards_disabled() {
    let mut config = RuntimeConfig::default();
    config.security.enabled = true;
    config.security.sql_guard = false;
    config.security.code_injection_guard = false;
    config.security.behaviour_guard = false;
    let (_, warnings) = config.check();
    assert!(warnings
        .iter()
        .any(|w| w.contains("all guards are disabled")));
}

#[test]
fn check_warn_cache_ttl_zero() {
    let mut config = RuntimeConfig::default();
    config.cache.enabled = true;
    config.cache.ttl_seconds = 0;
    let (_, warnings) = config.check();
    assert!(warnings.iter().any(|w| w.contains("ttl_seconds = 0")));
}

#[test]
fn check_warn_high_workers() {
    let mut config = RuntimeConfig::default();
    config.server.workers = 128;
    let (_, warnings) = config.check();
    assert!(warnings.iter().any(|w| w.contains("workers = 128")));
}

#[test]
fn check_warn_persistent_no_recycling() {
    let mut config = RuntimeConfig::default();
    config.server.persistent_workers = Some(true);
    config.server.worker_max_requests = 0;
    let (_, warnings) = config.check();
    assert!(warnings
        .iter()
        .any(|w| w.contains("persistent") && w.contains("recycle")));
}

#[test]
fn check_warn_compression_level() {
    let mut config = RuntimeConfig::default();
    config.compression.level = 15;
    let (_, warnings) = config.check();
    assert!(warnings.iter().any(|w| w.contains("level = 15")));
}

#[test]
fn check_warn_invalid_samesite() {
    let mut config = RuntimeConfig::default();
    config.session.cookie_samesite = "Invalid".into();
    let (_, warnings) = config.check();
    assert!(warnings.iter().any(|w| w.contains("cookie_samesite")));
}

#[test]
fn check_valid_samesite_values() {
    for val in &["Lax", "Strict", "None"] {
        let mut config = RuntimeConfig::default();
        config.session.cookie_samesite = val.to_string();
        let (_, warnings) = config.check();
        assert!(
            !warnings.iter().any(|w| w.contains("cookie_samesite")),
            "cookie_samesite = \"{}\" should not warn",
            val
        );
    }
}

#[test]
fn check_warn_cors_no_origins() {
    let mut config = RuntimeConfig::default();
    config.cors.enabled = true;
    config.cors.allow_origins = vec![];
    let (_, warnings) = config.check();
    assert!(warnings.iter().any(|w| w.contains("allow_origins")));
}

#[test]
fn check_warn_acme_plus_tls() {
    let mut config = RuntimeConfig::default();
    config.acme.enabled = true;
    config.server.tls.enabled = true;
    config.server.tls.cert_file = Some("/tmp/cert.pem".into());
    config.server.tls.key_file = Some("/tmp/key.pem".into());
    let (_, warnings) = config.check();
    assert!(warnings
        .iter()
        .any(|w| w.contains("ACME") && w.contains("TLS")));
}

#[test]
fn check_warn_empty_pool_match_path() {
    let mut config = RuntimeConfig::default();
    config.worker_pools.push(WorkerPoolRouteConfig {
        match_path: "".into(),
        min_workers: 1,
        max_workers: 4,
        name: None,
    });
    let (_, warnings) = config.check();
    assert!(warnings
        .iter()
        .any(|w| w.contains("match_path") && w.contains("empty")));
}

#[test]
fn check_clean_config_no_warnings() {
    let config = RuntimeConfig::default();
    let (errors, warnings) = config.check();
    // Default config should have minimal warnings
    assert!(errors.is_empty());
    // The only possible default warning is compression level or samesite
    // but defaults should all be valid
    for w in &warnings {
        // If there are any, they should be benign
        println!("Default warning: {w}");
    }
}

#[test]
fn check_multiple_errors_accumulated() {
    let mut config = RuntimeConfig::default();
    config.server.worker_mode = "invalid".into();
    config.sandbox.execution_mode = "invalid".into();
    config.server.tls.enabled = true;
    config.server.tls.cert_file = None;
    config.server.tls.key_file = None;
    let (errors, _) = config.check();
    assert!(
        errors.len() >= 4,
        "Expected at least 4 errors, got {}: {:?}",
        errors.len(),
        errors
    );
}

// ── Virtual host config tests ───────────────────────────────────

#[test]
fn check_vhost_empty_domain() {
    let mut config = RuntimeConfig::default();
    config.virtual_hosts.push(VirtualHostConfig {
        domain: "".into(),
        root: "/var/www/test".into(),
        aliases: vec![],
        entry_point: None,
        tls_cert: None,
        tls_key: None,
    });
    let (errors, _) = config.check();
    assert!(errors.iter().any(|e| e.contains("domain is empty")));
}

#[test]
fn check_vhost_empty_root() {
    let mut config = RuntimeConfig::default();
    config.virtual_hosts.push(VirtualHostConfig {
        domain: "xpto.com".into(),
        root: "".into(),
        aliases: vec![],
        entry_point: None,
        tls_cert: None,
        tls_key: None,
    });
    let (errors, _) = config.check();
    assert!(errors.iter().any(|e| e.contains("root is empty")));
}

#[test]
fn check_vhost_root_not_found() {
    let mut config = RuntimeConfig::default();
    config.virtual_hosts.push(VirtualHostConfig {
        domain: "xpto.com".into(),
        root: "/nonexistent/path".into(),
        aliases: vec![],
        entry_point: None,
        tls_cert: None,
        tls_key: None,
    });
    let (errors, _) = config.check();
    assert!(errors.iter().any(|e| e.contains("directory not found")));
}

#[test]
fn check_vhost_duplicate_domain() {
    let mut config = RuntimeConfig::default();
    let vhost = VirtualHostConfig {
        domain: "xpto.com".into(),
        root: "/tmp".into(),
        aliases: vec![],
        entry_point: None,
        tls_cert: None,
        tls_key: None,
    };
    config.virtual_hosts.push(vhost.clone());
    config.virtual_hosts.push(vhost);
    let (errors, _) = config.check();
    assert!(errors.iter().any(|e| e.contains("duplicate domain")));
}

#[test]
fn check_vhost_duplicate_alias() {
    let mut config = RuntimeConfig::default();
    config.virtual_hosts.push(VirtualHostConfig {
        domain: "xpto.com".into(),
        root: "/tmp".into(),
        aliases: vec!["www.xpto.com".into()],
        entry_point: None,
        tls_cert: None,
        tls_key: None,
    });
    config.virtual_hosts.push(VirtualHostConfig {
        domain: "outro.com".into(),
        root: "/tmp".into(),
        aliases: vec!["www.xpto.com".into()],
        entry_point: None,
        tls_cert: None,
        tls_key: None,
    });
    let (errors, _) = config.check();
    assert!(errors.iter().any(|e| e.contains("duplicate alias")));
}

#[test]
fn check_vhost_tls_cert_without_key() {
    let mut config = RuntimeConfig::default();
    config.virtual_hosts.push(VirtualHostConfig {
        domain: "xpto.com".into(),
        root: "/tmp".into(),
        aliases: vec![],
        entry_point: None,
        tls_cert: Some("/tmp/cert.pem".into()),
        tls_key: None,
    });
    let (errors, _) = config.check();
    assert!(errors
        .iter()
        .any(|e| e.contains("tls_cert and tls_key must both be set")));
}

#[test]
fn check_vhost_listen_localhost_warning() {
    let mut config = RuntimeConfig::default();
    config.server.listen = "127.0.0.1:8080".into();
    config.virtual_hosts.push(VirtualHostConfig {
        domain: "xpto.com".into(),
        root: "/tmp".into(),
        aliases: vec![],
        entry_point: None,
        tls_cert: None,
        tls_key: None,
    });
    let (_, warnings) = config.check();
    assert!(warnings.iter().any(|w| w.contains("127.0.0.1")));
}

#[test]
fn check_vhost_valid_no_errors() {
    let mut config = RuntimeConfig::default();
    config.server.listen = "0.0.0.0:80".into();
    config.virtual_hosts.push(VirtualHostConfig {
        domain: "xpto.com".into(),
        root: "/tmp".into(),
        aliases: vec!["www.xpto.com".into()],
        entry_point: None,
        tls_cert: None,
        tls_key: None,
    });
    let (errors, _) = config.check();
    let vhost_errors: Vec<_> = errors
        .iter()
        .filter(|e| e.contains("virtual_hosts"))
        .collect();
    assert!(
        vhost_errors.is_empty(),
        "Valid vhost should have no vhost errors: {:?}",
        vhost_errors
    );
}

#[test]
fn template_contains_virtual_hosts() {
    let template = RuntimeConfig::template();
    assert!(template.contains("[[virtual_hosts]]"));
    assert!(template.contains("domain"));
    assert!(template.contains("aliases"));
}

#[test]
fn check_messages_are_exact() {
    let mut config = RuntimeConfig::default();
    config.server.workers = 128;
    config.compression.level = 15;
    config.server.worker_mode = "fork".into();
    let (errors, warnings) = config.check();
    assert_eq!(
        errors[0],
        "[server] worker_mode = \"fork\" — must be \"process\" or \"thread\""
    );
    assert!(warnings.contains(
        &"[server] workers = 128 — very high worker count, ensure sufficient memory and file descriptors".to_string()
    ));
    assert!(warnings.contains(&"[compression] level = 15 — should be 1–9".to_string()));
    let all = config.validate();
    assert_eq!(all.len(), errors.len() + warnings.len());
}

#[test]
fn check_vhost_duplicates_ignore_case() {
    let mut config = RuntimeConfig::default();
    config.server.listen = "0.0.0.0:80".into();
    config.virtual_hosts.push(VirtualHostConfig {
        domain: "Xpto.com".into(),
        root: "/tmp".into(),
        aliases: vec!["WWW.xpto.com".into(), "www.XPTO.com".into()],
        entry_point: None,
        tls_cert: None,
        tls_key: None,
    });
    config.virtual_hosts.push(VirtualHostConfig {
        domain: "xpto.COM".into(),
        root: "/tmp".into(),
        aliases: vec![],
        entry_point: None,
        tls_cert: None,
        tls_key: None,
    });
    let (errors, _) = config.check();
    assert_eq!(
        errors,
        vec![
            "[[virtual_hosts]][0] duplicate alias \"www.XPTO.com\" (already defined as domain or alias)".to_string(),
            "[[virtual_hosts]][1] duplicate domain \"xpto.COM\"".to_string(),
        ]
    );
}

#[test]
fn check_warn_compression_level_zero() {
    let mut config = RuntimeConfig::default();
    config.compression.level = 0;
    let (_, warnings) = config.check();
    assert!(warnings.iter().any(|w| w.starts_with("[compression] level = 0")));
    config.compression.level = 9;
    let (_, warnings) = config.check();
    assert!(!warnings.iter().any(|w| w.starts_with("[compression] level")));
}

#[test]
fn template_is_valid_toml() {
    let template = RuntimeConfig::template();
    let v: toml::Value = toml::from_str(template).expect("template parses as TOML");
    let methods = v["cors"]["allow_methods"].as_array().unwrap();
    assert_eq!(methods.len(), 6);
    assert_eq!(methods[0].as_str(), Some("GET"));
    assert_eq!(v["cors"]["allow_headers"].as_array().unwrap()[0].as_str(), Some("Content-Type"));
}

#[test]
fn worker_warning_text_can_come_from_another_section() {
    let mut config = RuntimeConfig::default();
    config.server.workers = 4;
    config.session.cookie_samesite = "x — very high worker count".to_string();
    let (_, warnings) = config.check();
    assert!(warnings.iter().any(|w| w.starts_with("[session]") && w.contains("very high worker count")));
    assert!(!warnings.iter().any(|w| w.starts_with("[server] workers = 4 —")));
}
