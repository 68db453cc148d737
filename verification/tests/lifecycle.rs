use turbine::config::{RuntimeConfig, VirtualHostConfig};
use turbine::lifecycle::{
    acme_domains, apply_cli_overrides, autoscale_decision, choose_preload, drain_step,
    execution_whitelist_for, open_basedir, open_basedir_paths, php_ini_overrides,
    preload_candidates, scheme, sni_certificates, sorted_unique, watch_reload, CliOverrides,
    DrainStep, ScaleAction,
};

fn s(x: &str) -> String {
    x.to_string()
}

fn vhost(domain: &str, aliases: &[&str], cert: Option<&str>, key: Option<&str>) -> VirtualHostConfig {
    VirtualHostConfig {
        domain: s(domain),
        root: s("/srv"),
        aliases: aliases.iter().map(|a| s(a)).collect(),
        entry_point: None,
        tls_cert: cert.map(s),
        tls_key: key.map(s),
    }
}

#[test]
fn cli_overrides_replace_settings() {
    let mut c = RuntimeConfig::default();
    let o = CliOverrides {
        listen: Some(s("0.0.0.0:80")),
        workers: None,
        tls_cert: Some(s("/c.pem")),
        tls_key: None,
        request_timeout: Some(5),
        access_log: Some(s("/var/log/a.log")),
    };
    apply_cli_overrides(&mut c, o);
    assert_eq!(c.server.listen, "0.0.0.0:80");
    assert_eq!(c.server.workers, 4);
    assert!(c.server.tls.enabled);
    assert_eq!(c.server.tls.cert_file, Some(s("/c.pem")));
    assert_eq!(c.server.tls.key_file, None);
    assert_eq!(c.server.request_timeout, 5);
    assert_eq!(c.logging.access_log, Some(s("/var/log/a.log")));
}

#[test]
fn no_overrides_change_nothing() {
    let mut c = RuntimeConfig::default();
    let o = CliOverrides { listen: None, workers: None, tls_cert: None, tls_key: None, request_timeout: None, access_log: None };
    apply_cli_overrides(&mut c, o);
    assert_eq!(c.server.listen, "127.0.0.1:9000");
    assert!(!c.server.tls.enabled);
    assert_eq!(c.server.request_timeout, 30);
}

#[test]
fn whitelists() {
    assert_eq!(execution_whitelist_for("strict", &Vec::new(), "index.php"), vec![s("index.php")]);
    assert_eq!(execution_whitelist_for("strict", &vec![s("a.php")], "index.php"), vec![s("a.php")]);
    assert!(execution_whitelist_for("framework", &Vec::new(), "index.php").is_empty());
    assert_eq!(execution_whitelist_for("framework", &vec![s("a.php")], "index.php"), vec![s("a.php")]);
}

#[test]
fn acme_collects_vhost_names() {
    let vs = vec![
        vhost("Example.com", &["www.example.com", "EXAMPLE.com"], None, None),
        vhost("other.org", &["www.other.org"], Some("/c"), Some("/k")),
        vhost("third.net", &[], None, None),
    ];
    let ds = vec![s("example.com")];
    assert_eq!(acme_domains(true, &ds, &vs), vec![s("example.com"), s("www.example.com"), s("third.net")]);
    assert_eq!(acme_domains(false, &ds, &vs), ds);
}

#[test]
fn sni_certificates_per_name() {
    let vs = vec![
        vhost("A.com", &["www.A.com"], Some("/a.crt"), Some("/a.key")),
        vhost("b.com", &[], Some("/b.crt"), None),
        vhost("c.com", &[], Some("/c.crt"), Some("/c.key")),
    ];
    assert_eq!(
        sni_certificates(&vs),
        vec![
            (s("a.com"), s("/a.crt"), s("/a.key")),
            (s("www.a.com"), s("/a.crt"), s("/a.key")),
            (s("c.com"), s("/c.crt"), s("/c.key")),
        ]
    );
}

#[test]
fn autoscale_ticks() {
    assert_eq!(autoscale_decision(2, 0, 1, 4, None, 30), ScaleAction::Up);
    assert_eq!(autoscale_decision(4, 0, 1, 4, None, 30), ScaleAction::ResetIdleClock);
    assert_eq!(autoscale_decision(3, 1, 1, 4, None, 30), ScaleAction::StartIdleClock);
    assert_eq!(autoscale_decision(3, 1, 1, 4, Some(29_000_000_000), 30), ScaleAction::Wait);
    assert_eq!(autoscale_decision(3, 1, 1, 4, Some(30_000_000_000), 30), ScaleAction::Down);
    assert_eq!(autoscale_decision(1, 1, 1, 4, Some(99_000_000_000), 30), ScaleAction::ResetIdleClock);
}

#[test]
fn drain_steps() {
    assert_eq!(drain_step(0, 99_000_000_000, 15), DrainStep::Drained);
    assert_eq!(drain_step(2, 16_000_000_000, 15), DrainStep::TimedOut);
    assert_eq!(drain_step(2, 15_000_000_000, 15), DrainStep::Wait);
}

#[test]
fn reload_on_watched_changes() {
    let watched = vec![s("php"), s("env")];
    assert!(watch_reload(&vec![None, Some(s("php"))], &watched, 600_000_000, 500));
    assert!(!watch_reload(&vec![Some(s("php"))], &watched, 400_000_000, 500));
    assert!(!watch_reload(&vec![Some(s("css")), None], &watched, 600_000_000, 500));
}

#[test]
fn schemes() {
    assert_eq!(scheme(true), "https");
    assert_eq!(scheme(false), "http");
}

#[test]
fn basedir_sorted_and_deduplicated() {
    let dirs = open_basedir_paths(
        "/app",
        "/tmp/uploads",
        "/tmp/turbine-sessions",
        "/tmp",
        &vec![s("storage/"), s("/abs/data")],
        &vec![s("sites/b"), s("/srv/c")],
    );
    assert_eq!(
        dirs,
        vec![
            s("/app"),
            s("/tmp/uploads"),
            s("/tmp/turbine-sessions"),
            s("/tmp/turbine-opcache"),
            s("/dev/fd"),
            s("/tmp"),
            s("/app/storage/"),
            s("/abs/data"),
            s("/app/sites/b"),
            s("/srv/c"),
        ]
    );
    assert_eq!(
        open_basedir(true, &dirs),
        "/abs/data:/app:/app/sites/b:/app/storage/:/dev/fd:/srv/c:/tmp:/tmp/turbine-opcache:/tmp/turbine-sessions:/tmp/uploads"
    );
    assert_eq!(open_basedir(false, &dirs), "");
    assert_eq!(sorted_unique(&vec![s("b"), s("a"), s("b"), s("ab")]), vec![s("a"), s("ab"), s("b")]);
    assert!(sorted_unique(&Vec::new()).is_empty());
}

#[test]
fn ini_overrides_follow_the_config() {
    let mut c = RuntimeConfig::default();
    c.server.tls.enabled = true;
    c.sandbox.disabled_functions = vec![s("exec"), s("system")];
    c.php.ini = vec![(s("display_errors"), s("On"))];
    let o = php_ini_overrides(&c, s("/app"), s("/app/preload.php"));
    assert_eq!(o.memory_limit, c.php.memory_limit);
    assert!(o.session_cookie_secure);
    assert_eq!(o.disabled_functions, "exec,system");
    assert_eq!(o.open_basedir, "/app");
    assert_eq!(o.preload_script, "/app/preload.php");
    assert_eq!(o.extra_ini, vec![(s("display_errors"), s("On"))]);
    assert!(!o.opcache_validate_timestamps);
}

#[test]
fn preload_choice() {
    let c = preload_candidates("/app");
    assert_eq!(c, vec![s("/app/vendor/preload.php"), s("/app/preload.php"), s("/app/config/preload.php")]);
    assert_eq!(choose_preload(Some("/x.php"), &c, &vec![true, true, true]), "/x.php");
    assert_eq!(choose_preload(Some("auto"), &c, &vec![false, true, true]), "/app/preload.php");
    assert_eq!(choose_preload(None, &c, &vec![false, false, true]), "/app/config/preload.php");
    assert_eq!(choose_preload(None, &c, &vec![false, false, false]), "");
}
