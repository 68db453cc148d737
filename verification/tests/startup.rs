use turbine::bootstrap::{build_php_bootstrap, BootstrapFeatures};
use turbine::dashboard::dashboard_html;
use turbine::features::{php_turbine_log_function, php_turbine_table_functions};
use turbine::io_uring_backend::IoUringBackend;

#[test]
fn dashboard_fills_placeholders() {
    let t = "<p>%%LISTEN%% %%AUTH_REQUIRED%% %%LISTEN%%</p>";
    assert_eq!(dashboard_html(t, "0.0.0.0:80", true), "<p>0.0.0.0:80 true 0.0.0.0:80</p>");
    assert_eq!(dashboard_html(t, "x", false), "<p>x false x</p>");
    assert_eq!(dashboard_html("no placeholders", "x", true), "no placeholders");
}

#[test]
fn bootstrap_without_features_is_the_app_code() {
    let f = BootstrapFeatures { structured_logging: false, shared_table: false, task_queue: false, websocket: false };
    assert_eq!(build_php_bootstrap(&f, "APP;".to_string()), "APP;");
}

#[test]
fn bootstrap_prepends_helpers_in_order() {
    let f = BootstrapFeatures { structured_logging: true, shared_table: true, task_queue: false, websocket: false };
    let expected = format!("{}{}APP;", php_turbine_table_functions(), php_turbine_log_function());
    assert_eq!(build_php_bootstrap(&f, "APP;".to_string()), expected);
}

#[test]
fn io_uring_not_supported() {
    assert!(!IoUringBackend::kernel_supported());
}
