use turbine::path_guard::{PathGuardError, RequestGuard};

fn test_guard() -> RequestGuard {
    RequestGuard::new("/app")
}

#[test]
fn validate_normal_path() {
    let guard = test_guard();
    let result = guard.validate("index.php");
    assert!(result.is_ok());
    assert_eq!(result.ok().unwrap(), "index.php".to_string());
}

#[test]
fn validate_nested_path() {
    let guard = test_guard();
    let result = guard.validate("src/Controller.php");
    assert!(result.is_ok());
}

#[test]
fn path_traversal_blocked() {
    let guard = test_guard();
    assert!(matches!(
        guard.validate("../../../etc/passwd"),
        Err(PathGuardError::PathTraversal { .. })
    ));
    assert!(matches!(
        guard.validate("src/../../etc/shadow"),
        Err(PathGuardError::PathTraversal { .. })
    ));
}

#[test]
fn null_byte_blocked() {
    let guard = test_guard();
    assert!(matches!(
        guard.validate("index.php\0.jpg"),
        Err(PathGuardError::NullByte { .. })
    ));
}

#[test]
fn system_path_blocked() {
    let guard = test_guard();
    assert!(matches!(
        guard.validate("/etc/passwd"),
        Err(PathGuardError::BlockedPath { .. })
    ));
    assert!(matches!(
        guard.validate("/var/log/syslog"),
        Err(PathGuardError::BlockedPath { .. })
    ));
}

#[test]
fn data_directory_check() {
    let guard = test_guard();
    let data_dirs = vec!["storage".to_string(), "uploads".to_string()];
    assert!(guard.is_data_directory("storage/logs/app.log", &data_dirs));
    assert!(guard.is_data_directory("uploads/image.jpg", &data_dirs));
    assert!(!guard.is_data_directory("src/Controller.php", &data_dirs));
}

#[test]
fn whitelist_check() {
    let guard = test_guard();
    let whitelist = vec!["index.php".to_string(), "public/index.php".to_string()];
    assert!(guard.is_whitelisted("index.php", &whitelist));
    assert!(guard.is_whitelisted("public/index.php", &whitelist));
    assert!(!guard.is_whitelisted("evil.php", &whitelist));
}

#[test]
fn validate_normalizes_dots_and_slashes() {
    let guard = test_guard();
    assert_eq!(guard.validate("./a//b/./c.php").ok().unwrap(), "a/b/c.php".to_string());
    assert_eq!(guard.validate("/index.php").ok().unwrap(), "index.php".to_string());
}

#[test]
fn windows_drive_blocked_and_messages() {
    let guard = test_guard();
    let e = guard.validate("C:/windows/system.ini").err().unwrap();
    assert!(matches!(e, PathGuardError::BlockedPath { .. }));
    assert_eq!(e.message(), "Access to blocked system path: C:/windows/system.ini");
    let e = guard.validate("a/../b").err().unwrap();
    assert_eq!(e.message(), "Path traversal detected: a/../b");
    assert_eq!(guard.root(), "/app");
}

#[test]
fn file_exists_refuses_traversal_and_nul() {
    let guard = RequestGuard::new("/");
    assert!(!guard.file_exists("etc/../etc/hostname"));
    assert!(!guard.file_exists("index.php\0evil"));
    assert!(!guard.file_exists("definitely-missing-file.php"));
}


#[test]
fn file_target_is_the_normalized_path_under_the_root() {
    let guard = test_guard();
    assert_eq!(guard.file_target("index.php"), Some("/app/index.php".to_string()));
    assert_eq!(guard.file_target("src/./Controller.php"), Some("/app/src/Controller.php".to_string()));
    assert_eq!(guard.file_target("../etc/passwd"), None);
    assert_eq!(guard.file_target("index.php\0evil"), None);
    assert!(!guard.file_exists("../etc/passwd"));
}
