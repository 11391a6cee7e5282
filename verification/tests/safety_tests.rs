use rs_diffcopy::error::DiffCopyError;
use rs_diffcopy::safety::{get_protected_paths, is_protected_path, output_directory_decision, validate_directories, OutputDecision};

fn unix_paths() -> Vec<String> {
    get_protected_paths(Some("/home/user".to_string()), vec![], false)
}

fn windows_paths() -> Vec<String> {
    get_protected_paths(Some("C:\\Users\\user".to_string()), vec!["C:\\Users\\user\\Desktop".to_string()], true)
}

#[test]
fn test_is_protected_path_unix_root() {
    assert!(is_protected_path("/", &unix_paths()));
}

#[test]
fn test_is_protected_path_unix_system_dirs() {
    let p = unix_paths();
    assert!(is_protected_path("/etc", &p));
    assert!(is_protected_path("/home", &p));
    assert!(is_protected_path("/usr", &p));
    assert!(is_protected_path("/var", &p));
    assert!(is_protected_path("/bin", &p));
    assert!(is_protected_path("/boot", &p));
}

#[test]
fn test_is_protected_path_unix_safe_paths() {
    assert!(!is_protected_path("/tmp/diffcopy-test-1234", &unix_paths()));
}

#[test]
fn test_is_protected_path_windows_drives() {
    let p = windows_paths();
    assert!(is_protected_path("C:\\", &p));
    assert!(is_protected_path("D:\\", &p));
}

#[test]
fn test_is_protected_path_windows_system() {
    let p = windows_paths();
    assert!(is_protected_path("C:\\Windows", &p));
    assert!(is_protected_path("C:\\Program Files", &p));
}

#[test]
fn test_validate_directories_all_exist() {
    let result = validate_directories("/tmp/a", "/tmp/b", None, true, true, false);
    assert!(result.is_ok());
}

#[test]
fn test_validate_directories_with_base() {
    let result = validate_directories("/tmp/a", "/tmp/b", Some("/tmp/c"), true, true, true);
    assert!(result.is_ok());
}

#[test]
fn test_validate_directories_source_missing() {
    let result = validate_directories("/nonexistent/source/dir", "/tmp/b", None, false, true, false);
    assert!(result.is_err());
    match result {
        Err(DiffCopyError::SourceNotFound(_)) => {}
        _ => panic!("Expected SourceNotFound error"),
    }
}

#[test]
fn test_validate_directories_target_missing() {
    let result = validate_directories("/tmp/a", "/nonexistent/target/dir", None, true, false, false);
    assert!(result.is_err());
    match result {
        Err(DiffCopyError::TargetNotFound(_)) => {}
        _ => panic!("Expected TargetNotFound error"),
    }
}

#[test]
fn test_validate_directories_base_missing() {
    let result = validate_directories("/tmp/a", "/tmp/b", Some("/nonexistent/base/dir"), true, true, false);
    assert!(result.is_err());
    match result {
        Err(DiffCopyError::BaseNotFound(_)) => {}
        _ => panic!("Expected BaseNotFound error"),
    }
}

#[test]
fn test_check_output_directory_not_exists() {
    assert_eq!(output_directory_decision(false, false, false, false), OutputDecision::Proceed);
}

#[test]
fn test_check_output_directory_exists_no_force() {
    match output_directory_decision(true, false, false, false) {
        OutputDecision::RefuseExisting => {}
        _ => panic!("Expected OutputExists error"),
    }
}

#[test]
fn test_check_output_directory_exists_dry_run() {
    let decision = output_directory_decision(true, true, true, false);
    assert_eq!(decision, OutputDecision::Proceed);
    assert!(decision != OutputDecision::ConfirmAndDelete);
}

#[test]
fn test_check_output_protected_path() {
    assert!(is_protected_path("/etc", &unix_paths()));
}

#[test]
fn test_get_protected_paths_not_empty() {
    let paths = get_protected_paths(None, vec![], false);
    assert!(!paths.is_empty());
}
