use rs_diffcopy::scanner::{ScannedEntry, Scanner};

fn patterns(v: &[&str]) -> Vec<String> {
    v.iter().map(|s| s.to_string()).collect()
}

#[test]
fn test_scanner_new_empty_patterns() {
    let scanner = Scanner::new(&vec![]).unwrap();
    assert!(!scanner.is_excluded("anything.txt"));
}

#[test]
fn test_scanner_new_invalid_pattern() {
    let result = Scanner::new(&patterns(&["[invalid"]));
    assert!(result.is_err());
}

#[test]
fn test_scanner_exclusion_glob_patterns() {
    let scanner = Scanner::new(&patterns(&["*.log", "node_modules", ".git/**"])).unwrap();

    assert!(scanner.is_excluded("debug.log"));
    assert!(scanner.is_excluded("src/app.log"));
    assert!(scanner.is_excluded("node_modules"));
    assert!(scanner.is_excluded("node_modules/pkg"));
    assert!(scanner.is_excluded(".git/config"));
    assert!(!scanner.is_excluded("src/main.rs"));
    assert!(!scanner.is_excluded("mylog.txt"));
}

#[test]
fn test_scanner_exclusion_multiple_extensions() {
    let scanner = Scanner::new(&patterns(&["*.tmp", "*.bak", "*.swp"])).unwrap();

    assert!(scanner.is_excluded("file.tmp"));
    assert!(scanner.is_excluded("file.bak"));
    assert!(scanner.is_excluded("file.swp"));
    assert!(!scanner.is_excluded("file.txt"));
}

#[test]
fn test_scanner_exclusion_directory_pattern() {
    let scanner = Scanner::new(&patterns(&["target/**", "__pycache__"])).unwrap();

    assert!(scanner.is_excluded("target/debug/main"));
    assert!(scanner.is_excluded("__pycache__"));
    assert!(scanner.is_excluded("src/__pycache__"));
    assert!(!scanner.is_excluded("src/lib.rs"));
}

#[test]
fn test_scanner_scan_empty_directory() {
    let scanner = Scanner::new(&vec![]).unwrap();
    let entries = scanner.keep_included(&vec![]);
    assert!(entries.is_empty());
}

#[test]
fn scanner_keeps_entries_not_excluded_in_order() {
    let scanner = Scanner::new(&patterns(&["node_modules"])).unwrap();
    let entry = |p: &str, d: bool| ScannedEntry {
        relative_path: p.to_string(),
        is_directory: d,
        is_symlink: false,
        is_special: false,
    };
    let found = vec![
        entry("src", true),
        entry("src/main.rs", false),
        entry("node_modules", true),
        entry("node_modules/pkg/index.js", false),
        entry("README.md", false),
    ];
    let kept: Vec<String> = scanner.keep_included(&found).into_iter().map(|e| e.relative_path).collect();
    assert_eq!(kept, patterns(&["src", "src/main.rs", "README.md"]));
}
