use rs_diffcopy::config::Config;
use rs_diffcopy::copier::Copier;
use rs_diffcopy::types::{FileEntry, FileStatus};

fn create_test_config(source: &str, target: &str, output: &str) -> Config {
    let mut c = Config::default();
    c.source = source.to_string();
    c.target = target.to_string();
    c.output = output.to_string();
    c
}

#[test]
fn test_copier_new() {
    let config = create_test_config("tmp/source", "tmp/target", "tmp/output");
    let _copier = Copier::new(&config);
}

#[test]
fn test_should_copy_added() {
    let config = create_test_config("tmp/source", "tmp/target", "tmp/output");
    let copier = Copier::new(&config);

    let entry = FileEntry::new("file.txt".to_string(), FileStatus::Added, false);
    assert!(copier.should_copy(&entry));
}

#[test]
fn test_should_copy_modified() {
    let config = create_test_config("tmp/source", "tmp/target", "tmp/output");
    let copier = Copier::new(&config);

    let entry = FileEntry::new("file.txt".to_string(), FileStatus::Modified, false);
    assert!(copier.should_copy(&entry));
}

#[test]
fn test_should_copy_deleted_without_flag() {
    let config = create_test_config("tmp/source", "tmp/target", "tmp/output");
    let copier = Copier::new(&config);

    let entry = FileEntry::new("file.txt".to_string(), FileStatus::Deleted, false);
    assert!(!copier.should_copy(&entry));
}

#[test]
fn test_should_copy_deleted_with_flag() {
    let mut config = create_test_config("tmp/source", "tmp/target", "tmp/output");
    config.copy_deleted = true;
    let copier = Copier::new(&config);

    let entry = FileEntry::new("file.txt".to_string(), FileStatus::Deleted, false);
    assert!(copier.should_copy(&entry));
}

#[test]
fn test_should_copy_unchanged() {
    let config = create_test_config("tmp/source", "tmp/target", "tmp/output");
    let copier = Copier::new(&config);

    let entry = FileEntry::new("file.txt".to_string(), FileStatus::Unchanged, false);
    assert!(!copier.should_copy(&entry));
}

#[test]
fn test_should_copy_with_filter() {
    let mut config = create_test_config("tmp/source", "tmp/target", "tmp/output");
    config.filter_status.included.insert("modified".to_string());
    let copier = Copier::new(&config);

    let added = FileEntry::new("file1.txt".to_string(), FileStatus::Added, false);
    let modified = FileEntry::new("file2.txt".to_string(), FileStatus::Modified, false);

    assert!(!copier.should_copy(&added));
    assert!(copier.should_copy(&modified));
}
