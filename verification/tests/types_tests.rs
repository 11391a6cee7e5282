use rs_diffcopy::types::{
    CheckPermissionsMode, ColorMode, ComparisonResult, ComparisonStats, FileEntry, FileStatus, LogLevel, MergeStyle,
    SpecialFileType, StatusFilter, ThreeWayEntry, ThreeWayResult, ThreeWayStats, ThreeWayStatus,
};

#[test]
fn test_file_status_from_str() {
    assert_eq!(FileStatus::from_str("added"), Some(FileStatus::Added));
    assert_eq!(FileStatus::from_str("ADD"), Some(FileStatus::Added));
    assert_eq!(FileStatus::from_str("a"), Some(FileStatus::Added));
    assert_eq!(FileStatus::from_str("modified"), Some(FileStatus::Modified));
    assert_eq!(FileStatus::from_str("m"), Some(FileStatus::Modified));
    assert_eq!(FileStatus::from_str("deleted"), Some(FileStatus::Deleted));
    assert_eq!(FileStatus::from_str("d"), Some(FileStatus::Deleted));
    assert_eq!(FileStatus::from_str("unchanged"), Some(FileStatus::Unchanged));
    assert_eq!(FileStatus::from_str("symlink"), Some(FileStatus::Symlink));
    assert_eq!(FileStatus::from_str("special"), Some(FileStatus::Special));
    assert_eq!(FileStatus::from_str("permission"), Some(FileStatus::Permission));
    assert_eq!(FileStatus::from_str("error"), Some(FileStatus::Error));
    assert_eq!(FileStatus::from_str("unknown"), None);
}

#[test]
fn test_file_status_as_str() {
    assert_eq!(FileStatus::Added.as_str(), "added");
    assert_eq!(FileStatus::Modified.as_str(), "modified");
    assert_eq!(FileStatus::Deleted.as_str(), "deleted");
    assert_eq!(FileStatus::Unchanged.as_str(), "unchanged");
    assert_eq!(FileStatus::Symlink.as_str(), "symlink");
    assert_eq!(FileStatus::Special.as_str(), "special");
    assert_eq!(FileStatus::Permission.as_str(), "permission");
    assert_eq!(FileStatus::Error.as_str(), "error");
}

#[test]
fn test_three_way_status_from_str() {
    assert_eq!(ThreeWayStatus::from_str("unchanged"), Some(ThreeWayStatus::Unchanged));
    assert_eq!(ThreeWayStatus::from_str("ours-only"), Some(ThreeWayStatus::OursOnly));
    assert_eq!(ThreeWayStatus::from_str("ours_only"), Some(ThreeWayStatus::OursOnly));
    assert_eq!(ThreeWayStatus::from_str("theirs-only"), Some(ThreeWayStatus::TheirsOnly));
    assert_eq!(ThreeWayStatus::from_str("both-same"), Some(ThreeWayStatus::BothSame));
    assert_eq!(ThreeWayStatus::from_str("conflict"), Some(ThreeWayStatus::Conflict));
    assert_eq!(ThreeWayStatus::from_str("added-ours"), Some(ThreeWayStatus::AddedOurs));
    assert_eq!(ThreeWayStatus::from_str("added-theirs"), Some(ThreeWayStatus::AddedTheirs));
    assert_eq!(ThreeWayStatus::from_str("added-both-same"), Some(ThreeWayStatus::AddedBothSame));
    assert_eq!(ThreeWayStatus::from_str("added-both-diff"), Some(ThreeWayStatus::AddedBothDiff));
    assert_eq!(ThreeWayStatus::from_str("deleted-ours"), Some(ThreeWayStatus::DeletedOurs));
    assert_eq!(ThreeWayStatus::from_str("deleted-theirs"), Some(ThreeWayStatus::DeletedTheirs));
    assert_eq!(ThreeWayStatus::from_str("deleted-both"), Some(ThreeWayStatus::DeletedBoth));
    assert_eq!(ThreeWayStatus::from_str("modify-delete"), Some(ThreeWayStatus::ModifyDelete));
    assert_eq!(ThreeWayStatus::from_str("delete-modify"), Some(ThreeWayStatus::DeleteModify));
    assert_eq!(ThreeWayStatus::from_str("unknown"), None);
}

#[test]
fn test_three_way_status_is_conflict() {
    assert!(ThreeWayStatus::Conflict.is_conflict());
    assert!(ThreeWayStatus::AddedBothDiff.is_conflict());
    assert!(ThreeWayStatus::ModifyDelete.is_conflict());
    assert!(ThreeWayStatus::DeleteModify.is_conflict());
    assert!(!ThreeWayStatus::Unchanged.is_conflict());
    assert!(!ThreeWayStatus::OursOnly.is_conflict());
    assert!(!ThreeWayStatus::TheirsOnly.is_conflict());
    assert!(!ThreeWayStatus::BothSame.is_conflict());
}

#[test]
fn test_check_permissions_mode() {
    assert_eq!(CheckPermissionsMode::from_str("none"), Some(CheckPermissionsMode::Off));
    assert_eq!(CheckPermissionsMode::from_str("scripts"), Some(CheckPermissionsMode::Scripts));
    assert_eq!(CheckPermissionsMode::from_str("all"), Some(CheckPermissionsMode::All));
    assert_eq!(CheckPermissionsMode::from_str("invalid"), None);

    assert_eq!(CheckPermissionsMode::Off.as_str(), "none");
    assert_eq!(CheckPermissionsMode::Scripts.as_str(), "scripts");
    assert_eq!(CheckPermissionsMode::All.as_str(), "all");
}

#[test]
fn test_merge_style() {
    assert_eq!(MergeStyle::from_str("all"), Some(MergeStyle::All));
    assert_eq!(MergeStyle::from_str("ours"), Some(MergeStyle::Ours));
    assert_eq!(MergeStyle::from_str("theirs"), Some(MergeStyle::Theirs));
    assert_eq!(MergeStyle::from_str("invalid"), None);

    assert_eq!(MergeStyle::All.as_str(), "all");
    assert_eq!(MergeStyle::Ours.as_str(), "ours");
    assert_eq!(MergeStyle::Theirs.as_str(), "theirs");
}

#[test]
fn test_color_mode() {
    assert_eq!(ColorMode::from_str("auto"), Some(ColorMode::Auto));
    assert_eq!(ColorMode::from_str("always"), Some(ColorMode::Always));
    assert_eq!(ColorMode::from_str("never"), Some(ColorMode::Never));
    assert_eq!(ColorMode::from_str("invalid"), None);

    assert_eq!(ColorMode::Auto.as_str(), "auto");
    assert_eq!(ColorMode::Always.as_str(), "always");
    assert_eq!(ColorMode::Never.as_str(), "never");
}

#[test]
fn test_log_level() {
    assert_eq!(LogLevel::from_str("error"), Some(LogLevel::Error));
    assert_eq!(LogLevel::from_str("warn"), Some(LogLevel::Warn));
    assert_eq!(LogLevel::from_str("info"), Some(LogLevel::Info));
    assert_eq!(LogLevel::from_str("debug"), Some(LogLevel::Debug));
    assert_eq!(LogLevel::from_str("invalid"), None);

    assert_eq!(LogLevel::Error.as_str(), "error");
    assert_eq!(LogLevel::Warn.as_str(), "warn");
    assert_eq!(LogLevel::Info.as_str(), "info");
    assert_eq!(LogLevel::Debug.as_str(), "debug");
}

#[test]
fn test_comparison_stats_total_changes() {
    let mut stats = ComparisonStats::default();
    assert_eq!(stats.total_changes(), 0);

    stats.added_files = 5;
    stats.modified_files = 3;
    stats.deleted_files = 2;
    stats.added_dirs = 1;
    stats.deleted_dirs = 1;
    assert_eq!(stats.total_changes(), 12);
}

#[test]
fn test_comparison_stats_has_differences() {
    let mut stats = ComparisonStats::default();
    assert!(!stats.has_differences());

    stats.added_files = 1;
    assert!(stats.has_differences());

    stats = ComparisonStats::default();
    stats.symlink_files = 1;
    assert!(stats.has_differences());

    stats = ComparisonStats::default();
    stats.permission_files = 1;
    assert!(stats.has_differences());
}

#[test]
fn test_three_way_stats_total_conflicts() {
    let mut stats = ThreeWayStats::default();
    assert_eq!(stats.total_conflicts(), 0);

    stats.conflict = 2;
    stats.added_both_diff = 1;
    stats.modify_delete = 1;
    stats.delete_modify = 1;
    assert_eq!(stats.total_conflicts(), 5);
}

#[test]
fn test_three_way_stats_has_differences() {
    let mut stats = ThreeWayStats::default();
    stats.total_items = 10;
    stats.unchanged = 10;
    assert!(!stats.has_differences());

    stats.unchanged = 8;
    assert!(stats.has_differences());
}

#[test]
fn test_three_way_stats_has_conflicts() {
    let mut stats = ThreeWayStats::default();
    assert!(!stats.has_conflicts());

    stats.conflict = 1;
    assert!(stats.has_conflicts());
}

#[test]
fn test_status_filter_empty() {
    let filter = StatusFilter::new();
    assert!(filter.is_empty());
    assert!(filter.matches(FileStatus::Added));
    assert!(filter.matches(FileStatus::Deleted));
}

#[test]
fn test_status_filter_included() {
    let mut filter = StatusFilter::new();
    filter.included.insert("added".to_string());
    filter.included.insert("modified".to_string());

    assert!(filter.matches(FileStatus::Added));
    assert!(filter.matches(FileStatus::Modified));
    assert!(!filter.matches(FileStatus::Deleted));
}

#[test]
fn test_status_filter_excluded() {
    let mut filter = StatusFilter::new();
    filter.include_all = true;
    filter.excluded.insert("unchanged".to_string());

    assert!(filter.matches(FileStatus::Added));
    assert!(filter.matches(FileStatus::Modified));
    assert!(!filter.matches(FileStatus::Unchanged));
}

#[test]
fn test_status_filter_three_way() {
    let mut filter = StatusFilter::new();
    filter.included.insert("conflict".to_string());

    assert!(!filter.matches_three_way(ThreeWayStatus::Unchanged));
}

#[test]
fn test_file_entry_new() {
    let entry = FileEntry::new("test.txt".to_string(), FileStatus::Added, false);
    assert_eq!(entry.relative_path, "test.txt".to_string());
    assert_eq!(entry.status, FileStatus::Added);
    assert!(!entry.is_directory);
    assert!(entry.source_size.is_none());
    assert!(entry.target_size.is_none());
}

#[test]
fn test_three_way_entry_new() {
    let entry = ThreeWayEntry::new("test.txt".to_string(), ThreeWayStatus::Conflict, false);
    assert_eq!(entry.relative_path, "test.txt".to_string());
    assert_eq!(entry.status, ThreeWayStatus::Conflict);
    assert!(!entry.is_directory);
    assert!(!entry.base_exists);
    assert!(!entry.ours_exists);
    assert!(!entry.theirs_exists);
}

#[test]
fn test_special_file_type_as_str() {
    assert_eq!(SpecialFileType::Socket.as_str(), "socket");
    assert_eq!(SpecialFileType::Fifo.as_str(), "fifo");
    assert_eq!(SpecialFileType::BlockDevice.as_str(), "block device");
    assert_eq!(SpecialFileType::CharDevice.as_str(), "char device");
}

#[test]
fn test_comparison_result_new() {
    let result = ComparisonResult::new();
    assert!(result.entries.is_empty());
    assert!(result.copy_results.is_empty());
    assert!(result.patch_results.is_empty());
}

#[test]
fn test_three_way_result_new() {
    let result = ThreeWayResult::new();
    assert!(result.entries.is_empty());
    assert!(result.copy_results.is_empty());
}
