use rs_diffcopy::config::Config;
use rs_diffcopy::excel::ExcelWriter;
use rs_diffcopy::filter::format_filter_status;
use rs_diffcopy::sheet::{apply_row_grouping_expanded, calculate_boundary_rows, Tone};
use rs_diffcopy::text::same_prefix;
use rs_diffcopy::tree_layout::{layout_rows, TreeItem};
use rs_diffcopy::types::{CheckPermissionsMode, FileEntry, FileStatus, StatusFilter};
use rs_diffcopy::utils::components;

fn base_config() -> Config {
    let mut c = Config::default();
    c.source = "/test/source".to_string();
    c.target = "/test/target".to_string();
    c.output = "/test/output".to_string();
    c
}

fn create_test_config() -> Config {
    let mut c = base_config();
    c.excel = Some("/test/report.xlsx".to_string());
    c.excel_fold_level = Some(2);
    c.dry_run = true;
    c.both_versions = true;
    c.copy_deleted = true;
    c.preserve_timestamps = true;
    c.check_permissions = CheckPermissionsMode::Scripts;
    c.patch = true;
    c.patch_file = Some("/test/combined.patch".to_string());
    c.show_unchanged = true;
    c.exclude = vec!["*.log".to_string(), "node_modules/**".to_string()];
    c.stats_only = false;
    c.no_tree = false;
    c.no_details = false;
    c
}

fn should_write(prev: &Vec<String>, curr: &Vec<String>, i: usize) -> bool {
    if i < prev.len() {
        !same_prefix(curr, prev, i + 1)
    } else {
        true
    }
}

fn strings(v: &[&str]) -> Vec<String> {
    v.iter().map(|s| s.to_string()).collect()
}

#[test]
fn test_collect_options_all_enabled() {
    let config = create_test_config();
    let writer = ExcelWriter::new(&config);
    let options = writer.collect_options();

    assert!(options.iter().any(|(k, _)| k == "Mode:"));
    assert!(options.iter().any(|(k, _)| k == "Copy mode:"));
    assert!(options.iter().any(|(k, _)| k == "Copy deleted:"));
    assert!(options.iter().any(|(k, _)| k == "Preserve timestamps:"));
    assert!(options.iter().any(|(k, _)| k == "Permission check:"));
    assert!(options.iter().any(|(k, _)| k == "Patch mode:"));
    assert!(options.iter().any(|(k, _)| k == "Combined patch file:"));
    assert!(options.iter().any(|(k, _)| k == "Show unchanged:"));
    assert!(options.iter().any(|(k, _)| k == "Exclude patterns:"));
}

#[test]
fn test_collect_options_minimal() {
    let config = base_config();
    let writer = ExcelWriter::new(&config);
    let options = writer.collect_options();

    assert!(options.is_empty());
}

#[test]
fn test_collect_options_permission_check_all() {
    let mut config = base_config();
    config.check_permissions = CheckPermissionsMode::All;
    let writer = ExcelWriter::new(&config);
    let options = writer.collect_options();

    let perm_option = options.iter().find(|(k, _)| k == "Permission check:");
    assert!(perm_option.is_some());
    assert_eq!(perm_option.unwrap().1, "all");
}

#[test]
fn test_collect_options_filter_status() {
    let mut filter = StatusFilter::new();
    filter.included.insert("added".to_string());
    filter.included.insert("modified".to_string());

    let mut config = base_config();
    config.filter_status = filter;
    let writer = ExcelWriter::new(&config);
    let options = writer.collect_options();

    let filter_option = options.iter().find(|(k, _)| k == "Filter status:");
    assert!(filter_option.is_some());
    let value = &filter_option.unwrap().1;
    assert!(value.contains("added"));
    assert!(value.contains("modified"));
}

#[test]
fn test_collect_options_filter_status_empty() {
    let config = base_config();
    let writer = ExcelWriter::new(&config);
    let options = writer.collect_options();

    let filter_option = options.iter().find(|(k, _)| k == "Filter status:");
    assert!(filter_option.is_none());
}

#[test]
fn test_get_entry_details_modified() {
    let config = Config::default();
    let writer = ExcelWriter::new(&config);

    let mut entry = FileEntry::new("test.txt".to_string(), FileStatus::Modified, false);
    entry.source_size = Some(100);
    entry.target_size = Some(200);

    let details = writer.get_entry_details(&entry);
    assert_eq!(details, "100 -> 200 bytes");
}

#[test]
fn test_get_entry_details_error() {
    let config = Config::default();
    let writer = ExcelWriter::new(&config);

    let mut entry = FileEntry::new("test.txt".to_string(), FileStatus::Error, false);
    entry.error_message = Some("Permission denied".to_string());

    let details = writer.get_entry_details(&entry);
    assert_eq!(details, "Permission denied");
}

#[test]
fn test_apply_row_grouping() {
    let entries: Vec<FileEntry> = vec![
        FileEntry::new("a/file1.txt".to_string(), FileStatus::Added, false),
        FileEntry::new("a/b/file2.txt".to_string(), FileStatus::Added, false),
        FileEntry::new("a/b/c/file3.txt".to_string(), FileStatus::Added, false),
        FileEntry::new("x/file4.txt".to_string(), FileStatus::Added, false),
    ];

    assert_eq!(components(&entries[0].relative_path).len(), 2);
    assert_eq!(components(&entries[1].relative_path).len(), 3);
    assert_eq!(components(&entries[2].relative_path).len(), 4);
    assert_eq!(components(&entries[3].relative_path).len(), 2);
}

#[test]
fn test_format_filter_status_all_with_exclusion() {
    let mut filter = StatusFilter::new();
    filter.include_all = true;
    filter.excluded.insert("deleted".to_string());

    let result = format_filter_status(&filter);
    assert!(result.contains("all"));
    assert!(result.contains("^deleted"));
}

#[test]
fn test_format_filter_status_only_exclusions() {
    let mut filter = StatusFilter::new();
    filter.excluded.insert("deleted".to_string());
    filter.excluded.insert("unchanged".to_string());

    let result = format_filter_status(&filter);
    assert!(result.contains("all (implied)"));
    assert!(result.contains("^deleted"));
    assert!(result.contains("^unchanged"));
}

#[test]
fn test_format_filter_status_included_only() {
    let mut filter = StatusFilter::new();
    filter.included.insert("added".to_string());
    filter.included.insert("modified".to_string());

    let result = format_filter_status(&filter);
    assert!(result.contains("added"));
    assert!(result.contains("modified"));
    assert!(!result.contains("all"));
}

#[test]
fn test_format_filter_status_all_only() {
    let mut filter = StatusFilter::new();
    filter.include_all = true;

    let result = format_filter_status(&filter);
    assert_eq!(result, "all");
}

#[test]
fn test_row_info_depth_calculation() {
    let entries: Vec<FileEntry> = vec![FileEntry::new("a/b/c/d.txt".to_string(), FileStatus::Added, false)];
    assert_eq!(components(&entries[0].relative_path).len(), 4);
}

#[test]
fn test_row_info_boundary_detection() {
    let row_info: Vec<(usize, bool, String)> = vec![
        (1, true, "a.txt".to_string()),
        (1, false, "b".to_string()),
        (2, true, "b".to_string()),
        (2, false, "b".to_string()),
        (3, true, "b".to_string()),
        (1, false, "c".to_string()),
        (2, true, "c".to_string()),
        (2, false, "c".to_string()),
        (3, true, "c".to_string()),
    ];

    assert_ne!(&row_info[0].2, &row_info[1].2);
    assert_ne!(&row_info[4].2, &row_info[5].2);
    assert_eq!(row_info.len() - 1, 8);

    let firsts: Vec<String> = row_info.iter().map(|r| r.2.clone()).collect();
    let bottoms = calculate_boundary_rows(&firsts);
    assert_eq!(bottoms, vec![true, false, false, false, true, false, false, false, true]);
}

#[test]
fn test_row_grouping_expanded_fold_level_2() {
    let row_info: Vec<(usize, bool, String)> = vec![
        (1, true, "a.txt".to_string()),
        (1, false, "b".to_string()),
        (2, true, "b".to_string()),
        (2, false, "b".to_string()),
        (3, true, "b".to_string()),
        (1, false, "c".to_string()),
        (2, true, "c".to_string()),
        (2, false, "c".to_string()),
        (3, true, "c".to_string()),
    ];

    let fold_level = 2;

    assert!(row_info[2].0 >= fold_level);
    assert!(row_info[3].0 >= fold_level);
    assert!(row_info[4].0 >= fold_level);
    assert!(row_info[5].0 < fold_level);
    assert!(row_info[6].0 >= fold_level);
    assert!(row_info[7].0 >= fold_level);
    assert!(row_info[8].0 >= fold_level);

    let depths: Vec<usize> = row_info.iter().map(|r| r.0).collect();
    assert_eq!(apply_row_grouping_expanded(&depths, fold_level), vec![(3, 5), (7, 9)]);
}

#[test]
fn test_row_grouping_expanded_fold_level_3() {
    let row_info: Vec<(usize, bool, String)> = vec![
        (1, true, "a.txt".to_string()),
        (1, false, "b".to_string()),
        (2, true, "b".to_string()),
        (2, false, "b".to_string()),
        (3, true, "b".to_string()),
        (1, false, "c".to_string()),
        (2, true, "c".to_string()),
        (2, false, "c".to_string()),
        (3, true, "c".to_string()),
    ];

    let fold_level = 3;

    assert!(row_info[4].0 >= fold_level);
    assert!(row_info[5].0 < fold_level);
    assert!(row_info[8].0 >= fold_level);

    let depths: Vec<usize> = row_info.iter().map(|r| r.0).collect();
    assert_eq!(apply_row_grouping_expanded(&depths, fold_level), vec![(5, 5), (9, 9)]);
}

#[test]
fn test_path_expansion_components() {
    let components = components("a/b/c/d.txt");

    assert_eq!(components.len(), 4);
    assert_eq!(components[0], "a");
    assert_eq!(components[1], "b");
    assert_eq!(components[2], "c");
    assert_eq!(components[3], "d.txt");
}

#[test]
fn test_cell_deduplication_logic() {
    let prev_components = strings(&["b", "e"]);
    let curr_components = strings(&["b", "e", "g.txt"]);

    assert!(!should_write(&prev_components, &curr_components, 0), "Column 0 should not be written (same as prev)");
    assert!(!should_write(&prev_components, &curr_components, 1), "Column 1 should not be written (same as prev)");
    assert!(should_write(&prev_components, &curr_components, 2), "Column 2 should be written (not in prev)");

    let items = vec![TreeItem {
        components: curr_components.clone(),
        is_directory: false,
        status: "added".to_string(),
        tone: Tone::Added,
    }];
    let rows = layout_rows(&items);
    assert_eq!(rows.len(), 3);
    assert_eq!(rows[2].labels, strings(&["", "", "g.txt"]));
}

#[test]
fn test_cell_deduplication_parent_changed() {
    let prev_components = strings(&["b", "d.txt"]);
    let curr_components = strings(&["b", "e"]);
    assert!(should_write(&prev_components, &curr_components, 1), "Column 1 should be written (different from prev)");

    let prev_components2 = strings(&["b", "e", "g.txt"]);
    let curr_components2 = strings(&["c", "e.txt"]);
    assert!(should_write(&prev_components2, &curr_components2, 0), "Column 0 should be written (different first-level)");
    assert!(should_write(&prev_components2, &curr_components2, 1), "Column 1 should be written (parent changed)");
}

#[test]
fn layout_gives_each_entry_one_row_in_order() {
    let item = |c: &[&str], status: &str, tone: Tone| TreeItem {
        components: strings(c),
        is_directory: false,
        status: status.to_string(),
        tone,
    };
    let items = vec![
        item(&["a", "x.txt"], "added", Tone::Added),
        item(&["a", "y.txt"], "deleted", Tone::Deleted),
        item(&["b.txt"], "modified", Tone::Modified),
    ];
    let rows = layout_rows(&items);
    let entry_rows: Vec<(usize, String)> =
        rows.iter().filter(|r| r.is_file).map(|r| (r.depth, r.status.clone())).collect();
    assert_eq!(
        entry_rows,
        vec![(2, "added".to_string()), (2, "deleted".to_string()), (1, "modified".to_string())]
    );
    assert_eq!(rows.len(), 4);
    assert_eq!(rows[0].labels, strings(&["a/"]));
    assert_eq!(rows[2].labels, strings(&["", "y.txt"]));
}
