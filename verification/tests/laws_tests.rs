use rs_diffcopy::comparator::{calculate_stats, collect_result, compare_all, TwoWayObservation};
use rs_diffcopy::config::Config;
use rs_diffcopy::copier::{copy_allowed, copy_outcome, copy_report, Copier};
use rs_diffcopy::path_order::{merge_paths, path_order, same_place};
use rs_diffcopy::run::{three_way_exit_code, two_way_exit_code};
use rs_diffcopy::summary::SummaryWriter;
use rs_diffcopy::three_way::{self, determine_status, plan_copy, step_paths, Side};
use rs_diffcopy::types::{
    CheckPermissionsMode, ColorMode, ComparisonStats, FileEntry, FileStatus, MergeStyle, ThreeWayEntry, ThreeWayStats, ThreeWayStatus,
};
use std::cmp::Ordering;

fn h(s: &str) -> Option<String> {
    Some(s.to_string())
}

#[test]
fn three_way_status_is_symmetric_in_ours_and_theirs() {
    let pairs = [
        (determine_status(true, true, false, &h("b"), &h("x"), &None), determine_status(true, false, true, &h("b"), &None, &h("x"))),
        (determine_status(true, true, true, &h("b"), &h("x"), &h("b")), determine_status(true, true, true, &h("b"), &h("b"), &h("x"))),
        (determine_status(false, true, false, &None, &h("x"), &None), determine_status(false, false, true, &None, &None, &h("x"))),
    ];
    assert_eq!(pairs[0], (ThreeWayStatus::ModifyDelete, ThreeWayStatus::DeleteModify));
    assert_eq!(pairs[1], (ThreeWayStatus::OursOnly, ThreeWayStatus::TheirsOnly));
    assert_eq!(pairs[2], (ThreeWayStatus::AddedOurs, ThreeWayStatus::AddedTheirs));
}

#[test]
fn conflict_when_both_sides_change_differently() {
    assert_eq!(determine_status(true, true, true, &h("b"), &h("o"), &h("t")), ThreeWayStatus::Conflict);
    assert_eq!(determine_status(true, true, true, &h("b"), &h("n"), &h("n")), ThreeWayStatus::BothSame);
    assert_eq!(determine_status(true, true, true, &h("b"), &h("b"), &h("b")), ThreeWayStatus::Unchanged);
    assert_eq!(determine_status(false, true, true, &None, &h("o"), &h("t")), ThreeWayStatus::AddedBothDiff);
    assert_eq!(determine_status(true, false, false, &h("b"), &None, &None), ThreeWayStatus::DeletedBoth);
}

#[test]
fn two_way_stats_counters_add_up_to_total() {
    let entries = vec![
        FileEntry::new("a".to_string(), FileStatus::Added, true),
        FileEntry::new("a/x".to_string(), FileStatus::Added, false),
        FileEntry::new("b".to_string(), FileStatus::Modified, false),
        FileEntry::new("c".to_string(), FileStatus::Deleted, false),
        FileEntry::new("d".to_string(), FileStatus::Deleted, true),
        FileEntry::new("e".to_string(), FileStatus::Error, false),
        FileEntry::new("f".to_string(), FileStatus::Unchanged, false),
    ];
    let s = calculate_stats(&entries);
    let sum = s.added_files + s.added_dirs + s.modified_files + s.deleted_files + s.deleted_dirs + s.unchanged_files
        + s.symlink_files + s.special_files + s.permission_files + s.error_files;
    assert_eq!(s.total_items, 7);
    assert_eq!(sum, s.total_items);
    assert_eq!((s.added_files, s.added_dirs, s.deleted_files, s.deleted_dirs), (1, 1, 1, 1));
    assert_eq!(s.total_changes(), 5);
}

#[test]
fn three_way_stats_counters_add_up_to_total() {
    let entries = vec![
        ThreeWayEntry::new("a".to_string(), ThreeWayStatus::Conflict, false),
        ThreeWayEntry::new("b".to_string(), ThreeWayStatus::ModifyDelete, false),
        ThreeWayEntry::new("c".to_string(), ThreeWayStatus::OursOnly, false),
        ThreeWayEntry::new("d".to_string(), ThreeWayStatus::Conflict, false),
    ];
    let s = three_way::calculate_stats(&entries);
    assert_eq!(s.total_items, 4);
    assert_eq!(s.conflict, 2);
    assert_eq!(s.total_conflicts(), 3);
    assert_eq!(three_way_exit_code(&s), 3);
}

#[test]
fn exit_codes_follow_the_documented_table() {
    let mut two = ComparisonStats::default();
    assert_eq!(two_way_exit_code(&two), 2);
    two.modified_files = 1;
    assert_eq!(two_way_exit_code(&two), 0);

    let mut three = ThreeWayStats::default();
    three.total_items = 3;
    three.unchanged = 3;
    assert_eq!(three_way_exit_code(&three), 2);
    three.unchanged = 2;
    three.ours_only = 1;
    assert_eq!(three_way_exit_code(&three), 0);
    three.delete_modify = 1;
    assert_eq!(three_way_exit_code(&three), 3);
}

#[test]
fn path_order_compares_component_by_component() {
    assert_eq!(path_order("a/b", "a.txt"), Ordering::Less);
    assert_eq!(path_order("a.txt", "a/b"), Ordering::Greater);
    assert_eq!(path_order("a//b/", "./a/b"), Ordering::Equal);
    assert_eq!(path_order("a", "a/b"), Ordering::Less);
    assert!(same_place("x/./y", "x/y"));
    assert!(!same_place("x/y", "x/z"));
}

#[test]
fn merged_paths_are_sorted_and_each_place_once() {
    let found: Vec<String> = ["b", "a/c", "a", "b", "./a", "a.txt"].iter().map(|s| s.to_string()).collect();
    assert_eq!(merge_paths(&found), vec!["a", "a/c", "a.txt", "b"]);
    assert!(merge_paths(&vec![]).is_empty());
}

#[test]
fn collected_result_keeps_reported_entries_in_order() {
    let outcomes = vec![
        Some(FileEntry::new("a".to_string(), FileStatus::Added, false)),
        None,
        Some(FileEntry::new("b".to_string(), FileStatus::Modified, false)),
        Some(FileEntry::new("c".to_string(), FileStatus::Deleted, true)),
    ];
    let r = collect_result(outcomes);
    let paths: Vec<&str> = r.entries.iter().map(|e| e.relative_path.as_str()).collect();
    assert_eq!(paths, vec!["a", "b", "c"]);
    assert_eq!(r.stats.total_items, 3);
    assert_eq!(r.stats.deleted_dirs, 1);
    assert!(r.copy_results.is_empty() && r.patch_results.is_empty());

    let t = three_way::collect_result(vec![None, Some(ThreeWayEntry::new("x".to_string(), ThreeWayStatus::Conflict, false))]);
    assert_eq!(t.entries.len(), 1);
    assert_eq!(t.stats.conflict, 1);
}

#[test]
fn copy_pairs_name_the_versions() {
    let mut config = Config::default();
    config.source = "src".to_string();
    config.target = "dst/".to_string();
    config.output = "out".to_string();
    config.both_versions = true;
    config.copy_deleted = true;
    let copier = Copier::new(&config);
    let modified = FileEntry::new("d/f.txt".to_string(), FileStatus::Modified, false);
    assert_eq!(
        copier.copy_pairs(&modified),
        vec![
            ("src/d/f.txt".to_string(), "out/d/f.txt.old".to_string()),
            ("dst/d/f.txt".to_string(), "out/d/f.txt.new".to_string()),
        ]
    );
    let deleted = FileEntry::new("g".to_string(), FileStatus::Deleted, false);
    assert_eq!(copier.copy_pairs(&deleted), vec![("src/g".to_string(), "out/g.deleted".to_string())]);
    let added = FileEntry::new("h".to_string(), FileStatus::Added, false);
    config.both_versions = false;
    let copier = Copier::new(&config);
    assert_eq!(copier.copy_pairs(&added), vec![("dst/h".to_string(), "out/h".to_string())]);
    assert_eq!(copier.output_path(&added), "out/h");

    let failed = copy_outcome("h", &Err("disk full".to_string()));
    assert!(!failed.success);
    assert_eq!(failed.error_message, Some("disk full".to_string()));
    assert!(copy_outcome("h", &Ok(())).success);
}

#[test]
fn conflict_copies_every_version_with_its_suffix() {
    let mut e = ThreeWayEntry::new("p/q".to_string(), ThreeWayStatus::Conflict, false);
    e.base_exists = true;
    e.ours_exists = true;
    e.theirs_exists = true;
    let steps = plan_copy(&e, MergeStyle::All);
    assert_eq!(steps.len(), 3);
    assert_eq!(steps[0].from, Side::Base);
    assert_eq!(
        step_paths(steps[2], "p/q", "ours", "theirs", "base", "out"),
        ("theirs/p/q".to_string(), "out/p/q.theirs".to_string())
    );
    assert_eq!(plan_copy(&e, MergeStyle::Ours).len(), 1);
    let md = ThreeWayEntry::new("r".to_string(), ThreeWayStatus::ModifyDelete, false);
    assert!(plan_copy(&md, MergeStyle::Theirs).is_empty());
}

#[test]
fn status_tag_is_painted_when_colour_is_on() {
    colored::control::set_override(true);
    let mut config = Config::default();
    config.color = ColorMode::Always;
    let writer = SummaryWriter::new(&config, false);
    let e = FileEntry::new("a".to_string(), FileStatus::Added, false);
    assert_eq!(writer.format_status_tag(&e, true), "\u{1b}[32m[added]\u{1b}[0m");
    assert_eq!(writer.format_status_tag(&e, false), "[added]");
    config.color = ColorMode::Never;
    let plain = SummaryWriter::new(&config, true);
    assert_eq!(plain.format_status_tag(&e, true), "[added]");
}

#[test]
fn cancellation_flag_is_shared() {
    let token = rs_diffcopy::progress::CancellationToken::new();
    let flag = token.clone_inner();
    assert!(!token.is_cancelled());
    token.cancel();
    assert!(token.is_cancelled());
    assert!(flag.load(std::sync::atomic::Ordering::SeqCst));
}

fn observed(in_base: bool, in_ours: bool, in_theirs: bool, hashes: [Option<&str>; 3], dir: bool) -> three_way::ThreeWayObservation {
    three_way::ThreeWayObservation {
        in_base,
        in_ours,
        in_theirs,
        is_directory: dir,
        base_hash: hashes[0].map(|h| h.to_string()),
        ours_hash: hashes[1].map(|h| h.to_string()),
        theirs_hash: hashes[2].map(|h| h.to_string()),
        base_size: if in_base { Some(1) } else { None },
        ours_size: if in_ours { Some(2) } else { None },
        theirs_size: if in_theirs { Some(3) } else { None },
    }
}

#[test]
fn three_way_result_keeps_path_order_flags_and_counts() {
    let paths = vec!["a.txt".to_string(), "b".to_string(), "b/c.txt".to_string(), "d.txt".to_string()];
    let obs = vec![
        observed(true, true, true, [Some("h1"), Some("h1"), Some("h1")], false),
        observed(false, true, true, [None, None, None], true),
        observed(false, true, false, [None, Some("h2"), None], false),
        observed(true, true, true, [Some("h1"), Some("h2"), Some("h3")], false),
    ];
    let r = three_way::compare_all(&paths, &obs, false, false);
    assert_eq!(r.entries.len(), 2);
    assert_eq!(r.entries[0].relative_path, "b/c.txt");
    assert_eq!(r.entries[0].status, ThreeWayStatus::AddedOurs);
    assert!(!r.entries[0].base_exists && r.entries[0].ours_exists && !r.entries[0].theirs_exists);
    assert_eq!(r.entries[0].ours_size, Some(2));
    assert_eq!(r.entries[1].relative_path, "d.txt");
    assert_eq!(r.entries[1].status, ThreeWayStatus::Conflict);
    assert!(r.entries[1].base_exists && r.entries[1].ours_exists && r.entries[1].theirs_exists);
    assert_eq!(r.stats.added_ours, 1);
    assert_eq!(r.stats.conflict, 1);
    assert_eq!(r.stats.unchanged, 0);
    assert_eq!(r.stats.total_items, 2);
    assert!(r.copy_results.is_empty());

    let with_unchanged = three_way::compare_all(&paths, &obs, true, false);
    assert_eq!(with_unchanged.entries.len(), 3);
    assert_eq!(with_unchanged.entries[0].relative_path, "a.txt");
    assert_eq!(with_unchanged.stats.unchanged, 1);

    let conflicts = three_way::compare_all(&paths, &obs, true, true);
    assert_eq!(conflicts.entries.len(), 1);
    assert_eq!(conflicts.entries[0].relative_path, "d.txt");
}

#[test]
fn copy_reports_one_per_chosen_entry() {
    let entries = vec![
        FileEntry::new("a.txt".to_string(), FileStatus::Added, false),
        FileEntry::new("b.txt".to_string(), FileStatus::Unchanged, false),
        FileEntry::new("c.txt".to_string(), FileStatus::Modified, false),
    ];
    let chosen = vec![0usize, 2];
    let outcomes = vec![Ok(()), Err("disk full".to_string())];
    let r = copy_report(&entries, &chosen, &outcomes);
    assert_eq!(r.len(), 2);
    assert_eq!(r[0].path, "a.txt");
    assert!(r[0].success);
    assert_eq!(r[0].error_message, None);
    assert_eq!(r[1].path, "c.txt");
    assert!(!r[1].success);
    assert_eq!(r[1].error_message.as_deref(), Some("disk full"));
}

#[test]
fn three_way_copy_reports_one_per_entry() {
    let entries = vec![
        ThreeWayEntry::new("x.txt".to_string(), ThreeWayStatus::OursOnly, false),
        ThreeWayEntry::new("y.txt".to_string(), ThreeWayStatus::Conflict, false),
    ];
    let r = three_way::three_way_copy_report(&entries, &vec![Err("busy".to_string()), Ok(())]);
    assert_eq!(r.len(), 2);
    assert_eq!(r[0].path, "x.txt");
    assert!(!r[0].success);
    assert_eq!(r[0].error_message.as_deref(), Some("busy"));
    assert_eq!(r[1].path, "y.txt");
    assert!(r[1].success);
}

fn seen(in_source: bool, in_target: bool, hashes: (Option<&str>, Option<&str>), modes: (Option<&str>, Option<&str>)) -> TwoWayObservation {
    TwoWayObservation {
        in_source,
        in_target,
        source_is_symlink: false,
        target_is_symlink: false,
        special: None,
        is_directory: false,
        source_size: if in_source { Ok(4) } else { Err("missing".to_string()) },
        target_size: if in_target { Ok(4) } else { Err("missing".to_string()) },
        source_hash: hashes.0.map(|h| h.to_string()),
        target_hash: hashes.1.map(|h| h.to_string()),
        source_mode: modes.0.map(|m| m.to_string()),
        target_mode: modes.1.map(|m| m.to_string()),
        source_link: None,
        target_link: None,
        source_link_is_dir: false,
        target_link_is_dir: false,
        source_link_broken: false,
        target_link_broken: false,
    }
}

#[test]
fn two_way_result_keeps_path_order_and_counts() {
    let paths = vec!["a.txt".to_string(), "b.sh".to_string(), "c.txt".to_string(), "d.txt".to_string()];
    let obs = vec![
        seen(true, true, (Some("h"), Some("h")), (None, None)),
        seen(true, true, (Some("h"), Some("h")), (Some("755"), Some("644"))),
        seen(false, true, (None, Some("x")), (None, None)),
        seen(true, true, (Some("h"), Some("k")), (None, None)),
    ];
    let r = compare_all(&paths, &obs, CheckPermissionsMode::Scripts, false);
    assert_eq!(r.entries.len(), 3);
    assert_eq!(r.entries[0].relative_path, "b.sh");
    assert_eq!(r.entries[0].status, FileStatus::Permission);
    assert_eq!(r.entries[1].relative_path, "c.txt");
    assert_eq!(r.entries[1].status, FileStatus::Added);
    assert_eq!(r.entries[2].relative_path, "d.txt");
    assert_eq!(r.entries[2].status, FileStatus::Modified);
    assert_eq!(r.stats.permission_files, 1);
    assert_eq!(r.stats.added_files, 1);
    assert_eq!(r.stats.modified_files, 1);
    assert_eq!(r.stats.unchanged_files, 1);
    assert_eq!(r.stats.total_items, 4);

    let unchecked = compare_all(&paths, &obs, CheckPermissionsMode::Off, true);
    assert_eq!(unchecked.entries.len(), 4);
    assert_eq!(unchecked.entries[0].status, FileStatus::Unchanged);
    assert_eq!(unchecked.entries[1].status, FileStatus::Unchanged);
    assert_eq!(unchecked.stats.unchanged_files, 2);
    assert_eq!(unchecked.stats.total_items, 4);
}

#[test]
fn unchanged_and_total_count_every_compared_path() {
    let paths = vec![
        "added.txt".to_string(),
        "deleted.txt".to_string(),
        "modified.txt".to_string(),
        "subdir".to_string(),
        "unchanged1.txt".to_string(),
        "unchanged2.txt".to_string(),
    ];
    let mut dir = seen(true, true, (None, None), (None, None));
    dir.is_directory = true;
    let obs = vec![
        seen(false, true, (None, Some("n")), (None, None)),
        seen(true, false, (Some("d"), None), (None, None)),
        seen(true, true, (Some("old"), Some("new")), (None, None)),
        dir,
        seen(true, true, (Some("s"), Some("s")), (None, None)),
        seen(true, true, (Some("t"), Some("t")), (None, None)),
    ];
    for show in [false, true] {
        let r = compare_all(&paths, &obs, CheckPermissionsMode::Off, show);
        assert_eq!(r.stats.added_files, 1);
        assert_eq!(r.stats.modified_files, 1);
        assert_eq!(r.stats.deleted_files, 1);
        assert_eq!(r.stats.unchanged_files, 3);
        assert_eq!(r.stats.total_items, 6);
        assert_eq!(r.entries.len(), if show { 5 } else { 3 });
    }
}

#[test]
fn dry_run_copies_nothing() {
    let mut config = Config::default();
    config.dry_run = true;
    let entries = vec![
        FileEntry::new("a.txt".to_string(), FileStatus::Added, false),
        FileEntry::new("b.txt".to_string(), FileStatus::Modified, false),
    ];
    assert!(!copy_allowed(&config));
    assert!(Copier::new(&config).copy_plan(&entries).is_none());
    let three = vec![ThreeWayEntry::new("x.txt".to_string(), ThreeWayStatus::OursOnly, false)];
    assert!(three_way::copy_plans(&three, MergeStyle::All, true).is_empty());

    config.dry_run = false;
    assert!(copy_allowed(&config));
    assert_eq!(Copier::new(&config).copy_plan(&entries), Some(vec![0, 1]));
    assert_eq!(three_way::copy_plans(&three, MergeStyle::All, false).len(), 1);
}

#[test]
fn statistics_end_with_total_unless_filtered() {
    let config = Config::default();
    let writer = SummaryWriter::new(&config, false);
    let mut stats = ComparisonStats::default();
    stats.added_files = 1;
    stats.unchanged_files = 2;
    stats.total_items = 3;
    let text = writer.generate_statistics(&stats, false);
    assert!(text.ends_with("Total:        3 items\n"));
    assert!(!text.contains("Showing:"));
    assert!(text.contains("Unchanged:    2 files\n"));
    assert!(!text.contains("Symlinks:"));
}
