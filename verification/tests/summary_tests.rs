use rs_diffcopy::comparator::collect_result;
use rs_diffcopy::config::Config;
use rs_diffcopy::summary::SummaryWriter;
use rs_diffcopy::types::{ComparisonResult, FileEntry, FileStatus};

fn config() -> Config {
    let mut c = Config::default();
    c.source = "s".to_string();
    c.target = "t".to_string();
    c.output = "o".to_string();
    c.summary = Some("sum.txt".to_string());
    c
}

#[test]
fn summary_of_no_differences() {
    let c = config();
    let w = SummaryWriter::new(&c, false);
    let out = w.write(&ComparisonResult::new(), "2024-01-02 03:04:05");
    let expected = "rs_diffcopy Summary\n===================\nSource: s\nTarget: t\nOutput: o\nDate: 2024-01-02 03:04:05\n\n\
Added:        0 files\nModified:     0 files\nDeleted:      0 files\nUnchanged:    0 files\n\
--------------------------\nTotal:        0 items\n\nNo differences found.\n";
    assert_eq!(out.console, expected);
    let (path, text) = out.file.unwrap();
    assert_eq!(path, "sum.txt");
    assert_eq!(text, expected);
}

#[test]
fn summary_file_tree_is_aligned_in_the_file() {
    let c = config();
    let w = SummaryWriter::new(&c, false);
    let result = collect_result(vec![
        Some(FileEntry::new("d/a.txt".to_string(), FileStatus::Added, false)),
        Some(FileEntry::new("d/bb.txt".to_string(), FileStatus::Added, false)),
    ]);
    let out = w.write(&result, "now");
    let (_, text) = out.file.unwrap();
    assert!(text.contains("Added:        2 files\n"));
    assert!(text.contains("================\nFile Tree\n================\n.\nd /\n├── a.txt  [added]\n└── bb.txt [added]\n"));
    assert!(out.console.contains(".\nd /\n├── a.txt [added]\n└── bb.txt [added]\n"));
}

#[test]
fn stats_only_shortens_the_console_only() {
    let mut c = config();
    c.stats_only = true;
    let w = SummaryWriter::new(&c, false);
    let result = collect_result(vec![Some(FileEntry::new("a.txt".to_string(), FileStatus::Added, false))]);
    let out = w.write(&result, "now");
    assert!(!out.console.contains("File Tree"));
    assert!(!out.console.contains("Added Files"));
    let (_, text) = out.file.unwrap();
    assert!(text.contains("File Tree"));
    assert!(text.contains("a.txt [added]"));
    assert!(text.contains("Added Files"));
}

#[test]
fn tree_siblings_are_in_name_order_once_each() {
    let c = config();
    let w = SummaryWriter::new(&c, false);
    let entries = vec![
        FileEntry::new("b/z.txt".to_string(), FileStatus::Added, false),
        FileEntry::new("a.txt".to_string(), FileStatus::Added, false),
        FileEntry::new("b/y.txt".to_string(), FileStatus::Deleted, false),
        FileEntry::new("B".to_string(), FileStatus::Modified, false),
    ];
    let tree = w.build_tree(&entries);
    let names: Vec<&str> = tree.iter().map(|n| n.name.as_str()).collect();
    assert_eq!(names, vec!["B", "a.txt", "b"]);
    let b = &tree[2];
    assert_eq!(b.entry, None);
    let kids: Vec<(&str, Option<usize>)> = b.children.iter().map(|n| (n.name.as_str(), n.entry)).collect();
    assert_eq!(kids, vec![("y.txt", Some(2)), ("z.txt", Some(0))]);
}
