use rs_diffcopy::error::DiffCopyError;
use rs_diffcopy::filter::parse_filter_status_vec;
use rs_diffcopy::types::{FileStatus, StatusFilter, ThreeWayStatus};

const TWO_WAY: [FileStatus; 8] = [
    FileStatus::Added,
    FileStatus::Modified,
    FileStatus::Deleted,
    FileStatus::Unchanged,
    FileStatus::Symlink,
    FileStatus::Special,
    FileStatus::Permission,
    FileStatus::Error,
];

fn parse(v: &[&str]) -> StatusFilter {
    parse_filter_status_vec(&v.iter().map(|s| s.to_string()).collect()).unwrap()
}

fn shown(f: &StatusFilter) -> Vec<FileStatus> {
    TWO_WAY.iter().copied().filter(|s| f.matches(*s)).collect()
}

#[test]
fn filter_added_and_modified_shows_only_those() {
    assert_eq!(shown(&parse(&["added", "modified"])), vec![FileStatus::Added, FileStatus::Modified]);
}

#[test]
fn filter_leading_exclusion_implies_all() {
    let f = parse(&["^unchanged"]);
    assert!(f.include_all);
    let expected: Vec<FileStatus> = TWO_WAY.iter().copied().filter(|s| *s != FileStatus::Unchanged).collect();
    assert_eq!(shown(&f), expected);
}

#[test]
fn filter_all_with_exclusions() {
    let f = parse(&["all", "^added", "^deleted"]);
    let expected: Vec<FileStatus> =
        TWO_WAY.iter().copied().filter(|s| *s != FileStatus::Added && *s != FileStatus::Deleted).collect();
    assert_eq!(shown(&f), expected);
}

#[test]
fn filter_aliases_name_their_status() {
    assert_eq!(shown(&parse(&["add"])), vec![FileStatus::Added]);
    assert_eq!(shown(&parse(&["a"])), vec![FileStatus::Added]);
    assert_eq!(shown(&parse(&["ADDED"])), vec![FileStatus::Added]);
}

#[test]
fn filter_error_and_symlink() {
    assert_eq!(shown(&parse(&["error", "symlink"])), vec![FileStatus::Symlink, FileStatus::Error]);
}

#[test]
fn filter_three_way_groups_expand() {
    let conflicts = parse(&["conflicts"]);
    assert!(conflicts.matches_three_way(ThreeWayStatus::Conflict));
    assert!(conflicts.matches_three_way(ThreeWayStatus::ModifyDelete));
    assert!(conflicts.matches_three_way(ThreeWayStatus::DeleteModify));
    assert!(conflicts.matches_three_way(ThreeWayStatus::AddedBothDiff));
    assert!(!conflicts.matches_three_way(ThreeWayStatus::OursOnly));

    let added = parse(&["added"]);
    assert!(added.matches_three_way(ThreeWayStatus::AddedOurs));
    assert!(added.matches_three_way(ThreeWayStatus::AddedBothSame));
    assert!(!added.matches_three_way(ThreeWayStatus::DeletedOurs));

    let not_added = parse(&["^added"]);
    assert!(!not_added.matches_three_way(ThreeWayStatus::AddedTheirs));
    assert!(not_added.matches_three_way(ThreeWayStatus::Conflict));
}

#[test]
fn filter_rejects_unknown_keyword() {
    match parse_filter_status_vec(&vec!["added".to_string(), "bogus".to_string()]) {
        Err(DiffCopyError::InvalidFilterStatus(s)) => assert_eq!(s, "bogus"),
        other => panic!("unexpected {:?}", other),
    }
}

#[test]
fn filter_empty_shows_everything() {
    let f = parse(&[]);
    assert!(f.is_empty());
    assert_eq!(shown(&f), TWO_WAY.to_vec());
}
