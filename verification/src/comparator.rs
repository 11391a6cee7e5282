//! Two-way comparison: classification of each path from what the file
//! system shows of it in the source and target trees, and statistics.
use vstd::prelude::*;

use crate::path_order::{kept_outcomes, lemma_kept_from, lemma_kept_has, lemma_kept_in_order, paths_increasing};
use crate::text::texts;
use crate::three_way::{hashes_equal, same_hash};
use crate::types::{
    count_where, lemma_count_le_len, CheckPermissionsMode, ComparisonResult, ComparisonStats, FileEntry, FileStatus,
    PermissionChange, SpecialFileType, SymlinkInfo,
};

verus! {

/// What the file system shows of one path in the source and target trees.
#[derive(Debug)]
pub struct TwoWayObservation {
    pub in_source: bool,
    pub in_target: bool,
    pub source_is_symlink: bool,
    pub target_is_symlink: bool,
    /// The special file type of the source path, else of the target path.
    pub special: Option<SpecialFileType>,
    /// The path is a directory (following links) in at least one tree.
    pub is_directory: bool,
    /// The file size, or the message of the failed metadata read.
    pub source_size: Result<u64, String>,
    pub target_size: Result<u64, String>,
    pub source_hash: Option<String>,
    pub target_hash: Option<String>,
    /// The permission mode text, where it could be read.
    pub source_mode: Option<String>,
    pub target_mode: Option<String>,
    /// Symlink targets, where the link could be read.
    pub source_link: Option<String>,
    pub target_link: Option<String>,
    /// Whether the path, followed through links, is a directory.
    pub source_link_is_dir: bool,
    pub target_link_is_dir: bool,
    pub source_link_broken: bool,
    pub target_link_broken: bool,
}

/// Whether a permission change is reported: permissions are checked for the
/// path and both modes are known and differ.
pub open spec fn permission_differs(obs: TwoWayObservation, check: bool) -> bool {
    check && obs.source_mode is Some && obs.target_mode is Some
        && obs.source_mode->0@ != obs.target_mode->0@
}

/// Which symlink, if any, is reported: the target side's when only the
/// target has a link or both have links to different targets, the source
/// side's when only the source has one.
pub open spec fn reported_link(obs: TwoWayObservation) -> Option<bool> {
    let ls = obs.in_source && obs.source_is_symlink;
    let lt = obs.in_target && obs.target_is_symlink;
    if !ls && lt {
        Some(true)
    } else if ls && !lt {
        Some(false)
    } else if ls && lt && !same_hash(obs.source_link, obs.target_link) {
        Some(true)
    } else {
        None
    }
}

/// The content of a file present in both trees changed.
pub open spec fn content_changed(obs: TwoWayObservation) -> bool {
    obs.source_size->Ok_0 != obs.target_size->Ok_0 || !same_hash(obs.source_hash, obs.target_hash)
}

/// The status of the entry reported for a path, if any. `check` tells
/// whether permissions are checked for the path.
pub open spec fn two_way_outcome(obs: TwoWayObservation, check: bool, show_unchanged: bool) -> Option<FileStatus> {
    if obs.source_is_symlink || obs.target_is_symlink {
        if reported_link(obs) is Some { Some(FileStatus::Symlink) } else { None }
    } else if obs.special is Some {
        Some(FileStatus::Special)
    } else if !obs.in_source && obs.in_target {
        Some(FileStatus::Added)
    } else if obs.in_source && !obs.in_target {
        Some(FileStatus::Deleted)
    } else if obs.in_source && obs.in_target {
        if obs.is_directory {
            if permission_differs(obs, check) { Some(FileStatus::Permission) } else { None }
        } else if obs.source_size is Err || obs.target_size is Err {
            Some(FileStatus::Error)
        } else if content_changed(obs) {
            Some(FileStatus::Modified)
        } else if permission_differs(obs, check) {
            Some(FileStatus::Permission)
        } else if show_unchanged {
            Some(FileStatus::Unchanged)
        } else {
            None
        }
    } else {
        None
    }
}

/// The size of a successful metadata read.
pub open spec fn ok_size(m: Result<u64, String>) -> Option<u64> {
    match m {
        Ok(n) => Some(n),
        Err(_) => None,
    }
}

fn size_of(m: &Result<u64, String>) -> (r: Option<u64>)
    ensures
        r == ok_size(*m),
{
    match m {
        Ok(n) => Some(*n),
        Err(_) => None,
    }
}

/// How a path that is no link and no special file is classified, by where it
/// is present and what its two versions hold: a path only in the target is
/// added and one only in the source is deleted; a file in both is an error
/// when a size could not be read, else modified when the sizes or contents
/// differ, else a permission change when permissions are checked and the
/// two known modes differ, else unchanged (listed only when asked for); a
/// directory in both is listed only for a permission change.
pub proof fn lemma_plain_path_classification(obs: TwoWayObservation, check: bool, show_unchanged: bool)
    requires
        !obs.source_is_symlink && !obs.target_is_symlink,
        obs.special is None,
    ensures
        !obs.in_source && obs.in_target ==> two_way_outcome(obs, check, show_unchanged) == Some(FileStatus::Added),
        obs.in_source && !obs.in_target ==> two_way_outcome(obs, check, show_unchanged) == Some(FileStatus::Deleted),
        !obs.in_source && !obs.in_target ==> two_way_outcome(obs, check, show_unchanged) is None,
        obs.in_source && obs.in_target && !obs.is_directory ==> two_way_outcome(obs, check, show_unchanged) == (if obs.source_size is Err
            || obs.target_size is Err {
            Some(FileStatus::Error)
        } else if obs.source_size->Ok_0 != obs.target_size->Ok_0 || !same_hash(obs.source_hash, obs.target_hash) {
            Some(FileStatus::Modified)
        } else if check && obs.source_mode is Some && obs.target_mode is Some && obs.source_mode->0@ != obs.target_mode->0@ {
            Some(FileStatus::Permission)
        } else if show_unchanged {
            Some(FileStatus::Unchanged)
        } else {
            None
        }),
        obs.in_source && obs.in_target && obs.is_directory ==> two_way_outcome(obs, check, show_unchanged) == (if check
            && obs.source_mode is Some && obs.target_mode is Some && obs.source_mode->0@ != obs.target_mode->0@ {
            Some(FileStatus::Permission)
        } else {
            None
        }),
{
}

/// A link on one side only is reported as a Symlink entry that takes that
/// side's link.
pub proof fn lemma_one_sided_link_reported(obs: TwoWayObservation, check: bool, show_unchanged: bool)
    ensures
        obs.in_target && obs.target_is_symlink && !(obs.in_source && obs.source_is_symlink) ==> two_way_outcome(
            obs,
            check,
            show_unchanged,
        ) == Some(FileStatus::Symlink) && reported_link(obs) == Some(true),
        obs.in_source && obs.source_is_symlink && !(obs.in_target && obs.target_is_symlink) ==> two_way_outcome(
            obs,
            check,
            show_unchanged,
        ) == Some(FileStatus::Symlink) && reported_link(obs) == Some(false),
{
}

/// When both trees hold a symlink at a path, the path is reported exactly
/// when the two link targets differ, as a Symlink entry that takes the
/// target tree's link; two links to the same target give no entry.
pub proof fn lemma_retargeted_link_reported(obs: TwoWayObservation, check: bool, show_unchanged: bool)
    requires
        obs.in_source && obs.source_is_symlink,
        obs.in_target && obs.target_is_symlink,
    ensures
        two_way_outcome(obs, check, show_unchanged) == (if same_hash(obs.source_link, obs.target_link) {
            None
        } else {
            Some(FileStatus::Symlink)
        }),
        !same_hash(obs.source_link, obs.target_link) ==> reported_link(obs) == Some(true),
{
}

/// The text that stands for a link target that could not be read.
pub open spec fn unknown_target() -> Seq<char> {
    "(unknown target)"@
}

/// The permission change that a reported entry carries.
pub open spec fn carries_permission_change(e: FileEntry, obs: TwoWayObservation, check: bool, rel: Seq<char>) -> bool {
    if permission_differs(obs, check) {
        &&& e.permission_change is Some
        &&& e.permission_change->0.path@ == rel
        &&& e.permission_change->0.old_mode@ == obs.source_mode->0@
        &&& e.permission_change->0.new_mode@ == obs.target_mode->0@
    } else {
        e.permission_change is None
    }
}

/// The details that an entry with the given status carries.
pub open spec fn entry_details(e: FileEntry, obs: TwoWayObservation, check: bool, rel: Seq<char>) -> bool {
    match e.status {
        FileStatus::Symlink => {
            let from_target = reported_link(obs)->0;
            let link = if from_target { obs.target_link } else { obs.source_link };
            &&& !e.is_directory
            &&& e.symlink_info is Some
            &&& e.symlink_info->0.path@ == rel
            &&& e.symlink_info->0.target@ == (if link is Some { link->0@ } else { unknown_target() })
            &&& e.symlink_info->0.is_directory == (if from_target { obs.target_link_is_dir } else { obs.source_link_is_dir })
            &&& e.symlink_info->0.is_broken == (if from_target { obs.target_link_broken } else { obs.source_link_broken })
        },
        FileStatus::Special => !e.is_directory && e.special_type == obs.special,
        FileStatus::Added => {
            &&& e.is_directory == obs.is_directory
            &&& (if obs.is_directory {
                e.target_size is None && e.target_hash is None
            } else {
                e.target_size == ok_size(obs.target_size) && e.target_hash == obs.target_hash
            })
            &&& e.source_size is None && e.source_hash is None
        },
        FileStatus::Deleted => {
            &&& e.is_directory == obs.is_directory
            &&& (if obs.is_directory {
                e.source_size is None && e.source_hash is None
            } else {
                e.source_size == ok_size(obs.source_size) && e.source_hash == obs.source_hash
            })
            &&& e.target_size is None && e.target_hash is None
        },
        FileStatus::Error => {
            &&& !e.is_directory
            &&& e.error_message is Some
            &&& (if obs.source_size is Err {
                e.error_message->0@ == obs.source_size->Err_0@
            } else {
                e.error_message->0@ == obs.target_size->Err_0@
            })
        },
        FileStatus::Modified => {
            &&& !e.is_directory
            &&& e.source_size == ok_size(obs.source_size) && e.target_size == ok_size(obs.target_size)
            &&& e.source_hash == obs.source_hash && e.target_hash == obs.target_hash
            &&& carries_permission_change(e, obs, check, rel)
        },
        FileStatus::Permission => {
            &&& e.is_directory == obs.is_directory
            &&& (if obs.is_directory {
                e.source_size is None && e.target_size is None
            } else {
                e.source_size == ok_size(obs.source_size) && e.target_size == ok_size(obs.target_size)
            })
            &&& carries_permission_change(e, obs, check, rel)
        },
        FileStatus::Unchanged => {
            &&& !e.is_directory
            &&& e.source_size == ok_size(obs.source_size) && e.target_size == ok_size(obs.target_size)
        },
    }
}

/// Whether permissions are checked for a path under a permission mode.
pub open spec fn checks_permissions(mode: CheckPermissionsMode, is_script: bool) -> bool {
    match mode {
        CheckPermissionsMode::Off => false,
        CheckPermissionsMode::Scripts => is_script,
        CheckPermissionsMode::All => true,
    }
}

/// Whether permissions are checked for a path.
pub fn should_check_permissions(mode: CheckPermissionsMode, relative_path: &str) -> (r: bool)
    ensures
        r == checks_permissions(mode, crate::utils::script_path(relative_path@)),
{
    match mode {
        CheckPermissionsMode::Off => false,
        CheckPermissionsMode::Scripts => crate::utils::is_script_file(relative_path),
        CheckPermissionsMode::All => true,
    }
}

/// The permission change of a path, if permissions are checked for it and
/// its two modes differ.
pub fn check_permission_change(relative_path: &str, obs: &TwoWayObservation, check: bool) -> (r: Option<PermissionChange>)
    ensures
        r is Some <==> permission_differs(*obs, check),
        r matches Some(c) ==> c.path@ == relative_path@ && c.old_mode@ == obs.source_mode->0@
            && c.new_mode@ == obs.target_mode->0@,
{
    if !check {
        return None;
    }
    match (&obs.source_mode, &obs.target_mode) {
        (Some(old_mode), Some(new_mode)) => {
            if crate::text::str_equal(old_mode.as_str(), new_mode.as_str()) {
                None
            } else {
                Some(PermissionChange {
                    path: relative_path.to_owned(),
                    old_mode: old_mode.clone(),
                    new_mode: new_mode.clone(),
                })
            }
        },
        _ => None,
    }
}

fn link_entry(relative_path: &str, link: &Option<String>, is_dir: bool, broken: bool) -> (r: FileEntry)
    ensures
        r.status == FileStatus::Symlink,
        r.relative_path@ == relative_path@,
        !r.is_directory,
        r.symlink_info is Some,
        r.symlink_info->0.path@ == relative_path@,
        r.symlink_info->0.target@ == (if link is Some { link->0@ } else { unknown_target() }),
        r.symlink_info->0.is_directory == is_dir,
        r.symlink_info->0.is_broken == broken,
{
    let mut entry = FileEntry::new(relative_path.to_owned(), FileStatus::Symlink, false);
    let target = match link {
        Some(t) => t.clone(),
        None => "(unknown target)".to_owned(),
    };
    entry.symlink_info = Some(SymlinkInfo {
        path: relative_path.to_owned(),
        target,
        is_directory: is_dir,
        is_broken: broken,
    });
    entry
}

/// The entry for one path of a two-way comparison, if it is reported.
/// `check` tells whether permissions are checked for the path (see
/// `should_check_permissions`).
pub fn compare_path(
    relative_path: &str,
    obs: &TwoWayObservation,
    check: bool,
    show_unchanged: bool,
) -> (r: Option<FileEntry>)
    ensures
        r is Some <==> two_way_outcome(*obs, check, show_unchanged) is Some,
        r matches Some(e) ==> {
            &&& Some(e.status) == two_way_outcome(*obs, check, show_unchanged)
            &&& e.relative_path@ == relative_path@
            &&& entry_details(e, *obs, check, relative_path@)
        },
        obs.in_source && obs.source_is_symlink && obs.in_target && obs.target_is_symlink ==> {
            &&& (r is Some <==> !same_hash(obs.source_link, obs.target_link))
            &&& (r is Some ==> r->0.status == FileStatus::Symlink && r->0.symlink_info is Some
                && r->0.symlink_info->0.target@ == (if obs.target_link is Some {
                obs.target_link->0@
            } else {
                unknown_target()
            }))
        },
{
    if obs.source_is_symlink || obs.target_is_symlink {
        let ls = obs.in_source && obs.source_is_symlink;
        let lt = obs.in_target && obs.target_is_symlink;
        if !ls && lt {
            return Some(link_entry(relative_path, &obs.target_link, obs.target_link_is_dir, obs.target_link_broken));
        } else if ls && !lt {
            return Some(link_entry(relative_path, &obs.source_link, obs.source_link_is_dir, obs.source_link_broken));
        } else if ls && lt && !hashes_equal(&obs.source_link, &obs.target_link) {
            return Some(link_entry(relative_path, &obs.target_link, obs.target_link_is_dir, obs.target_link_broken));
        } else {
            return None;
        }
    }
    if let Some(special_type) = obs.special {
        let mut entry = FileEntry::new(relative_path.to_owned(), FileStatus::Special, false);
        entry.special_type = Some(special_type);
        return Some(entry);
    }
    let is_dir = obs.is_directory;
    if !obs.in_source && obs.in_target {
        let mut entry = FileEntry::new(relative_path.to_owned(), FileStatus::Added, is_dir);
        if !is_dir {
            entry.target_size = size_of(&obs.target_size);
            entry.target_hash = obs.target_hash.clone();
        }
        Some(entry)
    } else if obs.in_source && !obs.in_target {
        let mut entry = FileEntry::new(relative_path.to_owned(), FileStatus::Deleted, is_dir);
        if !is_dir {
            entry.source_size = size_of(&obs.source_size);
            entry.source_hash = obs.source_hash.clone();
        }
        Some(entry)
    } else if obs.in_source && obs.in_target {
        if is_dir {
            match check_permission_change(relative_path, obs, check) {
                Some(change) => {
                    let mut entry = FileEntry::new(relative_path.to_owned(), FileStatus::Permission, true);
                    entry.permission_change = Some(change);
                    Some(entry)
                },
                None => None,
            }
        } else {
            compare_file(relative_path, obs, check, show_unchanged)
        }
    } else {
        None
    }
}

fn compare_file(relative_path: &str, obs: &TwoWayObservation, check: bool, show_unchanged: bool) -> (r: Option<FileEntry>)
    requires
        !obs.source_is_symlink && !obs.target_is_symlink,
        obs.special is None,
        obs.in_source && obs.in_target && !obs.is_directory,
    ensures
        r is Some <==> two_way_outcome(*obs, check, show_unchanged) is Some,
        r matches Some(e) ==> {
            &&& Some(e.status) == two_way_outcome(*obs, check, show_unchanged)
            &&& e.relative_path@ == relative_path@
            &&& entry_details(e, *obs, check, relative_path@)
        },
        obs.in_source && obs.source_is_symlink && obs.in_target && obs.target_is_symlink ==> {
            &&& (r is Some <==> !same_hash(obs.source_link, obs.target_link))
            &&& (r is Some ==> r->0.status == FileStatus::Symlink && r->0.symlink_info is Some
                && r->0.symlink_info->0.target@ == (if obs.target_link is Some {
                obs.target_link->0@
            } else {
                unknown_target()
            }))
        },
{
    let source_size = match &obs.source_size {
        Ok(n) => *n,
        Err(message) => {
            let mut entry = FileEntry::new(relative_path.to_owned(), FileStatus::Error, false);
            entry.error_message = Some(message.clone());
            return Some(entry);
        },
    };
    let target_size = match &obs.target_size {
        Ok(n) => *n,
        Err(message) => {
            let mut entry = FileEntry::new(relative_path.to_owned(), FileStatus::Error, false);
            entry.error_message = Some(message.clone());
            return Some(entry);
        },
    };
    let changed = if source_size != target_size {
        true
    } else {
        !hashes_equal(&obs.source_hash, &obs.target_hash)
    };
    let permission_change = check_permission_change(relative_path, obs, check);
    if changed {
        let mut entry = FileEntry::new(relative_path.to_owned(), FileStatus::Modified, false);
        entry.source_size = Some(source_size);
        entry.target_size = Some(target_size);
        entry.source_hash = obs.source_hash.clone();
        entry.target_hash = obs.target_hash.clone();
        entry.permission_change = permission_change;
        Some(entry)
    } else if let Some(change) = permission_change {
        let mut entry = FileEntry::new(relative_path.to_owned(), FileStatus::Permission, false);
        entry.source_size = Some(source_size);
        entry.target_size = Some(target_size);
        entry.permission_change = Some(change);
        Some(entry)
    } else if show_unchanged {
        let mut entry = FileEntry::new(relative_path.to_owned(), FileStatus::Unchanged, false);
        entry.source_size = Some(source_size);
        entry.target_size = Some(target_size);
        Some(entry)
    } else {
        None
    }
}

/// The number of entries with a status, split by whether they are
/// directories where the statistics split them.
pub open spec fn entries_where(entries: Seq<FileEntry>, st: FileStatus, dirs: Option<bool>) -> nat {
    count_where(entries, |e: FileEntry| e.status == st && (dirs matches Some(d) ==> e.is_directory == d))
}

proof fn lemma_entries_where_le(entries: Seq<FileEntry>, st: FileStatus, dirs: Option<bool>)
    ensures
        entries_where(entries, st, dirs) <= entries.len(),
{
    lemma_count_le_len(entries, |e: FileEntry| e.status == st && (dirs matches Some(d) ==> e.is_directory == d));
}

/// The statistics count the entries of every status but Unchanged: added
/// and deleted items split into files and directories, every other status
/// counted whole.
pub open spec fn change_counts(stats: ComparisonStats, entries: Seq<FileEntry>) -> bool {
    &&& stats.added_files == entries_where(entries, FileStatus::Added, Some(false))
    &&& stats.added_dirs == entries_where(entries, FileStatus::Added, Some(true))
    &&& stats.modified_files == entries_where(entries, FileStatus::Modified, None)
    &&& stats.deleted_files == entries_where(entries, FileStatus::Deleted, Some(false))
    &&& stats.deleted_dirs == entries_where(entries, FileStatus::Deleted, Some(true))
    &&& stats.symlink_files == entries_where(entries, FileStatus::Symlink, None)
    &&& stats.special_files == entries_where(entries, FileStatus::Special, None)
    &&& stats.permission_files == entries_where(entries, FileStatus::Permission, None)
    &&& stats.error_files == entries_where(entries, FileStatus::Error, None)
}

/// The statistics count the entries: added and deleted items split into
/// files and directories, every other status counted whole.
pub open spec fn stats_count(stats: ComparisonStats, entries: Seq<FileEntry>) -> bool {
    &&& stats.added_files == entries_where(entries, FileStatus::Added, Some(false))
    &&& stats.added_dirs == entries_where(entries, FileStatus::Added, Some(true))
    &&& stats.modified_files == entries_where(entries, FileStatus::Modified, None)
    &&& stats.deleted_files == entries_where(entries, FileStatus::Deleted, Some(false))
    &&& stats.deleted_dirs == entries_where(entries, FileStatus::Deleted, Some(true))
    &&& stats.unchanged_files == entries_where(entries, FileStatus::Unchanged, None)
    &&& stats.symlink_files == entries_where(entries, FileStatus::Symlink, None)
    &&& stats.special_files == entries_where(entries, FileStatus::Special, None)
    &&& stats.permission_files == entries_where(entries, FileStatus::Permission, None)
    &&& stats.error_files == entries_where(entries, FileStatus::Error, None)
    &&& stats.total_items == entries.len()
}

/// The sum of all category counters.
pub open spec fn counter_sum(s: ComparisonStats) -> int {
    s.added_files + s.added_dirs + s.modified_files + s.deleted_files + s.deleted_dirs + s.unchanged_files
        + s.symlink_files + s.special_files + s.permission_files + s.error_files
}

proof fn lemma_category_counts_sum(entries: Seq<FileEntry>)
    ensures
        entries_where(entries, FileStatus::Added, Some(false)) + entries_where(entries, FileStatus::Added, Some(true))
            + entries_where(entries, FileStatus::Modified, None)
            + entries_where(entries, FileStatus::Deleted, Some(false))
            + entries_where(entries, FileStatus::Deleted, Some(true))
            + entries_where(entries, FileStatus::Unchanged, None)
            + entries_where(entries, FileStatus::Symlink, None)
            + entries_where(entries, FileStatus::Special, None)
            + entries_where(entries, FileStatus::Permission, None)
            + entries_where(entries, FileStatus::Error, None) == entries.len(),
    decreases entries.len(),
{
    if entries.len() > 0 {
        lemma_category_counts_sum(entries.drop_last());
    }
}

/// Every entry falls in exactly one category: statistics that count a list
/// of entries have counters that add up to the total.
pub proof fn lemma_stats_partition(stats: ComparisonStats, entries: Seq<FileEntry>)
    requires
        stats_count(stats, entries),
    ensures
        counter_sum(stats) == stats.total_items,
{
    lemma_category_counts_sum(entries);
}

/// Counts the entries per category.
pub fn calculate_stats(entries: &Vec<FileEntry>) -> (r: ComparisonStats)
    ensures
        stats_count(r, entries@),
{
    let mut stats = ComparisonStats::default();
    let mut i: usize = 0;
    while i < entries.len()
        invariant
            i <= entries@.len(),
            stats_count(stats, entries@.take(i as int)),
        decreases entries@.len() - i,
    {
        let ghost prefix = entries@.take(i as int);
        let e = &entries[i];
        proof {
            assert(entries@.take(i + 1).drop_last() =~= prefix);
            lemma_entries_where_le(prefix, e.status, Some(e.is_directory));
            lemma_entries_where_le(prefix, e.status, None);
        }
        match e.status {
            FileStatus::Added => {
                if e.is_directory {
                    stats.added_dirs = stats.added_dirs + 1;
                } else {
                    stats.added_files = stats.added_files + 1;
                }
            },
            FileStatus::Modified => stats.modified_files = stats.modified_files + 1,
            FileStatus::Deleted => {
                if e.is_directory {
                    stats.deleted_dirs = stats.deleted_dirs + 1;
                } else {
                    stats.deleted_files = stats.deleted_files + 1;
                }
            },
            FileStatus::Unchanged => stats.unchanged_files = stats.unchanged_files + 1,
            FileStatus::Symlink => stats.symlink_files = stats.symlink_files + 1,
            FileStatus::Special => stats.special_files = stats.special_files + 1,
            FileStatus::Permission => stats.permission_files = stats.permission_files + 1,
            FileStatus::Error => stats.error_files = stats.error_files + 1,
        }
        stats.total_items = i + 1;
        i = i + 1;
    }
    proof {
        assert(entries@.take(i as int) =~= entries@);
    }
    stats
}

/// The result of a two-way comparison from the outcome of each path, in
/// order: the entries reported, their statistics, and no copies or patches
/// yet.
pub fn collect_result(outcomes: Vec<Option<FileEntry>>) -> (r: ComparisonResult)
    ensures
        r.entries@ == kept_outcomes(outcomes@),
        stats_count(r.stats, r.entries@),
        r.copy_results@.len() == 0,
        r.patch_results@.len() == 0,
{
    let mut outcomes = outcomes;
    let ghost orig = outcomes@;
    let mut entries: Vec<FileEntry> = Vec::new();
    let mut i: usize = 0;
    while i < outcomes.len()
        invariant
            outcomes@.len() == orig.len(),
            i <= orig.len(),
            forall|j: int| i <= j < orig.len() ==> outcomes@[j] == orig[j],
            entries@ == kept_outcomes(orig.take(i as int)),
        decreases orig.len() - i,
    {
        let mut slot: Option<FileEntry> = None;
        std::mem::swap(&mut slot, &mut outcomes[i]);
        proof {
            assert(orig.take(i + 1).drop_last() =~= orig.take(i as int));
            assert(slot == orig[i as int]);
        }
        if let Some(e) = slot {
            entries.push(e);
        }
        i = i + 1;
    }
    proof {
        assert(orig.take(i as int) =~= orig);
    }
    let stats = calculate_stats(&entries);
    ComparisonResult { entries, stats, copy_results: Vec::new(), patch_results: Vec::new() }
}

/// Whether an entry reports the path `rel` as observed, with the status
/// the observation calls for.
pub open spec fn entry_of(e: FileEntry, rel: Seq<char>, obs: TwoWayObservation, check: bool, show_unchanged: bool) -> bool {
    &&& Some(e.status) == two_way_outcome(obs, check, show_unchanged)
    &&& e.relative_path@ == rel
    &&& entry_details(e, obs, check, rel)
}

/// Whether permissions are checked for a path under a permission mode.
pub open spec fn checked_for(mode: CheckPermissionsMode, rel: Seq<char>) -> bool {
    checks_permissions(mode, crate::utils::script_path(rel))
}

/// Whether a path counts as unchanged in the statistics: its observation
/// calls for an Unchanged entry when unchanged entries are shown, or for no
/// entry at all (a link or a directory present in both trees and left as it
/// was). Whether unchanged entries are shown does not change the count.
pub open spec fn counted_unchanged(obs: TwoWayObservation, check: bool) -> bool {
    match two_way_outcome(obs, check, true) {
        Some(st) => st == FileStatus::Unchanged,
        None => true,
    }
}

/// The number of the given paths that count as unchanged.
pub open spec fn unchanged_paths(paths: Seq<String>, obs: Seq<TwoWayObservation>, mode: CheckPermissionsMode) -> nat
    decreases obs.len(),
{
    if obs.len() == 0 {
        0
    } else {
        unchanged_paths(paths.drop_last(), obs.drop_last(), mode) + if counted_unchanged(
            obs.last(),
            checked_for(mode, paths.last()@),
        ) {
            1nat
        } else {
            0nat
        }
    }
}

/// Whether unchanged entries are shown only decides whether an unchanged
/// path gets an entry.
proof fn lemma_outcome_shown(obs: TwoWayObservation, check: bool, show_unchanged: bool)
    ensures
        two_way_outcome(obs, check, show_unchanged) == (if !show_unchanged && two_way_outcome(obs, check, true)
            == Some(FileStatus::Unchanged) {
            None
        } else {
            two_way_outcome(obs, check, true)
        }),
{
}

proof fn lemma_entries_where_push(entries: Seq<FileEntry>, e: FileEntry, st: FileStatus)
    ensures
        entries_where(entries.push(e), st, None) == entries_where(entries, st, None) + if e.status == st {
            1nat
        } else {
            0nat
        },
{
    assert(entries.push(e).drop_last() =~= entries);
}

/// The result of a two-way comparison of the given paths, each observed in
/// the two trees (`obs[i]` is what the trees show of `paths[i]`, with
/// permissions read as `mode` asks for that path): one entry for each path
/// whose observation calls for one, in the order of the paths (so ascending
/// when the paths are), each reporting its path as observed; no copies or
/// patches yet. The statistics count the entries of every status but
/// Unchanged; Unchanged counts every path that counts as unchanged, whether
/// or not unchanged entries are shown, and the total counts every path, so
/// that the counters add up to the total.
pub fn compare_all(
    paths: &Vec<String>,
    obs: &Vec<TwoWayObservation>,
    mode: CheckPermissionsMode,
    show_unchanged: bool,
) -> (r: ComparisonResult)
    requires
        paths@.len() == obs@.len(),
    ensures
        forall|k: int|
            0 <= k < r.entries@.len() ==> exists|i: int|
                0 <= i < paths@.len() && entry_of(
                    #[trigger] r.entries@[k],
                    paths@[i]@,
                    obs@[i],
                    checked_for(mode, paths@[i]@),
                    show_unchanged,
                ),
        forall|i: int|
            0 <= i < paths@.len() && (#[trigger] two_way_outcome(obs@[i], checked_for(mode, paths@[i]@), show_unchanged)) is Some
                ==> exists|k: int|
                0 <= k < r.entries@.len() && entry_of(
                    r.entries@[k],
                    paths@[i]@,
                    obs@[i],
                    checked_for(mode, paths@[i]@),
                    show_unchanged,
                ),
        paths_increasing(texts(paths@)) ==> paths_increasing(r.entries@.map_values(|e: FileEntry| e.relative_path@)),
        change_counts(r.stats, r.entries@),
        r.stats.unchanged_files == unchanged_paths(paths@, obs@, mode),
        r.stats.total_items == paths@.len(),
        counter_sum(r.stats) == r.stats.total_items,
        r.copy_results@.len() == 0,
        r.patch_results@.len() == 0,
{
    let mut outcomes: Vec<Option<FileEntry>> = Vec::new();
    let mut unchanged: usize = 0;
    let mut i: usize = 0;
    while i < paths.len()
        invariant
            i <= paths@.len(),
            paths@.len() == obs@.len(),
            outcomes@.len() == i,
            forall|j: int|
                0 <= j < i ==> match #[trigger] outcomes@[j] {
                    None => two_way_outcome(obs@[j], checked_for(mode, paths@[j]@), show_unchanged) is None,
                    Some(e) => entry_of(e, paths@[j]@, obs@[j], checked_for(mode, paths@[j]@), show_unchanged),
                },
            unchanged == unchanged_paths(paths@.take(i as int), obs@.take(i as int), mode),
            kept_outcomes(outcomes@).len() - entries_where(kept_outcomes(outcomes@), FileStatus::Unchanged, None)
                + unchanged == i,
        decreases paths@.len() - i,
    {
        let check = should_check_permissions(mode, paths[i].as_str());
        let o = compare_path(paths[i].as_str(), &obs[i], check, show_unchanged);
        let counted = match &o {
            Some(e) => e.status == FileStatus::Unchanged,
            None => true,
        };
        let ghost before = outcomes@;
        let ghost k0 = kept_outcomes(before);
        let ghost og = o;
        proof {
            let ob = obs@[i as int];
            let ck = checked_for(mode, paths@[i as int]@);
            lemma_outcome_shown(ob, ck, show_unchanged);
            assert(counted == counted_unchanged(ob, ck));
            assert(paths@.take(i + 1).drop_last() =~= paths@.take(i as int));
            assert(obs@.take(i + 1).drop_last() =~= obs@.take(i as int));
            assert(entries_where(k0, FileStatus::Unchanged, None) <= k0.len()) by {
                lemma_entries_where_le(k0, FileStatus::Unchanged, None);
            }
        }
        outcomes.push(o);
        proof {
            assert(outcomes@.drop_last() =~= before);
            match og {
                Some(e) => {
                    assert(kept_outcomes(outcomes@) == k0.push(e));
                    lemma_entries_where_push(k0, e, FileStatus::Unchanged);
                },
                None => {
                    assert(kept_outcomes(outcomes@) == k0);
                },
            }
        }
        if counted {
            unchanged = unchanged + 1;
        }
        i = i + 1;
    }
    let ghost outs = outcomes@;
    let mut r = collect_result(outcomes);
    proof {
        assert(paths@.take(i as int) =~= paths@);
        assert(obs@.take(i as int) =~= obs@);
        lemma_stats_partition(r.stats, r.entries@);
    }
    r.stats.unchanged_files = unchanged;
    r.stats.total_items = paths.len();
    proof {
        lemma_kept_from(outs);
        assert forall|k: int| 0 <= k < r.entries@.len() implies exists|i: int|
            0 <= i < paths@.len() && entry_of(
                #[trigger] r.entries@[k],
                paths@[i]@,
                obs@[i],
                checked_for(mode, paths@[i]@),
                show_unchanged,
            ) by {
            let j = choose|j: int| 0 <= j < outs.len() && outs[j] == Some(#[trigger] kept_outcomes(outs)[k]);
            assert(outs[j] == outcomes@[j]);
        }
        assert forall|i: int|
            0 <= i < paths@.len() && (#[trigger] two_way_outcome(obs@[i], checked_for(mode, paths@[i]@), show_unchanged)) is Some
                implies exists|k: int|
                0 <= k < r.entries@.len() && entry_of(
                    r.entries@[k],
                    paths@[i]@,
                    obs@[i],
                    checked_for(mode, paths@[i]@),
                    show_unchanged,
                ) by {
            assert(outs[i] is Some);
            lemma_kept_has(outs, i);
            let k = choose|k: int| 0 <= k < kept_outcomes(outs).len() && kept_outcomes(outs)[k] == outs[i]->0;
            assert(entry_of(r.entries@[k], paths@[i]@, obs@[i], checked_for(mode, paths@[i]@), show_unchanged));
        }
        if paths_increasing(texts(paths@)) {
            let key = |e: FileEntry| e.relative_path@;
            assert forall|j: int| 0 <= j < outs.len() && outs[j] is Some implies key(#[trigger] outs[j]->0) == texts(paths@)[j] by {
                assert(outs[j] == outcomes@[j]);
            }
            lemma_kept_in_order(texts(paths@), outs, key);
        }
    }
    r
}

} // verus!
