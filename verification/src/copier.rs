//! Which comparison entries are copied into the output tree, and how.
use vstd::prelude::*;

use crate::config::Config;
use crate::excel::pairs_view;
use crate::patch::{join_path, joined};
use crate::text::cat2;
use crate::types::{CopyResult, FileEntry, FileStatus};

verus! {

/// How one entry is copied into the output tree.
#[derive(Debug, Clone, Copy, PartialEq, Eq, Structural)]
pub enum CopyAction {
    /// Create the directory under the output tree.
    CreateDirectory,
    /// Copy the target version under the same relative path.
    Single,
    /// Copy the source version as `<path>.old` and the target version as
    /// `<path>.new`.
    BothVersions,
    /// Copy the source version as `<path>.deleted`.
    DeletedCopy,
    /// Copy nothing.
    Nothing,
}

/// Whether an entry is copied: the filter shows it, and it was added,
/// modified or changed permissions, or it is a deleted file and deleted files
/// are copied.
pub open spec fn copied(config: Config, entry: FileEntry) -> bool {
    config.filter_status.admits(entry.status.name()) && match entry.status {
        FileStatus::Added | FileStatus::Modified | FileStatus::Permission => true,
        FileStatus::Deleted => config.copy_deleted && !entry.is_directory,
        _ => false,
    }
}

/// Copies follow the status filter: an entry whose status the filter hides
/// is never copied, whatever the other options say.
pub proof fn lemma_copies_follow_filter(config: Config, entry: FileEntry)
    ensures
        copied(config, entry) ==> config.filter_status.admits(entry.status.name()),
{
}

/// Which entries are copied, by status: of those the filter shows, every
/// added, modified or permission-changed entry (file or directory), a
/// deleted file exactly when deleted files are copied, and nothing else
/// (no deleted directory, no unchanged, link, special or error entry).
pub proof fn lemma_copied_by_status(config: Config, entry: FileEntry)
    requires
        config.filter_status.admits(entry.status.name()),
    ensures
        entry.status is Added ==> copied(config, entry),
        entry.status is Modified ==> copied(config, entry),
        entry.status is Permission ==> copied(config, entry),
        entry.status is Deleted ==> (copied(config, entry) <==> config.copy_deleted && !entry.is_directory),
        entry.status is Unchanged || entry.status is Symlink || entry.status is Special || entry.status is Error
            ==> !copied(config, entry),
{
}

/// The copy that an entry calls for.
pub open spec fn action_for(config: Config, entry: FileEntry) -> CopyAction {
    if entry.is_directory {
        CopyAction::CreateDirectory
    } else {
        match entry.status {
            FileStatus::Added | FileStatus::Permission => CopyAction::Single,
            FileStatus::Modified => if config.both_versions { CopyAction::BothVersions } else { CopyAction::Single },
            FileStatus::Deleted => if config.copy_deleted { CopyAction::DeletedCopy } else { CopyAction::Nothing },
            _ => CopyAction::Nothing,
        }
    }
}

/// Whether a run copies anything into the output tree: not in a dry run.
pub fn copy_allowed(config: &Config) -> (r: bool)
    ensures
        r == !config.dry_run,
{
    !config.dry_run
}

/// The chosen positions are those of the entries that are copied: each in
/// range and copied, in increasing order, and every copied entry chosen.
pub open spec fn copy_choice(c: Config, entries: Seq<FileEntry>, chosen: Seq<usize>) -> bool {
    &&& forall|k: int| 0 <= k < chosen.len() ==> (#[trigger] chosen[k]) < entries.len() && copied(c, entries[chosen[k] as int])
    &&& forall|k: int, m: int| 0 <= k < m < chosen.len() ==> chosen[k] < chosen[m]
    &&& forall|i: int| 0 <= i < entries.len() && copied(c, #[trigger] entries[i]) ==> chosen.contains(i as usize)
}

/// File copier with the options of a run.
pub struct Copier<'a> {
    pub config: &'a Config,
}

impl<'a> Copier<'a> {
    /// A copier for a configuration.
    pub fn new(config: &'a Config) -> (r: Copier<'a>)
        ensures
            *r.config == *config,
    {
        Copier { config }
    }

    /// Whether an entry is copied.
    pub fn should_copy(&self, entry: &FileEntry) -> (r: bool)
        ensures
            r == copied(*self.config, *entry),
            !self.config.filter_status.admits(entry.status.name()) ==> !r,
            self.config.filter_status.admits(entry.status.name()) ==> (r <==> (entry.status is Added
                || entry.status is Modified || entry.status is Permission || (entry.status is Deleted
                && self.config.copy_deleted && !entry.is_directory))),
    {
        if !self.config.filter_status.matches(entry.status) {
            return false;
        }
        match entry.status {
            FileStatus::Added => true,
            FileStatus::Modified => true,
            FileStatus::Permission => true,
            FileStatus::Deleted => self.config.copy_deleted && !entry.is_directory,
            _ => false,
        }
    }

    /// How an entry is copied.
    pub fn copy_action(&self, entry: &FileEntry) -> (r: CopyAction)
        ensures
            r == action_for(*self.config, *entry),
    {
        if entry.is_directory {
            CopyAction::CreateDirectory
        } else {
            match entry.status {
                FileStatus::Added | FileStatus::Permission => CopyAction::Single,
                FileStatus::Modified => {
                    if self.config.both_versions {
                        CopyAction::BothVersions
                    } else {
                        CopyAction::Single
                    }
                },
                FileStatus::Deleted => {
                    if self.config.copy_deleted {
                        CopyAction::DeletedCopy
                    } else {
                        CopyAction::Nothing
                    }
                },
                _ => CopyAction::Nothing,
            }
        }
    }

    /// The copies of a run: none at all in a dry run (the output tree is not
    /// even created), else the positions of the entries that are copied, in
    /// order.
    pub fn copy_plan(&self, entries: &Vec<FileEntry>) -> (r: Option<Vec<usize>>)
        ensures
            r is None <==> self.config.dry_run,
            r matches Some(v) ==> copy_choice(*self.config, entries@, v@),
    {
        if copy_allowed(self.config) {
            Some(self.entries_to_copy(entries))
        } else {
            None
        }
    }

    /// The positions of the entries that are copied, in order.
    pub fn entries_to_copy(&self, entries: &Vec<FileEntry>) -> (r: Vec<usize>)
        ensures
            copy_choice(*self.config, entries@, r@),
    {
        let mut r: Vec<usize> = Vec::new();
        let mut i: usize = 0;
        while i < entries.len()
            invariant
                i <= entries@.len(),
                forall|k: int| 0 <= k < r@.len() ==> (#[trigger] r@[k]) < i && copied(*self.config, entries@[r@[k] as int]),
                forall|k: int, m: int| 0 <= k < m < r@.len() ==> r@[k] < r@[m],
                forall|j: int| 0 <= j < i && copied(*self.config, #[trigger] entries@[j]) ==> r@.contains(j as usize),
            decreases entries@.len() - i,
        {
            if self.should_copy(&entries[i]) {
                let ghost before = r@;
                r.push(i);
                proof {
                    assert forall|j: int| 0 <= j < i + 1 && copied(*self.config, #[trigger] entries@[j]) implies r@.contains(j as usize) by {
                        if j < i {
                            let k = choose|k: int| 0 <= k < before.len() && before[k] == j as usize;
                            assert(r@[k] == j as usize);
                        } else {
                            assert(r@[r@.len() - 1] == j as usize);
                        }
                    }
                }
            }
            i = i + 1;
        }
        r
    }
}

/// The file copies that an entry calls for, as (from, to) paths: the target
/// version under the same name for a single copy; the source version as
/// `.old` and the target version as `.new`; the source version as
/// `.deleted`; nothing otherwise (a directory is created, not copied).
pub open spec fn copy_pairs_for(c: Config, e: FileEntry) -> Seq<(Seq<char>, Seq<char>)> {
    let p = e.relative_path@;
    match action_for(c, e) {
        CopyAction::Single => seq![(joined(c.target@, p), joined(c.output@, p))],
        CopyAction::BothVersions => seq![
            (joined(c.source@, p), joined(c.output@, p + ".old"@)),
            (joined(c.target@, p), joined(c.output@, p + ".new"@)),
        ],
        CopyAction::DeletedCopy => seq![(joined(c.source@, p), joined(c.output@, p + ".deleted"@))],
        _ => Seq::empty(),
    }
}

/// Where each copied file comes from and goes: an added or
/// permission-changed file, and a modified file without both versions, is
/// the target's version under its own name; a modified file with both
/// versions is the source's version as `.old` then the target's as `.new`;
/// a deleted file is the source's version as `.deleted`; a directory is
/// created, not copied.
pub proof fn lemma_copy_pairs_by_status(c: Config, e: FileEntry)
    ensures
        ({
            let p = e.relative_path@;
            &&& e.is_directory ==> copy_pairs_for(c, e).len() == 0
            &&& !e.is_directory && (e.status is Added || e.status is Permission || (e.status is Modified
                && !c.both_versions)) ==> copy_pairs_for(c, e) == seq![(joined(c.target@, p), joined(c.output@, p))]
            &&& !e.is_directory && e.status is Modified && c.both_versions ==> copy_pairs_for(c, e) == seq![
                (joined(c.source@, p), joined(c.output@, p + ".old"@)),
                (joined(c.target@, p), joined(c.output@, p + ".new"@)),
            ]
            &&& !e.is_directory && e.status is Deleted && c.copy_deleted ==> copy_pairs_for(c, e) == seq![
                (joined(c.source@, p), joined(c.output@, p + ".deleted"@)),
            ]
        }),
{
}

impl<'a> Copier<'a> {
    /// The path of an entry below the output directory.
    pub fn output_path(&self, entry: &FileEntry) -> (r: String)
        ensures
            r@ == joined(self.config.output@, entry.relative_path@),
    {
        join_path(self.config.output.as_str(), entry.relative_path.as_str())
    }

    /// The file copies of an entry, as (from, to) paths, in order.
    pub fn copy_pairs(&self, entry: &FileEntry) -> (r: Vec<(String, String)>)
        ensures
            pairs_view(r@) == copy_pairs_for(*self.config, *entry),
    {
        let c = self.config;
        let p = entry.relative_path.as_str();
        let r = match self.copy_action(entry) {
            CopyAction::Single => vec![(join_path(c.target.as_str(), p), join_path(c.output.as_str(), p))],
            CopyAction::BothVersions => {
                let old_name = cat2(p, ".old");
                let new_name = cat2(p, ".new");
                vec![
                    (join_path(c.source.as_str(), p), join_path(c.output.as_str(), old_name.as_str())),
                    (join_path(c.target.as_str(), p), join_path(c.output.as_str(), new_name.as_str())),
                ]
            },
            CopyAction::DeletedCopy => {
                let name = cat2(p, ".deleted");
                vec![(join_path(c.source.as_str(), p), join_path(c.output.as_str(), name.as_str()))]
            },
            _ => Vec::new(),
        };
        proof {
            assert(pairs_view(r@) =~= copy_pairs_for(*self.config, *entry));
        }
        r
    }
}

/// Whether a copy report tells of the copy of `path` with this outcome:
/// successful with no message, or failed with the failure's message.
pub open spec fn reports(r: CopyResult, path: Seq<char>, outcome: Result<(), String>) -> bool {
    &&& r.path@ == path
    &&& r.success == (outcome is Ok)
    &&& (outcome matches Err(e) ==> r.error_message matches Some(m) && m@ == e@)
    &&& (outcome is Ok ==> r.error_message is None)
}

/// The report of one entry's copy: successful unless the copy failed, with
/// the failure's message.
pub fn copy_outcome(path: &str, outcome: &Result<(), String>) -> (r: CopyResult)
    ensures
        reports(r, path@, *outcome),
{
    match outcome {
        Ok(_) => CopyResult { path: path.to_owned(), success: true, error_message: None },
        Err(e) => CopyResult { path: path.to_owned(), success: false, error_message: Some(e.clone()) },
    }
}

/// The copy reports of the chosen entries: one per chosen entry, in the
/// order chosen, each telling of that entry's path and of the outcome of its
/// copy (`outcomes[k]` is the outcome for `entries[chosen[k]]`).
pub fn copy_report(entries: &Vec<FileEntry>, chosen: &Vec<usize>, outcomes: &Vec<Result<(), String>>) -> (r: Vec<
    CopyResult,
>)
    requires
        chosen@.len() == outcomes@.len(),
        forall|k: int| 0 <= k < chosen@.len() ==> (#[trigger] chosen@[k]) < entries@.len(),
    ensures
        r@.len() == chosen@.len(),
        forall|k: int|
            0 <= k < r@.len() ==> reports(#[trigger] r@[k], entries@[chosen@[k] as int].relative_path@, outcomes@[k]),
{
    let mut r: Vec<CopyResult> = Vec::new();
    let mut k: usize = 0;
    while k < chosen.len()
        invariant
            k <= chosen@.len(),
            chosen@.len() == outcomes@.len(),
            forall|j: int| 0 <= j < chosen@.len() ==> (#[trigger] chosen@[j]) < entries@.len(),
            r@.len() == k,
            forall|j: int|
                0 <= j < k ==> reports(#[trigger] r@[j], entries@[chosen@[j] as int].relative_path@, outcomes@[j]),
        decreases chosen@.len() - k,
    {
        let i = chosen[k];
        let one = copy_outcome(entries[i].relative_path.as_str(), &outcomes[k]);
        r.push(one);
        k = k + 1;
    }
    r
}

} // verus!
