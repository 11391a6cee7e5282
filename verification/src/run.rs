//! The decisions of a run that surround the phases: which mode runs, how
//! many items each progress phase expects, and the exit code.
use vstd::prelude::*;

use crate::config::Config;
use crate::error::DiffCopyError;
use crate::report_text::tally;
use crate::types::{ComparisonStats, FileEntry, FileStatus, ThreeWayStats};

verus! {

/// The exit code of a two-way run: 0 when something differs, 2 when
/// nothing does.
pub open spec fn two_way_code(s: ComparisonStats) -> u8 {
    if s.differs() { 0 } else { 2 }
}

/// The exit code of a three-way run: 3 when there are conflicts, else 0
/// when something differs from the base, else 2.
pub open spec fn three_way_code(s: ThreeWayStats) -> u8 {
    if s.conflicts() > 0 { 3 } else if s.total_items > s.unchanged { 0 } else { 2 }
}

/// The exit code of a two-way run.
pub fn two_way_exit_code(stats: &ComparisonStats) -> (r: u8)
    ensures
        r == two_way_code(*stats),
{
    if stats.has_differences() { 0 } else { 2 }
}

/// The exit code of a three-way run.
pub fn three_way_exit_code(stats: &ThreeWayStats) -> (r: u8)
    ensures
        r == three_way_code(*stats),
{
    if stats.has_conflicts() {
        3
    } else if stats.has_differences() {
        0
    } else {
        2
    }
}

/// The exit code of a run that failed.
pub fn error_exit_code() -> (r: u8)
    ensures
        r == 1,
{
    1
}

/// A three-way run needs a base directory.
pub fn require_base(config: &Config) -> (r: Result<(), DiffCopyError>)
    ensures
        r is Ok <==> config.base is Some,
        r matches Err(e) ==> e is ThreeWayRequiresBase,
{
    if config.base.is_none() {
        Err(DiffCopyError::ThreeWayRequiresBase)
    } else {
        Ok(())
    }
}

/// The entries the copy phase expects to copy: added, modified and
/// permission changes, and deleted entries when those are copied.
pub open spec fn expects_copy(copy_deleted: bool) -> spec_fn(FileEntry) -> bool {
    |e: FileEntry| e.status == FileStatus::Added || e.status == FileStatus::Modified || e.status
        == FileStatus::Permission || (e.status == FileStatus::Deleted && copy_deleted)
}

/// The number of items the copy phase of a two-way run expects.
pub fn copy_count(entries: &Vec<FileEntry>, copy_deleted: bool) -> (r: usize)
    ensures
        r == tally(entries@, expects_copy(copy_deleted)),
{
    let mut n: usize = 0;
    let mut k: usize = 0;
    while k < entries.len()
        invariant
            k <= entries@.len(),
            n <= k,
            n == tally(entries@.take(k as int), expects_copy(copy_deleted)),
        decreases entries@.len() - k,
    {
        proof {
            assert(entries@.take(k + 1).drop_last() =~= entries@.take(k as int));
            assert(entries@.take(k + 1).last() == entries@[k as int]);
        }
        let s = entries[k].status;
        if s == FileStatus::Added || s == FileStatus::Modified || s == FileStatus::Permission || (s
            == FileStatus::Deleted && copy_deleted) {
            n = n + 1;
        }
        k = k + 1;
    }
    proof {
        assert(entries@.take(k as int) =~= entries@);
    }
    n
}

/// The number of items the comparing phase expects: the largest count of
/// the directories scanned.
pub fn estimated_items(counts: &Vec<usize>) -> (r: usize)
    ensures
        forall|i: int| 0 <= i < counts@.len() ==> counts@[i] <= r,
        counts@.len() == 0 ==> r == 0,
        counts@.len() > 0 ==> counts@.contains(r),
{
    let mut best: usize = 0;
    let mut i: usize = 0;
    while i < counts.len()
        invariant
            i <= counts@.len(),
            forall|j: int| 0 <= j < i ==> counts@[j] <= best,
            i == 0 ==> best == 0,
            i > 0 ==> counts@.take(i as int).contains(best),
        decreases counts@.len() - i,
    {
        if counts[i] > best || i == 0 {
            best = counts[i];
            proof {
                assert(counts@.take(i + 1)[i as int] == best);
            }
        } else {
            proof {
                let t = choose|t: int| 0 <= t < i && counts@.take(i as int)[t] == best;
                assert(counts@.take(i + 1)[t] == best);
            }
        }
        i = i + 1;
    }
    proof {
        if counts@.len() > 0 {
            assert(counts@.take(i as int) =~= counts@);
        }
    }
    best
}

} // verus!
