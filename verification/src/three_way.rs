//! Three-way comparison: classification of each path against the common
//! ancestor, statistics, and the copies that each outcome calls for.
use vstd::prelude::*;

use crate::patch::{join_path, joined};
use crate::path_order::{kept_outcomes, lemma_kept_from, lemma_kept_has, lemma_kept_in_order, paths_increasing};
use crate::text::texts;
use crate::text::cat2;
use crate::copier::{copy_outcome, reports};
use crate::types::{CopyResult, count_where, lemma_count_le_len, MergeStyle, ThreeWayEntry, ThreeWayResult, ThreeWayStats, ThreeWayStatus};

verus! {

/// Two optional hashes agree: both absent, or both present with the same text.
pub open spec fn same_hash(a: Option<String>, b: Option<String>) -> bool {
    match (a, b) {
        (None, None) => true,
        (Some(x), Some(y)) => x@ == y@,
        _ => false,
    }
}

/// Decides `same_hash`.
pub fn hashes_equal(a: &Option<String>, b: &Option<String>) -> (r: bool)
    ensures
        r == same_hash(*a, *b),
{
    match (a, b) {
        (None, None) => true,
        (Some(x), Some(y)) => crate::text::str_equal(x.as_str(), y.as_str()),
        _ => false,
    }
}

/// The three-way status of a path from its presence in base, ours and theirs
/// and the hashes of the versions present.
pub open spec fn three_way_status(
    in_base: bool,
    in_ours: bool,
    in_theirs: bool,
    base_hash: Option<String>,
    ours_hash: Option<String>,
    theirs_hash: Option<String>,
) -> ThreeWayStatus {
    let bo = same_hash(base_hash, ours_hash);
    let bt = same_hash(base_hash, theirs_hash);
    let ot = same_hash(ours_hash, theirs_hash);
    if in_base && in_ours && in_theirs {
        if bo && bt && ot {
            ThreeWayStatus::Unchanged
        } else if !bo && bt && !ot {
            ThreeWayStatus::OursOnly
        } else if bo && !bt && !ot {
            ThreeWayStatus::TheirsOnly
        } else if !bo && !bt && ot {
            ThreeWayStatus::BothSame
        } else if !bo && !bt && !ot {
            ThreeWayStatus::Conflict
        } else {
            ThreeWayStatus::Unchanged
        }
    } else if in_base && in_ours {
        if bo { ThreeWayStatus::DeletedTheirs } else { ThreeWayStatus::ModifyDelete }
    } else if in_base && in_theirs {
        if bt { ThreeWayStatus::DeletedOurs } else { ThreeWayStatus::DeleteModify }
    } else if in_base {
        ThreeWayStatus::DeletedBoth
    } else if in_ours && in_theirs {
        if ot { ThreeWayStatus::AddedBothSame } else { ThreeWayStatus::AddedBothDiff }
    } else if in_ours {
        ThreeWayStatus::AddedOurs
    } else if in_theirs {
        ThreeWayStatus::AddedTheirs
    } else {
        ThreeWayStatus::Unchanged
    }
}

/// Classifies a path in a three-way comparison.
pub fn determine_status(
    in_base: bool,
    in_ours: bool,
    in_theirs: bool,
    base_hash: &Option<String>,
    ours_hash: &Option<String>,
    theirs_hash: &Option<String>,
) -> (r: ThreeWayStatus)
    ensures
        r == three_way_status(in_base, in_ours, in_theirs, *base_hash, *ours_hash, *theirs_hash),
        in_base && in_ours && !in_theirs ==> r == (if same_hash(*base_hash, *ours_hash) {
            ThreeWayStatus::DeletedTheirs
        } else {
            ThreeWayStatus::ModifyDelete
        }),
        in_base && !in_ours && in_theirs ==> r == (if same_hash(*base_hash, *theirs_hash) {
            ThreeWayStatus::DeletedOurs
        } else {
            ThreeWayStatus::DeleteModify
        }),
{
    if in_base && in_ours && in_theirs {
        let bo = hashes_equal(base_hash, ours_hash);
        let bt = hashes_equal(base_hash, theirs_hash);
        let ot = hashes_equal(ours_hash, theirs_hash);
        if bo && bt && ot {
            ThreeWayStatus::Unchanged
        } else if !bo && bt && !ot {
            ThreeWayStatus::OursOnly
        } else if bo && !bt && !ot {
            ThreeWayStatus::TheirsOnly
        } else if !bo && !bt && ot {
            ThreeWayStatus::BothSame
        } else if !bo && !bt && !ot {
            ThreeWayStatus::Conflict
        } else {
            ThreeWayStatus::Unchanged
        }
    } else if in_base && in_ours {
        if hashes_equal(base_hash, ours_hash) {
            ThreeWayStatus::DeletedTheirs
        } else {
            ThreeWayStatus::ModifyDelete
        }
    } else if in_base && in_theirs {
        if hashes_equal(base_hash, theirs_hash) {
            ThreeWayStatus::DeletedOurs
        } else {
            ThreeWayStatus::DeleteModify
        }
    } else if in_base {
        ThreeWayStatus::DeletedBoth
    } else if in_ours && in_theirs {
        if hashes_equal(ours_hash, theirs_hash) {
            ThreeWayStatus::AddedBothSame
        } else {
            ThreeWayStatus::AddedBothDiff
        }
    } else if in_ours {
        ThreeWayStatus::AddedOurs
    } else if in_theirs {
        ThreeWayStatus::AddedTheirs
    } else {
        ThreeWayStatus::Unchanged
    }
}

/// The status seen with ours and theirs exchanged.
pub open spec fn mirrored(s: ThreeWayStatus) -> ThreeWayStatus {
    match s {
        ThreeWayStatus::OursOnly => ThreeWayStatus::TheirsOnly,
        ThreeWayStatus::TheirsOnly => ThreeWayStatus::OursOnly,
        ThreeWayStatus::AddedOurs => ThreeWayStatus::AddedTheirs,
        ThreeWayStatus::AddedTheirs => ThreeWayStatus::AddedOurs,
        ThreeWayStatus::DeletedOurs => ThreeWayStatus::DeletedTheirs,
        ThreeWayStatus::DeletedTheirs => ThreeWayStatus::DeletedOurs,
        ThreeWayStatus::ModifyDelete => ThreeWayStatus::DeleteModify,
        ThreeWayStatus::DeleteModify => ThreeWayStatus::ModifyDelete,
        other => other,
    }
}

/// Exchanging ours and theirs exchanges the roles in the status and changes
/// nothing else: the classification treats both sides alike.
pub proof fn lemma_status_symmetric(
    in_base: bool,
    in_ours: bool,
    in_theirs: bool,
    base_hash: Option<String>,
    ours_hash: Option<String>,
    theirs_hash: Option<String>,
)
    ensures
        three_way_status(in_base, in_theirs, in_ours, base_hash, theirs_hash, ours_hash)
            == mirrored(three_way_status(in_base, in_ours, in_theirs, base_hash, ours_hash, theirs_hash)),
{
}

/// One side differs from the common ancestor: it was added, deleted, or its
/// content changed.
pub open spec fn side_changed(in_base: bool, in_side: bool, base_hash: Option<String>, side_hash: Option<String>) -> bool {
    in_base != in_side || (in_base && in_side && !same_hash(base_hash, side_hash))
}

/// Ours and theirs end up different: one has the path and the other not, or
/// their contents differ.
pub open spec fn sides_differ(in_ours: bool, in_theirs: bool, ours_hash: Option<String>, theirs_hash: Option<String>) -> bool {
    in_ours != in_theirs || (in_ours && in_theirs && !same_hash(ours_hash, theirs_hash))
}

/// A path is a conflict exactly when both sides changed it and they disagree
/// on the result; it is unchanged exactly when neither side changed it.
pub proof fn lemma_conflict_characterization(
    in_base: bool,
    in_ours: bool,
    in_theirs: bool,
    base_hash: Option<String>,
    ours_hash: Option<String>,
    theirs_hash: Option<String>,
)
    ensures
        three_way_status(in_base, in_ours, in_theirs, base_hash, ours_hash, theirs_hash).conflicting()
            <==> (side_changed(in_base, in_ours, base_hash, ours_hash)
                && side_changed(in_base, in_theirs, base_hash, theirs_hash)
                && sides_differ(in_ours, in_theirs, ours_hash, theirs_hash)),
        (three_way_status(in_base, in_ours, in_theirs, base_hash, ours_hash, theirs_hash) == ThreeWayStatus::Unchanged)
            <==> (!side_changed(in_base, in_ours, base_hash, ours_hash)
                && !side_changed(in_base, in_theirs, base_hash, theirs_hash)),
{
}

/// When exactly one side changed a path, the status names that side and
/// what it did: a change of content (`*-only`), an addition (`added-*`) or a
/// deletion (`deleted-*`), taken from where the path is present. A deletion
/// is always attributed to the side from which the path is missing.
pub proof fn lemma_status_names_changed_side(
    in_base: bool,
    in_ours: bool,
    in_theirs: bool,
    base_hash: Option<String>,
    ours_hash: Option<String>,
    theirs_hash: Option<String>,
)
    ensures
        ({
            let st = three_way_status(in_base, in_ours, in_theirs, base_hash, ours_hash, theirs_hash);
            &&& side_changed(in_base, in_ours, base_hash, ours_hash) && !side_changed(in_base, in_theirs, base_hash, theirs_hash)
                ==> st == (if !in_base {
                ThreeWayStatus::AddedOurs
            } else if !in_ours {
                ThreeWayStatus::DeletedOurs
            } else {
                ThreeWayStatus::OursOnly
            })
            &&& side_changed(in_base, in_theirs, base_hash, theirs_hash) && !side_changed(in_base, in_ours, base_hash, ours_hash)
                ==> st == (if !in_base {
                ThreeWayStatus::AddedTheirs
            } else if !in_theirs {
                ThreeWayStatus::DeletedTheirs
            } else {
                ThreeWayStatus::TheirsOnly
            })
            &&& st == ThreeWayStatus::DeletedOurs ==> in_base && !in_ours && in_theirs
            &&& st == ThreeWayStatus::DeletedTheirs ==> in_base && in_ours && !in_theirs
        }),
{
}

/// When exactly one side changed a path and still has it, the merged
/// output takes that side's version, as a single copy under the path's own
/// name, whatever the merge style.
pub proof fn lemma_copy_takes_changed_side(
    in_base: bool,
    in_ours: bool,
    in_theirs: bool,
    base_hash: Option<String>,
    ours_hash: Option<String>,
    theirs_hash: Option<String>,
    style: MergeStyle,
)
    ensures
        ({
            let st = three_way_status(in_base, in_ours, in_theirs, base_hash, ours_hash, theirs_hash);
            let steps = copy_steps(st, style, in_base, in_ours, in_theirs);
            &&& side_changed(in_base, in_ours, base_hash, ours_hash) && !side_changed(in_base, in_theirs, base_hash, theirs_hash)
                && in_ours ==> steps == seq![CopyStep { from: Side::Ours, suffixed: false, create_parent: true }]
            &&& side_changed(in_base, in_theirs, base_hash, theirs_hash) && !side_changed(in_base, in_ours, base_hash, ours_hash)
                && in_theirs ==> steps == seq![CopyStep { from: Side::Theirs, suffixed: false, create_parent: true }]
        }),
{
    lemma_status_names_changed_side(in_base, in_ours, in_theirs, base_hash, ours_hash, theirs_hash);
}

/// The number of entries with the given status.
pub open spec fn status_count(entries: Seq<ThreeWayEntry>, st: ThreeWayStatus) -> nat {
    count_where(entries, |e: ThreeWayEntry| e.status == st)
}

/// The statistics hold, for each status, the number of entries with it, and
/// the number of entries in all.
pub open spec fn stats_count(stats: ThreeWayStats, entries: Seq<ThreeWayEntry>) -> bool {
    &&& stats.unchanged == status_count(entries, ThreeWayStatus::Unchanged)
    &&& stats.ours_only == status_count(entries, ThreeWayStatus::OursOnly)
    &&& stats.theirs_only == status_count(entries, ThreeWayStatus::TheirsOnly)
    &&& stats.both_same == status_count(entries, ThreeWayStatus::BothSame)
    &&& stats.conflict == status_count(entries, ThreeWayStatus::Conflict)
    &&& stats.added_ours == status_count(entries, ThreeWayStatus::AddedOurs)
    &&& stats.added_theirs == status_count(entries, ThreeWayStatus::AddedTheirs)
    &&& stats.added_both_same == status_count(entries, ThreeWayStatus::AddedBothSame)
    &&& stats.added_both_diff == status_count(entries, ThreeWayStatus::AddedBothDiff)
    &&& stats.deleted_ours == status_count(entries, ThreeWayStatus::DeletedOurs)
    &&& stats.deleted_theirs == status_count(entries, ThreeWayStatus::DeletedTheirs)
    &&& stats.deleted_both == status_count(entries, ThreeWayStatus::DeletedBoth)
    &&& stats.modify_delete == status_count(entries, ThreeWayStatus::ModifyDelete)
    &&& stats.delete_modify == status_count(entries, ThreeWayStatus::DeleteModify)
    &&& stats.total_items == entries.len()
}

/// The sum of all per-status counters.
pub open spec fn counter_sum(s: ThreeWayStats) -> int {
    s.unchanged + s.ours_only + s.theirs_only + s.both_same + s.conflict + s.added_ours + s.added_theirs
        + s.added_both_same + s.added_both_diff + s.deleted_ours + s.deleted_theirs + s.deleted_both
        + s.modify_delete + s.delete_modify
}

proof fn lemma_status_counts_sum(entries: Seq<ThreeWayEntry>)
    ensures
        status_count(entries, ThreeWayStatus::Unchanged) + status_count(entries, ThreeWayStatus::OursOnly)
            + status_count(entries, ThreeWayStatus::TheirsOnly) + status_count(entries, ThreeWayStatus::BothSame)
            + status_count(entries, ThreeWayStatus::Conflict) + status_count(entries, ThreeWayStatus::AddedOurs)
            + status_count(entries, ThreeWayStatus::AddedTheirs)
            + status_count(entries, ThreeWayStatus::AddedBothSame)
            + status_count(entries, ThreeWayStatus::AddedBothDiff)
            + status_count(entries, ThreeWayStatus::DeletedOurs)
            + status_count(entries, ThreeWayStatus::DeletedTheirs)
            + status_count(entries, ThreeWayStatus::DeletedBoth)
            + status_count(entries, ThreeWayStatus::ModifyDelete)
            + status_count(entries, ThreeWayStatus::DeleteModify) == entries.len(),
    decreases entries.len(),
{
    if entries.len() > 0 {
        lemma_status_counts_sum(entries.drop_last());
    }
}

/// Every item is counted under exactly one status: statistics that count a
/// list of entries have counters that add up to the total.
pub proof fn lemma_stats_partition(stats: ThreeWayStats, entries: Seq<ThreeWayEntry>)
    requires
        stats_count(stats, entries),
    ensures
        counter_sum(stats) == stats.total_items,
{
    lemma_status_counts_sum(entries);
}

/// Counts the entries per status.
pub fn calculate_stats(entries: &Vec<ThreeWayEntry>) -> (r: ThreeWayStats)
    ensures
        stats_count(r, entries@),
{
    let mut stats = ThreeWayStats::default();
    let mut i: usize = 0;
    while i < entries.len()
        invariant
            i <= entries@.len(),
            stats_count(stats, entries@.take(i as int)),
        decreases entries@.len() - i,
    {
        let ghost prefix = entries@.take(i as int);
        proof {
            assert(entries@.take(i + 1).drop_last() =~= prefix);
            lemma_count_le_len(prefix, |e: ThreeWayEntry| e.status == entries@[i as int].status);
        }
        match entries[i].status {
            ThreeWayStatus::Unchanged => stats.unchanged = stats.unchanged + 1,
            ThreeWayStatus::OursOnly => stats.ours_only = stats.ours_only + 1,
            ThreeWayStatus::TheirsOnly => stats.theirs_only = stats.theirs_only + 1,
            ThreeWayStatus::BothSame => stats.both_same = stats.both_same + 1,
            ThreeWayStatus::Conflict => stats.conflict = stats.conflict + 1,
            ThreeWayStatus::AddedOurs => stats.added_ours = stats.added_ours + 1,
            ThreeWayStatus::AddedTheirs => stats.added_theirs = stats.added_theirs + 1,
            ThreeWayStatus::AddedBothSame => stats.added_both_same = stats.added_both_same + 1,
            ThreeWayStatus::AddedBothDiff => stats.added_both_diff = stats.added_both_diff + 1,
            ThreeWayStatus::DeletedOurs => stats.deleted_ours = stats.deleted_ours + 1,
            ThreeWayStatus::DeletedTheirs => stats.deleted_theirs = stats.deleted_theirs + 1,
            ThreeWayStatus::DeletedBoth => stats.deleted_both = stats.deleted_both + 1,
            ThreeWayStatus::ModifyDelete => stats.modify_delete = stats.modify_delete + 1,
            ThreeWayStatus::DeleteModify => stats.delete_modify = stats.delete_modify + 1,
        }
        stats.total_items = i + 1;
        i = i + 1;
    }
    proof {
        assert(entries@.take(i as int) =~= entries@);
    }
    stats
}

/// What the file system shows of one path in the three trees.
#[derive(Debug, Clone)]
pub struct ThreeWayObservation {
    pub in_base: bool,
    pub in_ours: bool,
    pub in_theirs: bool,
    /// The path is a directory in at least one tree.
    pub is_directory: bool,
    pub base_hash: Option<String>,
    pub ours_hash: Option<String>,
    pub theirs_hash: Option<String>,
    pub base_size: Option<u64>,
    pub ours_size: Option<u64>,
    pub theirs_size: Option<u64>,
}

/// Whether an entry with this status belongs in the result.
pub open spec fn reported(status: ThreeWayStatus, show_unchanged: bool, conflict_only: bool) -> bool {
    !(status == ThreeWayStatus::Unchanged && !show_unchanged) && !(conflict_only && !status.conflicting())
}

/// The status that an observation of one path calls for.
pub open spec fn observed_status(obs: ThreeWayObservation) -> ThreeWayStatus {
    three_way_status(obs.in_base, obs.in_ours, obs.in_theirs, obs.base_hash, obs.ours_hash, obs.theirs_hash)
}

/// Whether an entry reports the path `rel` as observed: a file, with the
/// status the observation calls for, and with the observed presence, hashes
/// and sizes in each tree.
pub open spec fn entry_of(e: ThreeWayEntry, rel: Seq<char>, obs: ThreeWayObservation) -> bool {
    &&& e.status == observed_status(obs)
    &&& e.relative_path@ == rel
    &&& !e.is_directory
    &&& e.base_exists == obs.in_base && e.ours_exists == obs.in_ours && e.theirs_exists == obs.in_theirs
    &&& e.base_hash == obs.base_hash && e.ours_hash == obs.ours_hash && e.theirs_hash == obs.theirs_hash
    &&& e.base_size == obs.base_size && e.ours_size == obs.ours_size && e.theirs_size == obs.theirs_size
}

/// Whether a path belongs in the result: it is no directory, and its status
/// is reported under the two switches.
pub open spec fn path_reported(obs: ThreeWayObservation, show_unchanged: bool, conflict_only: bool) -> bool {
    !obs.is_directory && reported(observed_status(obs), show_unchanged, conflict_only)
}

/// The outcome for one path: an entry reporting it exactly when it belongs
/// in the result.
pub open spec fn outcome_of(
    o: Option<ThreeWayEntry>,
    rel: Seq<char>,
    obs: ThreeWayObservation,
    show_unchanged: bool,
    conflict_only: bool,
) -> bool {
    match o {
        None => !path_reported(obs, show_unchanged, conflict_only),
        Some(e) => path_reported(obs, show_unchanged, conflict_only) && entry_of(e, rel, obs),
    }
}

/// The entry for one path: directories are skipped, unchanged files only
/// appear when asked for, and in conflict-only mode only conflicts appear.
pub fn compare_path(
    relative_path: String,
    obs: &ThreeWayObservation,
    show_unchanged: bool,
    conflict_only: bool,
) -> (r: Option<ThreeWayEntry>)
    ensures
        outcome_of(r, relative_path@, *obs, show_unchanged, conflict_only),
        r matches Some(e) ==> e.relative_path == relative_path,
{
    if obs.is_directory {
        return None;
    }
    let status = determine_status(
        obs.in_base,
        obs.in_ours,
        obs.in_theirs,
        &obs.base_hash,
        &obs.ours_hash,
        &obs.theirs_hash,
    );
    if status == ThreeWayStatus::Unchanged && !show_unchanged {
        return None;
    }
    if conflict_only && !status.is_conflict() {
        return None;
    }
    let mut entry = ThreeWayEntry::new(relative_path, status, false);
    entry.base_exists = obs.in_base;
    entry.ours_exists = obs.in_ours;
    entry.theirs_exists = obs.in_theirs;
    entry.base_hash = obs.base_hash.clone();
    entry.ours_hash = obs.ours_hash.clone();
    entry.theirs_hash = obs.theirs_hash.clone();
    entry.base_size = obs.base_size;
    entry.ours_size = obs.ours_size;
    entry.theirs_size = obs.theirs_size;
    Some(entry)
}

/// One of the three trees.
#[derive(Debug, Clone, Copy, PartialEq, Eq, Structural)]
pub enum Side {
    Base,
    Ours,
    Theirs,
}

/// One file copy into the output tree: the version of `from`, either under
/// its own relative path or under the path followed by `.base`, `.ours` or
/// `.theirs` (the suffix of `from`); `create_parent` asks that the parent
/// directory of the destination be created first.
#[derive(Debug, Clone, Copy, PartialEq, Eq, Structural)]
pub struct CopyStep {
    pub from: Side,
    pub suffixed: bool,
    pub create_parent: bool,
}

/// A plain copy of one side's version under the same relative path.
pub open spec fn plain_copy(from: Side) -> CopyStep {
    CopyStep { from, suffixed: false, create_parent: true }
}

/// A copy of one side's version under its suffixed name.
pub open spec fn suffixed_copy(from: Side, create_parent: bool) -> CopyStep {
    CopyStep { from, suffixed: true, create_parent }
}

/// The copies that a three-way entry calls for, in order; the first failing
/// copy ends the entry.
pub open spec fn copy_steps(
    status: ThreeWayStatus,
    style: MergeStyle,
    base_exists: bool,
    ours_exists: bool,
    theirs_exists: bool,
) -> Seq<CopyStep> {
    match status {
        ThreeWayStatus::Unchanged | ThreeWayStatus::DeletedOurs | ThreeWayStatus::DeletedTheirs
        | ThreeWayStatus::DeletedBoth => Seq::empty(),
        ThreeWayStatus::OursOnly | ThreeWayStatus::BothSame | ThreeWayStatus::AddedOurs
        | ThreeWayStatus::AddedBothSame => seq![plain_copy(Side::Ours)],
        ThreeWayStatus::TheirsOnly | ThreeWayStatus::AddedTheirs => seq![plain_copy(Side::Theirs)],
        ThreeWayStatus::Conflict | ThreeWayStatus::AddedBothDiff => match style {
            MergeStyle::All => {
                (if base_exists { seq![suffixed_copy(Side::Base, true)] } else { Seq::empty() })
                    + (if ours_exists { seq![suffixed_copy(Side::Ours, true)] } else { Seq::empty() })
                    + (if theirs_exists { seq![suffixed_copy(Side::Theirs, true)] } else { Seq::empty() })
            },
            MergeStyle::Ours => seq![plain_copy(Side::Ours)],
            MergeStyle::Theirs => seq![plain_copy(Side::Theirs)],
        },
        ThreeWayStatus::ModifyDelete => match style {
            MergeStyle::All => seq![suffixed_copy(Side::Base, true), suffixed_copy(Side::Ours, false)],
            MergeStyle::Ours => seq![plain_copy(Side::Ours)],
            MergeStyle::Theirs => Seq::empty(),
        },
        ThreeWayStatus::DeleteModify => match style {
            MergeStyle::All => seq![suffixed_copy(Side::Base, true), suffixed_copy(Side::Theirs, false)],
            MergeStyle::Ours => Seq::empty(),
            MergeStyle::Theirs => seq![plain_copy(Side::Theirs)],
        },
    }
}

/// The place of a side in the order base, ours, theirs.
pub open spec fn side_rank(side: Side) -> int {
    match side {
        Side::Base => 0,
        Side::Ours => 1,
        Side::Theirs => 2,
    }
}

/// How a conflict is resolved in the output: the `ours` style takes ours'
/// version and the `theirs` style theirs', each under the path's own name,
/// while the `all` style keeps every version present, suffixed, in the order
/// base, ours, theirs; and a path that no side changed, or that every side
/// that has it deleted, gets no copy at all.
pub proof fn lemma_conflict_copies(status: ThreeWayStatus, base_exists: bool, ours_exists: bool, theirs_exists: bool)
    ensures
        (status is Conflict || status is AddedBothDiff) ==> {
            &&& copy_steps(status, MergeStyle::Ours, base_exists, ours_exists, theirs_exists) == seq![
                CopyStep { from: Side::Ours, suffixed: false, create_parent: true },
            ]
            &&& copy_steps(status, MergeStyle::Theirs, base_exists, ours_exists, theirs_exists) == seq![
                CopyStep { from: Side::Theirs, suffixed: false, create_parent: true },
            ]
            &&& forall|k: int|
                0 <= k < copy_steps(status, MergeStyle::All, base_exists, ours_exists, theirs_exists).len() ==> {
                    let step = #[trigger] copy_steps(status, MergeStyle::All, base_exists, ours_exists, theirs_exists)[k];
                    &&& step.suffixed
                    &&& step.from == Side::Base ==> base_exists
                    &&& step.from == Side::Ours ==> ours_exists
                    &&& step.from == Side::Theirs ==> theirs_exists
                }
            &&& forall|j: int, k: int|
                0 <= j < k < copy_steps(status, MergeStyle::All, base_exists, ours_exists, theirs_exists).len()
                    ==> side_rank(
                    (#[trigger] copy_steps(status, MergeStyle::All, base_exists, ours_exists, theirs_exists)[j]).from,
                ) < side_rank(
                    (#[trigger] copy_steps(status, MergeStyle::All, base_exists, ours_exists, theirs_exists)[k]).from,
                )
            &&& copy_steps(status, MergeStyle::All, base_exists, ours_exists, theirs_exists).len() == (if base_exists {
                1int
            } else {
                0int
            }) + (if ours_exists {
                1int
            } else {
                0int
            }) + (if theirs_exists {
                1int
            } else {
                0int
            })
        },
        status is ModifyDelete ==> copy_steps(status, MergeStyle::Ours, base_exists, ours_exists, theirs_exists) == seq![
            CopyStep { from: Side::Ours, suffixed: false, create_parent: true },
        ] && copy_steps(status, MergeStyle::Theirs, base_exists, ours_exists, theirs_exists).len() == 0,
        status is DeleteModify ==> copy_steps(status, MergeStyle::Theirs, base_exists, ours_exists, theirs_exists) == seq![
            CopyStep { from: Side::Theirs, suffixed: false, create_parent: true },
        ] && copy_steps(status, MergeStyle::Ours, base_exists, ours_exists, theirs_exists).len() == 0,
        (status is Unchanged || status is DeletedOurs || status is DeletedTheirs || status is DeletedBoth) ==> forall|
            style: MergeStyle,
        | copy_steps(status, style, base_exists, ours_exists, theirs_exists).len() == 0,
{
    if status is Conflict || status is AddedBothDiff {
        let b: Seq<CopyStep> = if base_exists { seq![suffixed_copy(Side::Base, true)] } else { Seq::empty() };
        let o: Seq<CopyStep> = if ours_exists { seq![suffixed_copy(Side::Ours, true)] } else { Seq::empty() };
        let t: Seq<CopyStep> = if theirs_exists { seq![suffixed_copy(Side::Theirs, true)] } else { Seq::empty() };
        let all = copy_steps(status, MergeStyle::All, base_exists, ours_exists, theirs_exists);
        assert(all == b + o + t);
        assert forall|k: int| 0 <= k < all.len() implies {
            let step = #[trigger] all[k];
            &&& step.suffixed
            &&& step.from == Side::Base ==> base_exists
            &&& step.from == Side::Ours ==> ours_exists
            &&& step.from == Side::Theirs ==> theirs_exists
        } by {
            if k < b.len() {
                assert(all[k] == b[k]);
            } else if k < b.len() + o.len() {
                assert(all[k] == o[k - b.len()]);
            } else {
                assert(all[k] == t[k - b.len() - o.len()]);
            }
        }
        assert forall|j: int, k: int| 0 <= j < k < all.len() implies side_rank((#[trigger] all[j]).from) < side_rank(
            (#[trigger] all[k]).from,
        ) by {
            let rj = if j < b.len() { 0int } else if j < b.len() + o.len() { 1int } else { 2int };
            let rk = if k < b.len() { 0int } else if k < b.len() + o.len() { 1int } else { 2int };
            if j < b.len() {
                assert(all[j] == b[j]);
            } else if j < b.len() + o.len() {
                assert(all[j] == o[j - b.len()]);
            } else {
                assert(all[j] == t[j - b.len() - o.len()]);
            }
            if k < b.len() {
                assert(all[k] == b[k]);
            } else if k < b.len() + o.len() {
                assert(all[k] == o[k - b.len()]);
            } else {
                assert(all[k] == t[k - b.len() - o.len()]);
            }
            assert(side_rank(all[j].from) == rj && side_rank(all[k].from) == rk);
        }
    }
}

/// The copies for one entry of the three-way result.
pub fn plan_copy(entry: &ThreeWayEntry, style: MergeStyle) -> (r: Vec<CopyStep>)
    ensures
        r@ == copy_steps(entry.status, style, entry.base_exists, entry.ours_exists, entry.theirs_exists),
        entry.status is OursOnly || entry.status is AddedOurs ==> r@ == seq![
            CopyStep { from: Side::Ours, suffixed: false, create_parent: true },
        ],
        entry.status is TheirsOnly || entry.status is AddedTheirs ==> r@ == seq![
            CopyStep { from: Side::Theirs, suffixed: false, create_parent: true },
        ],
{
    let plain_ours = CopyStep { from: Side::Ours, suffixed: false, create_parent: true };
    let plain_theirs = CopyStep { from: Side::Theirs, suffixed: false, create_parent: true };
    let r = match entry.status {
        ThreeWayStatus::Unchanged | ThreeWayStatus::DeletedOurs | ThreeWayStatus::DeletedTheirs
        | ThreeWayStatus::DeletedBoth => Vec::new(),
        ThreeWayStatus::OursOnly | ThreeWayStatus::BothSame | ThreeWayStatus::AddedOurs
        | ThreeWayStatus::AddedBothSame => vec![plain_ours],
        ThreeWayStatus::TheirsOnly | ThreeWayStatus::AddedTheirs => vec![plain_theirs],
        ThreeWayStatus::Conflict | ThreeWayStatus::AddedBothDiff => match style {
            MergeStyle::All => {
                let mut v: Vec<CopyStep> = Vec::new();
                if entry.base_exists {
                    v.push(CopyStep { from: Side::Base, suffixed: true, create_parent: true });
                }
                if entry.ours_exists {
                    v.push(CopyStep { from: Side::Ours, suffixed: true, create_parent: true });
                }
                if entry.theirs_exists {
                    v.push(CopyStep { from: Side::Theirs, suffixed: true, create_parent: true });
                }
                v
            },
            MergeStyle::Ours => vec![plain_ours],
            MergeStyle::Theirs => vec![plain_theirs],
        },
        ThreeWayStatus::ModifyDelete => match style {
            MergeStyle::All => vec![
                CopyStep { from: Side::Base, suffixed: true, create_parent: true },
                CopyStep { from: Side::Ours, suffixed: true, create_parent: false },
            ],
            MergeStyle::Ours => vec![plain_ours],
            MergeStyle::Theirs => Vec::new(),
        },
        ThreeWayStatus::DeleteModify => match style {
            MergeStyle::All => vec![
                CopyStep { from: Side::Base, suffixed: true, create_parent: true },
                CopyStep { from: Side::Theirs, suffixed: true, create_parent: false },
            ],
            MergeStyle::Ours => Vec::new(),
            MergeStyle::Theirs => vec![plain_theirs],
        },
    };
    proof {
        assert(r@ =~= copy_steps(entry.status, style, entry.base_exists, entry.ours_exists, entry.theirs_exists));
    }
    r
}

/// The result of a three-way comparison from the outcome of each path, in
/// order: the entries reported, their statistics, and no copies yet.
pub fn collect_result(outcomes: Vec<Option<ThreeWayEntry>>) -> (r: ThreeWayResult)
    ensures
        r.entries@ == kept_outcomes(outcomes@),
        stats_count(r.stats, r.entries@),
        r.copy_results@.len() == 0,
{
    let mut outcomes = outcomes;
    let ghost orig = outcomes@;
    let mut entries: Vec<ThreeWayEntry> = Vec::new();
    let mut i: usize = 0;
    while i < outcomes.len()
        invariant
            outcomes@.len() == orig.len(),
            i <= orig.len(),
            forall|j: int| i <= j < orig.len() ==> outcomes@[j] == orig[j],
            entries@ == kept_outcomes(orig.take(i as int)),
        decreases orig.len() - i,
    {
        let mut slot: Option<ThreeWayEntry> = None;
        std::mem::swap(&mut slot, &mut outcomes[i]);
        proof {
            assert(orig.take(i + 1).drop_last() =~= orig.take(i as int));
            assert(slot == orig[i as int]);
        }
        if let Some(e) = slot {
            entries.push(e);
        }
        i = i + 1;
    }
    proof {
        assert(orig.take(i as int) =~= orig);
    }
    let stats = calculate_stats(&entries);
    ThreeWayResult { entries, stats, copy_results: Vec::new() }
}

/// The suffix of a side's version under its suffixed name.
pub open spec fn side_suffix(side: Side) -> Seq<char> {
    match side {
        Side::Base => ".base"@,
        Side::Ours => ".ours"@,
        Side::Theirs => ".theirs"@,
    }
}

/// The tree a side's version is read from.
pub open spec fn side_root(side: Side, source: Seq<char>, target: Seq<char>, base: Seq<char>) -> Seq<char> {
    match side {
        Side::Base => base,
        Side::Ours => source,
        Side::Theirs => target,
    }
}

/// The (from, to) paths of a copy step for a relative path: the side's
/// version below its tree, to the relative path (suffixed when asked) below
/// the output directory.
pub open spec fn step_paths_for(
    step: CopyStep,
    rel: Seq<char>,
    source: Seq<char>,
    target: Seq<char>,
    base: Seq<char>,
    output: Seq<char>,
) -> (Seq<char>, Seq<char>) {
    (
        joined(side_root(step.from, source, target, base), rel),
        joined(output, if step.suffixed { rel + side_suffix(step.from) } else { rel }),
    )
}

/// The (from, to) paths of a copy step.
pub fn step_paths(step: CopyStep, rel: &str, source: &str, target: &str, base: &str, output: &str) -> (r: (String, String))
    ensures
        (r.0@, r.1@) == step_paths_for(step, rel@, source@, target@, base@, output@),
{
    let root = match step.from {
        Side::Base => base,
        Side::Ours => source,
        Side::Theirs => target,
    };
    let from = join_path(root, rel);
    let to = if step.suffixed {
        let suffix = match step.from {
            Side::Base => ".base",
            Side::Ours => ".ours",
            Side::Theirs => ".theirs",
        };
        let name = cat2(rel, suffix);
        join_path(output, name.as_str())
    } else {
        join_path(output, rel)
    };
    (from, to)
}

/// The result of a three-way comparison of the given paths, each observed
/// in the three trees (`obs[i]` is what the trees show of `paths[i]`): one
/// entry for each path that belongs in the result, in the order of the
/// paths (so ascending when the paths are), each reporting its path as
/// observed; statistics that count the entries of each status; no copies yet.
pub fn compare_all(
    paths: &Vec<String>,
    obs: &Vec<ThreeWayObservation>,
    show_unchanged: bool,
    conflict_only: bool,
) -> (r: ThreeWayResult)
    requires
        paths@.len() == obs@.len(),
    ensures
        forall|k: int|
            0 <= k < r.entries@.len() ==> exists|i: int|
                0 <= i < paths@.len() && path_reported(obs@[i], show_unchanged, conflict_only) && entry_of(
                    #[trigger] r.entries@[k],
                    paths@[i]@,
                    obs@[i],
                ),
        forall|i: int|
            0 <= i < paths@.len() && path_reported(#[trigger] obs@[i], show_unchanged, conflict_only) ==> exists|k: int|
                0 <= k < r.entries@.len() && entry_of(r.entries@[k], paths@[i]@, obs@[i]),
        paths_increasing(texts(paths@)) ==> paths_increasing(r.entries@.map_values(|e: ThreeWayEntry| e.relative_path@)),
        stats_count(r.stats, r.entries@),
        r.copy_results@.len() == 0,
{
    let mut outcomes: Vec<Option<ThreeWayEntry>> = Vec::new();
    let mut i: usize = 0;
    while i < paths.len()
        invariant
            i <= paths@.len(),
            paths@.len() == obs@.len(),
            outcomes@.len() == i,
            forall|j: int|
                0 <= j < i ==> outcome_of(#[trigger] outcomes@[j], paths@[j]@, obs@[j], show_unchanged, conflict_only),
        decreases paths@.len() - i,
    {
        let o = compare_path(paths[i].clone(), &obs[i], show_unchanged, conflict_only);
        outcomes.push(o);
        i = i + 1;
    }
    let ghost outs = outcomes@;
    let r = collect_result(outcomes);
    proof {
        lemma_kept_from(outs);
        assert forall|k: int| 0 <= k < r.entries@.len() implies exists|i: int|
            0 <= i < paths@.len() && path_reported(obs@[i], show_unchanged, conflict_only) && entry_of(
                #[trigger] r.entries@[k],
                paths@[i]@,
                obs@[i],
            ) by {
            let j = choose|j: int| 0 <= j < outs.len() && outs[j] == Some(#[trigger] kept_outcomes(outs)[k]);
            assert(outcome_of(outs[j], paths@[j]@, obs@[j], show_unchanged, conflict_only));
        }
        assert forall|i: int| 0 <= i < paths@.len() && path_reported(#[trigger] obs@[i], show_unchanged, conflict_only) implies exists|k: int|
            0 <= k < r.entries@.len() && entry_of(r.entries@[k], paths@[i]@, obs@[i]) by {
            assert(outcome_of(outs[i], paths@[i]@, obs@[i], show_unchanged, conflict_only));
            lemma_kept_has(outs, i);
            let k = choose|k: int| 0 <= k < kept_outcomes(outs).len() && kept_outcomes(outs)[k] == outs[i]->0;
            assert(entry_of(r.entries@[k], paths@[i]@, obs@[i]));
        }
        if paths_increasing(texts(paths@)) {
            let key = |e: ThreeWayEntry| e.relative_path@;
            assert forall|j: int| 0 <= j < outs.len() && outs[j] is Some implies key(#[trigger] outs[j]->0) == texts(paths@)[j] by {
                assert(outcome_of(outs[j], paths@[j]@, obs@[j], show_unchanged, conflict_only));
            }
            lemma_kept_in_order(texts(paths@), outs, key);
        }
    }
    r
}

/// The copy reports of a three-way result: one per entry, in order, each
/// telling of that entry's path and of the outcome of its copy
/// (`outcomes[k]` is the outcome for `entries[k]`).
pub fn three_way_copy_report(entries: &Vec<ThreeWayEntry>, outcomes: &Vec<Result<(), String>>) -> (r: Vec<CopyResult>)
    requires
        entries@.len() == outcomes@.len(),
    ensures
        r@.len() == entries@.len(),
        forall|k: int| 0 <= k < r@.len() ==> reports(#[trigger] r@[k], entries@[k].relative_path@, outcomes@[k]),
{
    let mut r: Vec<CopyResult> = Vec::new();
    let mut k: usize = 0;
    while k < entries.len()
        invariant
            k <= entries@.len(),
            entries@.len() == outcomes@.len(),
            r@.len() == k,
            forall|j: int| 0 <= j < k ==> reports(#[trigger] r@[j], entries@[j].relative_path@, outcomes@[j]),
        decreases entries@.len() - k,
    {
        let one = copy_outcome(entries[k].relative_path.as_str(), &outcomes[k]);
        r.push(one);
        k = k + 1;
    }
    r
}

/// The copies of a three-way run: none at all in a dry run, else the copy
/// steps of each entry, in order.
pub fn copy_plans(entries: &Vec<ThreeWayEntry>, style: MergeStyle, dry_run: bool) -> (r: Vec<Vec<CopyStep>>)
    ensures
        dry_run ==> r@.len() == 0,
        !dry_run ==> r@.len() == entries@.len(),
        forall|k: int|
            0 <= k < r@.len() ==> (#[trigger] r@[k])@ == copy_steps(
                entries@[k].status,
                style,
                entries@[k].base_exists,
                entries@[k].ours_exists,
                entries@[k].theirs_exists,
            ),
{
    let mut r: Vec<Vec<CopyStep>> = Vec::new();
    if dry_run {
        return r;
    }
    let mut k: usize = 0;
    while k < entries.len()
        invariant
            k <= entries@.len(),
            r@.len() == k,
            forall|j: int|
                0 <= j < k ==> (#[trigger] r@[j])@ == copy_steps(
                    entries@[j].status,
                    style,
                    entries@[j].base_exists,
                    entries@[j].ours_exists,
                    entries@[j].theirs_exists,
                ),
        decreases entries@.len() - k,
    {
        r.push(plan_copy(&entries[k], style));
        k = k + 1;
    }
    r
}

} // verus!
