//! The text summary of a three-way comparison: header, options, change
//! matrix, file tree with per-side indicators, and conflict details.
use vstd::prelude::*;

use crate::config::Config;
use crate::filter::display_parts;
use crate::path_tree::{
    calculate_max_path_width, insert_into_tree, nodes_model, render_from, render_tree, tree_model, widest_from, Flavor,
    TreeNode,
};
use crate::report_text::{banner, gather, paint, painted, pad_left, pad_right, push_banner, push_number_padded_left, push_padded_right, Paint};
use crate::summary::{text_if, uses_color, SummaryOutput};
use crate::text::{chars_of, decimal, join, push_char, push_decimal, push_str, texts};
use crate::three_way::{hashes_equal, same_hash};
use crate::types::{ColorMode, MergeStyle, ThreeWayEntry, ThreeWayResult, ThreeWayStats, ThreeWayStatus};
use crate::utils::{slash_segments, spaces, split_segments};

verus! {

/// Writes the summary of a three-way comparison.
pub struct ThreeWaySummaryWriter<'a> {
    pub config: &'a Config,
    pub use_color: bool,
}

/// The header of the three-way summary.
pub open spec fn header3_text(c: Config, date: Seq<char>) -> Seq<char> {
    "rs_diffcopy Summary (Three-way)\n===============================\nBase:   "@ + (match c.base {
        Some(b) => b@,
        None => Seq::empty(),
    }) + "\nOurs:   "@ + c.source@ + "\nTheirs: "@ + c.target@ + "\nOutput: "@ + c.output@ + "\nDate:   "@ + date
        + "\n"@
}

/// Whether the three-way summary lists options.
pub open spec fn has_options3(c: Config) -> bool {
    c.dry_run || c.merge_style != MergeStyle::All || c.conflict_only || !c.filter_status.blank() || c.exclude@.len() > 0
}

/// The options section of the three-way summary.
pub open spec fn options3_text(c: Config) -> Seq<char> {
    "\nOptions:\n"@ + text_if(c.dry_run, "  Mode: Dry run (no files copied)\n"@) + "  Merge style: "@
        + c.merge_style.name() + "\n"@ + text_if(c.conflict_only, "  Conflict only: Yes\n"@) + text_if(
        !c.filter_status.blank(),
        "  Filter status: "@ + join(display_parts(c.filter_status), ", "@) + "\n"@,
    ) + text_if(
        c.exclude@.len() > 0,
        "  Exclude patterns:\n"@ + gather(texts(c.exclude@), |p: Seq<char>| true, |p: Seq<char>| "    - "@ + p + "\n"@),
    )
}

/// A row of the change matrix: the label padded to 16, a bar, the count
/// right-aligned in 5.
pub open spec fn matrix_line(label: Seq<char>, n: nat) -> Seq<char> {
    pad_right(label, 16) + "| "@ + pad_left(decimal(n), 5) + "\n"@
}

/// A matrix row when its count is not zero (the unchanged row always).
pub open spec fn matrix_row_if(label: Seq<char>, n: usize, always: bool) -> Seq<char> {
    text_if(n > 0 || always, matrix_line(label, n as nat))
}

/// The change matrix section.
pub open spec fn matrix_text(s: ThreeWayStats) -> Seq<char> {
    banner("Change Matrix"@) + "Status          | Count\n----------------|------\n"@ + matrix_row_if(
        "Unchanged"@,
        s.unchanged,
        true,
    ) + matrix_row_if("Ours only"@, s.ours_only, false) + matrix_row_if("Theirs only"@, s.theirs_only, false)
        + matrix_row_if("Both same"@, s.both_same, false) + matrix_row_if("Conflict"@, s.conflict, false)
        + matrix_row_if("Added ours"@, s.added_ours, false) + matrix_row_if("Added theirs"@, s.added_theirs, false)
        + matrix_row_if("Added both same"@, s.added_both_same, false) + matrix_row_if(
        "Added both diff"@,
        s.added_both_diff,
        false,
    ) + matrix_row_if("Deleted ours"@, s.deleted_ours, false) + matrix_row_if("Deleted theirs"@, s.deleted_theirs, false)
        + matrix_row_if("Deleted both"@, s.deleted_both, false) + matrix_row_if("Modify/Delete"@, s.modify_delete, false)
        + matrix_row_if("Delete/Modify"@, s.delete_modify, false) + "--------------------------\n"@ + matrix_line(
        "Total           "@,
        s.total_items as nat,
    ) + matrix_line("Conflicts       "@, s.conflicts() as nat)
}

/// The mark of one side against the base: unchanged `=`, modified `M`,
/// deleted `D`, added `A`, absent `-`.
pub open spec fn change_char(base_exists: bool, side_exists: bool, base_hash: Option<String>, side_hash: Option<String>) -> Seq<char> {
    if base_exists && side_exists {
        if same_hash(base_hash, side_hash) { "="@ } else { "M"@ }
    } else if base_exists {
        "D"@
    } else if side_exists {
        "A"@
    } else {
        "-"@
    }
}

/// The indicator of an entry: base, ours and theirs marks in brackets,
/// spaced out in the file.
pub open spec fn indicator_text(e: ThreeWayEntry, console: bool) -> Seq<char> {
    let b = if e.base_exists { "○"@ } else { "-"@ };
    let o = change_char(e.base_exists, e.ours_exists, e.base_hash, e.ours_hash);
    let t = change_char(e.base_exists, e.theirs_exists, e.base_hash, e.theirs_hash);
    if console { "["@ + b + o + t + "]"@ } else { "["@ + b + "  "@ + o + "  "@ + t + "]"@ }
}

/// The colour of a status label on the console, if any.
pub open spec fn label_paint(st: ThreeWayStatus) -> Option<Paint> {
    match st {
        ThreeWayStatus::Conflict | ThreeWayStatus::AddedBothDiff | ThreeWayStatus::ModifyDelete
        | ThreeWayStatus::DeleteModify => Some(Paint::RedBold),
        ThreeWayStatus::OursOnly | ThreeWayStatus::AddedOurs => Some(Paint::Green),
        ThreeWayStatus::TheirsOnly | ThreeWayStatus::AddedTheirs => Some(Paint::Blue),
        ThreeWayStatus::BothSame | ThreeWayStatus::AddedBothSame => Some(Paint::Cyan),
        ThreeWayStatus::Unchanged => Some(Paint::Dimmed),
        _ => None,
    }
}

/// An indicator as drawn: plain, or red and bold for a conflict when
/// colours are on.
pub open spec fn indicator_ok(t: Seq<char>, e: ThreeWayEntry, console: bool, colored: bool) -> bool {
    t == indicator_text(e, console) || (colored && e.status.conflicting() && t == painted(
        Paint::RedBold,
        indicator_text(e, console),
    ))
}

/// A status label as drawn: plain, or in its colour when colours are on.
pub open spec fn label_ok(t: Seq<char>, e: ThreeWayEntry, colored: bool) -> bool {
    t == e.status.name() || (colored && label_paint(e.status) is Some && t == painted(
        label_paint(e.status)->0,
        e.status.name(),
    ))
}

/// The text after an entry's path in the tree: indicator and label.
pub open spec fn tag3_ok(t: Seq<char>, e: ThreeWayEntry, console: bool, colored: bool) -> bool {
    exists|i: Seq<char>, l: Seq<char>| indicator_ok(i, e, console, colored) && label_ok(l, e, colored) && t == i + " "@ + l
}

/// The plain tag of an entry.
pub open spec fn plain_tag3(e: ThreeWayEntry, console: bool) -> Seq<char> {
    indicator_text(e, console) + " "@ + e.status.name()
}

/// Whether each entry's tag is drawn as allowed.
pub open spec fn tags3_ok(tags: Seq<Seq<char>>, entries: Seq<ThreeWayEntry>, console: bool, colored: bool) -> bool {
    tags.len() == entries.len() && forall|k: int|
        0 <= k < tags.len() ==> tag3_ok(#[trigger] tags[k], entries[k], console, colored)
}

/// The paths of the entries the filter shows, split on `/`, with their
/// positions.
pub open spec fn three_way_paths(entries: Seq<ThreeWayEntry>, c: Config) -> Seq<(Seq<Seq<char>>, usize)>
    decreases entries.len(),
{
    if entries.len() == 0 {
        Seq::empty()
    } else {
        let rest = three_way_paths(entries.drop_last(), c);
        if c.filter_status.admits(entries.last().status.name()) {
            rest.push((slash_segments(entries.last().relative_path@), (entries.len() - 1) as usize))
        } else {
            rest
        }
    }
}

/// Whether each entry is a directory, by position.
pub open spec fn dirs3(entries: Seq<ThreeWayEntry>) -> Seq<bool> {
    entries.map_values(|e: ThreeWayEntry| e.is_directory)
}

/// The file-tree section of the three-way summary.
pub open spec fn tree3_text(entries: Seq<ThreeWayEntry>, c: Config, console: bool, tags: Seq<Seq<char>>) -> Seq<char> {
    let tree = tree_model(three_way_paths(entries, c));
    let dirs = dirs3(entries);
    let mw: usize = if console { 0 } else { widest_from(tree, 0, Seq::empty(), true, dirs) };
    banner("File Tree"@) + "Legend: [Base|Ours|Theirs] ○=exists -=missing ==same M=modified A=added D=deleted\n"@
        + text_if(!console, spaces(if mw > 0 { mw as nat } else { 40 }) + "B  O  T\n"@) + ".\n"@ + render_from(
        tree,
        0,
        Seq::empty(),
        true,
        Flavor::ThreeWay,
        console,
        mw,
        tags,
        dirs,
    )
}

/// A hash whose first eight characters are ASCII, so that its first eight
/// bytes are whole characters.
pub open spec fn short_ok(h: Option<String>) -> bool {
    h matches Some(x) ==> x@.len() >= 8 && forall|i: int| 0 <= i < 8 ==> (x@[i] as u32) < 0x80
}

/// The hashes of every entry can be shortened.
pub open spec fn hashes_ok(entries: Seq<ThreeWayEntry>) -> bool {
    forall|k: int|
        0 <= k < entries.len() ==> short_ok(#[trigger] entries[k].base_hash) && short_ok(entries[k].ours_hash)
            && short_ok(entries[k].theirs_hash)
}

/// The first eight characters of a hash, or `?`.
pub open spec fn hash8(h: Option<String>) -> Seq<char> {
    match h {
        Some(x) => x@.take(8),
        None => "?"@,
    }
}

/// A size in bytes, or nothing.
pub open spec fn bytes_text(s: Option<u64>) -> Seq<char> {
    match s {
        Some(n) => decimal(n as nat) + " bytes"@,
        None => Seq::empty(),
    }
}

/// The kind of a conflict as the details name it.
pub open spec fn conflict_type(st: ThreeWayStatus) -> Seq<char> {
    match st {
        ThreeWayStatus::Conflict => "Content conflict"@,
        ThreeWayStatus::AddedBothDiff => "Add/Add conflict (different content)"@,
        ThreeWayStatus::ModifyDelete => "Modify/Delete conflict"@,
        ThreeWayStatus::DeleteModify => "Delete/Modify conflict"@,
        _ => "Unknown"@,
    }
}

/// One side of a conflict: its short hash and size, or `Deleted`.
pub open spec fn side_line(label: Seq<char>, exists: bool, h: Option<String>, s: Option<u64>) -> Seq<char> {
    if exists {
        "   "@ + label + hash8(h) + "... ("@ + bytes_text(s) + ")\n"@
    } else {
        "   "@ + label + "Deleted\n"@
    }
}

/// The details of the `n`-th conflict.
pub open spec fn conflict_block(e: ThreeWayEntry, n: nat) -> Seq<char> {
    decimal(n) + ". "@ + e.relative_path@ + "\n   Type: "@ + conflict_type(e.status) + "\n"@ + text_if(
        e.base_exists,
        side_line("Base:   "@, true, e.base_hash, e.base_size),
    ) + side_line("Ours:   "@, e.ours_exists, e.ours_hash, e.ours_size) + side_line(
        "Theirs: "@,
        e.theirs_exists,
        e.theirs_hash,
        e.theirs_size,
    ) + "\n"@
}

/// The conflicts shown: in conflict and passing the filter.
pub open spec fn shown_conflicts(entries: Seq<ThreeWayEntry>, c: Config) -> Seq<ThreeWayEntry>
    decreases entries.len(),
{
    if entries.len() == 0 {
        Seq::empty()
    } else {
        let rest = shown_conflicts(entries.drop_last(), c);
        let e = entries.last();
        if e.status.conflicting() && c.filter_status.admits(e.status.name()) { rest.push(e) } else { rest }
    }
}

/// The conflict blocks, numbered from 1.
pub open spec fn conflict_blocks(es: Seq<ThreeWayEntry>) -> Seq<char>
    decreases es.len(),
{
    if es.len() == 0 { Seq::empty() } else { conflict_blocks(es.drop_last()) + conflict_block(es.last(), es.len()) }
}

/// The whole three-way summary, given the tag drawn for each entry.
pub open spec fn summary3_text(c: Config, r: ThreeWayResult, console: bool, date: Seq<char>, tags: Seq<Seq<char>>) -> Seq<char> {
    let head = header3_text(c, date) + "\n"@ + text_if(has_options3(c), options3_text(c) + "\n"@) + matrix_text(r.stats)
        + "\n"@;
    if !(r.stats.total_items > r.stats.unchanged) {
        head + "No differences found.\n"@
    } else {
        let shown = shown_conflicts(r.entries@, c);
        head + text_if(!(console && c.stats_only) && !c.no_tree, tree3_text(r.entries@, c, console, tags) + "\n"@) + text_if(
            !(console && c.stats_only) && !c.no_details && shown.len() > 0,
            banner("Conflict Details"@) + conflict_blocks(shown),
        )
    }
}

fn first_eight(h: &String) -> (r: String)
    requires
        short_ok(Some(*h)),
    ensures
        r@ == h@.take(8),
{
    let v = chars_of(h.as_str());
    let mut out = String::new();
    let mut i: usize = 0;
    while i < 8
        invariant
            i <= 8 <= v@.len(),
            v@ == h@,
            out@ == v@.take(i as int),
        decreases 8 - i,
    {
        push_char(&mut out, v[i]);
        proof {
            assert(v@.take(i + 1) =~= v@.take(i as int).push(v@[i as int]));
        }
        i = i + 1;
    }
    out
}

/// When nothing differs the three-way summary is its header, options and
/// change matrix followed by "No differences found.", with no tree and no
/// conflict details, whatever the switches say.
pub proof fn lemma_no_differences_summary(
    c: Config,
    r: ThreeWayResult,
    console: bool,
    date: Seq<char>,
    tags: Seq<Seq<char>>,
)
    requires
        r.stats.total_items <= r.stats.unchanged,
    ensures
        summary3_text(c, r, console, date, tags) == header3_text(c, date) + "\n"@ + text_if(
            has_options3(c),
            options3_text(c) + "\n"@,
        ) + matrix_text(r.stats) + "\n"@ + "No differences found.\n"@,
{
}

/// With `--stats-only` the console summary has no tree and no conflict
/// details.
pub proof fn lemma_stats_only_console(c: Config, r: ThreeWayResult, date: Seq<char>, tags: Seq<Seq<char>>)
    requires
        c.stats_only,
    ensures
        summary3_text(c, r, true, date, tags) == header3_text(c, date) + "\n"@ + text_if(
            has_options3(c),
            options3_text(c) + "\n"@,
        ) + matrix_text(r.stats) + "\n"@ + text_if(
            !(r.stats.total_items > r.stats.unchanged),
            "No differences found.\n"@,
        ),
{
    let head = header3_text(c, date) + "\n"@ + text_if(has_options3(c), options3_text(c) + "\n"@) + matrix_text(r.stats)
        + "\n"@;
    if r.stats.total_items > r.stats.unchanged {
        assert(head + Seq::<char>::empty() + Seq::<char>::empty() =~= head + Seq::<char>::empty());
    }
}

/// The tree and conflict listings read only the filter of a configuration.
proof fn lemma_listing_same(es: Seq<ThreeWayEntry>, c: Config, d: Config)
    requires
        c.filter_status == d.filter_status,
    ensures
        three_way_paths(es, d) == three_way_paths(es, c),
        shown_conflicts(es, d) == shown_conflicts(es, c),
    decreases es.len(),
{
    if es.len() > 0 {
        lemma_listing_same(es.drop_last(), c, d);
    }
}

/// `--stats-only` shortens the console summary only: the summary file is
/// the same with it as without it.
pub proof fn lemma_stats_only_spares_file(
    c: Config,
    r: ThreeWayResult,
    date: Seq<char>,
    tags: Seq<Seq<char>>,
    stats_only: bool,
)
    ensures
        summary3_text(Config { stats_only, ..c }, r, false, date, tags) == summary3_text(c, r, false, date, tags),
{
    let d = Config { stats_only, ..c };
    lemma_listing_same(r.entries@, c, d);
    assert(header3_text(d, date) == header3_text(c, date));
    assert(options3_text(d) == options3_text(c));
    assert(tree3_text(r.entries@, d, false, tags) == tree3_text(r.entries@, c, false, tags));
}

impl<'a> ThreeWaySummaryWriter<'a> {
    /// A writer for the given configuration; `terminal` is whether standard
    /// output is a terminal.
    pub fn new(config: &'a Config, terminal: bool) -> (r: ThreeWaySummaryWriter<'a>)
        ensures
            r.config == config,
            r.use_color == uses_color(config.color, terminal),
    {
        let use_color = match config.color {
            ColorMode::Always => true,
            ColorMode::Never => false,
            ColorMode::Auto => terminal,
        };
        ThreeWaySummaryWriter { config, use_color }
    }

    /// The header, with the date of the run as given.
    pub fn generate_header(&self, date: &str) -> (r: String)
        ensures
            r@ == header3_text(*self.config, date@),
    {
        let c = self.config;
        let mut out = "rs_diffcopy Summary (Three-way)\n===============================\nBase:   ".to_owned();
        match &c.base {
            Some(b) => push_str(&mut out, b.as_str()),
            None => {},
        }
        push_str(&mut out, "\nOurs:   ");
        push_str(&mut out, c.source.as_str());
        push_str(&mut out, "\nTheirs: ");
        push_str(&mut out, c.target.as_str());
        push_str(&mut out, "\nOutput: ");
        push_str(&mut out, c.output.as_str());
        push_str(&mut out, "\nDate:   ");
        push_str(&mut out, date);
        push_str(&mut out, "\n");
        proof {
            assert(out@ =~= header3_text(*c, date@));
        }
        out
    }

    /// Whether the summary lists options.
    pub fn has_options(&self) -> (r: bool)
        ensures
            r == has_options3(*self.config),
    {
        let c = self.config;
        c.dry_run || c.merge_style != MergeStyle::All || c.conflict_only || !c.filter_status.is_empty()
            || c.exclude.len() > 0
    }

    fn push_filter(&self, out: &mut String)
        ensures
            final(out)@ == old(out)@ + text_if(
                !self.config.filter_status.blank(),
                "  Filter status: "@ + join(display_parts(self.config.filter_status), ", "@) + "\n"@,
            ),
    {
        let ghost o = out@;
        if !self.config.filter_status.is_empty() {
            let f = self.config.filter_status.to_display_string();
            push_str(out, "  Filter status: ");
            push_str(out, f.as_str());
            push_str(out, "\n");
        }
        proof {
            assert(out@ =~= o + text_if(
                !self.config.filter_status.blank(),
                "  Filter status: "@ + join(display_parts(self.config.filter_status), ", "@) + "\n"@,
            ));
        }
    }

    fn push_exclude(&self, out: &mut String)
        ensures
            final(out)@ == old(out)@ + text_if(
                self.config.exclude@.len() > 0,
                "  Exclude patterns:\n"@ + gather(
                    texts(self.config.exclude@),
                    |p: Seq<char>| true,
                    |p: Seq<char>| "    - "@ + p + "\n"@,
                ),
            ),
    {
        let ex = &self.config.exclude;
        let ghost v = texts(ex@);
        let ghost o = out@;
        if ex.len() > 0 {
            push_str(out, "  Exclude patterns:\n");
            let ghost o1 = out@;
            let mut i: usize = 0;
            while i < ex.len()
                invariant
                    i <= ex@.len(),
                    v == texts(ex@),
                    out@ == o1 + gather(v.take(i as int), |p: Seq<char>| true, |p: Seq<char>| "    - "@ + p + "\n"@),
                decreases ex@.len() - i,
            {
                let ghost o2 = out@;
                push_str(out, "    - ");
                push_str(out, ex[i].as_str());
                push_str(out, "\n");
                proof {
                    assert(v.take(i + 1).drop_last() =~= v.take(i as int));
                    assert(v.take(i + 1).last() == ex@[i as int]@);
                    assert(out@ =~= o2 + ("    - "@ + ex@[i as int]@ + "\n"@));
                }
                i = i + 1;
            }
            proof {
                assert(v.take(i as int) =~= v);
            }
        }
        proof {
            assert(out@ =~= o + text_if(
                ex@.len() > 0,
                "  Exclude patterns:\n"@ + gather(v, |p: Seq<char>| true, |p: Seq<char>| "    - "@ + p + "\n"@),
            ));
        }
    }

    fn push_if(out: &mut String, cond: bool, t: &str)
        ensures
            final(out)@ == old(out)@ + text_if(cond, t@),
    {
        if cond {
            push_str(out, t);
        }
        proof {
            assert(final(out)@ =~= old(out)@ + text_if(cond, t@));
        }
    }

    /// The options section.
    pub fn generate_options(&self) -> (r: String)
        ensures
            r@ == options3_text(*self.config),
    {
        let c = self.config;
        let mut out = "\nOptions:\n".to_owned();
        Self::push_if(&mut out, c.dry_run, "  Mode: Dry run (no files copied)\n");
        push_str(&mut out, "  Merge style: ");
        push_str(&mut out, c.merge_style.as_str());
        push_str(&mut out, "\n");
        Self::push_if(&mut out, c.conflict_only, "  Conflict only: Yes\n");
        self.push_filter(&mut out);
        self.push_exclude(&mut out);
        out
    }

    fn push_matrix_line(out: &mut String, label: &str, n: usize)
        ensures
            final(out)@ == old(out)@ + matrix_line(label@, n as nat),
    {
        let ghost o = out@;
        push_padded_right(out, label, 16);
        push_str(out, "| ");
        push_number_padded_left(out, n, 5);
        push_str(out, "\n");
        proof {
            assert(out@ =~= o + matrix_line(label@, n as nat));
        }
    }

    fn push_matrix_row(out: &mut String, label: &str, n: usize, always: bool)
        ensures
            final(out)@ == old(out)@ + matrix_row_if(label@, n, always),
    {
        let ghost o = out@;
        if n > 0 || always {
            Self::push_matrix_line(out, label, n);
        }
        proof {
            assert(out@ =~= o + matrix_row_if(label@, n, always));
        }
    }

    /// The change matrix section.
    pub fn generate_change_matrix(&self, stats: &ThreeWayStats) -> (r: String)
        requires
            stats.conflicts() <= usize::MAX,
        ensures
            r@ == matrix_text(*stats),
    {
        let mut out = String::new();
        push_banner(&mut out, "Change Matrix");
        proof {
            assert(out@ =~= banner("Change Matrix"@));
        }
        push_str(&mut out, "Status          | Count\n----------------|------\n");
        Self::push_matrix_row(&mut out, "Unchanged", stats.unchanged, true);
        Self::push_matrix_row(&mut out, "Ours only", stats.ours_only, false);
        Self::push_matrix_row(&mut out, "Theirs only", stats.theirs_only, false);
        Self::push_matrix_row(&mut out, "Both same", stats.both_same, false);
        Self::push_matrix_row(&mut out, "Conflict", stats.conflict, false);
        Self::push_matrix_row(&mut out, "Added ours", stats.added_ours, false);
        Self::push_matrix_row(&mut out, "Added theirs", stats.added_theirs, false);
        Self::push_matrix_row(&mut out, "Added both same", stats.added_both_same, false);
        Self::push_matrix_row(&mut out, "Added both diff", stats.added_both_diff, false);
        Self::push_matrix_row(&mut out, "Deleted ours", stats.deleted_ours, false);
        Self::push_matrix_row(&mut out, "Deleted theirs", stats.deleted_theirs, false);
        Self::push_matrix_row(&mut out, "Deleted both", stats.deleted_both, false);
        Self::push_matrix_row(&mut out, "Modify/Delete", stats.modify_delete, false);
        Self::push_matrix_row(&mut out, "Delete/Modify", stats.delete_modify, false);
        push_str(&mut out, "--------------------------\n");
        Self::push_matrix_line(&mut out, "Total           ", stats.total_items);
        Self::push_matrix_line(&mut out, "Conflicts       ", stats.total_conflicts());
        out
    }

    /// The mark of one side against the base.
    pub fn get_change_char(
        &self,
        base_exists: bool,
        side_exists: bool,
        base_hash: &Option<String>,
        side_hash: &Option<String>,
    ) -> (r: &'static str)
        ensures
            r@ == change_char(base_exists, side_exists, *base_hash, *side_hash),
    {
        if base_exists && side_exists {
            if hashes_equal(base_hash, side_hash) { "=" } else { "M" }
        } else if base_exists {
            "D"
        } else if side_exists {
            "A"
        } else {
            "-"
        }
    }

    /// The indicator and the status label of an entry, coloured on a colour
    /// console.
    pub fn format_indicator(&self, entry: &ThreeWayEntry, for_console: bool) -> (r: (String, String))
        ensures
            indicator_ok(r.0@, *entry, for_console, for_console && self.use_color),
            label_ok(r.1@, *entry, for_console && self.use_color),
    {
        let b = if entry.base_exists { "○" } else { "-" };
        let o = self.get_change_char(entry.base_exists, entry.ours_exists, &entry.base_hash, &entry.ours_hash);
        let t = self.get_change_char(entry.base_exists, entry.theirs_exists, &entry.base_hash, &entry.theirs_hash);
        let mut ind = "[".to_owned();
        push_str(&mut ind, b);
        if !for_console {
            push_str(&mut ind, "  ");
        }
        push_str(&mut ind, o);
        if !for_console {
            push_str(&mut ind, "  ");
        }
        push_str(&mut ind, t);
        push_str(&mut ind, "]");
        proof {
            reveal_strlit("○");
            reveal_strlit("-");
            reveal_strlit("=");
            reveal_strlit("M");
            reveal_strlit("D");
            reveal_strlit("A");
            reveal_strlit("[");
            reveal_strlit("]");
            reveal_strlit("  ");
            assert(ind@ =~= indicator_text(*entry, for_console));
            assert(!ind@.contains('\x1B'));
        }
        let label = entry.status.as_str();
        proof {
            reveal_strlit("unchanged");
            reveal_strlit("ours-only");
            reveal_strlit("theirs-only");
            reveal_strlit("both-same");
            reveal_strlit("CONFLICT");
            reveal_strlit("added-ours");
            reveal_strlit("added-theirs");
            reveal_strlit("added-both-same");
            reveal_strlit("added-both-diff");
            reveal_strlit("deleted-ours");
            reveal_strlit("deleted-theirs");
            reveal_strlit("deleted-both");
            reveal_strlit("modify-delete");
            reveal_strlit("delete-modify");
            assert(!label@.contains('\x1B'));
        }
        let colored = for_console && self.use_color;
        let ind_out = if colored && entry.status.is_conflict() { paint(ind.as_str(), Paint::RedBold) } else { ind };
        let label_out = if colored {
            match entry.status {
                ThreeWayStatus::Conflict | ThreeWayStatus::AddedBothDiff | ThreeWayStatus::ModifyDelete
                | ThreeWayStatus::DeleteModify => paint(label, Paint::RedBold),
                ThreeWayStatus::OursOnly | ThreeWayStatus::AddedOurs => paint(label, Paint::Green),
                ThreeWayStatus::TheirsOnly | ThreeWayStatus::AddedTheirs => paint(label, Paint::Blue),
                ThreeWayStatus::BothSame | ThreeWayStatus::AddedBothSame => paint(label, Paint::Cyan),
                ThreeWayStatus::Unchanged => paint(label, Paint::Dimmed),
                _ => label.to_owned(),
            }
        } else {
            label.to_owned()
        };
        (ind_out, label_out)
    }

    /// The tag drawn after each entry's path, by position.
    pub fn entry_tags(&self, entries: &Vec<ThreeWayEntry>, for_console: bool) -> (r: Vec<String>)
        ensures
            tags3_ok(texts(r@), entries@, for_console, for_console && self.use_color),
    {
        let mut tags: Vec<String> = Vec::new();
        let mut k: usize = 0;
        while k < entries.len()
            invariant
                k <= entries@.len(),
                tags@.len() == k,
                forall|i: int| 0 <= i < k ==> tag3_ok(#[trigger] tags@[i]@, entries@[i], for_console, for_console && self.use_color),
            decreases entries@.len() - k,
        {
            let (ind, label) = self.format_indicator(&entries[k], for_console);
            let mut t = ind.clone();
            push_str(&mut t, " ");
            push_str(&mut t, label.as_str());
            proof {
                assert(tag3_ok(t@, entries@[k as int], for_console, for_console && self.use_color));
            }
            tags.push(t);
            k = k + 1;
        }
        proof {
            assert forall|i: int| 0 <= i < texts(tags@).len() implies tag3_ok(
                #[trigger] texts(tags@)[i],
                entries@[i],
                for_console,
                for_console && self.use_color,
            ) by {
                assert(texts(tags@)[i] == tags@[i]@);
            }
        }
        tags
    }

    /// The tree of the entries the filter shows.
    pub fn build_tree(&self, entries: &Vec<ThreeWayEntry>) -> (r: Vec<TreeNode>)
        ensures
            nodes_model(r@) == tree_model(three_way_paths(entries@, *self.config)),
    {
        let mut root: Vec<TreeNode> = Vec::new();
        let mut k: usize = 0;
        while k < entries.len()
            invariant
                k <= entries@.len(),
                nodes_model(root@) == tree_model(three_way_paths(entries@.take(k as int), *self.config)),
            decreases entries@.len() - k,
        {
            proof {
                assert(entries@.take(k + 1).drop_last() =~= entries@.take(k as int));
                assert(entries@.take(k + 1).last() == entries@[k as int]);
            }
            if self.config.filter_status.matches_three_way(entries[k].status) {
                let parts = split_segments(entries[k].relative_path.as_str());
                let ghost prev = three_way_paths(entries@.take(k as int), *self.config);
                proof {
                    assert(texts(parts@).skip(0) =~= texts(parts@));
                    let x = (slash_segments(entries@[k as int].relative_path@), k);
                    assert(three_way_paths(entries@.take(k + 1), *self.config) == prev.push(x));
                    assert(prev.push(x).drop_last() =~= prev);
                }
                insert_into_tree(&mut root, &parts, 0, k);
            }
            k = k + 1;
        }
        proof {
            assert(entries@.take(k as int) =~= entries@);
        }
        root
    }

    fn directory_flags(entries: &Vec<ThreeWayEntry>) -> (r: Vec<bool>)
        ensures
            r@ == dirs3(entries@),
    {
        let mut v: Vec<bool> = Vec::new();
        let mut k: usize = 0;
        while k < entries.len()
            invariant
                k <= entries@.len(),
                v@ == dirs3(entries@).take(k as int),
            decreases entries@.len() - k,
        {
            v.push(entries[k].is_directory);
            proof {
                assert(v@ =~= dirs3(entries@).take(k + 1));
            }
            k = k + 1;
        }
        proof {
            assert(dirs3(entries@).take(k as int) =~= dirs3(entries@));
        }
        v
    }

    /// The file-tree section, given the tag drawn for each entry.
    pub fn generate_file_tree(&self, entries: &Vec<ThreeWayEntry>, for_console: bool, tags: &Vec<String>) -> (r: String)
        ensures
            r@ == tree3_text(entries@, *self.config, for_console, texts(tags@)),
    {
        let mut out = String::new();
        push_banner(&mut out, "File Tree");
        push_str(&mut out, "Legend: [Base|Ours|Theirs] ○=exists -=missing ==same M=modified A=added D=deleted\n");
        let tree = self.build_tree(entries);
        let dirs = Self::directory_flags(entries);
        let max_width = if for_console { 0 } else { calculate_max_path_width(&tree, "", true, &dirs) };
        let ghost o1 = out@;
        if !for_console {
            let pad: usize = if max_width > 0 { max_width } else { 40 };
            let mut k: usize = 0;
            while k < pad
                invariant
                    k <= pad,
                    out@ == o1 + spaces(k as nat),
                decreases pad - k,
            {
                push_char(&mut out, ' ');
                proof {
                    assert(o1 + spaces((k + 1) as nat) =~= (o1 + spaces(k as nat)).push(' '));
                }
                k = k + 1;
            }
            push_str(&mut out, "B  O  T\n");
        }
        let ghost o2 = out@;
        push_str(&mut out, ".\n");
        let body = render_tree(&tree, "", true, Flavor::ThreeWay, for_console, max_width, tags, &dirs);
        push_str(&mut out, body.as_str());
        proof {
            reveal_strlit("");
            assert(""@ =~= Seq::<char>::empty());
            assert(o2 =~= o1 + text_if(
                !for_console,
                spaces(if max_width > 0 { max_width as nat } else { 40 }) + "B  O  T\n"@,
            ));
            assert(out@ =~= tree3_text(entries@, *self.config, for_console, texts(tags@)));
        }
        out
    }

    /// The kind of a conflict.
    pub fn get_conflict_type(&self, entry: &ThreeWayEntry) -> (r: &'static str)
        ensures
            r@ == conflict_type(entry.status),
    {
        match entry.status {
            ThreeWayStatus::Conflict => "Content conflict",
            ThreeWayStatus::AddedBothDiff => "Add/Add conflict (different content)",
            ThreeWayStatus::ModifyDelete => "Modify/Delete conflict",
            ThreeWayStatus::DeleteModify => "Delete/Modify conflict",
            _ => "Unknown",
        }
    }

    fn push_side(out: &mut String, label: &str, exists: bool, h: &Option<String>, s: Option<u64>)
        requires
            short_ok(*h),
        ensures
            final(out)@ == old(out)@ + side_line(label@, exists, *h, s),
    {
        let ghost o = out@;
        push_str(out, "   ");
        push_str(out, label);
        if exists {
            match h {
                Some(x) => {
                    let short = first_eight(x);
                    push_str(out, short.as_str());
                },
                None => push_str(out, "?"),
            }
            push_str(out, "... (");
            match s {
                Some(n) => {
                    push_decimal(out, n);
                    push_str(out, " bytes");
                },
                None => {},
            }
            push_str(out, ")\n");
        } else {
            push_str(out, "Deleted\n");
        }
        proof {
            assert(out@ =~= o + side_line(label@, exists, *h, s));
        }
    }

    fn push_base_side(out: &mut String, e: &ThreeWayEntry)
        requires
            short_ok(e.base_hash),
        ensures
            final(out)@ == old(out)@ + text_if(e.base_exists, side_line("Base:   "@, true, e.base_hash, e.base_size)),
    {
        let ghost o = out@;
        if e.base_exists {
            Self::push_side(out, "Base:   ", true, &e.base_hash, e.base_size);
        }
        proof {
            assert(out@ =~= o + text_if(e.base_exists, side_line("Base:   "@, true, e.base_hash, e.base_size)));
        }
    }

    fn conflict_text(&self, e: &ThreeWayEntry, n: usize) -> (r: String)
        requires
            short_ok(e.base_hash),
            short_ok(e.ours_hash),
            short_ok(e.theirs_hash),
        ensures
            r@ == conflict_block(*e, n as nat),
    {
        let mut out = crate::text::decimal_string(n as u64);
        push_str(&mut out, ". ");
        push_str(&mut out, e.relative_path.as_str());
        push_str(&mut out, "\n   Type: ");
        push_str(&mut out, self.get_conflict_type(e));
        push_str(&mut out, "\n");
        Self::push_base_side(&mut out, e);
        Self::push_side(&mut out, "Ours:   ", e.ours_exists, &e.ours_hash, e.ours_size);
        Self::push_side(&mut out, "Theirs: ", e.theirs_exists, &e.theirs_hash, e.theirs_size);
        push_str(&mut out, "\n");
        out
    }

    fn push_conflict(&self, out: &mut String, e: &ThreeWayEntry, n: usize)
        requires
            short_ok(e.base_hash),
            short_ok(e.ours_hash),
            short_ok(e.theirs_hash),
        ensures
            final(out)@ == old(out)@ + conflict_block(*e, n as nat),
    {
        let t = self.conflict_text(e, n);
        push_str(out, t.as_str());
    }

    /// The conflict details of the conflicts shown, or nothing when there
    /// are none; the count of conflicts shown.
    pub fn generate_conflict_details(&self, entries: &Vec<ThreeWayEntry>) -> (r: (String, usize))
        requires
            hashes_ok(entries@),
        ensures
            r.0@ == conflict_blocks(shown_conflicts(entries@, *self.config)),
            r.1 == shown_conflicts(entries@, *self.config).len(),
    {
        let mut out = String::new();
        let mut n: usize = 0;
        let mut k: usize = 0;
        while k < entries.len()
            invariant
                k <= entries@.len(),
                hashes_ok(entries@),
                n <= k,
                n == shown_conflicts(entries@.take(k as int), *self.config).len(),
                out@ == conflict_blocks(shown_conflicts(entries@.take(k as int), *self.config)),
            decreases entries@.len() - k,
        {
            let ghost before = shown_conflicts(entries@.take(k as int), *self.config);
            proof {
                assert(entries@.take(k + 1).drop_last() =~= entries@.take(k as int));
                assert(entries@.take(k + 1).last() == entries@[k as int]);
            }
            let e = &entries[k];
            if e.status.is_conflict() && self.config.filter_status.matches_three_way(e.status) {
                proof {
                    assert(short_ok(entries@[k as int].base_hash));
                    assert(before.push(*e).drop_last() =~= before);
                }
                self.push_conflict(&mut out, e, n + 1);
                n = n + 1;
            }
            k = k + 1;
        }
        proof {
            assert(entries@.take(k as int) =~= entries@);
        }
        (out, n)
    }

    fn summary_head(&self, result: &ThreeWayResult, date: &str) -> (r: String)
        requires
            result.stats.conflicts() <= usize::MAX,
        ensures
            r@ == header3_text(*self.config, date@) + "\n"@ + text_if(
                has_options3(*self.config),
                options3_text(*self.config) + "\n"@,
            ) + matrix_text(result.stats) + "\n"@,
    {
        let mut out = self.generate_header(date);
        push_str(&mut out, "\n");
        let ghost o = out@;
        if self.has_options() {
            let t = self.generate_options();
            push_str(&mut out, t.as_str());
            push_str(&mut out, "\n");
        }
        proof {
            assert(out@ =~= o + text_if(has_options3(*self.config), options3_text(*self.config) + "\n"@));
        }
        let m = self.generate_change_matrix(&result.stats);
        push_str(&mut out, m.as_str());
        push_str(&mut out, "\n");
        out
    }

    fn push_tree_part(&self, out: &mut String, result: &ThreeWayResult, for_console: bool, tags: &Vec<String>)
        ensures
            final(out)@ == old(out)@ + text_if(
                !(for_console && self.config.stats_only) && !self.config.no_tree,
                tree3_text(result.entries@, *self.config, for_console, texts(tags@)) + "\n"@,
            ),
    {
        let ghost o = out@;
        if !(for_console && self.config.stats_only) && !self.config.no_tree {
            let t = self.generate_file_tree(&result.entries, for_console, tags);
            push_str(out, t.as_str());
            push_str(out, "\n");
        }
        proof {
            assert(out@ =~= o + text_if(
                !(for_console && self.config.stats_only) && !self.config.no_tree,
                tree3_text(result.entries@, *self.config, for_console, texts(tags@)) + "\n"@,
            ));
        }
    }

    fn push_conflict_part(&self, out: &mut String, result: &ThreeWayResult, for_console: bool)
        requires
            hashes_ok(result.entries@),
        ensures
            final(out)@ == old(out)@ + text_if(
                !(for_console && self.config.stats_only) && !self.config.no_details && shown_conflicts(result.entries@, *self.config).len() > 0,
                banner("Conflict Details"@) + conflict_blocks(shown_conflicts(result.entries@, *self.config)),
            ),
    {
        let ghost o = out@;
        if !(for_console && self.config.stats_only) && !self.config.no_details {
            let (details, n) = self.generate_conflict_details(&result.entries);
            if n > 0 {
                push_banner(out, "Conflict Details");
                push_str(out, details.as_str());
            }
        }
        proof {
            let shown = shown_conflicts(result.entries@, *self.config);
            assert(out@ =~= o + text_if(
                !(for_console && self.config.stats_only) && !self.config.no_details && shown.len() > 0,
                banner("Conflict Details"@) + conflict_blocks(shown),
            ));
        }
    }

    /// The whole summary, with the date of the run and the tag drawn for
    /// each entry as given.
    pub fn generate_summary(&self, result: &ThreeWayResult, for_console: bool, date: &str, tags: &Vec<String>) -> (r: String)
        requires
            result.stats.conflicts() <= usize::MAX,
            hashes_ok(result.entries@),
        ensures
            r@ == summary3_text(*self.config, *result, for_console, date@, texts(tags@)),
    {
        let mut out = self.summary_head(result, date);
        if !result.stats.has_differences() {
            push_str(&mut out, "No differences found.\n");
            return out;
        }
        self.push_tree_part(&mut out, result, for_console, tags);
        self.push_conflict_part(&mut out, result, for_console);
        out
    }

    /// What the summary run prints and saves: the console summary (coloured
    /// when colours are on), and the summary file's path and plain, aligned
    /// text when `--summary` is given.
    pub fn write(&self, result: &ThreeWayResult, date: &str) -> (r: SummaryOutput)
        requires
            result.stats.conflicts() <= usize::MAX,
            hashes_ok(result.entries@),
        ensures
            exists|t: Seq<Seq<char>>|
                tags3_ok(t, result.entries@, true, self.use_color) && r.console@ == summary3_text(
                    *self.config,
                    *result,
                    true,
                    date@,
                    t,
                ),
            match self.config.summary {
                Some(p) => r.file matches Some(f) && f.0@ == p@ && f.1@ == summary3_text(
                    *self.config,
                    *result,
                    false,
                    date@,
                    result.entries@.map_values(|e: ThreeWayEntry| plain_tag3(e, false)),
                ),
                None => r.file is None,
            },
    {
        let console_tags = self.entry_tags(&result.entries, true);
        let console = self.generate_summary(result, true, date, &console_tags);
        let file = match &self.config.summary {
            Some(p) => {
                let file_tags = self.entry_tags(&result.entries, false);
                proof {
                    let want = result.entries@.map_values(|e: ThreeWayEntry| plain_tag3(e, false));
                    assert forall|i: int| 0 <= i < want.len() implies texts(file_tags@)[i] == want[i] by {
                        let t = texts(file_tags@)[i];
                        assert(tag3_ok(t, result.entries@[i], false, false));
                        let (x, y) = choose|x: Seq<char>, y: Seq<char>| indicator_ok(x, result.entries@[i], false, false)
                            && label_ok(y, result.entries@[i], false) && t == x + " "@ + y;
                    }
                    assert(texts(file_tags@) =~= want);
                }
                Some((p.clone(), self.generate_summary(result, false, date, &file_tags)))
            },
            None => None,
        };
        SummaryOutput { console, file }
    }
}

} // verus!
