//! The workbook report of a three-way comparison: summary, file tree,
//! conflicts and copied files.
use vstd::prelude::*;

use crate::config::Config;
use crate::excel::{count_cells, counts_view, file_string, file_text, opt, opt_push, pair_cells, pairs_view, parent_string, parent_text, push_count, ExcelWriter, Workbook};
use crate::filter::{display_parts, format_filter_status};
use crate::sheet::{cell_views, push_text, text_cell, Cell, CellStyle, CellView, Sheet, Tone};
use crate::text::{chars_of, decimal, decimal_string, join, join_strings, texts};
use crate::tree_layout::{items_view, tree_sheet, tree_sheet_of, ItemView, TreeItem};
use crate::types::{MergeStyle, ThreeWayEntry, ThreeWayResult, ThreeWayStats, ThreeWayStatus};
use crate::utils::{components, path_components};

verus! {

/// Builds the workbook report of a three-way comparison.
pub struct ThreeWayExcelWriter<'a> {
    pub config: &'a Config,
}

/// Whether the three-way summary lists options: a dry run, a merge style
/// other than `all`, conflicts only, a status filter or exclusions.
pub open spec fn three_way_has_options(c: Config) -> bool {
    c.dry_run || c.merge_style != MergeStyle::All || c.conflict_only || !c.filter_status.blank() || c.exclude@.len() > 0
}

/// The options of a three-way run, as label and value.
pub open spec fn three_way_options(c: Config) -> Seq<(Seq<char>, Seq<char>)> {
    Seq::empty() + opt(c.dry_run, "Mode:"@, "Dry run (no files copied)"@)
        + opt(true, "Merge style:"@, c.merge_style.name())
        + opt(c.conflict_only, "Conflict only:"@, "Yes"@)
        + opt(!c.filter_status.blank(), "Filter status:"@, join(display_parts(c.filter_status), ", "@))
        + opt(c.exclude@.len() > 0, "Exclude patterns:"@, join(texts(c.exclude@), ", "@))
}

/// The rows of the change matrix: label and count.
pub open spec fn matrix_rows(s: ThreeWayStats) -> Seq<(Seq<char>, usize)> {
    seq![
        ("Unchanged"@, s.unchanged),
        ("Ours only"@, s.ours_only),
        ("Theirs only"@, s.theirs_only),
        ("Both same"@, s.both_same),
        ("Conflict"@, s.conflict),
        ("Added ours"@, s.added_ours),
        ("Added theirs"@, s.added_theirs),
        ("Added both same"@, s.added_both_same),
        ("Added both diff"@, s.added_both_diff),
        ("Deleted ours"@, s.deleted_ours),
        ("Deleted theirs"@, s.deleted_theirs),
        ("Deleted both"@, s.deleted_both),
        ("Modify/Delete"@, s.modify_delete),
        ("Delete/Modify"@, s.delete_modify),
        ("Total"@, s.total_items),
        ("Total Conflicts"@, s.conflicts() as usize),
    ]
}

/// The top of the three-way summary sheet: the title and the four
/// directories and the date.
pub open spec fn head_cells(c: Config, date: Seq<char>) -> Seq<CellView> {
    let base = match c.base {
        Some(b) => b@,
        None => Seq::empty(),
    };
    seq![
        text_cell(0, 0, "rs_diffcopy Summary (Three-way)"@, CellStyle::Plain),
        text_cell(2, 0, "Base:"@, CellStyle::LabelPlain),
        text_cell(2, 1, base, CellStyle::Plain),
        text_cell(3, 0, "Ours:"@, CellStyle::LabelPlain),
        text_cell(3, 1, c.source@, CellStyle::Plain),
        text_cell(4, 0, "Theirs:"@, CellStyle::LabelPlain),
        text_cell(4, 1, c.target@, CellStyle::Plain),
        text_cell(5, 0, "Output:"@, CellStyle::LabelPlain),
        text_cell(5, 1, c.output@, CellStyle::Plain),
        text_cell(6, 0, "Date:"@, CellStyle::LabelPlain),
        text_cell(6, 1, date, CellStyle::Plain),
    ]
}

/// The options section of the three-way summary sheet from row 8, if any.
pub open spec fn options_cells(c: Config) -> Seq<CellView> {
    if three_way_has_options(c) {
        seq![text_cell(8, 0, "Options"@, CellStyle::HeaderPlain), text_cell(8, 1, Seq::empty(), CellStyle::HeaderPlain)]
            + pair_cells(three_way_options(c), 9, CellStyle::Label, CellStyle::Value)
    } else {
        Seq::empty()
    }
}

/// The row of the change matrix header.
pub open spec fn matrix_row(c: Config) -> nat {
    if three_way_has_options(c) { 10 + three_way_options(c).len() } else { 8 }
}

/// The three-way summary sheet.
pub open spec fn three_way_summary_cells(c: Config, s: ThreeWayStats, date: Seq<char>) -> Seq<CellView> {
    let m = matrix_row(c);
    head_cells(c, date) + options_cells(c) + seq![
        text_cell(m as u32, 0, "Change Matrix"@, CellStyle::HeaderPlain),
        text_cell(m as u32, 1, Seq::empty(), CellStyle::HeaderPlain),
    ] + count_cells(matrix_rows(s), m + 1, CellStyle::Value, CellStyle::Value)
}

/// The sheet is the three-way summary sheet.
pub open spec fn three_way_summary_sheet_of(r: Sheet, c: Config, s: ThreeWayStats, date: Seq<char>) -> bool {
    &&& r.name@ == "Summary"@
    &&& cell_views(r.cells@) == three_way_summary_cells(c, s, date)
    &&& r.column_widths@ == seq![(0u16, 20u32), (1u16, 50u32)]
    &&& r.row_groups@.len() == 0
    &&& r.row_styles@ == seq![(0u32, CellStyle::Title)]
}

/// The colour of a three-way status on the file-tree sheet.
pub open spec fn tone_of(st: ThreeWayStatus) -> Tone {
    match st {
        ThreeWayStatus::Unchanged => Tone::Unchanged,
        ThreeWayStatus::OursOnly => Tone::OursOnly,
        ThreeWayStatus::TheirsOnly => Tone::TheirsOnly,
        ThreeWayStatus::BothSame => Tone::BothSame,
        ThreeWayStatus::Conflict | ThreeWayStatus::AddedBothDiff | ThreeWayStatus::ModifyDelete
        | ThreeWayStatus::DeleteModify => Tone::Conflict,
        ThreeWayStatus::AddedOurs | ThreeWayStatus::AddedTheirs | ThreeWayStatus::AddedBothSame => Tone::AddedThree,
        _ => Tone::DeletedThree,
    }
}

/// The entries shown on the file tree, laid out as tree items.
pub open spec fn tree_items3(entries: Seq<ThreeWayEntry>, c: Config) -> Seq<ItemView>
    decreases entries.len(),
{
    if entries.len() == 0 {
        Seq::empty()
    } else {
        let rest = tree_items3(entries.drop_last(), c);
        let e = entries.last();
        if c.filter_status.admits(e.status.name()) {
            rest.push((path_components(e.relative_path@), e.is_directory, e.status.name(), tone_of(e.status)))
        } else {
            rest
        }
    }
}

/// The directory and file name a path is shown with: the path itself when
/// it has no components.
pub open spec fn split_text(p: Seq<char>) -> (Seq<char>, Seq<char>) {
    if path_components(p).len() == 0 { (Seq::empty(), p) } else { (parent_text(p), file_text(p)) }
}

/// The short form of a hash on the conflicts sheet: its first eight
/// characters, or `-`.
pub open spec fn short_hash(h: Option<String>) -> Seq<char> {
    match h {
        Some(x) => if x@.len() > 8 { x@.take(8) } else { x@ },
        None => "-"@,
    }
}

/// A size on the conflicts sheet, or `-`.
pub open spec fn size_or_dash(s: Option<u64>) -> Seq<char> {
    match s {
        Some(n) => decimal(n as nat),
        None => "-"@,
    }
}

/// The kind of a conflict as the conflicts sheet names it.
pub open spec fn conflict_kind(st: ThreeWayStatus) -> Seq<char> {
    match st {
        ThreeWayStatus::Conflict => "Content conflict"@,
        ThreeWayStatus::AddedBothDiff => "Add/Add conflict"@,
        ThreeWayStatus::ModifyDelete => "Modify/Delete"@,
        ThreeWayStatus::DeleteModify => "Delete/Modify"@,
        _ => "Unknown"@,
    }
}

/// The entries in conflict, in order.
pub open spec fn conflict_entries(entries: Seq<ThreeWayEntry>) -> Seq<ThreeWayEntry>
    decreases entries.len(),
{
    if entries.len() == 0 {
        Seq::empty()
    } else {
        let rest = conflict_entries(entries.drop_last());
        if entries.last().status.conflicting() { rest.push(entries.last()) } else { rest }
    }
}

/// The nine cells of a conflict on row `row`.
pub open spec fn conflict_row(e: ThreeWayEntry, row: nat) -> Seq<CellView> {
    let r = row as u32;
    let (dir, file) = split_text(e.relative_path@);
    seq![
        text_cell(r, 0, dir, CellStyle::ConflictText),
        text_cell(r, 1, file, CellStyle::ConflictText),
        text_cell(r, 2, conflict_kind(e.status), CellStyle::ConflictText),
        text_cell(r, 3, short_hash(e.base_hash), CellStyle::Plain),
        text_cell(r, 4, short_hash(e.ours_hash), CellStyle::Plain),
        text_cell(r, 5, short_hash(e.theirs_hash), CellStyle::Plain),
        text_cell(r, 6, size_or_dash(e.base_size), CellStyle::Plain),
        text_cell(r, 7, size_or_dash(e.ours_size), CellStyle::Plain),
        text_cell(r, 8, size_or_dash(e.theirs_size), CellStyle::Plain),
    ]
}

/// The rows of the given conflicts from row 1.
pub open spec fn conflict_rows(es: Seq<ThreeWayEntry>) -> Seq<CellView>
    decreases es.len(),
{
    if es.len() == 0 { Seq::empty() } else { conflict_rows(es.drop_last()) + conflict_row(es.last(), es.len()) }
}

/// The header row of the conflicts sheet.
pub open spec fn conflicts_header() -> Seq<CellView> {
    seq![
        text_cell(0, 0, "Directory"@, CellStyle::HeaderPlain),
        text_cell(0, 1, "Filename"@, CellStyle::HeaderPlain),
        text_cell(0, 2, "Type"@, CellStyle::HeaderPlain),
        text_cell(0, 3, "Base Hash"@, CellStyle::HeaderPlain),
        text_cell(0, 4, "Ours Hash"@, CellStyle::HeaderPlain),
        text_cell(0, 5, "Theirs Hash"@, CellStyle::HeaderPlain),
        text_cell(0, 6, "Base Size"@, CellStyle::HeaderPlain),
        text_cell(0, 7, "Ours Size"@, CellStyle::HeaderPlain),
        text_cell(0, 8, "Theirs Size"@, CellStyle::HeaderPlain),
    ]
}

/// The sheet is the conflicts sheet of the entries.
pub open spec fn conflicts_sheet_of(r: Sheet, entries: Seq<ThreeWayEntry>) -> bool {
    &&& r.name@ == "Conflicts"@
    &&& cell_views(r.cells@) == conflicts_header() + conflict_rows(conflict_entries(entries))
    &&& r.column_widths@ == seq![
        (0u16, 30u32), (1u16, 25u32), (2u16, 20u32), (3u16, 15u32), (4u16, 15u32), (5u16, 15u32),
        (6u16, 12u32), (7u16, 12u32), (8u16, 12u32),
    ]
    &&& r.row_groups@.len() == 0
    &&& r.row_styles@.len() == 0
}

/// Whether an entry's file is written to the output (all but unchanged and
/// deleted ones).
pub open spec fn is_copied(st: ThreeWayStatus) -> bool {
    !(st == ThreeWayStatus::Unchanged || st == ThreeWayStatus::DeletedOurs || st == ThreeWayStatus::DeletedTheirs
        || st == ThreeWayStatus::DeletedBoth)
}

/// Where a copied entry's output comes from, by merge style.
pub open spec fn copy_source(st: ThreeWayStatus, style: MergeStyle) -> Seq<char> {
    match st {
        ThreeWayStatus::OursOnly | ThreeWayStatus::AddedOurs => "ours"@,
        ThreeWayStatus::TheirsOnly | ThreeWayStatus::AddedTheirs => "theirs"@,
        ThreeWayStatus::BothSame | ThreeWayStatus::AddedBothSame => "ours (same)"@,
        ThreeWayStatus::Conflict | ThreeWayStatus::AddedBothDiff => match style {
            MergeStyle::All => "base + ours + theirs"@,
            MergeStyle::Ours => "ours"@,
            MergeStyle::Theirs => "theirs"@,
        },
        ThreeWayStatus::ModifyDelete => match style {
            MergeStyle::All => "base + ours"@,
            MergeStyle::Ours => "ours"@,
            MergeStyle::Theirs => "(deleted)"@,
        },
        ThreeWayStatus::DeleteModify => match style {
            MergeStyle::All => "base + theirs"@,
            MergeStyle::Ours => "(deleted)"@,
            MergeStyle::Theirs => "theirs"@,
        },
        _ => "unknown"@,
    }
}

/// The entries whose files are written, in order.
pub open spec fn copied_entries(entries: Seq<ThreeWayEntry>) -> Seq<ThreeWayEntry>
    decreases entries.len(),
{
    if entries.len() == 0 {
        Seq::empty()
    } else {
        let rest = copied_entries(entries.drop_last());
        if is_copied(entries.last().status) { rest.push(entries.last()) } else { rest }
    }
}

/// The four cells of a copied entry on row `row`.
pub open spec fn copied_row(e: ThreeWayEntry, style: MergeStyle, row: nat) -> Seq<CellView> {
    let r = row as u32;
    let (dir, file) = split_text(e.relative_path@);
    seq![
        text_cell(r, 0, dir, CellStyle::Plain),
        text_cell(r, 1, file, CellStyle::Plain),
        text_cell(r, 2, e.status.name(), CellStyle::Plain),
        text_cell(r, 3, copy_source(e.status, style), CellStyle::Plain),
    ]
}

/// The rows of the given copied entries from row 1.
pub open spec fn copied_rows(es: Seq<ThreeWayEntry>, style: MergeStyle) -> Seq<CellView>
    decreases es.len(),
{
    if es.len() == 0 { Seq::empty() } else { copied_rows(es.drop_last(), style) + copied_row(es.last(), style, es.len()) }
}

/// The copied entries are the entries whose status copies something (not
/// unchanged, not deleted on one or both sides), in the order given.
pub proof fn lemma_copied_in_order(entries: Seq<ThreeWayEntry>)
    ensures
        copied_entries(entries) == entries.filter(|e: ThreeWayEntry| is_copied(e.status)),
    decreases entries.len(),
{
    reveal(Seq::filter);
    if entries.len() > 0 {
        lemma_copied_in_order(entries.drop_last());
    }
}

/// The copied-files rows: one four-cell row per copied entry, in order from
/// row 1, each with the entry's status and the source the merge style takes
/// it from.
pub proof fn lemma_copied_rows(entries: Seq<ThreeWayEntry>, style: MergeStyle)
    ensures
        ({
            let es = entries.filter(|e: ThreeWayEntry| is_copied(e.status));
            let rows = copied_rows(copied_entries(entries), style);
            &&& rows.len() == 4 * es.len()
            &&& forall|k: int|
                0 <= k < es.len() ==> {
                    &&& #[trigger] rows.subrange(4 * k, 4 * k + 4) == copied_row(es[k], style, (k + 1) as nat)
                    &&& rows[4 * k + 2].2 == es[k].status.name()
                    &&& rows[4 * k + 3].2 == copy_source(es[k].status, style)
                }
        }),
{
    lemma_copied_in_order(entries);
    lemma_copied_rows_of(copied_entries(entries), style);
}

proof fn lemma_copied_rows_of(es: Seq<ThreeWayEntry>, style: MergeStyle)
    ensures
        copied_rows(es, style).len() == 4 * es.len(),
        forall|k: int|
            0 <= k < es.len() ==> {
                &&& #[trigger] copied_rows(es, style).subrange(4 * k, 4 * k + 4) == copied_row(es[k], style, (k + 1) as nat)
                &&& copied_rows(es, style)[4 * k + 2].2 == es[k].status.name()
                &&& copied_rows(es, style)[4 * k + 3].2 == copy_source(es[k].status, style)
            },
    decreases es.len(),
{
    if es.len() > 0 {
        let init = es.drop_last();
        lemma_copied_rows_of(init, style);
        let a = copied_rows(init, style);
        let last = copied_row(es.last(), style, es.len());
        let all = copied_rows(es, style);
        assert(all == a + last);
        assert forall|k: int| 0 <= k < es.len() implies {
            &&& #[trigger] all.subrange(4 * k, 4 * k + 4) == copied_row(es[k], style, (k + 1) as nat)
            &&& all[4 * k + 2].2 == es[k].status.name()
            &&& all[4 * k + 3].2 == copy_source(es[k].status, style)
        } by {
            if k < init.len() {
                assert(all.subrange(4 * k, 4 * k + 4) =~= a.subrange(4 * k, 4 * k + 4));
                assert(es[k] == init[k]);
                assert(all[4 * k + 2] == a[4 * k + 2]);
                assert(all[4 * k + 3] == a[4 * k + 3]);
                assert(a[4 * k + 2] == a.subrange(4 * k, 4 * k + 4)[2]);
                assert(a[4 * k + 3] == a.subrange(4 * k, 4 * k + 4)[3]);
            } else {
                assert(all.subrange(4 * k, 4 * k + 4) =~= last);
            }
        }
    }
}

/// The header row of the copied-files sheet.
pub open spec fn copied_header() -> Seq<CellView> {
    seq![
        text_cell(0, 0, "Directory"@, CellStyle::HeaderPlain),
        text_cell(0, 1, "Filename"@, CellStyle::HeaderPlain),
        text_cell(0, 2, "Status"@, CellStyle::HeaderPlain),
        text_cell(0, 3, "Source"@, CellStyle::HeaderPlain),
    ]
}

/// The sheet is the copied-files sheet of the entries.
pub open spec fn copied_sheet_of(r: Sheet, entries: Seq<ThreeWayEntry>, style: MergeStyle) -> bool {
    &&& r.name@ == "Copied Files"@
    &&& cell_views(r.cells@) == copied_header() + copied_rows(copied_entries(entries), style)
    &&& r.column_widths@ == seq![(0u16, 30u32), (1u16, 25u32), (2u16, 20u32), (3u16, 25u32)]
    &&& r.row_groups@.len() == 0
    &&& r.row_styles@.len() == 0
}

/// The directory and file name of a path, as the sheets show them.
pub fn split_path(path: &str) -> (r: (String, String))
    ensures
        (r.0@, r.1@) == split_text(path@),
{
    let c = components(path);
    if c.len() == 0 {
        (String::new(), path.to_owned())
    } else {
        (parent_string(path), file_string(path))
    }
}

/// The first eight characters of a hash, or `-`.
pub fn short_hash_text(h: &Option<String>) -> (r: String)
    ensures
        r@ == short_hash(*h),
{
    match h {
        Some(x) => {
            let v = chars_of(x.as_str());
            if v.len() > 8 {
                let mut out = String::new();
                let mut i: usize = 0;
                while i < 8
                    invariant
                        i <= 8 < v@.len(),
                        out@ == v@.take(i as int),
                    decreases 8 - i,
                {
                    crate::text::push_char(&mut out, v[i]);
                    proof {
                        assert(v@.take(i + 1) =~= v@.take(i as int).push(v@[i as int]));
                    }
                    i = i + 1;
                }
                out
            } else {
                x.clone()
            }
        },
        None => "-".to_owned(),
    }
}

fn size_text_or_dash(s: Option<u64>) -> (r: String)
    ensures
        r@ == size_or_dash(s),
{
    match s {
        Some(n) => decimal_string(n),
        None => "-".to_owned(),
    }
}

impl<'a> ThreeWayExcelWriter<'a> {
    /// A writer for the given configuration.
    pub fn new(config: &'a Config) -> (r: ThreeWayExcelWriter<'a>)
        ensures
            r.config == config,
    {
        ThreeWayExcelWriter { config }
    }

    /// Whether the summary sheet lists options.
    pub fn has_options(&self) -> (r: bool)
        ensures
            r == three_way_has_options(*self.config),
    {
        let c = self.config;
        c.dry_run || c.merge_style != MergeStyle::All || c.conflict_only || !c.filter_status.is_empty()
            || c.exclude.len() > 0
    }

    fn options(&self) -> (o: Vec<(String, String)>)
        ensures
            pairs_view(o@) == three_way_options(*self.config),
            o@.len() <= 5,
    {
        let c = self.config;
        let mut o: Vec<(String, String)> = Vec::new();
        proof {
            assert(pairs_view(o@) =~= Seq::empty());
        }
        opt_push(&mut o, c.dry_run, "Mode:", "Dry run (no files copied)");
        opt_push(&mut o, true, "Merge style:", c.merge_style.as_str());
        opt_push(&mut o, c.conflict_only, "Conflict only:", "Yes");
        let f = format_filter_status(&c.filter_status);
        opt_push(&mut o, !c.filter_status.is_empty(), "Filter status:", f.as_str());
        let ex = join_strings(&c.exclude, ", ");
        opt_push(&mut o, c.exclude.len() > 0, "Exclude patterns:", ex.as_str());
        o
    }

    fn matrix(&self, s: &ThreeWayStats) -> (r: Vec<(String, usize)>)
        requires
            s.conflicts() <= usize::MAX,
        ensures
            counts_view(r@) == matrix_rows(*s),
            r@.len() == 16,
    {
        let mut v: Vec<(String, usize)> = Vec::new();
        push_count(&mut v, "Unchanged", s.unchanged);
        push_count(&mut v, "Ours only", s.ours_only);
        push_count(&mut v, "Theirs only", s.theirs_only);
        push_count(&mut v, "Both same", s.both_same);
        push_count(&mut v, "Conflict", s.conflict);
        push_count(&mut v, "Added ours", s.added_ours);
        push_count(&mut v, "Added theirs", s.added_theirs);
        push_count(&mut v, "Added both same", s.added_both_same);
        push_count(&mut v, "Added both diff", s.added_both_diff);
        push_count(&mut v, "Deleted ours", s.deleted_ours);
        push_count(&mut v, "Deleted theirs", s.deleted_theirs);
        push_count(&mut v, "Deleted both", s.deleted_both);
        push_count(&mut v, "Modify/Delete", s.modify_delete);
        push_count(&mut v, "Delete/Modify", s.delete_modify);
        push_count(&mut v, "Total", s.total_items);
        push_count(&mut v, "Total Conflicts", s.total_conflicts());
        proof {
            assert(counts_view(v@) =~= matrix_rows(*s));
            assert(counts_view(v@).len() == v@.len());
        }
        v
    }

    fn head(&self, cells: &mut Vec<Cell>, date: &str)
        ensures
            cell_views(final(cells)@) == cell_views(old(cells)@) + head_cells(*self.config, date@),
    {
        let c = self.config;
        let ghost base = cell_views(cells@);
        push_text(cells, 0, 0, "rs_diffcopy Summary (Three-way)", CellStyle::Plain);
        push_text(cells, 2, 0, "Base:", CellStyle::LabelPlain);
        match &c.base {
            Some(b) => push_text(cells, 2, 1, b.as_str(), CellStyle::Plain),
            None => push_text(cells, 2, 1, "", CellStyle::Plain),
        }
        push_text(cells, 3, 0, "Ours:", CellStyle::LabelPlain);
        push_text(cells, 3, 1, c.source.as_str(), CellStyle::Plain);
        push_text(cells, 4, 0, "Theirs:", CellStyle::LabelPlain);
        push_text(cells, 4, 1, c.target.as_str(), CellStyle::Plain);
        push_text(cells, 5, 0, "Output:", CellStyle::LabelPlain);
        push_text(cells, 5, 1, c.output.as_str(), CellStyle::Plain);
        push_text(cells, 6, 0, "Date:", CellStyle::LabelPlain);
        push_text(cells, 6, 1, date, CellStyle::Plain);
        proof {
            reveal_strlit("");
            assert(""@ =~= Seq::<char>::empty());
            assert(cell_views(cells@) =~= base + head_cells(*c, date@));
        }
    }

    /// The summary sheet, with the date of the run as given.
    pub fn write_summary_sheet(&self, stats: &ThreeWayStats, date: &str) -> (r: Sheet)
        requires
            stats.conflicts() <= usize::MAX,
        ensures
            three_way_summary_sheet_of(r, *self.config, *stats, date@),
    {
        let mut cells: Vec<Cell> = Vec::new();
        self.head(&mut cells, date);
        let ghost after_head = cell_views(cells@);
        let mut row: usize = 8;
        if self.has_options() {
            push_text(&mut cells, 8, 0, "Options", CellStyle::HeaderPlain);
            push_text(&mut cells, 8, 1, "", CellStyle::HeaderPlain);
            let o = self.options();
            ExcelWriter::push_pairs(&mut cells, &o, 9, CellStyle::Label, CellStyle::Value);
            row = 10 + o.len();
        }
        proof {
            reveal_strlit("");
            assert(""@ =~= Seq::<char>::empty());
            assert(cell_views(cells@) =~= after_head + options_cells(*self.config));
            assert(row == matrix_row(*self.config));
        }
        push_text(&mut cells, row as u32, 0, "Change Matrix", CellStyle::HeaderPlain);
        push_text(&mut cells, row as u32, 1, "", CellStyle::HeaderPlain);
        let m = self.matrix(stats);
        ExcelWriter::push_counts(&mut cells, &m, row + 1, CellStyle::Value, CellStyle::Value);
        proof {
            assert(cell_views(cells@) =~= three_way_summary_cells(*self.config, *stats, date@));
        }
        let mut widths: Vec<(u16, u32)> = Vec::new();
        widths.push((0, 20));
        widths.push((1, 50));
        let mut styles: Vec<(u32, CellStyle)> = Vec::new();
        styles.push((0, CellStyle::Title));
        proof {
            assert(widths@ =~= seq![(0u16, 20u32), (1u16, 50u32)]);
            assert(styles@ =~= seq![(0u32, CellStyle::Title)]);
        }
        Sheet { name: "Summary".to_owned(), cells, column_widths: widths, row_groups: Vec::new(), row_styles: styles }
    }

    /// The file-tree sheet of the entries the filter shows.
    pub fn write_file_tree_sheet(&self, entries: &Vec<ThreeWayEntry>) -> (r: Sheet)
        ensures
            tree_sheet_of(
                r,
                tree_items3(entries@, *self.config),
                self.config.no_tree,
                self.config.excel_fold_level,
                CellStyle::HeaderPlain,
                15,
            ),
    {
        let mut items: Vec<TreeItem> = Vec::new();
        let mut k: usize = 0;
        while k < entries.len()
            invariant
                k <= entries@.len(),
                items_view(items@) == tree_items3(entries@.take(k as int), *self.config),
            decreases entries@.len() - k,
        {
            proof {
                assert(entries@.take(k + 1).drop_last() =~= entries@.take(k as int));
                assert(entries@.take(k + 1).last() == entries@[k as int]);
            }
            let e = &entries[k];
            if self.config.filter_status.matches_three_way(e.status) {
                let tone = match e.status {
                    ThreeWayStatus::Unchanged => Tone::Unchanged,
                    ThreeWayStatus::OursOnly => Tone::OursOnly,
                    ThreeWayStatus::TheirsOnly => Tone::TheirsOnly,
                    ThreeWayStatus::BothSame => Tone::BothSame,
                    ThreeWayStatus::Conflict | ThreeWayStatus::AddedBothDiff | ThreeWayStatus::ModifyDelete
                    | ThreeWayStatus::DeleteModify => Tone::Conflict,
                    ThreeWayStatus::AddedOurs | ThreeWayStatus::AddedTheirs
                    | ThreeWayStatus::AddedBothSame => Tone::AddedThree,
                    _ => Tone::DeletedThree,
                };
                let item = TreeItem {
                    components: components(e.relative_path.as_str()),
                    is_directory: e.is_directory,
                    status: e.status.as_str().to_owned(),
                    tone,
                };
                let ghost before = items@;
                items.push(item);
                proof {
                    assert(items_view(items@) =~= items_view(before).push(items@.last()@));
                }
            }
            k = k + 1;
        }
        proof {
            assert(entries@.take(k as int) =~= entries@);
        }
        tree_sheet(&items, self.config.no_tree, self.config.excel_fold_level, CellStyle::HeaderPlain, 15)
    }

    fn push_conflict_row(cells: &mut Vec<Cell>, e: &ThreeWayEntry, row: usize)
        ensures
            cell_views(final(cells)@) == cell_views(old(cells)@) + conflict_row(*e, row as nat),
    {
        let ghost base = cell_views(cells@);
        let r = row as u32;
        let (dir, file) = split_path(e.relative_path.as_str());
        push_text(cells, r, 0, dir.as_str(), CellStyle::ConflictText);
        push_text(cells, r, 1, file.as_str(), CellStyle::ConflictText);
        let kind = match e.status {
            ThreeWayStatus::Conflict => "Content conflict",
            ThreeWayStatus::AddedBothDiff => "Add/Add conflict",
            ThreeWayStatus::ModifyDelete => "Modify/Delete",
            ThreeWayStatus::DeleteModify => "Delete/Modify",
            _ => "Unknown",
        };
        push_text(cells, r, 2, kind, CellStyle::ConflictText);
        let bh = short_hash_text(&e.base_hash);
        push_text(cells, r, 3, bh.as_str(), CellStyle::Plain);
        let oh = short_hash_text(&e.ours_hash);
        push_text(cells, r, 4, oh.as_str(), CellStyle::Plain);
        let th = short_hash_text(&e.theirs_hash);
        push_text(cells, r, 5, th.as_str(), CellStyle::Plain);
        let bs = size_text_or_dash(e.base_size);
        push_text(cells, r, 6, bs.as_str(), CellStyle::Plain);
        let os = size_text_or_dash(e.ours_size);
        push_text(cells, r, 7, os.as_str(), CellStyle::Plain);
        let ts = size_text_or_dash(e.theirs_size);
        push_text(cells, r, 8, ts.as_str(), CellStyle::Plain);
        proof {
            assert(cell_views(cells@) =~= base + conflict_row(*e, row as nat));
        }
    }

    /// The conflicts sheet: every entry in conflict, whatever the filter.
    pub fn write_conflicts_sheet(&self, entries: &Vec<ThreeWayEntry>) -> (r: Sheet)
        ensures
            conflicts_sheet_of(r, entries@),
    {
        let mut cells: Vec<Cell> = Vec::new();
        push_text(&mut cells, 0, 0, "Directory", CellStyle::HeaderPlain);
        push_text(&mut cells, 0, 1, "Filename", CellStyle::HeaderPlain);
        push_text(&mut cells, 0, 2, "Type", CellStyle::HeaderPlain);
        push_text(&mut cells, 0, 3, "Base Hash", CellStyle::HeaderPlain);
        push_text(&mut cells, 0, 4, "Ours Hash", CellStyle::HeaderPlain);
        push_text(&mut cells, 0, 5, "Theirs Hash", CellStyle::HeaderPlain);
        push_text(&mut cells, 0, 6, "Base Size", CellStyle::HeaderPlain);
        push_text(&mut cells, 0, 7, "Ours Size", CellStyle::HeaderPlain);
        push_text(&mut cells, 0, 8, "Theirs Size", CellStyle::HeaderPlain);
        proof {
            assert(cell_views(cells@) =~= conflicts_header());
        }
        let mut n: usize = 0;
        let mut k: usize = 0;
        while k < entries.len()
            invariant
                k <= entries@.len(),
                n == conflict_entries(entries@.take(k as int)).len(),
                n <= k,
                cell_views(cells@) == conflicts_header() + conflict_rows(conflict_entries(entries@.take(k as int))),
            decreases entries@.len() - k,
        {
            let ghost before = conflict_entries(entries@.take(k as int));
            proof {
                assert(entries@.take(k + 1).drop_last() =~= entries@.take(k as int));
                assert(entries@.take(k + 1).last() == entries@[k as int]);
            }
            if entries[k].status.is_conflict() {
                Self::push_conflict_row(&mut cells, &entries[k], n + 1);
                proof {
                    assert(before.push(entries@[k as int]).drop_last() =~= before);
                }
                n = n + 1;
            }
            k = k + 1;
        }
        proof {
            assert(entries@.take(k as int) =~= entries@);
        }
        let mut widths: Vec<(u16, u32)> = Vec::new();
        widths.push((0, 30));
        widths.push((1, 25));
        widths.push((2, 20));
        widths.push((3, 15));
        widths.push((4, 15));
        widths.push((5, 15));
        widths.push((6, 12));
        widths.push((7, 12));
        widths.push((8, 12));
        proof {
            assert(widths@ =~= seq![
                (0u16, 30u32), (1u16, 25u32), (2u16, 20u32), (3u16, 15u32), (4u16, 15u32), (5u16, 15u32),
                (6u16, 12u32), (7u16, 12u32), (8u16, 12u32),
            ]);
        }
        Sheet { name: "Conflicts".to_owned(), cells, column_widths: widths, row_groups: Vec::new(), row_styles: Vec::new() }
    }

    fn source_text(&self, st: ThreeWayStatus) -> (r: &'static str)
        ensures
            r@ == copy_source(st, self.config.merge_style),
    {
        match st {
            ThreeWayStatus::OursOnly | ThreeWayStatus::AddedOurs => "ours",
            ThreeWayStatus::TheirsOnly | ThreeWayStatus::AddedTheirs => "theirs",
            ThreeWayStatus::BothSame | ThreeWayStatus::AddedBothSame => "ours (same)",
            ThreeWayStatus::Conflict | ThreeWayStatus::AddedBothDiff => match self.config.merge_style {
                MergeStyle::All => "base + ours + theirs",
                MergeStyle::Ours => "ours",
                MergeStyle::Theirs => "theirs",
            },
            ThreeWayStatus::ModifyDelete => match self.config.merge_style {
                MergeStyle::All => "base + ours",
                MergeStyle::Ours => "ours",
                MergeStyle::Theirs => "(deleted)",
            },
            ThreeWayStatus::DeleteModify => match self.config.merge_style {
                MergeStyle::All => "base + theirs",
                MergeStyle::Ours => "(deleted)",
                MergeStyle::Theirs => "theirs",
            },
            _ => "unknown",
        }
    }

    /// The copied-files sheet: every entry whose file is written, with where
    /// its content comes from.
    pub fn write_copied_files_sheet(&self, entries: &Vec<ThreeWayEntry>) -> (r: Sheet)
        ensures
            copied_sheet_of(r, entries@, self.config.merge_style),
    {
        let style = self.config.merge_style;
        let mut cells: Vec<Cell> = Vec::new();
        push_text(&mut cells, 0, 0, "Directory", CellStyle::HeaderPlain);
        push_text(&mut cells, 0, 1, "Filename", CellStyle::HeaderPlain);
        push_text(&mut cells, 0, 2, "Status", CellStyle::HeaderPlain);
        push_text(&mut cells, 0, 3, "Source", CellStyle::HeaderPlain);
        proof {
            assert(cell_views(cells@) =~= copied_header());
        }
        let mut n: usize = 0;
        let mut k: usize = 0;
        while k < entries.len()
            invariant
                k <= entries@.len(),
                style == self.config.merge_style,
                n == copied_entries(entries@.take(k as int)).len(),
                n <= k,
                cell_views(cells@) == copied_header() + copied_rows(copied_entries(entries@.take(k as int)), style),
            decreases entries@.len() - k,
        {
            let ghost before = copied_entries(entries@.take(k as int));
            proof {
                assert(entries@.take(k + 1).drop_last() =~= entries@.take(k as int));
                assert(entries@.take(k + 1).last() == entries@[k as int]);
            }
            let e = &entries[k];
            let skip = match e.status {
                ThreeWayStatus::Unchanged | ThreeWayStatus::DeletedOurs | ThreeWayStatus::DeletedTheirs
                | ThreeWayStatus::DeletedBoth => true,
                _ => false,
            };
            if !skip {
                let ghost base = cell_views(cells@);
                let r = (n + 1) as u32;
                let (dir, file) = split_path(e.relative_path.as_str());
                push_text(&mut cells, r, 0, dir.as_str(), CellStyle::Plain);
                push_text(&mut cells, r, 1, file.as_str(), CellStyle::Plain);
                push_text(&mut cells, r, 2, e.status.as_str(), CellStyle::Plain);
                push_text(&mut cells, r, 3, self.source_text(e.status), CellStyle::Plain);
                proof {
                    assert(before.push(entries@[k as int]).drop_last() =~= before);
                    assert(cell_views(cells@) =~= base + copied_row(*e, style, (n + 1) as nat));
                }
                n = n + 1;
            }
            k = k + 1;
        }
        proof {
            assert(entries@.take(k as int) =~= entries@);
        }
        let mut widths: Vec<(u16, u32)> = Vec::new();
        widths.push((0, 30));
        widths.push((1, 25));
        widths.push((2, 20));
        widths.push((3, 25));
        proof {
            assert(widths@ =~= seq![(0u16, 30u32), (1u16, 25u32), (2u16, 20u32), (3u16, 25u32)]);
        }
        Sheet { name: "Copied Files".to_owned(), cells, column_widths: widths, row_groups: Vec::new(), row_styles: Vec::new() }
    }

    /// The workbook to save when `--excel` is given: summary, file tree,
    /// conflicts and copied files; nothing otherwise.
    pub fn write(&self, result: &ThreeWayResult, date: &str) -> (r: Option<Workbook>)
        requires
            result.stats.conflicts() <= usize::MAX,
        ensures
            self.config.excel is None ==> r is None,
            self.config.excel matches Some(p) ==> (r matches Some(w) && {
                &&& w.path@ == p@
                &&& w.sheets@.len() == 4
                &&& three_way_summary_sheet_of(w.sheets@[0], *self.config, result.stats, date@)
                &&& tree_sheet_of(
                    w.sheets@[1],
                    tree_items3(result.entries@, *self.config),
                    self.config.no_tree,
                    self.config.excel_fold_level,
                    CellStyle::HeaderPlain,
                    15,
                )
                &&& conflicts_sheet_of(w.sheets@[2], result.entries@)
                &&& copied_sheet_of(w.sheets@[3], result.entries@, self.config.merge_style)
            }),
    {
        let path = match &self.config.excel {
            Some(p) => p.clone(),
            None => return None,
        };
        let mut sheets: Vec<Sheet> = Vec::new();
        sheets.push(self.write_summary_sheet(&result.stats, date));
        sheets.push(self.write_file_tree_sheet(&result.entries));
        sheets.push(self.write_conflicts_sheet(&result.entries));
        sheets.push(self.write_copied_files_sheet(&result.entries));
        Some(Workbook { path, sheets })
    }
}

} // verus!
