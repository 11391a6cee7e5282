//! The workbook report of a two-way comparison: a summary sheet, a file-tree
//! sheet and a details sheet.
use vstd::prelude::*;

use crate::config::Config;
use crate::filter::{display_parts, format_filter_status};
use crate::sheet::{cell_views, number_cell, push_number, push_text, text_cell, Cell, CellStyle, CellView, Sheet, Tone};
use crate::text::{decimal, join, join_strings, prefix_of, push_decimal, push_str, texts};
use crate::tree_layout::{items_view, tree_sheet, tree_sheet_of, ItemView, TreeItem};
use crate::types::{CheckPermissionsMode, ComparisonResult, ComparisonStats, FileEntry, FileStatus};
use crate::utils::{components, file_name, file_name_of, path_components};

verus! {

/// A workbook to save: its path and its sheets, in order.
#[derive(Debug, Clone)]
pub struct Workbook {
    pub path: String,
    pub sheets: Vec<Sheet>,
}

/// Builds the workbook report of a two-way comparison.
pub struct ExcelWriter<'a> {
    pub config: &'a Config,
}

/// Label and value pairs as mathematical values.
pub open spec fn pairs_view(v: Seq<(String, String)>) -> Seq<(Seq<char>, Seq<char>)> {
    v.map_values(|p: (String, String)| (p.0@, p.1@))
}

/// One option line when a condition holds, else nothing.
pub open spec fn opt(cond: bool, label: Seq<char>, value: Seq<char>) -> Seq<(Seq<char>, Seq<char>)> {
    if cond { seq![(label, value)] } else { Seq::empty() }
}

/// The first options of a two-way run that the summary sheet lists: how
/// files are copied.
pub open spec fn copy_options(c: Config) -> Seq<(Seq<char>, Seq<char>)> {
    Seq::empty() + opt(c.dry_run, "Mode:"@, "Dry run (no files copied)"@)
        + opt(c.both_versions, "Copy mode:"@, "Both versions (.old/.new)"@)
        + opt(c.copy_deleted, "Copy deleted:"@, "Yes (.deleted)"@)
        + opt(c.preserve_timestamps, "Preserve timestamps:"@, "Yes"@)
        + opt(c.check_permissions == CheckPermissionsMode::Scripts, "Permission check:"@, "scripts"@)
        + opt(c.check_permissions == CheckPermissionsMode::All, "Permission check:"@, "all"@)
        + opt(c.patch, "Patch mode:"@, "Individual files (.patch)"@)
        + opt(c.patch_file is Some, "Combined patch file:"@, c.patch_file->0@)
}

/// The other options of a two-way run that the summary sheet lists: what
/// the reports show.
pub open spec fn report_options(c: Config) -> Seq<(Seq<char>, Seq<char>)> {
    Seq::empty() + opt(c.show_unchanged, "Show unchanged:"@, "Yes"@)
        + opt(
            !c.filter_status.blank() && join(display_parts(c.filter_status), ", "@).len() > 0,
            "Filter status:"@,
            join(display_parts(c.filter_status), ", "@),
        )
        + opt(c.exclude@.len() > 0, "Exclude patterns:"@, join(texts(c.exclude@), ", "@))
        + opt(c.stats_only, "Stats only:"@, "Yes"@)
        + opt(c.no_tree, "No tree:"@, "Yes"@)
        + opt(c.no_details, "No details:"@, "Yes"@)
}

/// The options of a two-way run that the summary sheet lists, in order.
pub open spec fn two_way_options(c: Config) -> Seq<(Seq<char>, Seq<char>)> {
    copy_options(c) + report_options(c)
}

/// The detail text of an entry on the details sheet: the sizes of a
/// modified file, the target of a symlink, the modes of a permission change,
/// the message of an error, the type of a special file; else nothing.
pub open spec fn detail_text(e: FileEntry) -> Seq<char> {
    match e.status {
        FileStatus::Modified => match (e.source_size, e.target_size) {
            (Some(a), Some(b)) => decimal(a as nat) + " -> "@ + decimal(b as nat) + " bytes"@,
            _ => Seq::empty(),
        },
        FileStatus::Symlink => match e.symlink_info {
            Some(info) => "-> "@ + info.target@ + " ("@ + (if info.is_broken { "broken"@ } else { "ok"@ }) + ")"@,
            None => Seq::empty(),
        },
        FileStatus::Permission => match e.permission_change {
            Some(ch) => ch.old_mode@ + " -> "@ + ch.new_mode@,
            None => Seq::empty(),
        },
        FileStatus::Error => match e.error_message {
            Some(m) => m@,
            None => Seq::empty(),
        },
        FileStatus::Special => match e.special_type {
            Some(t) => t.name(),
            None => Seq::empty(),
        },
        _ => Seq::empty(),
    }
}

/// The statistics rows of the summary sheet: label and count.
pub open spec fn stat_rows(s: ComparisonStats) -> Seq<(Seq<char>, usize)> {
    seq![
        ("Added (files)"@, s.added_files),
        ("Added (dirs)"@, s.added_dirs),
        ("Modified"@, s.modified_files),
        ("Deleted (files)"@, s.deleted_files),
        ("Deleted (dirs)"@, s.deleted_dirs),
        ("Unchanged"@, s.unchanged_files),
        ("Symlinks"@, s.symlink_files),
        ("Special Files"@, s.special_files),
        ("Permissions"@, s.permission_files),
        ("Errors"@, s.error_files),
        ("Total"@, s.total_items),
    ]
}

/// Label and value cells, one pair per row from `start` on.
pub open spec fn pair_cells(p: Seq<(Seq<char>, Seq<char>)>, start: nat, label: CellStyle, value: CellStyle) -> Seq<CellView>
    decreases p.len(),
{
    if p.len() == 0 {
        Seq::empty()
    } else {
        let row = (start + p.len() - 1) as u32;
        pair_cells(p.drop_last(), start, label, value) + seq![
            text_cell(row, 0, p.last().0, label),
            text_cell(row, 1, p.last().1, value),
        ]
    }
}

/// Label and number cells, one pair per row from `start` on.
pub open spec fn count_cells(p: Seq<(Seq<char>, usize)>, start: nat, label: CellStyle, value: CellStyle) -> Seq<CellView>
    decreases p.len(),
{
    if p.len() == 0 {
        Seq::empty()
    } else {
        let row = (start + p.len() - 1) as u32;
        count_cells(p.drop_last(), start, label, value) + seq![
            text_cell(row, 0, p.last().0, label),
            number_cell(row, 1, p.last().1 as u64, value),
        ]
    }
}

/// The top of the summary sheet: title, the compared directories, the date
/// and the header of the options.
pub open spec fn summary_head_cells(c: Config, date: Seq<char>) -> Seq<CellView> {
    seq![
        text_cell(0, 0, "rs_diffcopy Summary"@, CellStyle::Title),
        text_cell(2, 0, "Source:"@, CellStyle::Label),
        text_cell(2, 1, c.source@, CellStyle::Value),
        text_cell(3, 0, "Target:"@, CellStyle::Label),
        text_cell(3, 1, c.target@, CellStyle::Value),
        text_cell(4, 0, "Output:"@, CellStyle::Label),
        text_cell(4, 1, c.output@, CellStyle::Value),
        text_cell(5, 0, "Date:"@, CellStyle::Label),
        text_cell(5, 1, date, CellStyle::Value),
        text_cell(7, 0, "Options"@, CellStyle::Header),
        text_cell(7, 1, Seq::empty(), CellStyle::Header),
    ]
}

/// The summary sheet: title, the compared directories and the date, the
/// options, then the statistics.
pub open spec fn summary_cells(c: Config, s: ComparisonStats, date: Seq<char>) -> Seq<CellView> {
    let opts = two_way_options(c);
    let stats_row = 9 + opts.len();
    summary_head_cells(c, date) + pair_cells(opts, 8, CellStyle::Label, CellStyle::Value) + seq![
        text_cell(stats_row as u32, 0, "Statistics"@, CellStyle::Header),
        text_cell(stats_row as u32, 1, Seq::empty(), CellStyle::Header),
    ] + count_cells(stat_rows(s), stats_row + 1, CellStyle::Label, CellStyle::Number)
}

/// The colour of a status on the file-tree sheet.
pub open spec fn tree_tone(st: FileStatus) -> Tone {
    match st {
        FileStatus::Added => Tone::Added,
        FileStatus::Modified => Tone::Modified,
        FileStatus::Deleted => Tone::Deleted,
        FileStatus::Symlink => Tone::Symlink,
        FileStatus::Unchanged => Tone::Unchanged,
        _ => Tone::Neutral,
    }
}

/// The entries shown on the file tree, laid out as tree items.
pub open spec fn tree_items(entries: Seq<FileEntry>, c: Config) -> Seq<ItemView>
    decreases entries.len(),
{
    if entries.len() == 0 {
        Seq::empty()
    } else {
        let rest = tree_items(entries.drop_last(), c);
        let e = entries.last();
        if c.filter_status.admits(e.status.name()) {
            rest.push((path_components(e.relative_path@), e.is_directory, e.status.name(), tree_tone(e.status)))
        } else {
            rest
        }
    }
}

/// The order of the sections of the details sheet.
pub open spec fn detail_statuses() -> Seq<FileStatus> {
    seq![
        FileStatus::Added,
        FileStatus::Modified,
        FileStatus::Deleted,
        FileStatus::Symlink,
        FileStatus::Permission,
        FileStatus::Error,
        FileStatus::Special,
    ]
}

/// The title of a section of the details sheet.
pub open spec fn section_title(st: FileStatus) -> Seq<char> {
    match st {
        FileStatus::Added => "Added Files"@,
        FileStatus::Modified => "Modified Files"@,
        FileStatus::Deleted => "Deleted Files"@,
        FileStatus::Symlink => "Symlinks"@,
        FileStatus::Permission => "Permission Changes"@,
        FileStatus::Error => "Errors"@,
        FileStatus::Special => "Special Files"@,
        _ => "Other"@,
    }
}

/// The colour of a status on the details sheet.
pub open spec fn detail_tone(st: FileStatus) -> Tone {
    match st {
        FileStatus::Added => Tone::Added,
        FileStatus::Modified => Tone::Modified,
        FileStatus::Deleted => Tone::Deleted,
        _ => Tone::Neutral,
    }
}

/// The directory part of a relative path: its components but the last,
/// joined with `/`.
pub open spec fn parent_text(p: Seq<char>) -> Seq<char> {
    let c = path_components(p);
    if c.len() == 0 { Seq::empty() } else { join(c.drop_last(), "/"@) }
}

/// The file-name part of a relative path, or nothing.
pub open spec fn file_text(p: Seq<char>) -> Seq<char> {
    match file_name_of(p) {
        Some(n) => n,
        None => Seq::empty(),
    }
}

/// Whether an entry belongs to the section of a status.
pub open spec fn picks(c: Config, e: FileEntry, st: FileStatus) -> bool {
    e.status == st && c.filter_status.admits(e.status.name())
}

/// The entries of a section, in order.
pub open spec fn picked(entries: Seq<FileEntry>, c: Config, st: FileStatus) -> Seq<FileEntry>
    decreases entries.len(),
{
    if entries.len() == 0 {
        Seq::empty()
    } else {
        let rest = picked(entries.drop_last(), c, st);
        if picks(c, entries.last(), st) { rest.push(entries.last()) } else { rest }
    }
}

/// The four cells of an entry on the details sheet.
pub open spec fn detail_row(e: FileEntry, row: nat) -> Seq<CellView> {
    let r = row as u32;
    let plain = CellStyle::Detail(Tone::Neutral);
    seq![
        text_cell(r, 0, e.status.name(), CellStyle::Detail(detail_tone(e.status))),
        text_cell(r, 1, parent_text(e.relative_path@), plain),
        text_cell(r, 2, file_text(e.relative_path@), plain),
        text_cell(r, 3, detail_text(e), plain),
    ]
}

/// The rows of a section's entries, from row `start` on.
pub open spec fn detail_rows(es: Seq<FileEntry>, start: nat) -> Seq<CellView>
    decreases es.len(),
{
    if es.len() == 0 {
        Seq::empty()
    } else {
        detail_rows(es.drop_last(), start) + detail_row(es.last(), (start + es.len() - 1) as nat)
    }
}

/// A section of the details sheet at row `row`: its title row, its entries,
/// and an empty row after; nothing when it has no entries.
pub open spec fn section_cells(entries: Seq<FileEntry>, c: Config, st: FileStatus, row: nat) -> Seq<CellView> {
    let es = picked(entries, c, st);
    if es.len() == 0 {
        Seq::empty()
    } else {
        seq![
            text_cell(row as u32, 0, section_title(st), CellStyle::Section),
            text_cell(row as u32, 1, Seq::empty(), CellStyle::Section),
            text_cell(row as u32, 2, Seq::empty(), CellStyle::Section),
            text_cell(row as u32, 3, Seq::empty(), CellStyle::Section),
        ] + detail_rows(es, row + 1)
    }
}

/// The number of rows a section takes.
pub open spec fn section_height(entries: Seq<FileEntry>, c: Config, st: FileStatus) -> nat {
    let n = picked(entries, c, st).len();
    if n == 0 { 0 } else { n + 2 }
}

/// The rows taken by the sections of the given statuses.
pub open spec fn sections_height(entries: Seq<FileEntry>, c: Config, sts: Seq<FileStatus>) -> nat
    decreases sts.len(),
{
    if sts.len() == 0 { 0 } else { sections_height(entries, c, sts.drop_last()) + section_height(entries, c, sts.last()) }
}

/// The sections of the given statuses, one after the other from row 1.
pub open spec fn sections_cells(entries: Seq<FileEntry>, c: Config, sts: Seq<FileStatus>) -> Seq<CellView>
    decreases sts.len(),
{
    if sts.len() == 0 {
        Seq::empty()
    } else {
        sections_cells(entries, c, sts.drop_last()) + section_cells(
            entries,
            c,
            sts.last(),
            1 + sections_height(entries, c, sts.drop_last()),
        )
    }
}

/// The header row of the details sheet.
pub open spec fn details_header() -> Seq<CellView> {
    seq![
        text_cell(0, 0, "Status"@, CellStyle::Header),
        text_cell(0, 1, "Directory"@, CellStyle::Header),
        text_cell(0, 2, "File"@, CellStyle::Header),
        text_cell(0, 3, "Details"@, CellStyle::Header),
    ]
}

pub(crate) fn push_pair(v: &mut Vec<(String, String)>, a: &str, b: &str)
    ensures
        pairs_view(final(v)@) == pairs_view(old(v)@).push((a@, b@)),
{
    let ghost before = v@;
    v.push((a.to_owned(), b.to_owned()));
    proof {
        assert(pairs_view(v@) =~= pairs_view(before).push((a@, b@)));
    }
}

pub(crate) fn opt_push(v: &mut Vec<(String, String)>, cond: bool, a: &str, b: &str)
    ensures
        pairs_view(final(v)@) == pairs_view(old(v)@) + opt(cond, a@, b@),
        final(v)@.len() <= old(v)@.len() + 1,
{
    let ghost before = pairs_view(v@);
    if cond {
        push_pair(v, a, b);
    }
    proof {
        assert(pairs_view(v@) =~= before + opt(cond, a@, b@));
    }
}

/// The directory part of a relative path.
pub fn parent_string(path: &str) -> (r: String)
    ensures
        r@ == parent_text(path@),
{
    let c = components(path);
    if c.len() == 0 {
        return String::new();
    }
    let p = prefix_of(&c, c.len() - 1);
    proof {
        assert(texts(c@).take(c@.len() - 1) =~= texts(c@).drop_last());
    }
    join_strings(&p, "/")
}

/// The file-name part of a relative path.
pub fn file_string(path: &str) -> (r: String)
    ensures
        r@ == file_text(path@),
{
    match file_name(path) {
        Some(n) => n,
        None => String::new(),
    }
}

impl<'a> ExcelWriter<'a> {
    /// A writer for the given configuration.
    pub fn new(config: &'a Config) -> (r: ExcelWriter<'a>)
        ensures
            r.config == config,
    {
        ExcelWriter { config }
    }

    fn copy_options(&self) -> (o: Vec<(String, String)>)
        ensures
            pairs_view(o@) == copy_options(*self.config),
            o@.len() <= 8,
    {
        let c = self.config;
        let mut o: Vec<(String, String)> = Vec::new();
        proof {
            assert(pairs_view(o@) =~= Seq::empty());
        }
        opt_push(&mut o, c.dry_run, "Mode:", "Dry run (no files copied)");
        opt_push(&mut o, c.both_versions, "Copy mode:", "Both versions (.old/.new)");
        opt_push(&mut o, c.copy_deleted, "Copy deleted:", "Yes (.deleted)");
        opt_push(&mut o, c.preserve_timestamps, "Preserve timestamps:", "Yes");
        opt_push(&mut o, c.check_permissions == CheckPermissionsMode::Scripts, "Permission check:", "scripts");
        opt_push(&mut o, c.check_permissions == CheckPermissionsMode::All, "Permission check:", "all");
        opt_push(&mut o, c.patch, "Patch mode:", "Individual files (.patch)");
        let ghost before = pairs_view(o@);
        match &c.patch_file {
            Some(p) => opt_push(&mut o, true, "Combined patch file:", p.as_str()),
            None => opt_push(&mut o, false, "Combined patch file:", ""),
        }
        proof {
            assert(pairs_view(o@) == before + opt(c.patch_file is Some, "Combined patch file:"@, c.patch_file->0@));
        }
        o
    }

    fn report_options(&self) -> (o: Vec<(String, String)>)
        ensures
            pairs_view(o@) == report_options(*self.config),
            o@.len() <= 6,
    {
        let c = self.config;
        let mut o: Vec<(String, String)> = Vec::new();
        proof {
            assert(pairs_view(o@) =~= Seq::empty());
        }
        opt_push(&mut o, c.show_unchanged, "Show unchanged:", "Yes");
        let f = format_filter_status(&c.filter_status);
        let show_filter = !c.filter_status.is_empty() && !f.as_str().is_empty();
        opt_push(&mut o, show_filter, "Filter status:", f.as_str());
        let ex = join_strings(&c.exclude, ", ");
        opt_push(&mut o, c.exclude.len() > 0, "Exclude patterns:", ex.as_str());
        opt_push(&mut o, c.stats_only, "Stats only:", "Yes");
        opt_push(&mut o, c.no_tree, "No tree:", "Yes");
        opt_push(&mut o, c.no_details, "No details:", "Yes");
        o
    }

    /// The options listed on the summary sheet, as label and value.
    pub fn collect_options(&self) -> (r: Vec<(String, String)>)
        ensures
            pairs_view(r@) == two_way_options(*self.config),
            r@.len() <= 14,
    {
        let mut o = self.copy_options();
        let mut rest = self.report_options();
        let ghost a = o@;
        let ghost b = rest@;
        o.append(&mut rest);
        proof {
            assert(o@ == a + b);
            assert(pairs_view(o@) =~= pairs_view(a) + pairs_view(b));
        }
        o
    }

    /// The detail text of an entry on the details sheet.
    pub fn get_entry_details(&self, entry: &FileEntry) -> (r: String)
        ensures
            r@ == detail_text(*entry),
    {
        match entry.status {
            FileStatus::Modified => {
                if let (Some(a), Some(b)) = (entry.source_size, entry.target_size) {
                    let mut s = String::new();
                    push_decimal(&mut s, a);
                    push_str(&mut s, " -> ");
                    push_decimal(&mut s, b);
                    push_str(&mut s, " bytes");
                    s
                } else {
                    String::new()
                }
            },
            FileStatus::Symlink => {
                if let Some(info) = &entry.symlink_info {
                    let mut s = "-> ".to_owned();
                    push_str(&mut s, info.target.as_str());
                    push_str(&mut s, " (");
                    push_str(&mut s, if info.is_broken { "broken" } else { "ok" });
                    push_str(&mut s, ")");
                    s
                } else {
                    String::new()
                }
            },
            FileStatus::Permission => {
                if let Some(ch) = &entry.permission_change {
                    let mut s = ch.old_mode.clone();
                    push_str(&mut s, " -> ");
                    push_str(&mut s, ch.new_mode.as_str());
                    s
                } else {
                    String::new()
                }
            },
            FileStatus::Error => {
                match &entry.error_message {
                    Some(m) => m.clone(),
                    None => String::new(),
                }
            },
            FileStatus::Special => {
                match &entry.special_type {
                    Some(t) => t.as_str().to_owned(),
                    None => String::new(),
                }
            },
            _ => String::new(),
        }
    }

    pub(crate) fn push_pairs(cells: &mut Vec<Cell>, p: &Vec<(String, String)>, start: usize, label: CellStyle, value: CellStyle)
        requires
            start + p@.len() < u32::MAX,
        ensures
            cell_views(final(cells)@) == cell_views(old(cells)@) + pair_cells(pairs_view(p@), start as nat, label, value),
    {
        let ghost base = cell_views(cells@);
        let ghost pv = pairs_view(p@);
        let mut i: usize = 0;
        while i < p.len()
            invariant
                i <= p@.len(),
                start + p@.len() < u32::MAX,
                pv == pairs_view(p@),
                cell_views(cells@) == base + pair_cells(pv.take(i as int), start as nat, label, value),
            decreases p@.len() - i,
        {
            let row = (start + i) as u32;
            push_text(cells, row, 0, p[i].0.as_str(), label);
            push_text(cells, row, 1, p[i].1.as_str(), value);
            proof {
                assert(pv.take(i + 1).drop_last() =~= pv.take(i as int));
                assert(pv.take(i + 1).last() == (p@[i as int].0@, p@[i as int].1@));
            }
            i = i + 1;
        }
        proof {
            assert(pv.take(i as int) =~= pv);
        }
    }

    pub(crate) fn push_counts(cells: &mut Vec<Cell>, p: &Vec<(String, usize)>, start: usize, label: CellStyle, value: CellStyle)
        requires
            start + p@.len() < u32::MAX,
        ensures
            cell_views(final(cells)@) == cell_views(old(cells)@) + count_cells(counts_view(p@), start as nat, label, value),
    {
        let ghost base = cell_views(cells@);
        let ghost pv = counts_view(p@);
        let mut i: usize = 0;
        while i < p.len()
            invariant
                i <= p@.len(),
                start + p@.len() < u32::MAX,
                pv == counts_view(p@),
                cell_views(cells@) == base + count_cells(pv.take(i as int), start as nat, label, value),
            decreases p@.len() - i,
        {
            let row = (start + i) as u32;
            push_text(cells, row, 0, p[i].0.as_str(), label);
            push_number(cells, row, 1, p[i].1 as u64, value);
            proof {
                assert(pv.take(i + 1).drop_last() =~= pv.take(i as int));
                assert(pv.take(i + 1).last() == (p@[i as int].0@, p@[i as int].1));
            }
            i = i + 1;
        }
        proof {
            assert(pv.take(i as int) =~= pv);
        }
    }

    fn summary_head(&self, cells: &mut Vec<Cell>, date: &str)
        ensures
            cell_views(final(cells)@) == cell_views(old(cells)@) + summary_head_cells(*self.config, date@),
    {
        let c = self.config;
        let ghost base = cell_views(cells@);
        push_text(cells, 0, 0, "rs_diffcopy Summary", CellStyle::Title);
        push_text(cells, 2, 0, "Source:", CellStyle::Label);
        push_text(cells, 2, 1, c.source.as_str(), CellStyle::Value);
        push_text(cells, 3, 0, "Target:", CellStyle::Label);
        push_text(cells, 3, 1, c.target.as_str(), CellStyle::Value);
        push_text(cells, 4, 0, "Output:", CellStyle::Label);
        push_text(cells, 4, 1, c.output.as_str(), CellStyle::Value);
        push_text(cells, 5, 0, "Date:", CellStyle::Label);
        push_text(cells, 5, 1, date, CellStyle::Value);
        push_text(cells, 7, 0, "Options", CellStyle::Header);
        push_text(cells, 7, 1, "", CellStyle::Header);
        proof {
            reveal_strlit("");
            assert(""@ =~= Seq::<char>::empty());
            assert(cell_views(cells@) =~= base + summary_head_cells(*c, date@));
        }
    }

    /// The summary sheet, with the date of the run as given.
    pub fn write_summary_sheet(&self, stats: &ComparisonStats, date: &str) -> (r: Sheet)
        ensures
            summary_sheet_of(r, *self.config, *stats, date@),
    {
        let mut cells: Vec<Cell> = Vec::new();
        self.summary_head(&mut cells, date);
        let options = self.collect_options();
        Self::push_pairs(&mut cells, &options, 8, CellStyle::Label, CellStyle::Value);
        let srow: u32 = (9 + options.len()) as u32;
        push_text(&mut cells, srow, 0, "Statistics", CellStyle::Header);
        push_text(&mut cells, srow, 1, "", CellStyle::Header);
        let counts = stat_pairs(stats);
        Self::push_counts(&mut cells, &counts, (srow + 1) as usize, CellStyle::Label, CellStyle::Number);
        proof {
            reveal_strlit("");
            assert(""@ =~= Seq::<char>::empty());
            assert(cell_views(cells@) =~= summary_cells(*self.config, *stats, date@));
        }
        let mut widths: Vec<(u16, u32)> = Vec::new();
        widths.push((0, 25));
        widths.push((1, 50));
        proof {
            assert(widths@ =~= seq![(0u16, 25u32), (1u16, 50u32)]);
        }
        Sheet { name: "Summary".to_owned(), cells, column_widths: widths, row_groups: Vec::new(), row_styles: Vec::new() }
    }
}

/// Label and count pairs as mathematical values.
pub open spec fn counts_view(v: Seq<(String, usize)>) -> Seq<(Seq<char>, usize)> {
    v.map_values(|p: (String, usize)| (p.0@, p.1))
}

pub(crate) fn push_count(v: &mut Vec<(String, usize)>, label: &str, n: usize)
    ensures
        counts_view(final(v)@) == counts_view(old(v)@).push((label@, n)),
{
    let ghost before = v@;
    v.push((label.to_owned(), n));
    proof {
        assert(counts_view(v@) =~= counts_view(before).push((label@, n)));
    }
}

fn stat_pairs(s: &ComparisonStats) -> (r: Vec<(String, usize)>)
    ensures
        counts_view(r@) == stat_rows(*s),
        r@.len() == 11,
{
    let mut v: Vec<(String, usize)> = Vec::new();
    push_count(&mut v, "Added (files)", s.added_files);
    push_count(&mut v, "Added (dirs)", s.added_dirs);
    push_count(&mut v, "Modified", s.modified_files);
    push_count(&mut v, "Deleted (files)", s.deleted_files);
    push_count(&mut v, "Deleted (dirs)", s.deleted_dirs);
    push_count(&mut v, "Unchanged", s.unchanged_files);
    push_count(&mut v, "Symlinks", s.symlink_files);
    push_count(&mut v, "Special Files", s.special_files);
    push_count(&mut v, "Permissions", s.permission_files);
    push_count(&mut v, "Errors", s.error_files);
    push_count(&mut v, "Total", s.total_items);
    proof {
        assert(counts_view(v@) =~= stat_rows(*s));
        assert(counts_view(v@).len() == v@.len());
    }
    v
}


/// The details sheet with `--no-details`.
pub open spec fn no_details_cells() -> Seq<CellView> {
    seq![text_cell(0, 0, "(Details disabled by --no-details option)"@, CellStyle::Plain)]
}

/// The sheet is the details sheet of the entries: with `--no-details` a
/// single note; else the header row, then a section per status that has
/// entries shown, and the column widths.
pub open spec fn details_sheet_of(r: Sheet, entries: Seq<FileEntry>, c: Config) -> bool {
    &&& r.name@ == "Details"@
    &&& r.row_groups@.len() == 0
    &&& r.row_styles@.len() == 0
    &&& c.no_details ==> cell_views(r.cells@) == no_details_cells() && r.column_widths@.len() == 0
    &&& !c.no_details ==> cell_views(r.cells@) == details_header() + sections_cells(entries, c, detail_statuses())
        && r.column_widths@ == seq![(0u16, 15u32), (1u16, 40u32), (2u16, 30u32), (3u16, 50u32)]
}

/// The entries of a section are the entries of its status that the filter
/// shows, in the order given.
pub proof fn lemma_picked_in_order(entries: Seq<FileEntry>, c: Config, st: FileStatus)
    ensures
        picked(entries, c, st) == entries.filter(|e: FileEntry| picks(c, e, st)),
    decreases entries.len(),
{
    reveal(Seq::filter);
    if entries.len() > 0 {
        lemma_picked_in_order(entries.drop_last(), c, st);
    }
}

/// The rows of a section's entries: four cells per entry, the entries in
/// order on consecutive rows.
pub proof fn lemma_detail_rows(es: Seq<FileEntry>, start: nat)
    ensures
        detail_rows(es, start).len() == 4 * es.len(),
        forall|k: int|
            0 <= k < es.len() ==> #[trigger] detail_rows(es, start).subrange(4 * k, 4 * k + 4) == detail_row(
                es[k],
                (start + k) as nat,
            ),
    decreases es.len(),
{
    if es.len() > 0 {
        let init = es.drop_last();
        lemma_detail_rows(init, start);
        let a = detail_rows(init, start);
        let last = detail_row(es.last(), (start + es.len() - 1) as nat);
        let all = detail_rows(es, start);
        assert(all == a + last);
        assert forall|k: int| 0 <= k < es.len() implies #[trigger] all.subrange(4 * k, 4 * k + 4) == detail_row(
            es[k],
            (start + k) as nat,
        ) by {
            if k < init.len() {
                assert(all.subrange(4 * k, 4 * k + 4) =~= a.subrange(4 * k, 4 * k + 4));
                assert(es[k] == init[k]);
            } else {
                assert(all.subrange(4 * k, 4 * k + 4) =~= last);
            }
        }
    }
}

/// A section of the details sheet: nothing when no entry of its status is
/// shown; otherwise its title row, then one row per shown entry of its
/// status, in order (status, directory, file name, details). No section is
/// ever given to unchanged entries.
pub proof fn lemma_details_section(entries: Seq<FileEntry>, c: Config, st: FileStatus, row: nat)
    ensures
        !detail_statuses().contains(FileStatus::Unchanged),
        ({
            let es = entries.filter(|e: FileEntry| picks(c, e, st));
            let cells = section_cells(entries, c, st, row);
            &&& es.len() == 0 ==> cells.len() == 0
            &&& es.len() > 0 ==> {
                &&& cells.len() == 4 + 4 * es.len()
                &&& cells[0] == text_cell(row as u32, 0, section_title(st), CellStyle::Section)
                &&& forall|k: int|
                    0 <= k < es.len() ==> #[trigger] cells.subrange(4 + 4 * k, 8 + 4 * k) == detail_row(
                        es[k],
                        (row + 1 + k) as nat,
                    )
            }
        }),
{
    lemma_picked_in_order(entries, c, st);
    let es = picked(entries, c, st);
    lemma_detail_rows(es, row + 1);
    if !(detail_statuses().contains(FileStatus::Unchanged)) {
    } else {
        let i = choose|i: int| 0 <= i < detail_statuses().len() && detail_statuses()[i] == FileStatus::Unchanged;
        assert(false);
    }
    if es.len() > 0 {
        let cells = section_cells(entries, c, st, row);
        let head = seq![
            text_cell(row as u32, 0, section_title(st), CellStyle::Section),
            text_cell(row as u32, 1, Seq::empty(), CellStyle::Section),
            text_cell(row as u32, 2, Seq::empty(), CellStyle::Section),
            text_cell(row as u32, 3, Seq::empty(), CellStyle::Section),
        ];
        let rows = detail_rows(es, row + 1);
        assert forall|k: int| 0 <= k < es.len() implies #[trigger] cells.subrange(4 + 4 * k, 8 + 4 * k) == detail_row(
            es[k],
            (row + 1 + k) as nat,
        ) by {
            assert(cells.subrange(4 + 4 * k, 8 + 4 * k) =~= rows.subrange(4 * k, 4 * k + 4));
        }
    }
}

/// The sheet is the summary sheet.
pub open spec fn summary_sheet_of(r: Sheet, c: Config, s: ComparisonStats, date: Seq<char>) -> bool {
    &&& r.name@ == "Summary"@
    &&& cell_views(r.cells@) == summary_cells(c, s, date)
    &&& r.column_widths@ == seq![(0u16, 25u32), (1u16, 50u32)]
    &&& r.row_groups@.len() == 0
    &&& r.row_styles@.len() == 0
}

/// A section never holds more entries than there are.
proof fn lemma_picked_len(entries: Seq<FileEntry>, c: Config, st: FileStatus)
    ensures
        picked(entries, c, st).len() <= entries.len(),
    decreases entries.len(),
{
    if entries.len() > 0 {
        lemma_picked_len(entries.drop_last(), c, st);
    }
}

proof fn lemma_sections_height(entries: Seq<FileEntry>, c: Config, sts: Seq<FileStatus>)
    ensures
        sections_height(entries, c, sts) <= sts.len() * (entries.len() + 2),
    decreases sts.len(),
{
    if sts.len() > 0 {
        lemma_sections_height(entries, c, sts.drop_last());
        lemma_picked_len(entries, c, sts.last());
        assert((sts.len() - 1) * (entries.len() + 2) + (entries.len() + 2) == sts.len() * (entries.len() + 2))
            by (nonlinear_arith);
    }
}

impl<'a> ExcelWriter<'a> {
    fn tree_item(&self, e: &FileEntry) -> (r: TreeItem)
        ensures
            r@ == (path_components(e.relative_path@), e.is_directory, e.status.name(), tree_tone(e.status)),
    {
        let tone = match e.status {
            FileStatus::Added => Tone::Added,
            FileStatus::Modified => Tone::Modified,
            FileStatus::Deleted => Tone::Deleted,
            FileStatus::Symlink => Tone::Symlink,
            FileStatus::Unchanged => Tone::Unchanged,
            _ => Tone::Neutral,
        };
        TreeItem {
            components: components(e.relative_path.as_str()),
            is_directory: e.is_directory,
            status: e.status.as_str().to_owned(),
            tone,
        }
    }

    /// The file-tree sheet of the entries the filter shows.
    pub fn write_file_tree_sheet(&self, entries: &Vec<FileEntry>) -> (r: Sheet)
        ensures
            tree_sheet_of(
                r,
                tree_items(entries@, *self.config),
                self.config.no_tree,
                self.config.excel_fold_level,
                CellStyle::Header,
                12,
            ),
    {
        let mut items: Vec<TreeItem> = Vec::new();
        let mut k: usize = 0;
        while k < entries.len()
            invariant
                k <= entries@.len(),
                items_view(items@) == tree_items(entries@.take(k as int), *self.config),
            decreases entries@.len() - k,
        {
            proof {
                assert(entries@.take(k + 1).drop_last() =~= entries@.take(k as int));
                assert(entries@.take(k + 1).last() == entries@[k as int]);
            }
            if self.config.filter_status.matches(entries[k].status) {
                let ghost before = items@;
                let item = self.tree_item(&entries[k]);
                items.push(item);
                proof {
                    assert(items_view(items@) =~= items_view(before).push(items@.last()@));
                }
            }
            k = k + 1;
        }
        proof {
            assert(entries@.take(k as int) =~= entries@);
        }
        tree_sheet(&items, self.config.no_tree, self.config.excel_fold_level, CellStyle::Header, 12)
    }

    fn picks_entry(&self, e: &FileEntry, st: FileStatus) -> (r: bool)
        ensures
            r == picks(*self.config, *e, st),
    {
        e.status == st && self.config.filter_status.matches(e.status)
    }

    fn push_detail_row(&self, cells: &mut Vec<Cell>, e: &FileEntry, row: usize)
        ensures
            cell_views(final(cells)@) == cell_views(old(cells)@) + detail_row(*e, row as nat),
    {
        let ghost base = cell_views(cells@);
        let r = row as u32;
        let tone = match e.status {
            FileStatus::Added => Tone::Added,
            FileStatus::Modified => Tone::Modified,
            FileStatus::Deleted => Tone::Deleted,
            _ => Tone::Neutral,
        };
        push_text(cells, r, 0, e.status.as_str(), CellStyle::Detail(tone));
        let dir = parent_string(e.relative_path.as_str());
        push_text(cells, r, 1, dir.as_str(), CellStyle::Detail(Tone::Neutral));
        let file = file_string(e.relative_path.as_str());
        push_text(cells, r, 2, file.as_str(), CellStyle::Detail(Tone::Neutral));
        let details = self.get_entry_details(e);
        push_text(cells, r, 3, details.as_str(), CellStyle::Detail(Tone::Neutral));
        proof {
            assert(cell_views(cells@) =~= base + detail_row(*e, row as nat));
        }
    }

    fn push_section(&self, cells: &mut Vec<Cell>, entries: &Vec<FileEntry>, st: FileStatus, title: &str, row: usize) -> (next: usize)
        requires
            title@ == section_title(st),
            row + entries@.len() + 2 <= usize::MAX,
        ensures
            cell_views(final(cells)@) == cell_views(old(cells)@) + section_cells(entries@, *self.config, st, row as nat),
            next == row + section_height(entries@, *self.config, st),
    {
        let c = self.config;
        let ghost base = cell_views(cells@);
        let mut n: usize = 0;
        let mut k: usize = 0;
        while k < entries.len()
            invariant
                k <= entries@.len(),
                c == self.config,
                n == picked(entries@.take(k as int), *c, st).len(),
                n <= k,
            decreases entries@.len() - k,
        {
            proof {
                assert(entries@.take(k + 1).drop_last() =~= entries@.take(k as int));
                assert(entries@.take(k + 1).last() == entries@[k as int]);
            }
            let hit = self.picks_entry(&entries[k], st);
            proof {
                assert(picked(entries@.take(k + 1), *c, st) == (if picks(*c, entries@[k as int], st) {
                    picked(entries@.take(k as int), *c, st).push(entries@[k as int])
                } else {
                    picked(entries@.take(k as int), *c, st)
                }));
            }
            if hit {
                n = n + 1;
            }
            k = k + 1;
        }
        proof {
            assert(entries@.take(k as int) =~= entries@);
        }
        if n == 0 {
            proof {
                assert(cell_views(cells@) =~= base + section_cells(entries@, *c, st, row as nat));
            }
            return row;
        }
        let r = row as u32;
        push_text(cells, r, 0, title, CellStyle::Section);
        push_text(cells, r, 1, "", CellStyle::Section);
        push_text(cells, r, 2, "", CellStyle::Section);
        push_text(cells, r, 3, "", CellStyle::Section);
        proof {
            reveal_strlit("");
            assert(""@ =~= Seq::<char>::empty());
        }
        let ghost head = cell_views(cells@);
        let mut cur: usize = row + 1;
        let mut j: usize = 0;
        while j < entries.len()
            invariant
                j <= entries@.len(),
                row + entries@.len() + 2 <= usize::MAX,
                c == self.config,
                cur == row + 1 + picked(entries@.take(j as int), *c, st).len(),
                picked(entries@.take(j as int), *c, st).len() <= j,
                cell_views(cells@) == head + detail_rows(picked(entries@.take(j as int), *c, st), (row + 1) as nat),
            decreases entries@.len() - j,
        {
            proof {
                assert(entries@.take(j + 1).drop_last() =~= entries@.take(j as int));
                assert(entries@.take(j + 1).last() == entries@[j as int]);
            }
            let hit = self.picks_entry(&entries[j], st);
            let ghost before = picked(entries@.take(j as int), *c, st);
            proof {
                assert(picked(entries@.take(j + 1), *c, st) == (if picks(*c, entries@[j as int], st) {
                    before.push(entries@[j as int])
                } else {
                    before
                }));
                if hit {
                    assert(before.push(entries@[j as int]).drop_last() =~= before);
                }
            }
            if hit {
                self.push_detail_row(cells, &entries[j], cur);
                cur = cur + 1;
            }
            j = j + 1;
        }
        proof {
            assert(entries@.take(j as int) =~= entries@);
            assert(cell_views(cells@) =~= base + section_cells(entries@, *c, st, row as nat));
        }
        cur + 1
    }

    /// The details sheet: the entries of each status the filter shows, by
    /// section.
    pub fn write_details_sheet(&self, entries: &Vec<FileEntry>) -> (r: Sheet)
        requires
            entries@.len() < 0x1000_0000,
        ensures
            details_sheet_of(r, entries@, *self.config),
    {
        let mut cells: Vec<Cell> = Vec::new();
        if self.config.no_details {
            proof {
                assert(cell_views(cells@) =~= Seq::<CellView>::empty());
            }
            push_text(&mut cells, 0, 0, "(Details disabled by --no-details option)", CellStyle::Plain);
            return Sheet {
                name: "Details".to_owned(),
                cells,
                column_widths: Vec::new(),
                row_groups: Vec::new(),
                row_styles: Vec::new(),
            };
        }
        push_text(&mut cells, 0, 0, "Status", CellStyle::Header);
        push_text(&mut cells, 0, 1, "Directory", CellStyle::Header);
        push_text(&mut cells, 0, 2, "File", CellStyle::Header);
        push_text(&mut cells, 0, 3, "Details", CellStyle::Header);
        let ghost head = cell_views(cells@);
        let statuses = [
            FileStatus::Added,
            FileStatus::Modified,
            FileStatus::Deleted,
            FileStatus::Symlink,
            FileStatus::Permission,
            FileStatus::Error,
            FileStatus::Special,
        ];
        let titles = [
            "Added Files", "Modified Files", "Deleted Files", "Symlinks", "Permission Changes", "Errors",
            "Special Files",
        ];
        let ghost sts = detail_statuses();
        proof {
            assert(statuses@ =~= sts);
            reveal_strlit("Added Files");
            reveal_strlit("Modified Files");
            reveal_strlit("Deleted Files");
            reveal_strlit("Symlinks");
            reveal_strlit("Permission Changes");
            reveal_strlit("Errors");
            reveal_strlit("Special Files");
        }
        let mut row: usize = 1;
        let mut idx: usize = 0;
        while idx < 7
            invariant
                idx <= 7,
                statuses@ == sts,
                sts == detail_statuses(),
                titles@.len() == 7,
                forall|k: int| 0 <= k < 7 ==> #[trigger] titles@[k]@ == section_title(sts[k]),
                entries@.len() < 0x1000_0000,
                row == 1 + sections_height(entries@, *self.config, sts.take(idx as int)),
                cell_views(cells@) == head + sections_cells(entries@, *self.config, sts.take(idx as int)),
            decreases 7 - idx,
        {
            proof {
                lemma_sections_height(entries@, *self.config, sts.take(idx as int));
                assert(sts.take(idx as int).len() == idx);
                assert(idx * (entries@.len() + 2) <= 7 * (entries@.len() + 2)) by (nonlinear_arith)
                    requires
                        idx <= 7,
                ;
                assert(sts.take(idx + 1).drop_last() =~= sts.take(idx as int));
                assert(sts.take(idx + 1).last() == sts[idx as int]);
                assert(titles@[idx as int]@ == section_title(sts[idx as int]));
            }
            row = self.push_section(&mut cells, entries, statuses[idx], titles[idx], row);
            idx = idx + 1;
        }
        proof {
            assert(sts.take(7) =~= sts);
            assert(cell_views(cells@) =~= details_header() + sections_cells(entries@, *self.config, detail_statuses()));
        }
        let mut widths: Vec<(u16, u32)> = Vec::new();
        widths.push((0, 15));
        widths.push((1, 40));
        widths.push((2, 30));
        widths.push((3, 50));
        proof {
            assert(widths@ =~= seq![(0u16, 15u32), (1u16, 40u32), (2u16, 30u32), (3u16, 50u32)]);
        }
        Sheet { name: "Details".to_owned(), cells, column_widths: widths, row_groups: Vec::new(), row_styles: Vec::new() }
    }

    /// The workbook to save when `--excel` is given: the summary, file-tree
    /// and details sheets; nothing otherwise.
    pub fn write(&self, result: &ComparisonResult, date: &str) -> (r: Option<Workbook>)
        requires
            result.entries@.len() < 0x1000_0000,
        ensures
            self.config.excel is None ==> r is None,
            self.config.excel matches Some(p) ==> (r matches Some(w) && {
                &&& w.path@ == p@
                &&& w.sheets@.len() == 3
                &&& summary_sheet_of(w.sheets@[0], *self.config, result.stats, date@)
                &&& tree_sheet_of(
                    w.sheets@[1],
                    tree_items(result.entries@, *self.config),
                    self.config.no_tree,
                    self.config.excel_fold_level,
                    CellStyle::Header,
                    12,
                )
                &&& details_sheet_of(w.sheets@[2], result.entries@, *self.config)
            }),
    {
        let path = match &self.config.excel {
            Some(p) => p.clone(),
            None => return None,
        };
        let summary = self.write_summary_sheet(&result.stats, date);
        let tree = self.write_file_tree_sheet(&result.entries);
        let details = self.write_details_sheet(&result.entries);
        let mut sheets: Vec<Sheet> = Vec::new();
        sheets.push(summary);
        sheets.push(tree);
        sheets.push(details);
        Some(Workbook { path, sheets })
    }
}
} // verus!
