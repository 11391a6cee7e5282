//! The text summary of a two-way comparison, for the console and for the
//! summary file.
use vstd::prelude::*;

use crate::config::Config;
use crate::filter::{display_parts, format_filter_status};
use crate::path_tree::{
    calculate_max_path_width, insert_into_tree, render_from, render_tree, tree_model, widest_from, Flavor, TreeNode,
    nodes_model,
};
use crate::report_text::{
    banner, gather, lemma_tally_le, pad_right, paint, painted, push_banner, push_padded_right, tally, Paint,
};
use crate::text::{decimal, join, push_decimal, push_str, texts};
use crate::types::{
    CheckPermissionsMode, ColorMode, ComparisonResult, ComparisonStats, CopyResult, FileEntry, FileStatus, PatchResult,
    SpecialFileType, StatusFilter,
};
use crate::utils::{components, path_components};

verus! {

/// Writes the summary of a two-way comparison.
pub struct SummaryWriter<'a> {
    pub config: &'a Config,
    pub use_color: bool,
}

/// What a summary run prints and saves: the console text, and the summary
/// file's path and text when one is asked for.
#[derive(Debug, Clone)]
pub struct SummaryOutput {
    pub console: String,
    pub file: Option<(String, String)>,
}

/// Whether the console summary is coloured: always, never, or when the
/// output is a terminal.
pub open spec fn uses_color(mode: ColorMode, terminal: bool) -> bool {
    match mode {
        ColorMode::Always => true,
        ColorMode::Never => false,
        ColorMode::Auto => terminal,
    }
}

/// A text when a condition holds, else nothing.
pub open spec fn text_if(cond: bool, t: Seq<char>) -> Seq<char> {
    if cond { t } else { Seq::empty() }
}

/// The header of the summary.
pub open spec fn header_text(c: Config, date: Seq<char>) -> Seq<char> {
    "rs_diffcopy Summary\n===================\nSource: "@ + c.source@ + "\nTarget: "@ + c.target@ + "\nOutput: "@
        + c.output@ + "\nDate: "@ + date + "\n"@
}

/// Whether the summary lists options.
pub open spec fn two_way_has_options(c: Config) -> bool {
    c.dry_run || c.both_versions || c.copy_deleted || c.preserve_timestamps || c.check_permissions
        != CheckPermissionsMode::Off || c.patch || c.patch_file is Some || c.exclude@.len() > 0
        || !c.filter_status.blank()
}

/// The options section of the summary.
pub open spec fn options_text(c: Config) -> Seq<char> {
    "\nOptions:\n"@ + text_if(c.dry_run, "  Mode: Dry run (no files copied)\n"@)
        + text_if(c.both_versions, "  Copy mode: Both versions (.old/.new)\n"@)
        + text_if(c.copy_deleted, "  Copy deleted: Yes (.deleted)\n"@)
        + text_if(c.preserve_timestamps, "  Preserve timestamps: Yes\n"@)
        + text_if(
            c.check_permissions != CheckPermissionsMode::Off,
            "  Permission check: "@ + c.check_permissions.name() + "\n"@,
        )
        + text_if(c.patch, "  Patch mode: Individual files (.patch)\n"@)
        + text_if(c.patch_file is Some, "  Combined patch file: "@ + c.patch_file->0@ + "\n"@)
        + text_if(
            !c.filter_status.blank() && join(display_parts(c.filter_status), ", "@).len() > 0,
            "  Filter status: "@ + join(display_parts(c.filter_status), ", "@) + "\n"@,
        )
        + text_if(
            c.exclude@.len() > 0,
            "  Exclude patterns:\n"@ + gather(texts(c.exclude@), |p: Seq<char>| true, |p: Seq<char>| "    - "@ + p + "\n"@),
        )
}

/// The note after a count the filter hides.
pub open spec fn marker(hidden: bool) -> Seq<char> {
    if hidden { "    (filtered out)"@ } else { Seq::empty() }
}

/// A statistics line with files and directories.
pub open spec fn stat_line(label: Seq<char>, files: usize, dirs: usize, included: bool, filtered: bool) -> Seq<char> {
    pad_right(label + ":"@, 14) + (if dirs > 0 {
        decimal(files as nat) + " files, "@ + decimal(dirs as nat) + " dir"@
    } else {
        decimal(files as nat) + " files"@
    }) + marker(filtered && !included) + "\n"@
}

/// A statistics line with one count and its unit.
pub open spec fn stat_line_simple(label: Seq<char>, count: usize, unit: Seq<char>, included: bool, filtered: bool) -> Seq<char> {
    pad_right(label + ":"@, 14) + decimal(count as nat) + " "@ + unit + marker(filtered && !included) + "\n"@
}

/// The sum of all the counters of the statistics but the total.
pub open spec fn stats_sum(s: ComparisonStats) -> int {
    s.added_files + s.added_dirs + s.modified_files + s.deleted_files + s.deleted_dirs + s.unchanged_files
        + s.symlink_files + s.special_files + s.permission_files + s.error_files
}

/// A count when its status passes the filter, else zero.
pub open spec fn if_shown(f: StatusFilter, st: FileStatus, n: int) -> int {
    if f.admits(st.name()) { n } else { 0 }
}

/// The number of items of the statuses the filter shows.
pub open spec fn filtered_count(s: ComparisonStats, f: StatusFilter) -> int {
    if_shown(f, FileStatus::Added, s.added_files + s.added_dirs) + if_shown(f, FileStatus::Modified, s.modified_files as int)
        + if_shown(f, FileStatus::Deleted, s.deleted_files + s.deleted_dirs) + if_shown(
        f,
        FileStatus::Unchanged,
        s.unchanged_files as int,
    ) + if_shown(f, FileStatus::Symlink, s.symlink_files as int) + if_shown(f, FileStatus::Special, s.special_files as int)
        + if_shown(f, FileStatus::Permission, s.permission_files as int) + if_shown(
        f,
        FileStatus::Error,
        s.error_files as int,
    )
}

/// The statistics section of the summary.
pub open spec fn statistics_text(s: ComparisonStats, f: StatusFilter) -> Seq<char> {
    let filtered = !f.blank();
    stat_line("Added"@, s.added_files, s.added_dirs, f.admits(FileStatus::Added.name()), filtered)
        + stat_line_simple("Modified"@, s.modified_files, "files"@, f.admits(FileStatus::Modified.name()), filtered)
        + stat_line("Deleted"@, s.deleted_files, s.deleted_dirs, f.admits(FileStatus::Deleted.name()), filtered)
        + text_if(
            s.symlink_files > 0,
            stat_line_simple("Symlinks"@, s.symlink_files, "files"@, f.admits(FileStatus::Symlink.name()), filtered),
        )
        + text_if(
            s.special_files > 0,
            stat_line_simple("Special Files"@, s.special_files, "file"@, f.admits(FileStatus::Special.name()), filtered),
        )
        + text_if(
            s.permission_files > 0,
            stat_line_simple("Permissions"@, s.permission_files, "files"@, f.admits(FileStatus::Permission.name()), filtered),
        )
        + text_if(
            s.error_files > 0,
            stat_line_simple("Errors"@, s.error_files, "file"@, f.admits(FileStatus::Error.name()), filtered),
        )
        + stat_line_simple("Unchanged"@, s.unchanged_files, "files"@, f.admits(FileStatus::Unchanged.name()), filtered)
        + "--------------------------\nTotal:        "@ + decimal(s.total_items as nat) + " items\n"@
        + text_if(filtered, "Showing:      "@ + decimal(filtered_count(s, f) as nat) + " items (filtered)\n"@)
}

/// One line when a condition holds, else none.
pub open spec fn line_if(cond: bool, line: Seq<char>) -> Seq<Seq<char>> {
    if cond { seq![line] } else { Seq::empty() }
}

/// Lines joined one after the other.
pub open spec fn concat_lines(ls: Seq<Seq<char>>) -> Seq<char>
    decreases ls.len(),
{
    if ls.len() == 0 { Seq::empty() } else { concat_lines(ls.drop_last()) + ls.last() }
}

/// The lines of the statistics section: Added, Modified and Deleted always;
/// Symlinks, Special Files, Permissions and Errors only when their count is
/// above zero; Unchanged always; the rule and the Total line always; the
/// Showing line exactly when a filter is set. Each count line is marked
/// "(filtered out)" exactly when a filter is set and hides its status.
pub open spec fn statistics_lines(s: ComparisonStats, f: StatusFilter) -> Seq<Seq<char>> {
    let filtered = !f.blank();
    seq![
        stat_line("Added"@, s.added_files, s.added_dirs, f.admits(FileStatus::Added.name()), filtered),
        stat_line_simple("Modified"@, s.modified_files, "files"@, f.admits(FileStatus::Modified.name()), filtered),
        stat_line("Deleted"@, s.deleted_files, s.deleted_dirs, f.admits(FileStatus::Deleted.name()), filtered),
    ] + line_if(
        s.symlink_files > 0,
        stat_line_simple("Symlinks"@, s.symlink_files, "files"@, f.admits(FileStatus::Symlink.name()), filtered),
    ) + line_if(
        s.special_files > 0,
        stat_line_simple("Special Files"@, s.special_files, "file"@, f.admits(FileStatus::Special.name()), filtered),
    ) + line_if(
        s.permission_files > 0,
        stat_line_simple("Permissions"@, s.permission_files, "files"@, f.admits(FileStatus::Permission.name()), filtered),
    ) + line_if(
        s.error_files > 0,
        stat_line_simple("Errors"@, s.error_files, "file"@, f.admits(FileStatus::Error.name()), filtered),
    ) + seq![
        stat_line_simple("Unchanged"@, s.unchanged_files, "files"@, f.admits(FileStatus::Unchanged.name()), filtered),
        "--------------------------\n"@,
        "Total:        "@ + decimal(s.total_items as nat) + " items\n"@,
    ] + line_if(filtered, "Showing:      "@ + decimal(filtered_count(s, f) as nat) + " items (filtered)\n"@)
}

proof fn lemma_concat_lines_append(a: Seq<Seq<char>>, b: Seq<Seq<char>>)
    ensures
        concat_lines(a + b) == concat_lines(a) + concat_lines(b),
    decreases b.len(),
{
    if b.len() == 0 {
        assert(a + b =~= a);
        assert(concat_lines(a) + concat_lines(b) =~= concat_lines(a));
    } else {
        assert((a + b).drop_last() =~= a + b.drop_last());
        lemma_concat_lines_append(a, b.drop_last());
        assert(concat_lines(a) + concat_lines(b) =~= concat_lines(a) + concat_lines(b.drop_last()) + b.last());
    }
}

proof fn lemma_concat_one(l: Seq<char>)
    ensures
        concat_lines(seq![l]) == l,
{
    let one = seq![l];
    assert(one.drop_last() =~= Seq::<Seq<char>>::empty());
    assert(one.last() == l);
    assert(concat_lines(Seq::<Seq<char>>::empty()) == Seq::<char>::empty());
    assert(Seq::<char>::empty() + l =~= l);
}

proof fn lemma_concat_three(a: Seq<char>, b: Seq<char>, c: Seq<char>)
    ensures
        concat_lines(seq![a, b, c]) == a + b + c,
{
    assert(seq![a, b, c] =~= seq![a] + seq![b] + seq![c]);
    lemma_concat_lines_append(seq![a] + seq![b], seq![c]);
    lemma_concat_lines_append(seq![a], seq![b]);
    lemma_concat_one(a);
    lemma_concat_one(b);
    lemma_concat_one(c);
}

proof fn lemma_concat_line_if(cond: bool, l: Seq<char>)
    ensures
        concat_lines(line_if(cond, l)) == text_if(cond, l),
{
    if cond {
        lemma_concat_one(l);
    }
}

proof fn lemma_rule_total(u: Seq<char>, dec: Seq<char>)
    ensures
        u + "--------------------------\n"@ + ("Total:        "@ + dec + " items\n"@)
            == u + "--------------------------\nTotal:        "@ + dec + " items\n"@,
{
    reveal_strlit("--------------------------\n");
    reveal_strlit("Total:        ");
    reveal_strlit("--------------------------\nTotal:        ");
    assert(u + "--------------------------\n"@ + ("Total:        "@ + dec + " items\n"@)
        =~= u + "--------------------------\nTotal:        "@ + dec + " items\n"@);
}

proof fn lemma_regroup(p: Seq<char>, u: Seq<char>, a: Seq<char>, b: Seq<char>, c: Seq<char>, z: Seq<char>)
    ensures
        p + (u + a + b + c) + z == p + u + a + b + c + z,
{
    assert(p + (u + a + b + c) + z =~= p + u + a + b + c + z);
}

/// The statistics section is its lines, one after the other.
pub proof fn lemma_statistics_lines(s: ComparisonStats, f: StatusFilter)
    ensures
        statistics_text(s, f) == concat_lines(statistics_lines(s, f)),
{
    let filtered = !f.blank();
    let l0 = stat_line("Added"@, s.added_files, s.added_dirs, f.admits(FileStatus::Added.name()), filtered);
    let l1 = stat_line_simple("Modified"@, s.modified_files, "files"@, f.admits(FileStatus::Modified.name()), filtered);
    let l2 = stat_line("Deleted"@, s.deleted_files, s.deleted_dirs, f.admits(FileStatus::Deleted.name()), filtered);
    let c0 = s.symlink_files > 0;
    let c1 = s.special_files > 0;
    let c2 = s.permission_files > 0;
    let c3 = s.error_files > 0;
    let t0 = stat_line_simple("Symlinks"@, s.symlink_files, "files"@, f.admits(FileStatus::Symlink.name()), filtered);
    let t1 = stat_line_simple("Special Files"@, s.special_files, "file"@, f.admits(FileStatus::Special.name()), filtered);
    let t2 = stat_line_simple("Permissions"@, s.permission_files, "files"@, f.admits(FileStatus::Permission.name()), filtered);
    let t3 = stat_line_simple("Errors"@, s.error_files, "file"@, f.admits(FileStatus::Error.name()), filtered);
    let u = stat_line_simple("Unchanged"@, s.unchanged_files, "files"@, f.admits(FileStatus::Unchanged.name()), filtered);
    let rule = "--------------------------\n"@;
    let total = "Total:        "@ + decimal(s.total_items as nat) + " items\n"@;
    let sh = "Showing:      "@ + decimal(filtered_count(s, f) as nat) + " items (filtered)\n"@;
    let head = seq![l0, l1, l2];
    let tail = seq![u, rule, total];
    let a1 = head + line_if(c0, t0);
    let a2 = a1 + line_if(c1, t1);
    let a3 = a2 + line_if(c2, t2);
    let a4 = a3 + line_if(c3, t3);
    let a5 = a4 + tail;
    assert(statistics_lines(s, f) == a5 + line_if(filtered, sh));
    lemma_concat_three(l0, l1, l2);
    lemma_concat_three(u, rule, total);
    lemma_concat_line_if(c0, t0);
    lemma_concat_line_if(c1, t1);
    lemma_concat_line_if(c2, t2);
    lemma_concat_line_if(c3, t3);
    lemma_concat_line_if(filtered, sh);
    lemma_concat_lines_append(head, line_if(c0, t0));
    lemma_concat_lines_append(a1, line_if(c1, t1));
    lemma_concat_lines_append(a2, line_if(c2, t2));
    lemma_concat_lines_append(a3, line_if(c3, t3));
    lemma_concat_lines_append(a4, tail);
    lemma_concat_lines_append(a5, line_if(filtered, sh));
    let lit = "--------------------------\nTotal:        "@;
    let dec = decimal(s.total_items as nat);
    let items = " items\n"@;
    lemma_rule_total(u, dec);
    let pre = l0 + l1 + l2 + text_if(c0, t0) + text_if(c1, t1) + text_if(c2, t2) + text_if(c3, t3);
    let x = pre + (u + rule + total) + text_if(filtered, sh);
    assert(concat_lines(statistics_lines(s, f)) == x);
    lemma_regroup(pre, u, lit, dec, items, text_if(filtered, sh));
    assert(statistics_text(s, f) == pre + u + lit + dec + items + text_if(filtered, sh));
}

/// The Total line of the statistics section.
pub open spec fn total_line(s: ComparisonStats) -> Seq<char> {
    "Total:        "@ + decimal(s.total_items as nat) + " items\n"@
}

/// The Showing line of the statistics section.
pub open spec fn showing_line(s: ComparisonStats, f: StatusFilter) -> Seq<char> {
    "Showing:      "@ + decimal(filtered_count(s, f) as nat) + " items (filtered)\n"@
}

/// A line that cannot be the Showing line: it does not start with "Sh".
spec fn not_showing(l: Seq<char>) -> bool {
    l.len() >= 2 && !(l[0] == 'S' && l[1] == 'h')
}

spec fn none_showing(ls: Seq<Seq<char>>) -> bool {
    forall|i: int| 0 <= i < ls.len() ==> not_showing(#[trigger] ls[i])
}

proof fn lemma_none_showing_add(a: Seq<Seq<char>>, b: Seq<Seq<char>>)
    requires
        none_showing(a),
        none_showing(b),
    ensures
        none_showing(a + b),
{
    assert forall|i: int| 0 <= i < (a + b).len() implies not_showing(#[trigger] (a + b)[i]) by {
        if i < a.len() {
            assert((a + b)[i] == a[i]);
        } else {
            assert((a + b)[i] == b[i - a.len()]);
        }
    }
}

proof fn lemma_padded_start(label: Seq<char>, rest: Seq<char>)
    requires
        label.len() >= 2,
    ensures
        (pad_right(label + ":"@, 14) + rest).len() >= 2,
        (pad_right(label + ":"@, 14) + rest)[0] == label[0],
        (pad_right(label + ":"@, 14) + rest)[1] == label[1],
{
    let l = label + ":"@;
    assert(l[0] == label[0] && l[1] == label[1]);
    assert(pad_right(l, 14)[0] == l[0] && pad_right(l, 14)[1] == l[1]);
}

proof fn lemma_stat_line_not_showing(label: Seq<char>, files: usize, dirs: usize, included: bool, filtered: bool)
    requires
        label.len() >= 2,
        !(label[0] == 'S' && label[1] == 'h'),
    ensures
        not_showing(stat_line(label, files, dirs, included, filtered)),
{
    let rest = (if dirs > 0 {
        decimal(files as nat) + " files, "@ + decimal(dirs as nat) + " dir"@
    } else {
        decimal(files as nat) + " files"@
    }) + marker(filtered && !included) + "\n"@;
    assert(stat_line(label, files, dirs, included, filtered) =~= pad_right(label + ":"@, 14) + rest);
    lemma_padded_start(label, rest);
}

proof fn lemma_simple_line_not_showing(label: Seq<char>, count: usize, unit: Seq<char>, included: bool, filtered: bool)
    requires
        label.len() >= 2,
        !(label[0] == 'S' && label[1] == 'h'),
    ensures
        not_showing(stat_line_simple(label, count, unit, included, filtered)),
{
    let rest = decimal(count as nat) + " "@ + unit + marker(filtered && !included) + "\n"@;
    assert(stat_line_simple(label, count, unit, included, filtered) =~= pad_right(label + ":"@, 14) + rest);
    lemma_padded_start(label, rest);
}

proof fn lemma_line_if_not_showing(cond: bool, l: Seq<char>)
    requires
        not_showing(l),
    ensures
        none_showing(line_if(cond, l)),
{
}

/// The statistics section always ends its count lines with the Total line,
/// and it has the Showing line exactly when a filter is set, as its last
/// line.
pub proof fn lemma_statistics_shown(s: ComparisonStats, f: StatusFilter)
    ensures
        statistics_lines(s, f).contains(total_line(s)),
        statistics_lines(s, f).contains(showing_line(s, f)) <==> !f.blank(),
        statistics_lines(s, f).last() == (if f.blank() { total_line(s) } else { showing_line(s, f) }),
{
    reveal_strlit("Added");
    reveal_strlit("Modified");
    reveal_strlit("Deleted");
    reveal_strlit("Symlinks");
    reveal_strlit("Special Files");
    reveal_strlit("Permissions");
    reveal_strlit("Errors");
    reveal_strlit("Unchanged");
    reveal_strlit("--------------------------\n");
    reveal_strlit("Total:        ");
    reveal_strlit("Showing:      ");
    let filtered = !f.blank();
    let l0 = stat_line("Added"@, s.added_files, s.added_dirs, f.admits(FileStatus::Added.name()), filtered);
    let l1 = stat_line_simple("Modified"@, s.modified_files, "files"@, f.admits(FileStatus::Modified.name()), filtered);
    let l2 = stat_line("Deleted"@, s.deleted_files, s.deleted_dirs, f.admits(FileStatus::Deleted.name()), filtered);
    let c0 = s.symlink_files > 0;
    let c1 = s.special_files > 0;
    let c2 = s.permission_files > 0;
    let c3 = s.error_files > 0;
    let t0 = stat_line_simple("Symlinks"@, s.symlink_files, "files"@, f.admits(FileStatus::Symlink.name()), filtered);
    let t1 = stat_line_simple("Special Files"@, s.special_files, "file"@, f.admits(FileStatus::Special.name()), filtered);
    let t2 = stat_line_simple("Permissions"@, s.permission_files, "files"@, f.admits(FileStatus::Permission.name()), filtered);
    let t3 = stat_line_simple("Errors"@, s.error_files, "file"@, f.admits(FileStatus::Error.name()), filtered);
    let u = stat_line_simple("Unchanged"@, s.unchanged_files, "files"@, f.admits(FileStatus::Unchanged.name()), filtered);
    let rule = "--------------------------\n"@;
    let total = total_line(s);
    let sh = showing_line(s, f);
    let head = seq![l0, l1, l2];
    let tail = seq![u, rule, total];
    let a1 = head + line_if(c0, t0);
    let a2 = a1 + line_if(c1, t1);
    let a3 = a2 + line_if(c2, t2);
    let a4 = a3 + line_if(c3, t3);
    let a5 = a4 + tail;
    let lines = statistics_lines(s, f);
    assert(lines == a5 + line_if(filtered, sh));
    assert(a5[a4.len() + 2int] == total);
    assert(lines[a4.len() + 2int] == total);
    if filtered {
        assert(lines[a5.len() as int] == sh);
        assert(lines.last() == sh);
    } else {
        assert(lines =~= a5);
        assert(lines.last() == total);
        lemma_stat_line_not_showing("Added"@, s.added_files, s.added_dirs, f.admits(FileStatus::Added.name()), filtered);
        lemma_simple_line_not_showing("Modified"@, s.modified_files, "files"@, f.admits(FileStatus::Modified.name()), filtered);
        lemma_stat_line_not_showing("Deleted"@, s.deleted_files, s.deleted_dirs, f.admits(FileStatus::Deleted.name()), filtered);
        lemma_simple_line_not_showing("Symlinks"@, s.symlink_files, "files"@, f.admits(FileStatus::Symlink.name()), filtered);
        lemma_simple_line_not_showing("Special Files"@, s.special_files, "file"@, f.admits(FileStatus::Special.name()), filtered);
        lemma_simple_line_not_showing("Permissions"@, s.permission_files, "files"@, f.admits(FileStatus::Permission.name()), filtered);
        lemma_simple_line_not_showing("Errors"@, s.error_files, "file"@, f.admits(FileStatus::Error.name()), filtered);
        lemma_simple_line_not_showing("Unchanged"@, s.unchanged_files, "files"@, f.admits(FileStatus::Unchanged.name()), filtered);
        assert(total[0] == 'T');
        assert(not_showing(rule));
        assert(none_showing(head));
        assert(none_showing(tail));
        lemma_line_if_not_showing(c0, t0);
        lemma_line_if_not_showing(c1, t1);
        lemma_line_if_not_showing(c2, t2);
        lemma_line_if_not_showing(c3, t3);
        lemma_none_showing_add(head, line_if(c0, t0));
        lemma_none_showing_add(a1, line_if(c1, t1));
        lemma_none_showing_add(a2, line_if(c2, t2));
        lemma_none_showing_add(a3, line_if(c3, t3));
        lemma_none_showing_add(a4, tail);
        assert(sh[0] == 'S' && sh[1] == 'h');
        assert forall|i: int| 0 <= i < lines.len() implies lines[i] != sh by {
            assert(not_showing(a5[i]));
        }
    }
}

impl<'a> SummaryWriter<'a> {
    /// A writer for the given configuration; `terminal` is whether standard
    /// output is a terminal, which decides colours in `auto` mode.
    pub fn new(config: &'a Config, terminal: bool) -> (r: SummaryWriter<'a>)
        ensures
            r.config == config,
            r.use_color == uses_color(config.color, terminal),
    {
        let use_color = match config.color {
            ColorMode::Always => true,
            ColorMode::Never => false,
            ColorMode::Auto => terminal,
        };
        SummaryWriter { config, use_color }
    }

    /// The header of the summary, with the date of the run as given.
    pub fn generate_header(&self, date: &str) -> (r: String)
        ensures
            r@ == header_text(*self.config, date@),
    {
        let c = self.config;
        let mut out = String::new();
        push_str(&mut out, "rs_diffcopy Summary\n===================\nSource: ");
        push_str(&mut out, c.source.as_str());
        push_str(&mut out, "\nTarget: ");
        push_str(&mut out, c.target.as_str());
        push_str(&mut out, "\nOutput: ");
        push_str(&mut out, c.output.as_str());
        push_str(&mut out, "\nDate: ");
        push_str(&mut out, date);
        push_str(&mut out, "\n");
        proof {
            assert(out@ =~= header_text(*c, date@));
        }
        out
    }

    /// Whether the summary lists options.
    pub fn has_options(&self) -> (r: bool)
        ensures
            r == two_way_has_options(*self.config),
    {
        let c = self.config;
        c.dry_run || c.both_versions || c.copy_deleted || c.preserve_timestamps || c.check_permissions
            != CheckPermissionsMode::Off || c.patch || c.patch_file.is_some() || c.exclude.len() > 0
            || !c.filter_status.is_empty()
    }

    fn push_if(out: &mut String, cond: bool, t: &str)
        ensures
            final(out)@ == old(out)@ + text_if(cond, t@),
    {
        if cond {
            push_str(out, t);
        }
        proof {
            assert(final(out)@ =~= old(out)@ + text_if(cond, t@));
        }
    }

    fn exclude_lines(&self) -> (r: String)
        ensures
            r@ == gather(texts(self.config.exclude@), |p: Seq<char>| true, |p: Seq<char>| "    - "@ + p + "\n"@),
    {
        let ex = &self.config.exclude;
        let ghost v = texts(ex@);
        let mut out = String::new();
        let mut i: usize = 0;
        while i < ex.len()
            invariant
                i <= ex@.len(),
                v == texts(ex@),
                out@ == gather(v.take(i as int), |p: Seq<char>| true, |p: Seq<char>| "    - "@ + p + "\n"@),
            decreases ex@.len() - i,
        {
            let ghost o0 = out@;
            push_str(&mut out, "    - ");
            push_str(&mut out, ex[i].as_str());
            push_str(&mut out, "\n");
            proof {
                assert(v.take(i + 1).drop_last() =~= v.take(i as int));
                assert(v.take(i + 1).last() == ex@[i as int]@);
                assert(out@ =~= o0 + ("    - "@ + ex@[i as int]@ + "\n"@));
            }
            i = i + 1;
        }
        proof {
            assert(v.take(i as int) =~= v);
        }
        out
    }

    fn push_permission(&self, out: &mut String)
        ensures
            final(out)@ == old(out)@ + text_if(
                self.config.check_permissions != CheckPermissionsMode::Off,
                "  Permission check: "@ + self.config.check_permissions.name() + "\n"@,
            ),
    {
        let c = self.config;
        let ghost o1 = out@;
        if c.check_permissions != CheckPermissionsMode::Off {
            push_str(out, "  Permission check: ");
            push_str(out, c.check_permissions.as_str());
            push_str(out, "\n");
        }
        proof {
            assert(out@ =~= o1 + text_if(
                c.check_permissions != CheckPermissionsMode::Off,
                "  Permission check: "@ + c.check_permissions.name() + "\n"@,
            ));
        }
    }

    fn push_patch_file(&self, out: &mut String)
        ensures
            final(out)@ == old(out)@ + text_if(
                self.config.patch_file is Some,
                "  Combined patch file: "@ + self.config.patch_file->0@ + "\n"@,
            ),
    {
        let c = self.config;
        let ghost o2 = out@;
        if let Some(p) = &c.patch_file {
            push_str(out, "  Combined patch file: ");
            push_str(out, p.as_str());
            push_str(out, "\n");
        }
        proof {
            assert(out@ =~= o2 + text_if(c.patch_file is Some, "  Combined patch file: "@ + c.patch_file->0@ + "\n"@));
        }
    }

    fn push_filter(&self, out: &mut String)
        ensures
            final(out)@ == old(out)@ + text_if(
                !self.config.filter_status.blank() && join(display_parts(self.config.filter_status), ", "@).len() > 0,
                "  Filter status: "@ + join(display_parts(self.config.filter_status), ", "@) + "\n"@,
            ),
    {
        let c = self.config;
        let ghost o3 = out@;
        if !c.filter_status.is_empty() {
            let f = format_filter_status(&c.filter_status);
            if !f.as_str().is_empty() {
                push_str(out, "  Filter status: ");
                push_str(out, f.as_str());
                push_str(out, "\n");
            }
        }
        proof {
            assert(out@ =~= o3 + text_if(
                !c.filter_status.blank() && join(display_parts(c.filter_status), ", "@).len() > 0,
                "  Filter status: "@ + join(display_parts(c.filter_status), ", "@) + "\n"@,
            ));
        }
    }

    fn push_exclude(&self, out: &mut String)
        ensures
            final(out)@ == old(out)@ + text_if(
                self.config.exclude@.len() > 0,
                "  Exclude patterns:\n"@ + gather(
                    texts(self.config.exclude@),
                    |p: Seq<char>| true,
                    |p: Seq<char>| "    - "@ + p + "\n"@,
                ),
            ),
    {
        let c = self.config;
        let ghost o4 = out@;
        if c.exclude.len() > 0 {
            push_str(out, "  Exclude patterns:\n");
            let lines = self.exclude_lines();
            push_str(out, lines.as_str());
        }
        proof {
            assert(out@ =~= o4 + text_if(
                c.exclude@.len() > 0,
                "  Exclude patterns:\n"@ + gather(
                    texts(c.exclude@),
                    |p: Seq<char>| true,
                    |p: Seq<char>| "    - "@ + p + "\n"@,
                ),
            ));
        }
    }

    /// The options section of the summary.
    pub fn generate_options(&self) -> (r: String)
        ensures
            r@ == options_text(*self.config),
    {
        let c = self.config;
        let mut out = "\nOptions:\n".to_owned();
        Self::push_if(&mut out, c.dry_run, "  Mode: Dry run (no files copied)\n");
        Self::push_if(&mut out, c.both_versions, "  Copy mode: Both versions (.old/.new)\n");
        Self::push_if(&mut out, c.copy_deleted, "  Copy deleted: Yes (.deleted)\n");
        Self::push_if(&mut out, c.preserve_timestamps, "  Preserve timestamps: Yes\n");
        self.push_permission(&mut out);
        Self::push_if(&mut out, c.patch, "  Patch mode: Individual files (.patch)\n");
        self.push_patch_file(&mut out);
        self.push_filter(&mut out);
        self.push_exclude(&mut out);
        out
    }

    /// A statistics line with files and directories.
    pub fn format_stat_line(
        &self,
        label: &str,
        files: usize,
        dirs: usize,
        included: bool,
        for_console: bool,
        is_filtered: bool,
    ) -> (r: String)
        ensures
            r@ == stat_line(label@, files, dirs, included, is_filtered),
    {
        let mut head = label.to_owned();
        push_str(&mut head, ":");
        let mut out = String::new();
        push_padded_right(&mut out, head.as_str(), 14);
        push_decimal(&mut out, files as u64);
        if dirs > 0 {
            push_str(&mut out, " files, ");
            push_decimal(&mut out, dirs as u64);
            push_str(&mut out, " dir");
        } else {
            push_str(&mut out, " files");
        }
        if is_filtered && !included {
            push_str(&mut out, "    (filtered out)");
        }
        push_str(&mut out, "\n");
        proof {
            assert(out@ =~= stat_line(label@, files, dirs, included, is_filtered));
        }
        out
    }

    /// A statistics line with one count and its unit.
    pub fn format_stat_line_simple(
        &self,
        label: &str,
        count: usize,
        unit: &str,
        included: bool,
        for_console: bool,
        is_filtered: bool,
    ) -> (r: String)
        ensures
            r@ == stat_line_simple(label@, count, unit@, included, is_filtered),
    {
        let mut head = label.to_owned();
        push_str(&mut head, ":");
        let mut out = String::new();
        push_padded_right(&mut out, head.as_str(), 14);
        push_decimal(&mut out, count as u64);
        push_str(&mut out, " ");
        push_str(&mut out, unit);
        if is_filtered && !included {
            push_str(&mut out, "    (filtered out)");
        }
        push_str(&mut out, "\n");
        proof {
            assert(out@ =~= stat_line_simple(label@, count, unit@, included, is_filtered));
        }
        out
    }

    /// The number of items of the statuses the filter shows.
    pub fn count_filtered_items(&self, stats: &ComparisonStats, filter: &StatusFilter) -> (r: usize)
        requires
            stats_sum(*stats) <= usize::MAX,
        ensures
            r == filtered_count(*stats, *filter),
    {
        let mut count: usize = 0;
        if filter.matches(FileStatus::Added) {
            count = count + stats.added_files + stats.added_dirs;
        }
        if filter.matches(FileStatus::Modified) {
            count = count + stats.modified_files;
        }
        if filter.matches(FileStatus::Deleted) {
            count = count + stats.deleted_files + stats.deleted_dirs;
        }
        if filter.matches(FileStatus::Unchanged) {
            count = count + stats.unchanged_files;
        }
        if filter.matches(FileStatus::Symlink) {
            count = count + stats.symlink_files;
        }
        if filter.matches(FileStatus::Special) {
            count = count + stats.special_files;
        }
        if filter.matches(FileStatus::Permission) {
            count = count + stats.permission_files;
        }
        if filter.matches(FileStatus::Error) {
            count = count + stats.error_files;
        }
        count
    }

    fn push_stat_if(
        &self,
        out: &mut String,
        cond: bool,
        label: &str,
        count: usize,
        unit: &str,
        st: FileStatus,
        for_console: bool,
        filtered: bool,
    )
        ensures
            final(out)@ == old(out)@ + text_if(
                cond,
                stat_line_simple(label@, count, unit@, self.config.filter_status.admits(st.name()), filtered),
            ),
    {
        let ghost o = out@;
        if cond {
            let l = self.format_stat_line_simple(label, count, unit, self.config.filter_status.matches(st), for_console, filtered);
            push_str(out, l.as_str());
        }
        proof {
            assert(out@ =~= o + text_if(
                cond,
                stat_line_simple(label@, count, unit@, self.config.filter_status.admits(st.name()), filtered),
            ));
        }
    }

    fn push_showing(&self, out: &mut String, stats: &ComparisonStats, filtered: bool)
        requires
            stats_sum(*stats) <= usize::MAX,
        ensures
            final(out)@ == old(out)@ + text_if(
                filtered,
                "Showing:      "@ + decimal(filtered_count(*stats, self.config.filter_status) as nat) + " items (filtered)\n"@,
            ),
    {
        let ghost o = out@;
        if filtered {
            let shown = self.count_filtered_items(stats, &self.config.filter_status);
            push_str(out, "Showing:      ");
            push_decimal(out, shown as u64);
            push_str(out, " items (filtered)\n");
        }
        proof {
            assert(out@ =~= o + text_if(
                filtered,
                "Showing:      "@ + decimal(filtered_count(*stats, self.config.filter_status) as nat) + " items (filtered)\n"@,
            ));
        }
    }

    /// The statistics section of the summary.
    pub fn generate_statistics(&self, stats: &ComparisonStats, for_console: bool) -> (r: String)
        requires
            stats_sum(*stats) <= usize::MAX,
        ensures
            r@ == statistics_text(*stats, self.config.filter_status),
    {
        let f = &self.config.filter_status;
        let filtered = !f.is_empty();
        let mut out = self.format_stat_line(
            "Added",
            stats.added_files,
            stats.added_dirs,
            f.matches(FileStatus::Added),
            for_console,
            filtered,
        );
        let l2 = self.format_stat_line_simple(
            "Modified",
            stats.modified_files,
            "files",
            f.matches(FileStatus::Modified),
            for_console,
            filtered,
        );
        push_str(&mut out, l2.as_str());
        let l3 = self.format_stat_line(
            "Deleted",
            stats.deleted_files,
            stats.deleted_dirs,
            f.matches(FileStatus::Deleted),
            for_console,
            filtered,
        );
        push_str(&mut out, l3.as_str());
        self.push_stat_if(&mut out, stats.symlink_files > 0, "Symlinks", stats.symlink_files, "files", FileStatus::Symlink, for_console, filtered);
        self.push_stat_if(&mut out, stats.special_files > 0, "Special Files", stats.special_files, "file", FileStatus::Special, for_console, filtered);
        self.push_stat_if(&mut out, stats.permission_files > 0, "Permissions", stats.permission_files, "files", FileStatus::Permission, for_console, filtered);
        self.push_stat_if(&mut out, stats.error_files > 0, "Errors", stats.error_files, "file", FileStatus::Error, for_console, filtered);
        let l4 = self.format_stat_line_simple(
            "Unchanged",
            stats.unchanged_files,
            "files",
            f.matches(FileStatus::Unchanged),
            for_console,
            filtered,
        );
        push_str(&mut out, l4.as_str());
        push_str(&mut out, "--------------------------\nTotal:        ");
        push_decimal(&mut out, stats.total_items as u64);
        push_str(&mut out, " items\n");
        self.push_showing(&mut out, stats, filtered);
        out
    }
}


/// Whether an entry is listed in the section of a status.
pub open spec fn listed(c: Config, e: FileEntry, st: FileStatus) -> bool {
    e.status == st && c.filter_status.admits(e.status.name())
}

/// The entries of a section that are directories (or not).
pub open spec fn section_keep(c: Config, st: FileStatus, dirs: bool) -> spec_fn(FileEntry) -> bool {
    |e: FileEntry| listed(c, e, st) && e.is_directory == dirs
}

/// A line of a section: the path, with `/` for a directory.
pub open spec fn section_line(dirs: bool) -> spec_fn(FileEntry) -> Seq<char> {
    |e: FileEntry| "  "@ + e.relative_path@ + (if dirs { "/"@ } else { Seq::empty() }) + "\n"@
}

/// A section listing the entries of a status: directories first, then
/// files.
pub open spec fn section_text(entries: Seq<FileEntry>, c: Config, st: FileStatus, title: Seq<char>) -> Seq<char> {
    let nd = tally(entries, section_keep(c, st, true));
    let nf = tally(entries, section_keep(c, st, false));
    banner(if !c.filter_status.blank() { title + " (filtered)"@ } else { title }) + text_if(
        nd > 0,
        "Directories:\n"@ + gather(entries, section_keep(c, st, true), section_line(true)),
    ) + text_if(
        nf > 0,
        (if nd > 0 { "\nFiles:\n"@ } else { "Files:\n"@ }) + gather(entries, section_keep(c, st, false), section_line(false)),
    ) + "\n"@
}

/// A section when it has entries.
pub open spec fn section_if(entries: Seq<FileEntry>, c: Config, st: FileStatus, title: Seq<char>) -> Seq<char> {
    text_if(
        tally(entries, section_keep(c, st, true)) + tally(entries, section_keep(c, st, false)) > 0,
        section_text(entries, c, st, title),
    )
}

/// The details of one symlink.
pub open spec fn symlink_line(e: FileEntry) -> Seq<char> {
    match e.symlink_info {
        Some(info) => "  "@ + e.relative_path@ + " -> "@ + info.target@ + "\n    Type: "@ + (if info.is_directory {
            "directory"@
        } else {
            "file"@
        }) + " | Status: "@ + (if info.is_broken { "BROKEN"@ } else { "OK"@ }) + "\n"@,
        None => "  "@ + e.relative_path@ + " (symlink info unavailable)\n"@,
    }
}

/// The details of a symlink, as a function.
pub open spec fn symlink_line_fn() -> spec_fn(FileEntry) -> Seq<char> {
    |e: FileEntry| symlink_line(e)
}

/// The symlinks shown.
pub open spec fn symlink_keep(c: Config) -> spec_fn(FileEntry) -> bool {
    |e: FileEntry| listed(c, e, FileStatus::Symlink)
}

/// The symlink details section.
pub open spec fn symlink_text(entries: Seq<FileEntry>, c: Config) -> Seq<char> {
    banner("Symlink Details"@) + gather(entries, symlink_keep(c), symlink_line_fn()) + "\n"@
}

/// The details sections: added, modified and deleted entries, unchanged
/// ones when asked for, and the symlinks.
pub open spec fn details_text(entries: Seq<FileEntry>, c: Config) -> Seq<char> {
    section_if(entries, c, FileStatus::Added, "Added Files"@) + section_if(entries, c, FileStatus::Modified, "Modified Files"@)
        + section_if(entries, c, FileStatus::Deleted, "Deleted Files"@) + text_if(
        c.show_unchanged,
        section_if(entries, c, FileStatus::Unchanged, "Unchanged Files"@),
    ) + text_if(tally(entries, symlink_keep(c)) > 0, symlink_text(entries, c))
}

/// An optional message, or a default.
pub open spec fn message_or(m: Option<String>, default: Seq<char>) -> Seq<char> {
    match m {
        Some(s) => s@,
        None => default,
    }
}

/// The entries with a permission change.
pub open spec fn perm_keep() -> spec_fn(FileEntry) -> bool {
    |e: FileEntry| e.permission_change is Some
}

/// A permission-change line.
pub open spec fn perm_line() -> spec_fn(FileEntry) -> Seq<char> {
    |e: FileEntry| e.permission_change->0.path@ + ": "@ + e.permission_change->0.old_mode@ + " -> "@
        + e.permission_change->0.new_mode@ + "\n"@
}

/// The entries in error.
pub open spec fn error_keep() -> spec_fn(FileEntry) -> bool {
    |e: FileEntry| e.status == FileStatus::Error
}

/// An error line.
pub open spec fn error_line() -> spec_fn(FileEntry) -> Seq<char> {
    |e: FileEntry| e.relative_path@ + ": "@ + message_or(e.error_message, "Unknown error"@) + "\n"@
}

/// The special files.
pub open spec fn special_keep() -> spec_fn(FileEntry) -> bool {
    |e: FileEntry| e.status == FileStatus::Special
}

/// A special-file line.
pub open spec fn special_line() -> spec_fn(FileEntry) -> Seq<char> {
    |e: FileEntry| e.relative_path@ + " ("@ + (match e.special_type {
        Some(t) => t.name(),
        None => "unknown"@,
    }) + ")\n"@
}

/// The patches generated.
pub open spec fn gen_keep() -> spec_fn(PatchResult) -> bool {
    |r: PatchResult| r.generated
}

/// A generated patch line.
pub open spec fn gen_line() -> spec_fn(PatchResult) -> Seq<char> {
    |r: PatchResult| "  "@ + r.path@ + ".patch\n"@
}

/// The binary files skipped.
pub open spec fn skip_keep() -> spec_fn(PatchResult) -> bool {
    |r: PatchResult| r.skipped_binary
}

/// A skipped file line.
pub open spec fn skip_line() -> spec_fn(PatchResult) -> Seq<char> {
    |r: PatchResult| "  "@ + r.path@ + " [skip]\n"@
}

/// The patches that failed.
pub open spec fn fail_keep() -> spec_fn(PatchResult) -> bool {
    |r: PatchResult| r.error_message is Some
}

/// A failed patch line.
pub open spec fn fail_line() -> spec_fn(PatchResult) -> Seq<char> {
    |r: PatchResult| "  "@ + r.path@ + ": "@ + message_or(r.error_message, "Unknown error"@) + "\n"@
}

/// The failed copies.
pub open spec fn copy_fail_keep() -> spec_fn(CopyResult) -> bool {
    |r: CopyResult| !r.success
}

/// The successful copies.
pub open spec fn copy_ok_keep() -> spec_fn(CopyResult) -> bool {
    |r: CopyResult| r.success
}

/// A failed copy line.
pub open spec fn copy_fail_line() -> spec_fn(CopyResult) -> Seq<char> {
    |r: CopyResult| "  "@ + r.path@ + ": "@ + message_or(r.error_message, "Unknown error"@) + "\n"@
}

/// The patch details section.
pub open spec fn patch_text(results: Seq<PatchResult>) -> Seq<char> {
    let g = tally(results, gen_keep());
    let sk = tally(results, skip_keep());
    let fl = tally(results, fail_keep());
    banner("Patch Details"@) + "Generated: "@ + decimal(g) + " patches, Skipped: "@ + decimal(sk) + " (binary), Failed: "@
        + decimal(fl) + "\n\n"@ + text_if(g > 0, "Generated:\n"@ + gather(results, gen_keep(), gen_line()) + "\n"@)
        + text_if(sk > 0, "Skipped (binary):\n"@ + gather(results, skip_keep(), skip_line()) + "\n"@)
        + text_if(fl > 0, "Failed:\n"@ + gather(results, fail_keep(), fail_line()) + "\n"@)
}

/// The failed-copies section.
pub open spec fn copy_failed_text(results: Seq<CopyResult>) -> Seq<char> {
    banner("Copy Failed"@) + "Failed: "@ + decimal(tally(results, copy_fail_keep())) + " files (Copied: "@
        + decimal(tally(results, copy_ok_keep())) + " files)\n\n"@ + gather(results, copy_fail_keep(), copy_fail_line())
        + "\n"@
}

/// The status tag of an entry in the tree, without colour.
pub open spec fn tag_text(e: FileEntry) -> Seq<char> {
    match e.status {
        FileStatus::Added => "[added]"@,
        FileStatus::Modified => "[modified]"@,
        FileStatus::Deleted => "[deleted]"@,
        FileStatus::Unchanged => "[unchanged]"@,
        FileStatus::Symlink => match e.symlink_info {
            Some(i) => if i.is_broken { "[symlink: broken]"@ } else { "[symlink]"@ },
            None => "[symlink]"@,
        },
        FileStatus::Special => match e.special_type {
            Some(SpecialFileType::Socket) => "[special: socket]"@,
            Some(SpecialFileType::Fifo) => "[special: fifo]"@,
            Some(SpecialFileType::BlockDevice) => "[special: block device]"@,
            Some(SpecialFileType::CharDevice) => "[special: char device]"@,
            None => "[special]"@,
        },
        FileStatus::Permission => "[permission]"@,
        FileStatus::Error => "[permission denied]"@,
    }
}

/// The colour of a status tag on the console.
pub open spec fn tag_paint(st: FileStatus) -> Paint {
    match st {
        FileStatus::Added => Paint::Green,
        FileStatus::Modified => Paint::Yellow,
        FileStatus::Deleted => Paint::Red,
        FileStatus::Unchanged => Paint::Dimmed,
        FileStatus::Symlink => Paint::Magenta,
        FileStatus::Special => Paint::Cyan,
        FileStatus::Permission => Paint::Yellow,
        FileStatus::Error => Paint::Red,
    }
}

/// A tag as drawn: plain, or in its colour when colours are on.
pub open spec fn tag_ok(t: Seq<char>, e: FileEntry, colored: bool) -> bool {
    t == tag_text(e) || (colored && t == painted(tag_paint(e.status), tag_text(e)))
}

/// The plain tags of the entries, by position.
pub open spec fn plain_tags(entries: Seq<FileEntry>) -> Seq<Seq<char>> {
    entries.map_values(|e: FileEntry| tag_text(e))
}

/// Whether each entry's tag is drawn as `tag_ok` allows.
pub open spec fn tags_ok(tags: Seq<Seq<char>>, entries: Seq<FileEntry>, colored: bool) -> bool {
    tags.len() == entries.len() && forall|i: int| 0 <= i < tags.len() ==> tag_ok(#[trigger] tags[i], entries[i], colored)
}

/// The paths of the entries the filter shows, with their positions.
pub open spec fn two_way_paths(entries: Seq<FileEntry>, f: StatusFilter) -> Seq<(Seq<Seq<char>>, usize)>
    decreases entries.len(),
{
    if entries.len() == 0 {
        Seq::empty()
    } else {
        let rest = two_way_paths(entries.drop_last(), f);
        if f.admits(entries.last().status.name()) {
            rest.push((path_components(entries.last().relative_path@), (entries.len() - 1) as usize))
        } else {
            rest
        }
    }
}

/// Whether each entry is a directory, by position.
pub open spec fn entry_dirs(entries: Seq<FileEntry>) -> Seq<bool> {
    entries.map_values(|e: FileEntry| e.is_directory)
}

/// The file-tree section: the tree of the entries shown, drawn compactly
/// for the console, aligned to the widest path for the file.
pub open spec fn file_tree_text(entries: Seq<FileEntry>, c: Config, console: bool, tags: Seq<Seq<char>>) -> Seq<char> {
    let tree = tree_model(two_way_paths(entries, c.filter_status));
    let dirs = entry_dirs(entries);
    let mw: usize = if console { 0 } else { widest_from(tree, 0, Seq::empty(), true, dirs) };
    banner(if !c.filter_status.blank() { "File Tree (filtered)"@ } else { "File Tree"@ }) + ".\n"@ + render_from(
        tree,
        0,
        Seq::empty(),
        true,
        Flavor::TwoWay,
        console,
        mw,
        tags,
        dirs,
    )
}

/// The sections after the tree.
pub open spec fn later_sections(r: ComparisonResult, c: Config) -> Seq<char> {
    let es = r.entries@;
    details_text(es, c) + text_if(
        tally(es, perm_keep()) > 0,
        banner("Permission Changes"@) + gather(es, perm_keep(), perm_line()) + "\n"@,
    ) + text_if(tally(es, error_keep()) > 0, banner("Errors"@) + gather(es, error_keep(), error_line()) + "\n"@)
        + text_if(
        tally(es, special_keep()) > 0,
        banner("Special Files (skipped)"@) + gather(es, special_keep(), special_line()) + "\n"@,
    ) + text_if(r.patch_results@.len() > 0, patch_text(r.patch_results@)) + text_if(
        tally(r.copy_results@, copy_fail_keep()) > 0,
        copy_failed_text(r.copy_results@),
    )
}

/// The whole summary, given the tag drawn for each entry.
pub open spec fn summary_text(c: Config, r: ComparisonResult, console: bool, date: Seq<char>, tags: Seq<Seq<char>>) -> Seq<char> {
    let head = header_text(c, date) + "\n"@ + text_if(two_way_has_options(c), options_text(c) + "\n"@)
        + statistics_text(r.stats, c.filter_status) + "\n"@;
    if !r.stats.differs() {
        head + "No differences found.\n"@
    } else {
        head + text_if(!(console && c.stats_only) && !c.no_tree, file_tree_text(r.entries@, c, console, tags) + "\n"@) + text_if(
            !(console && c.stats_only) && !c.no_details,
            later_sections(r, c),
        )
    }
}
/// When nothing differs the summary is its header, options and statistics
/// followed by "No differences found.", with no tree and no details,
/// whatever `--stats-only`, `--no-tree` and `--no-details` say.
pub proof fn lemma_no_differences_summary(
    c: Config,
    r: ComparisonResult,
    console: bool,
    date: Seq<char>,
    tags: Seq<Seq<char>>,
)
    requires
        !r.stats.differs(),
    ensures
        summary_text(c, r, console, date, tags) == header_text(c, date) + "\n"@ + text_if(
            two_way_has_options(c),
            options_text(c) + "\n"@,
        ) + statistics_text(r.stats, c.filter_status) + "\n"@ + "No differences found.\n"@,
{
}

/// With `--stats-only` the console summary is its header, options and
/// statistics only (and the no-differences line when nothing differs): no
/// tree and no details.
pub proof fn lemma_stats_only_console(c: Config, r: ComparisonResult, date: Seq<char>, tags: Seq<Seq<char>>)
    requires
        c.stats_only,
    ensures
        summary_text(c, r, true, date, tags) == header_text(c, date) + "\n"@ + text_if(
            two_way_has_options(c),
            options_text(c) + "\n"@,
        ) + statistics_text(r.stats, c.filter_status) + "\n"@ + text_if(!r.stats.differs(), "No differences found.\n"@),
{
    let head = header_text(c, date) + "\n"@ + text_if(two_way_has_options(c), options_text(c) + "\n"@)
        + statistics_text(r.stats, c.filter_status) + "\n"@;
    if r.stats.differs() {
        assert(head + Seq::<char>::empty() + Seq::<char>::empty() =~= head + Seq::<char>::empty());
    }
}

/// The details sections read only the filter and `--show-unchanged` of a
/// configuration.
proof fn lemma_details_same(es: Seq<FileEntry>, c: Config, d: Config)
    requires
        c.filter_status == d.filter_status,
        c.show_unchanged == d.show_unchanged,
    ensures
        details_text(es, d) == details_text(es, c),
{
    assert forall|st: FileStatus, b: bool| #[trigger] section_keep(d, st, b) == section_keep(c, st, b) by {
        assert(section_keep(d, st, b) =~= section_keep(c, st, b));
    }
    assert(symlink_keep(d) =~= symlink_keep(c));
    assert(section_text(es, d, FileStatus::Added, "Added Files"@) == section_text(es, c, FileStatus::Added, "Added Files"@));
    assert(section_text(es, d, FileStatus::Modified, "Modified Files"@) == section_text(es, c, FileStatus::Modified, "Modified Files"@));
    assert(section_text(es, d, FileStatus::Deleted, "Deleted Files"@) == section_text(es, c, FileStatus::Deleted, "Deleted Files"@));
    assert(section_text(es, d, FileStatus::Unchanged, "Unchanged Files"@) == section_text(es, c, FileStatus::Unchanged, "Unchanged Files"@));
}

/// `--stats-only` shortens the console summary only: the summary file is
/// the same with it as without it.
pub proof fn lemma_stats_only_spares_file(
    c: Config,
    r: ComparisonResult,
    date: Seq<char>,
    tags: Seq<Seq<char>>,
    stats_only: bool,
)
    ensures
        summary_text(Config { stats_only, ..c }, r, false, date, tags) == summary_text(c, r, false, date, tags),
{
    let d = Config { stats_only, ..c };
    assert(header_text(d, date) == header_text(c, date));
    assert(options_text(d) == options_text(c));
    assert(file_tree_text(r.entries@, d, false, tags) == file_tree_text(r.entries@, c, false, tags));
    lemma_details_same(r.entries@, c, d);
    assert(later_sections(r, d) == later_sections(r, c));
}

impl<'a> SummaryWriter<'a> {

    fn section_lines(&self, items: &Vec<FileEntry>, st: FileStatus, dirs: bool) -> (r: (String, usize))
        ensures
            r.0@ == gather(items@, section_keep(*self.config, st, dirs), section_line(dirs)),
            r.1 == tally(items@, section_keep(*self.config, st, dirs)),
    {
        let mut out = String::new();
        let mut n: usize = 0;
        let mut k: usize = 0;
        while k < items.len()
            invariant
                k <= items@.len(),
                n <= k,
                out@ == gather(items@.take(k as int), section_keep(*self.config, st, dirs), section_line(dirs)),
                n == tally(items@.take(k as int), section_keep(*self.config, st, dirs)),
            decreases items@.len() - k,
        {
            proof {
                assert(items@.take(k + 1).drop_last() =~= items@.take(k as int));
                assert(items@.take(k + 1).last() == items@[k as int]);
            }
            let e = &items[k];
            let ghost o = out@;
            if e.status == st && self.config.filter_status.matches(e.status) && e.is_directory == dirs {
                push_str(&mut out, "  ");
                push_str(&mut out, e.relative_path.as_str());
                if dirs {
                    push_str(&mut out, "/");
                }
                push_str(&mut out, "\n");
                n = n + 1;
            }
            proof {
                assert(out@ =~= o + if (section_keep(*self.config, st, dirs))(*e) { (section_line(dirs))(*e) } else { Seq::empty() });
            }
            k = k + 1;
        }
        proof {
            assert(items@.take(k as int) =~= items@);
        }
        (out, n)
    }

    fn symlink_lines(&self, items: &Vec<FileEntry>) -> (r: (String, usize))
        ensures
            r.0@ == gather(items@, symlink_keep(*self.config), symlink_line_fn()),
            r.1 == tally(items@, symlink_keep(*self.config)),
    {
        let mut out = String::new();
        let mut n: usize = 0;
        let mut k: usize = 0;
        while k < items.len()
            invariant
                k <= items@.len(),
                n <= k,
                out@ == gather(items@.take(k as int), symlink_keep(*self.config), symlink_line_fn()),
                n == tally(items@.take(k as int), symlink_keep(*self.config)),
            decreases items@.len() - k,
        {
            proof {
                assert(items@.take(k + 1).drop_last() =~= items@.take(k as int));
                assert(items@.take(k + 1).last() == items@[k as int]);
            }
            let e = &items[k];
            let ghost o = out@;
            if e.status == FileStatus::Symlink && self.config.filter_status.matches(e.status) {
                push_str(&mut out, "  ");
                push_str(&mut out, e.relative_path.as_str());
                match &e.symlink_info {
                    Some(info) => {
                        push_str(&mut out, " -> ");
                        push_str(&mut out, info.target.as_str());
                        push_str(&mut out, "\n    Type: ");
                        push_str(&mut out, if info.is_directory { "directory" } else { "file" });
                        push_str(&mut out, " | Status: ");
                        push_str(&mut out, if info.is_broken { "BROKEN" } else { "OK" });
                        push_str(&mut out, "\n");
                    },
                    None => {
                        push_str(&mut out, " (symlink info unavailable)\n");
                    },
                }
                n = n + 1;
            }
            proof {
                assert(out@ =~= o + if (symlink_keep(*self.config))(*e) { (symlink_line_fn())(*e) } else { Seq::empty() });
            }
            k = k + 1;
        }
        proof {
            assert(items@.take(k as int) =~= items@);
        }
        (out, n)
    }

    fn permission_lines(items: &Vec<FileEntry>) -> (r: (String, usize))
        ensures
            r.0@ == gather(items@, perm_keep(), perm_line()),
            r.1 == tally(items@, perm_keep()),
    {
        let mut out = String::new();
        let mut n: usize = 0;
        let mut k: usize = 0;
        while k < items.len()
            invariant
                k <= items@.len(),
                n <= k,
                out@ == gather(items@.take(k as int), perm_keep(), perm_line()),
                n == tally(items@.take(k as int), perm_keep()),
            decreases items@.len() - k,
        {
            proof {
                assert(items@.take(k + 1).drop_last() =~= items@.take(k as int));
                assert(items@.take(k + 1).last() == items@[k as int]);
            }
            let e = &items[k];
            let ghost o = out@;
            if e.permission_change.is_some() {
                match &e.permission_change {
                    Some(ch) => {
                        push_str(&mut out, ch.path.as_str());
                        push_str(&mut out, ": ");
                        push_str(&mut out, ch.old_mode.as_str());
                        push_str(&mut out, " -> ");
                        push_str(&mut out, ch.new_mode.as_str());
                        push_str(&mut out, "\n");
                    },
                    None => {},
                }
                n = n + 1;
            }
            proof {
                assert(out@ =~= o + if (perm_keep())(*e) { (perm_line())(*e) } else { Seq::empty() });
            }
            k = k + 1;
        }
        proof {
            assert(items@.take(k as int) =~= items@);
        }
        (out, n)
    }

    fn error_lines(items: &Vec<FileEntry>) -> (r: (String, usize))
        ensures
            r.0@ == gather(items@, error_keep(), error_line()),
            r.1 == tally(items@, error_keep()),
    {
        let mut out = String::new();
        let mut n: usize = 0;
        let mut k: usize = 0;
        while k < items.len()
            invariant
                k <= items@.len(),
                n <= k,
                out@ == gather(items@.take(k as int), error_keep(), error_line()),
                n == tally(items@.take(k as int), error_keep()),
            decreases items@.len() - k,
        {
            proof {
                assert(items@.take(k + 1).drop_last() =~= items@.take(k as int));
                assert(items@.take(k + 1).last() == items@[k as int]);
            }
            let e = &items[k];
            let ghost o = out@;
            if e.status == FileStatus::Error {
                push_str(&mut out, e.relative_path.as_str());
                push_str(&mut out, ": ");
                match &e.error_message {
                    Some(m) => push_str(&mut out, m.as_str()),
                    None => push_str(&mut out, "Unknown error"),
                }
                push_str(&mut out, "\n");
                n = n + 1;
            }
            proof {
                assert(out@ =~= o + if (error_keep())(*e) { (error_line())(*e) } else { Seq::empty() });
            }
            k = k + 1;
        }
        proof {
            assert(items@.take(k as int) =~= items@);
        }
        (out, n)
    }

    fn special_lines(items: &Vec<FileEntry>) -> (r: (String, usize))
        ensures
            r.0@ == gather(items@, special_keep(), special_line()),
            r.1 == tally(items@, special_keep()),
    {
        let mut out = String::new();
        let mut n: usize = 0;
        let mut k: usize = 0;
        while k < items.len()
            invariant
                k <= items@.len(),
                n <= k,
                out@ == gather(items@.take(k as int), special_keep(), special_line()),
                n == tally(items@.take(k as int), special_keep()),
            decreases items@.len() - k,
        {
            proof {
                assert(items@.take(k + 1).drop_last() =~= items@.take(k as int));
                assert(items@.take(k + 1).last() == items@[k as int]);
            }
            let e = &items[k];
            let ghost o = out@;
            if e.status == FileStatus::Special {
                push_str(&mut out, e.relative_path.as_str());
                push_str(&mut out, " (");
                match &e.special_type {
                    Some(t) => push_str(&mut out, t.as_str()),
                    None => push_str(&mut out, "unknown"),
                }
                push_str(&mut out, ")\n");
                n = n + 1;
            }
            proof {
                assert(out@ =~= o + if (special_keep())(*e) { (special_line())(*e) } else { Seq::empty() });
            }
            k = k + 1;
        }
        proof {
            assert(items@.take(k as int) =~= items@);
        }
        (out, n)
    }

    fn generated_lines(items: &Vec<PatchResult>) -> (r: (String, usize))
        ensures
            r.0@ == gather(items@, gen_keep(), gen_line()),
            r.1 == tally(items@, gen_keep()),
    {
        let mut out = String::new();
        let mut n: usize = 0;
        let mut k: usize = 0;
        while k < items.len()
            invariant
                k <= items@.len(),
                n <= k,
                out@ == gather(items@.take(k as int), gen_keep(), gen_line()),
                n == tally(items@.take(k as int), gen_keep()),
            decreases items@.len() - k,
        {
            proof {
                assert(items@.take(k + 1).drop_last() =~= items@.take(k as int));
                assert(items@.take(k + 1).last() == items@[k as int]);
            }
            let e = &items[k];
            let ghost o = out@;
            if e.generated {
                push_str(&mut out, "  ");
                push_str(&mut out, e.path.as_str());
                push_str(&mut out, ".patch\n");
                n = n + 1;
            }
            proof {
                assert(out@ =~= o + if (gen_keep())(*e) { (gen_line())(*e) } else { Seq::empty() });
            }
            k = k + 1;
        }
        proof {
            assert(items@.take(k as int) =~= items@);
        }
        (out, n)
    }

    fn skipped_lines(items: &Vec<PatchResult>) -> (r: (String, usize))
        ensures
            r.0@ == gather(items@, skip_keep(), skip_line()),
            r.1 == tally(items@, skip_keep()),
    {
        let mut out = String::new();
        let mut n: usize = 0;
        let mut k: usize = 0;
        while k < items.len()
            invariant
                k <= items@.len(),
                n <= k,
                out@ == gather(items@.take(k as int), skip_keep(), skip_line()),
                n == tally(items@.take(k as int), skip_keep()),
            decreases items@.len() - k,
        {
            proof {
                assert(items@.take(k + 1).drop_last() =~= items@.take(k as int));
                assert(items@.take(k + 1).last() == items@[k as int]);
            }
            let e = &items[k];
            let ghost o = out@;
            if e.skipped_binary {
                push_str(&mut out, "  ");
                push_str(&mut out, e.path.as_str());
                push_str(&mut out, " [skip]\n");
                n = n + 1;
            }
            proof {
                assert(out@ =~= o + if (skip_keep())(*e) { (skip_line())(*e) } else { Seq::empty() });
            }
            k = k + 1;
        }
        proof {
            assert(items@.take(k as int) =~= items@);
        }
        (out, n)
    }

    fn failed_lines(items: &Vec<PatchResult>) -> (r: (String, usize))
        ensures
            r.0@ == gather(items@, fail_keep(), fail_line()),
            r.1 == tally(items@, fail_keep()),
    {
        let mut out = String::new();
        let mut n: usize = 0;
        let mut k: usize = 0;
        while k < items.len()
            invariant
                k <= items@.len(),
                n <= k,
                out@ == gather(items@.take(k as int), fail_keep(), fail_line()),
                n == tally(items@.take(k as int), fail_keep()),
            decreases items@.len() - k,
        {
            proof {
                assert(items@.take(k + 1).drop_last() =~= items@.take(k as int));
                assert(items@.take(k + 1).last() == items@[k as int]);
            }
            let e = &items[k];
            let ghost o = out@;
            if e.error_message.is_some() {
                push_str(&mut out, "  ");
                push_str(&mut out, e.path.as_str());
                push_str(&mut out, ": ");
                match &e.error_message {
                    Some(m) => push_str(&mut out, m.as_str()),
                    None => push_str(&mut out, "Unknown error"),
                }
                push_str(&mut out, "\n");
                n = n + 1;
            }
            proof {
                assert(out@ =~= o + if (fail_keep())(*e) { (fail_line())(*e) } else { Seq::empty() });
            }
            k = k + 1;
        }
        proof {
            assert(items@.take(k as int) =~= items@);
        }
        (out, n)
    }

    fn copy_failed_lines(items: &Vec<CopyResult>) -> (r: (String, usize))
        ensures
            r.0@ == gather(items@, copy_fail_keep(), copy_fail_line()),
            r.1 == tally(items@, copy_fail_keep()),
    {
        let mut out = String::new();
        let mut n: usize = 0;
        let mut k: usize = 0;
        while k < items.len()
            invariant
                k <= items@.len(),
                n <= k,
                out@ == gather(items@.take(k as int), copy_fail_keep(), copy_fail_line()),
                n == tally(items@.take(k as int), copy_fail_keep()),
            decreases items@.len() - k,
        {
            proof {
                assert(items@.take(k + 1).drop_last() =~= items@.take(k as int));
                assert(items@.take(k + 1).last() == items@[k as int]);
            }
            let e = &items[k];
            let ghost o = out@;
            if !e.success {
                push_str(&mut out, "  ");
                push_str(&mut out, e.path.as_str());
                push_str(&mut out, ": ");
                match &e.error_message {
                    Some(m) => push_str(&mut out, m.as_str()),
                    None => push_str(&mut out, "Unknown error"),
                }
                push_str(&mut out, "\n");
                n = n + 1;
            }
            proof {
                assert(out@ =~= o + if (copy_fail_keep())(*e) { (copy_fail_line())(*e) } else { Seq::empty() });
            }
            k = k + 1;
        }
        proof {
            assert(items@.take(k as int) =~= items@);
        }
        (out, n)
    }

    fn copied_count_lines(items: &Vec<CopyResult>) -> (r: (String, usize))
        ensures
            r.0@ == gather(items@, copy_ok_keep(), |r: CopyResult| Seq::<char>::empty()),
            r.1 == tally(items@, copy_ok_keep()),
    {
        let mut out = String::new();
        let mut n: usize = 0;
        let mut k: usize = 0;
        while k < items.len()
            invariant
                k <= items@.len(),
                n <= k,
                out@ == gather(items@.take(k as int), copy_ok_keep(), |r: CopyResult| Seq::<char>::empty()),
                n == tally(items@.take(k as int), copy_ok_keep()),
            decreases items@.len() - k,
        {
            proof {
                assert(items@.take(k + 1).drop_last() =~= items@.take(k as int));
                assert(items@.take(k + 1).last() == items@[k as int]);
            }
            let e = &items[k];
            let ghost o = out@;
            if e.success {

                n = n + 1;
            }
            proof {
                assert(out@ =~= o + if (copy_ok_keep())(*e) { (|r: CopyResult| Seq::<char>::empty())(*e) } else { Seq::empty() });
            }
            k = k + 1;
        }
        proof {
            assert(items@.take(k as int) =~= items@);
        }
        (out, n)
    }
}


impl<'a> SummaryWriter<'a> {
    /// A section listing the entries of a status, directories first.
    pub fn generate_section(&self, title: &str, entries: &Vec<FileEntry>, st: FileStatus) -> (r: String)
        ensures
            r@ == section_text(entries@, *self.config, st, title@),
    {
        let (dirs, nd) = self.section_lines(entries, st, true);
        let (files, nf) = self.section_lines(entries, st, false);
        let mut head = title.to_owned();
        if !self.config.filter_status.is_empty() {
            push_str(&mut head, " (filtered)");
        }
        let mut out = String::new();
        push_banner(&mut out, head.as_str());
        let ghost o1 = out@;
        if nd > 0 {
            push_str(&mut out, "Directories:\n");
            push_str(&mut out, dirs.as_str());
        }
        let ghost o2 = out@;
        if nf > 0 {
            if nd > 0 {
                push_str(&mut out, "\nFiles:\n");
            } else {
                push_str(&mut out, "Files:\n");
            }
            push_str(&mut out, files.as_str());
        }
        let ghost o3 = out@;
        push_str(&mut out, "\n");
        proof {
            let c = *self.config;
            assert(o2 =~= o1 + text_if(nd > 0, "Directories:\n"@ + gather(entries@, section_keep(c, st, true), section_line(true))));
            assert(o3 =~= o2 + text_if(
                nf > 0,
                (if nd > 0 { "\nFiles:\n"@ } else { "Files:\n"@ }) + gather(entries@, section_keep(c, st, false), section_line(false)),
            ));
            assert(out@ =~= section_text(entries@, c, st, title@));
        }
        out
    }

    fn push_section_if(&self, out: &mut String, entries: &Vec<FileEntry>, st: FileStatus, title: &str)
        ensures
            final(out)@ == old(out)@ + section_if(entries@, *self.config, st, title@),
    {
        let (_d, nd) = self.section_lines(entries, st, true);
        let (_f, nf) = self.section_lines(entries, st, false);
        let ghost o = out@;
        proof {
            lemma_tally_le(entries@, section_keep(*self.config, st, true));
            lemma_tally_le(entries@, section_keep(*self.config, st, false));
        }
        if nd > 0 || nf > 0 {
            let sec = self.generate_section(title, entries, st);
            push_str(out, sec.as_str());
        }
        proof {
            assert(out@ =~= o + section_if(entries@, *self.config, st, title@));
        }
    }

    /// The symlink details section.
    pub fn generate_symlink_details(&self, entries: &Vec<FileEntry>) -> (r: String)
        ensures
            r@ == symlink_text(entries@, *self.config),
    {
        let (lines, _n) = self.symlink_lines(entries);
        let mut out = String::new();
        push_banner(&mut out, "Symlink Details");
        push_str(&mut out, lines.as_str());
        push_str(&mut out, "\n");
        proof {
            assert(out@ =~= symlink_text(entries@, *self.config));
        }
        out
    }

    /// The details sections.
    pub fn generate_details(&self, entries: &Vec<FileEntry>, for_console: bool) -> (r: String)
        ensures
            r@ == details_text(entries@, *self.config),
    {
        let mut out = String::new();
        self.push_section_if(&mut out, entries, FileStatus::Added, "Added Files");
        self.push_section_if(&mut out, entries, FileStatus::Modified, "Modified Files");
        self.push_section_if(&mut out, entries, FileStatus::Deleted, "Deleted Files");
        let ghost o1 = out@;
        if self.config.show_unchanged {
            self.push_section_if(&mut out, entries, FileStatus::Unchanged, "Unchanged Files");
        }
        let ghost o2 = out@;
        let (_s, ns) = self.symlink_lines(entries);
        if ns > 0 {
            let sd = self.generate_symlink_details(entries);
            push_str(&mut out, sd.as_str());
        }
        proof {
            let c = *self.config;
            assert(o2 =~= o1 + text_if(c.show_unchanged, section_if(entries@, c, FileStatus::Unchanged, "Unchanged Files"@)));
            assert(out@ =~= o2 + text_if(tally(entries@, symlink_keep(c)) > 0, symlink_text(entries@, c)));
            assert(out@ =~= details_text(entries@, c));
        }
        out
    }

    fn framed(title: &str, body: &str) -> (r: String)
        ensures
            r@ == banner(title@) + body@ + "\n"@,
    {
        let mut out = String::new();
        push_banner(&mut out, title);
        push_str(&mut out, body);
        push_str(&mut out, "\n");
        proof {
            assert(out@ =~= banner(title@) + body@ + "\n"@);
        }
        out
    }

    /// The permission changes section.
    pub fn generate_permission_changes(&self, entries: &Vec<FileEntry>) -> (r: String)
        ensures
            r@ == banner("Permission Changes"@) + gather(entries@, perm_keep(), perm_line()) + "\n"@,
    {
        let (lines, _n) = Self::permission_lines(entries);
        Self::framed("Permission Changes", lines.as_str())
    }

    /// The errors section.
    pub fn generate_errors(&self, entries: &Vec<FileEntry>) -> (r: String)
        ensures
            r@ == banner("Errors"@) + gather(entries@, error_keep(), error_line()) + "\n"@,
    {
        let (lines, _n) = Self::error_lines(entries);
        Self::framed("Errors", lines.as_str())
    }

    /// The special files section.
    pub fn generate_special_files(&self, entries: &Vec<FileEntry>) -> (r: String)
        ensures
            r@ == banner("Special Files (skipped)"@) + gather(entries@, special_keep(), special_line()) + "\n"@,
    {
        let (lines, _n) = Self::special_lines(entries);
        Self::framed("Special Files (skipped)", lines.as_str())
    }

    /// The patch details section.
    pub fn generate_patch_details(&self, results: &Vec<PatchResult>) -> (r: String)
        ensures
            r@ == patch_text(results@),
    {
        let (g, ng) = Self::generated_lines(results);
        let (sk, ns) = Self::skipped_lines(results);
        let (fl, nf) = Self::failed_lines(results);
        let mut out = String::new();
        push_banner(&mut out, "Patch Details");
        push_str(&mut out, "Generated: ");
        push_decimal(&mut out, ng as u64);
        push_str(&mut out, " patches, Skipped: ");
        push_decimal(&mut out, ns as u64);
        push_str(&mut out, " (binary), Failed: ");
        push_decimal(&mut out, nf as u64);
        push_str(&mut out, "\n\n");
        let ghost o1 = out@;
        if ng > 0 {
            push_str(&mut out, "Generated:\n");
            push_str(&mut out, g.as_str());
            push_str(&mut out, "\n");
        }
        let ghost o2 = out@;
        if ns > 0 {
            push_str(&mut out, "Skipped (binary):\n");
            push_str(&mut out, sk.as_str());
            push_str(&mut out, "\n");
        }
        let ghost o3 = out@;
        if nf > 0 {
            push_str(&mut out, "Failed:\n");
            push_str(&mut out, fl.as_str());
            push_str(&mut out, "\n");
        }
        proof {
            let rs = results@;
            assert(o2 =~= o1 + text_if(ng > 0, "Generated:\n"@ + gather(rs, gen_keep(), gen_line()) + "\n"@));
            assert(o3 =~= o2 + text_if(ns > 0, "Skipped (binary):\n"@ + gather(rs, skip_keep(), skip_line()) + "\n"@));
            assert(out@ =~= o3 + text_if(nf > 0, "Failed:\n"@ + gather(rs, fail_keep(), fail_line()) + "\n"@));
            assert(out@ =~= patch_text(rs));
        }
        out
    }

    /// The failed-copies section.
    pub fn generate_copy_failed(&self, results: &Vec<CopyResult>) -> (r: String)
        ensures
            r@ == copy_failed_text(results@),
    {
        let (lines, nf) = Self::copy_failed_lines(results);
        let (_x, nok) = Self::copied_count_lines(results);
        let mut out = String::new();
        push_banner(&mut out, "Copy Failed");
        push_str(&mut out, "Failed: ");
        push_decimal(&mut out, nf as u64);
        push_str(&mut out, " files (Copied: ");
        push_decimal(&mut out, nok as u64);
        push_str(&mut out, " files)\n\n");
        push_str(&mut out, lines.as_str());
        push_str(&mut out, "\n");
        proof {
            assert(out@ =~= copy_failed_text(results@));
        }
        out
    }

    /// The status tag of an entry in the tree, coloured on a colour console.
    pub fn format_status_tag(&self, entry: &FileEntry, for_console: bool) -> (r: String)
        ensures
            tag_ok(r@, *entry, for_console && self.use_color),
    {
        let tag: &str = match entry.status {
            FileStatus::Added => "[added]",
            FileStatus::Modified => "[modified]",
            FileStatus::Deleted => "[deleted]",
            FileStatus::Unchanged => "[unchanged]",
            FileStatus::Symlink => match &entry.symlink_info {
                Some(i) => if i.is_broken { "[symlink: broken]" } else { "[symlink]" },
                None => "[symlink]",
            },
            FileStatus::Special => match &entry.special_type {
                Some(SpecialFileType::Socket) => "[special: socket]",
                Some(SpecialFileType::Fifo) => "[special: fifo]",
                Some(SpecialFileType::BlockDevice) => "[special: block device]",
                Some(SpecialFileType::CharDevice) => "[special: char device]",
                None => "[special]",
            },
            FileStatus::Permission => "[permission]",
            FileStatus::Error => "[permission denied]",
        };
        proof {
            reveal_strlit("[added]");
            reveal_strlit("[modified]");
            reveal_strlit("[deleted]");
            reveal_strlit("[unchanged]");
            reveal_strlit("[symlink: broken]");
            reveal_strlit("[symlink]");
            reveal_strlit("[special: socket]");
            reveal_strlit("[special: fifo]");
            reveal_strlit("[special: block device]");
            reveal_strlit("[special: char device]");
            reveal_strlit("[special]");
            reveal_strlit("[permission]");
            reveal_strlit("[permission denied]");
            assert(tag@ == tag_text(*entry));
            assert(!tag@.contains('\x1B'));
        }
        if for_console && self.use_color {
            let p = match entry.status {
                FileStatus::Added => Paint::Green,
                FileStatus::Modified => Paint::Yellow,
                FileStatus::Deleted => Paint::Red,
                FileStatus::Unchanged => Paint::Dimmed,
                FileStatus::Symlink => Paint::Magenta,
                FileStatus::Special => Paint::Cyan,
                FileStatus::Permission => Paint::Yellow,
                FileStatus::Error => Paint::Red,
            };
            paint(tag, p)
        } else {
            tag.to_owned()
        }
    }

    /// The tag drawn for each entry, by position.
    pub fn entry_tags(&self, entries: &Vec<FileEntry>, for_console: bool) -> (r: Vec<String>)
        ensures
            tags_ok(texts(r@), entries@, for_console && self.use_color),
    {
        let mut tags: Vec<String> = Vec::new();
        let mut k: usize = 0;
        while k < entries.len()
            invariant
                k <= entries@.len(),
                tags@.len() == k,
                forall|i: int| 0 <= i < k ==> tag_ok(#[trigger] tags@[i]@, entries@[i], for_console && self.use_color),
            decreases entries@.len() - k,
        {
            let t = self.format_status_tag(&entries[k], for_console);
            tags.push(t);
            k = k + 1;
        }
        proof {
            assert forall|i: int| 0 <= i < texts(tags@).len() implies tag_ok(
                #[trigger] texts(tags@)[i],
                entries@[i],
                for_console && self.use_color,
            ) by {
                assert(texts(tags@)[i] == tags@[i]@);
            }
        }
        tags
    }

    /// The tree of the entries the filter shows.
    pub fn build_tree(&self, entries: &Vec<FileEntry>) -> (r: Vec<TreeNode>)
        ensures
            nodes_model(r@) == tree_model(two_way_paths(entries@, self.config.filter_status)),
    {
        let mut root: Vec<TreeNode> = Vec::new();
        let mut k: usize = 0;
        while k < entries.len()
            invariant
                k <= entries@.len(),
                nodes_model(root@) == tree_model(two_way_paths(entries@.take(k as int), self.config.filter_status)),
            decreases entries@.len() - k,
        {
            proof {
                assert(entries@.take(k + 1).drop_last() =~= entries@.take(k as int));
                assert(entries@.take(k + 1).last() == entries@[k as int]);
            }
            if self.config.filter_status.matches(entries[k].status) {
                let parts = components(entries[k].relative_path.as_str());
                let ghost prev = two_way_paths(entries@.take(k as int), self.config.filter_status);
                proof {
                    assert(texts(parts@).skip(0) =~= texts(parts@));
                    let x = (path_components(entries@[k as int].relative_path@), k);
                    assert(two_way_paths(entries@.take(k + 1), self.config.filter_status) == prev.push(x));
                    assert(prev.push(x).drop_last() =~= prev);
                }
                insert_into_tree(&mut root, &parts, 0, k);
            }
            k = k + 1;
        }
        proof {
            assert(entries@.take(k as int) =~= entries@);
        }
        root
    }

    fn directory_flags(entries: &Vec<FileEntry>) -> (r: Vec<bool>)
        ensures
            r@ == entry_dirs(entries@),
    {
        let mut v: Vec<bool> = Vec::new();
        let mut k: usize = 0;
        while k < entries.len()
            invariant
                k <= entries@.len(),
                v@ == entry_dirs(entries@).take(k as int),
            decreases entries@.len() - k,
        {
            v.push(entries[k].is_directory);
            proof {
                assert(v@ =~= entry_dirs(entries@).take(k + 1));
            }
            k = k + 1;
        }
        proof {
            assert(entry_dirs(entries@).take(k as int) =~= entry_dirs(entries@));
        }
        v
    }

    /// The file-tree section, given the tag drawn for each entry.
    pub fn generate_file_tree(&self, entries: &Vec<FileEntry>, for_console: bool, tags: &Vec<String>) -> (r: String)
        ensures
            r@ == file_tree_text(entries@, *self.config, for_console, texts(tags@)),
    {
        let mut out = String::new();
        if !self.config.filter_status.is_empty() {
            push_banner(&mut out, "File Tree (filtered)");
        } else {
            push_banner(&mut out, "File Tree");
        }
        push_str(&mut out, ".\n");
        let tree = self.build_tree(entries);
        let dirs = Self::directory_flags(entries);
        let max_width = if for_console { 0 } else { calculate_max_path_width(&tree, "", true, &dirs) };
        let body = render_tree(&tree, "", true, Flavor::TwoWay, for_console, max_width, tags, &dirs);
        push_str(&mut out, body.as_str());
        proof {
            reveal_strlit("");
            assert(""@ =~= Seq::<char>::empty());
            assert(out@ =~= file_tree_text(entries@, *self.config, for_console, texts(tags@)));
        }
        out
    }

    fn push_counted_section(out: &mut String, n: usize, text: &String)
        ensures
            final(out)@ == old(out)@ + text_if(n > 0, text@),
    {
        let ghost o = out@;
        if n > 0 {
            push_str(out, text.as_str());
        }
        proof {
            assert(out@ =~= o + text_if(n > 0, text@));
        }
    }

    fn later_sections(&self, result: &ComparisonResult) -> (r: String)
        ensures
            r@ == later_sections(*result, *self.config),
    {
        let es = &result.entries;
        let mut out = self.generate_details(es, false);
        let (_p, np) = Self::permission_lines(es);
        let t1 = self.generate_permission_changes(es);
        Self::push_counted_section(&mut out, np, &t1);
        let (_e, ne) = Self::error_lines(es);
        let t2 = self.generate_errors(es);
        Self::push_counted_section(&mut out, ne, &t2);
        let (_s, ns) = Self::special_lines(es);
        let t3 = self.generate_special_files(es);
        Self::push_counted_section(&mut out, ns, &t3);
        let t4 = self.generate_patch_details(&result.patch_results);
        Self::push_counted_section(&mut out, result.patch_results.len(), &t4);
        let (_f, nf) = Self::copy_failed_lines(&result.copy_results);
        let t5 = self.generate_copy_failed(&result.copy_results);
        Self::push_counted_section(&mut out, nf, &t5);
        out
    }

    fn push_options_part(&self, out: &mut String)
        ensures
            final(out)@ == old(out)@ + text_if(two_way_has_options(*self.config), options_text(*self.config) + "\n"@),
    {
        let ghost o = out@;
        if self.has_options() {
            let t = self.generate_options();
            push_str(out, t.as_str());
            push_str(out, "\n");
        }
        proof {
            assert(out@ =~= o + text_if(two_way_has_options(*self.config), options_text(*self.config) + "\n"@));
        }
    }

    fn summary_head(&self, result: &ComparisonResult, for_console: bool, date: &str) -> (r: String)
        requires
            stats_sum(result.stats) <= usize::MAX,
        ensures
            r@ == header_text(*self.config, date@) + "\n"@ + text_if(
                two_way_has_options(*self.config),
                options_text(*self.config) + "\n"@,
            ) + statistics_text(result.stats, self.config.filter_status) + "\n"@,
    {
        let mut out = self.generate_header(date);
        push_str(&mut out, "\n");
        self.push_options_part(&mut out);
        let st = self.generate_statistics(&result.stats, for_console);
        push_str(&mut out, st.as_str());
        push_str(&mut out, "\n");
        out
    }

    fn push_tree_part(&self, out: &mut String, result: &ComparisonResult, for_console: bool, tags: &Vec<String>)
        ensures
            final(out)@ == old(out)@ + text_if(
                !(for_console && self.config.stats_only) && !self.config.no_tree,
                file_tree_text(result.entries@, *self.config, for_console, texts(tags@)) + "\n"@,
            ),
    {
        let ghost o = out@;
        if !(for_console && self.config.stats_only) && !self.config.no_tree {
            let t = self.generate_file_tree(&result.entries, for_console, tags);
            push_str(out, t.as_str());
            push_str(out, "\n");
        }
        proof {
            assert(out@ =~= o + text_if(
                !(for_console && self.config.stats_only) && !self.config.no_tree,
                file_tree_text(result.entries@, *self.config, for_console, texts(tags@)) + "\n"@,
            ));
        }
    }

    fn push_later_part(&self, out: &mut String, result: &ComparisonResult, for_console: bool)
        ensures
            final(out)@ == old(out)@ + text_if(
                !(for_console && self.config.stats_only) && !self.config.no_details,
                later_sections(*result, *self.config),
            ),
    {
        let ghost o = out@;
        if !(for_console && self.config.stats_only) && !self.config.no_details {
            let later = self.later_sections(result);
            push_str(out, later.as_str());
        }
        proof {
            assert(out@ =~= o + text_if(
                !(for_console && self.config.stats_only) && !self.config.no_details,
                later_sections(*result, *self.config),
            ));
        }
    }

    /// The whole summary, for the console or the file, with the date of
    /// the run and the tag drawn for each entry as given.
    pub fn generate_summary(&self, result: &ComparisonResult, for_console: bool, date: &str, tags: &Vec<String>) -> (r: String)
        requires
            stats_sum(result.stats) <= usize::MAX,
        ensures
            r@ == summary_text(*self.config, *result, for_console, date@, texts(tags@)),
    {
        let mut out = self.summary_head(result, for_console, date);
        if !result.stats.has_differences() {
            push_str(&mut out, "No differences found.\n");
            return out;
        }
        self.push_tree_part(&mut out, result, for_console, tags);
        self.push_later_part(&mut out, result, for_console);
        out
    }

    /// What the summary run prints and saves: the console summary (tags
    /// coloured when colours are on), and the summary file's path and plain
    /// text when `--summary` is given.
    pub fn write(&self, result: &ComparisonResult, date: &str) -> (r: SummaryOutput)
        requires
            stats_sum(result.stats) <= usize::MAX,
        ensures
            exists|t: Seq<Seq<char>>|
                tags_ok(t, result.entries@, self.use_color) && r.console@ == summary_text(
                    *self.config,
                    *result,
                    true,
                    date@,
                    t,
                ),
            match self.config.summary {
                Some(p) => r.file matches Some(f) && f.0@ == p@ && f.1@ == summary_text(
                    *self.config,
                    *result,
                    false,
                    date@,
                    plain_tags(result.entries@),
                ),
                None => r.file is None,
            },
    {
        let console_tags = self.entry_tags(&result.entries, true);
        let console = self.generate_summary(result, true, date, &console_tags);
        let file = match &self.config.summary {
            Some(p) => {
                let file_tags = self.entry_tags(&result.entries, false);
                proof {
                    assert(texts(file_tags@) =~= plain_tags(result.entries@));
                }
                Some((p.clone(), self.generate_summary(result, false, date, &file_tags)))
            },
            None => None,
        };
        SummaryOutput { console, file }
    }
}
} // verus!
