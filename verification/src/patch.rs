//! Unified-diff patches of modified text files: which files get one, how a
//! patch is written from the line diff, and what each attempt reports.
use similar::{ChangeTag, TextDiff};
use vstd::prelude::*;

use crate::config::Config;
use crate::text::{decimal, push_decimal, push_str, texts};
use crate::types::{FileEntry, FileStatus, PatchResult};

verus! {

/// The kind of a line in a diff.
#[derive(Debug, Clone, Copy, PartialEq, Eq, Structural)]
pub enum ChangeKind {
    Equal,
    Delete,
    Insert,
}

/// One line of a diff operation: its kind and its text (with its line
/// ending, if it has one).
#[derive(Debug, Clone)]
pub struct LineChange {
    pub kind: ChangeKind,
    pub text: String,
}

/// One diff operation: the old and new line ranges it covers, and its
/// lines in order.
#[derive(Debug, Clone)]
pub struct DiffOpLines {
    pub old_start: usize,
    pub old_end: usize,
    pub new_start: usize,
    pub new_end: usize,
    pub changes: Vec<LineChange>,
}

/// A diff operation as a mathematical value.
pub type OpView = (usize, usize, usize, usize, Seq<(ChangeKind, Seq<char>)>);

impl View for DiffOpLines {
    type V = OpView;

    open spec fn view(&self) -> OpView {
        (
            self.old_start,
            self.old_end,
            self.new_start,
            self.new_end,
            self.changes@.map_values(|c: LineChange| (c.kind, c.text@)),
        )
    }
}

/// Groups of operations as mathematical values.
pub open spec fn groups_view(v: Seq<Vec<DiffOpLines>>) -> Seq<Seq<OpView>> {
    v.map_values(|g: Vec<DiffOpLines>| g@.map_values(|o: DiffOpLines| o@))
}

/// What `TextDiff::from_lines(old, new).grouped_ops(context)` of the
/// `similar` crate gives, each operation with the changes
/// `TextDiff::iter_changes` lists for it: the hunks of the line diff of the
/// two texts with `context` lines of context around each change.
pub uninterp spec fn line_diff_groups(old: Seq<char>, new: Seq<char>, context: usize) -> Seq<Seq<OpView>>;

/// The grouped line diff of two texts (`similar::TextDiff::from_lines`,
/// `grouped_ops` and `iter_changes`). The contract names the result: it is
/// `line_diff_groups` of the two texts and the context size, a function of
/// them alone.
#[verifier::external_body]
fn grouped_line_diff(old: &str, new: &str, context: usize) -> (r: Vec<Vec<DiffOpLines>>)
    ensures
        groups_view(r@) == line_diff_groups(old@, new@, context),
{
    let diff = TextDiff::from_lines(old, new);
    diff.grouped_ops(context).iter().map(|group| group.iter().map(|op| DiffOpLines {
        old_start: op.old_range().start,
        old_end: op.old_range().end,
        new_start: op.new_range().start,
        new_end: op.new_range().end,
        changes: diff.iter_changes(op).map(|c| LineChange {
            kind: match c.tag() {
                ChangeTag::Equal => ChangeKind::Equal,
                ChangeTag::Delete => ChangeKind::Delete,
                ChangeTag::Insert => ChangeKind::Insert,
            },
            text: c.value().to_owned(),
        }).collect(),
    }).collect()).collect()
}

/// `a - b`, or zero when `b` is larger.
pub open spec fn gap(a: usize, b: usize) -> nat {
    if a >= b { (a - b) as nat } else { 0 }
}

/// The header of a hunk: where it starts in the old and new text (counted
/// from 1) and how many lines it spans in each.
pub open spec fn hunk_header(g: Seq<OpView>) -> Seq<char> {
    header_of(g[0], g.last())
}

/// The header of a hunk from its first and last operations.
pub open spec fn header_of(first: OpView, last: OpView) -> Seq<char> {
    "@@ -"@ + decimal((first.0 + 1) as nat) + ","@ + decimal(gap(last.1, first.0)) + " +"@ + decimal((first.2 + 1) as nat) + ","@
        + decimal(gap(last.3, first.2)) + " @@\n"@
}

/// The number of lines of some changes that stand on one side of the diff:
/// equal and deleted lines on the old side, equal and inserted lines on the
/// new side.
pub open spec fn side_count(cs: Seq<(ChangeKind, Seq<char>)>, old_side: bool) -> nat
    decreases cs.len(),
{
    if cs.len() == 0 {
        0
    } else {
        side_count(cs.drop_last(), old_side) + if cs.last().0 == ChangeKind::Equal || cs.last().0 == (if old_side {
            ChangeKind::Delete
        } else {
            ChangeKind::Insert
        }) {
            1nat
        } else {
            0nat
        }
    }
}

/// The number of lines of a hunk on one side of the diff.
pub open spec fn hunk_count(g: Seq<OpView>, old_side: bool) -> nat
    decreases g.len(),
{
    if g.len() == 0 { 0 } else { hunk_count(g.drop_last(), old_side) + side_count(g.last().4, old_side) }
}

/// A hunk whose operations fit together: each operation covers as many old
/// lines as it has equal and deleted lines and as many new lines as it has
/// equal and inserted lines, and each starts where the one before ended, on
/// both sides.
pub open spec fn consistent_hunk(g: Seq<OpView>) -> bool {
    &&& g.len() > 0
    &&& forall|k: int|
        0 <= k < g.len() ==> (#[trigger] g[k]).0 <= g[k].1 && g[k].2 <= g[k].3 && side_count(g[k].4, true) == g[k].1
            - g[k].0 && side_count(g[k].4, false) == g[k].3 - g[k].2
    &&& forall|j: int, k: int| 0 <= j && k == j + 1 && k < g.len() ==> (#[trigger] g[k]).0 == (#[trigger] g[j]).1 && g[k].2 == g[j].3
}

proof fn lemma_hunk_count_span(g: Seq<OpView>, old_side: bool)
    requires
        consistent_hunk(g),
    ensures
        old_side ==> g[0].0 <= g.last().1 && hunk_count(g, old_side) == g.last().1 - g[0].0,
        !old_side ==> g[0].2 <= g.last().3 && hunk_count(g, old_side) == g.last().3 - g[0].2,
    decreases g.len(),
{
    let n = g.len() - 1;
    assert(g[n] == g.last());
    assert(g[n].0 <= g[n].1 && g[n].2 <= g[n].3);
    assert(hunk_count(g, old_side) == hunk_count(g.drop_last(), old_side) + side_count(g[n].4, old_side));
    if g.len() == 1 {
        assert(g.drop_last().len() == 0);
        assert(hunk_count(g.drop_last(), old_side) == 0);
        assert(g[0] == g[n]);
    } else {
        let h = g.drop_last();
        assert forall|k: int| 0 <= k < h.len() implies (#[trigger] h[k]).0 <= h[k].1 && h[k].2 <= h[k].3 && side_count(
            h[k].4,
            true,
        ) == h[k].1 - h[k].0 && side_count(h[k].4, false) == h[k].3 - h[k].2 by {
            assert(h[k] == g[k]);
        }
        assert forall|j: int, k: int| 0 <= j && k == j + 1 && k < h.len() implies (#[trigger] h[k]).0 == (#[trigger] h[j]).1
            && h[k].2 == h[j].3 by {
            assert(h[k] == g[k] && h[j] == g[j]);
        }
        lemma_hunk_count_span(h, old_side);
        assert(h[0] == g[0]);
        assert(h.last() == g[n - 1]);
        let m = n - 1;
        assert(g[m].0 <= g[m].1);
        assert(g[n].0 == g[m].1 && g[n].2 == g[m].3);
    }
}

/// The header of a hunk whose operations fit together tells where it starts
/// on each side (counted from 1) and how many of its lines stand on each
/// side: equal and deleted lines for the old side, equal and inserted lines
/// for the new side.
pub proof fn lemma_hunk_header_counts(g: Seq<OpView>)
    requires
        consistent_hunk(g),
    ensures
        hunk_header(g) == "@@ -"@ + decimal((g[0].0 + 1) as nat) + ","@ + decimal(hunk_count(g, true)) + " +"@
            + decimal((g[0].2 + 1) as nat) + ","@ + decimal(hunk_count(g, false)) + " @@\n"@,
{
    lemma_hunk_count_span(g, true);
    lemma_hunk_count_span(g, false);
}

/// A line of a hunk: `-`, `+` or a space, the text, and a line end when the
/// text has none.
pub open spec fn change_line(c: (ChangeKind, Seq<char>)) -> Seq<char> {
    let prefix = match c.0 {
        ChangeKind::Delete => "-"@,
        ChangeKind::Insert => "+"@,
        ChangeKind::Equal => " "@,
    };
    prefix + c.1 + (if c.1.len() > 0 && c.1.last() == '\n' { Seq::empty() } else { "\n"@ })
}

/// A line of a hunk starts with `-` for a line only in the old text, `+`
/// for a line only in the new text and a space for a line in both, followed
/// by the line's text.
pub proof fn lemma_change_line_marks(kind: ChangeKind, text: Seq<char>)
    ensures
        change_line((kind, text))[0] == (match kind {
            ChangeKind::Delete => '-',
            ChangeKind::Insert => '+',
            ChangeKind::Equal => ' ',
        }),
        change_line((kind, text)).subrange(1, text.len() + 1int) == text,
{
    reveal_strlit("-");
    reveal_strlit("+");
    reveal_strlit(" ");
    let prefix = match kind {
        ChangeKind::Delete => "-"@,
        ChangeKind::Insert => "+"@,
        ChangeKind::Equal => " "@,
    };
    let tail: Seq<char> = if text.len() > 0 && text.last() == '\n' { Seq::empty() } else { "\n"@ };
    assert(change_line((kind, text)) == prefix + text + tail);
    assert((prefix + text + tail).subrange(1, text.len() + 1int) =~= text);
}

/// The lines of some changes.
pub open spec fn change_lines(cs: Seq<(ChangeKind, Seq<char>)>) -> Seq<char>
    decreases cs.len(),
{
    if cs.len() == 0 { Seq::empty() } else { change_lines(cs.drop_last()) + change_line(cs.last()) }
}

/// The lines of the operations of a hunk.
pub open spec fn ops_lines(ops: Seq<OpView>) -> Seq<char>
    decreases ops.len(),
{
    if ops.len() == 0 { Seq::empty() } else { ops_lines(ops.drop_last()) + change_lines(ops.last().4) }
}

/// A hunk: its header and its lines (nothing for an empty group).
pub open spec fn hunk_text(g: Seq<OpView>) -> Seq<char> {
    if g.len() == 0 { Seq::empty() } else { hunk_header(g) + ops_lines(g) }
}

/// The hunks of some groups.
pub open spec fn hunks_text(gs: Seq<Seq<OpView>>) -> Seq<char>
    decreases gs.len(),
{
    if gs.len() == 0 { Seq::empty() } else { hunks_text(gs.drop_last()) + hunk_text(gs.last()) }
}

/// A unified diff: the file header for `path`, then the hunks.
pub open spec fn unified_text(path: Seq<char>, gs: Seq<Seq<OpView>>) -> Seq<char> {
    "--- a/"@ + path + "\n+++ b/"@ + path + "\n"@ + hunks_text(gs)
}

fn push_decimal_plus_one(out: &mut String, n: usize)
    ensures
        final(out)@ == old(out)@ + decimal((n + 1) as nat),
{
    let ghost o = out@;
    if n < usize::MAX {
        push_decimal(out, (n + 1) as u64);
    } else {
        push_decimal(out, ((n as u64) / 10) + (((n as u64) % 10) + 1) / 10);
        push_decimal(out, (((n as u64) % 10) + 1) % 10);
        proof {
            assert(decimal((n + 1) as nat) == decimal(((n + 1) / 10) as nat).push(crate::text::digit_char(((n + 1) % 10) as nat)));
            assert(((n as u64) / 10) + (((n as u64) % 10) + 1) / 10 == (n + 1) / 10);
            assert((((n as u64) % 10) + 1) % 10 == (n + 1) % 10);
            assert(decimal(((n + 1) % 10) as nat) == seq![crate::text::digit_char(((n + 1) % 10) as nat)]);
        }
    }
    proof {
        assert(out@ =~= o + decimal((n + 1) as nat));
    }
}

fn push_change_lines(out: &mut String, cs: &Vec<LineChange>)
    ensures
        final(out)@ == old(out)@ + change_lines(cs@.map_values(|c: LineChange| (c.kind, c.text@))),
{
    let ghost v = cs@.map_values(|c: LineChange| (c.kind, c.text@));
    let ghost o = out@;
    let mut i: usize = 0;
    while i < cs.len()
        invariant
            i <= cs@.len(),
            v == cs@.map_values(|c: LineChange| (c.kind, c.text@)),
            out@ == o + change_lines(v.take(i as int)),
        decreases cs@.len() - i,
    {
        let ghost o1 = out@;
        let c = &cs[i];
        match c.kind {
            ChangeKind::Delete => push_str(out, "-"),
            ChangeKind::Insert => push_str(out, "+"),
            ChangeKind::Equal => push_str(out, " "),
        }
        push_str(out, c.text.as_str());
        let chars = crate::text::chars_of(c.text.as_str());
        if !(chars.len() > 0 && chars[chars.len() - 1] == '\n') {
            push_str(out, "\n");
        }
        proof {
            assert(v.take(i + 1).drop_last() =~= v.take(i as int));
            assert(v.take(i + 1).last() == (c.kind, c.text@));
            assert(out@ =~= o1 + change_line((c.kind, c.text@)));
        }
        i = i + 1;
    }
    proof {
        assert(v.take(i as int) =~= v);
    }
}

fn push_header(out: &mut String, first: &DiffOpLines, last: &DiffOpLines)
    ensures
        final(out)@ == old(out)@ + header_of(first@, last@),
{
    let ghost o0 = out@;
    push_str(out, "@@ -");
    push_decimal_plus_one(out, first.old_start);
    push_str(out, ",");
    push_decimal(out, if last.old_end >= first.old_start { (last.old_end - first.old_start) as u64 } else { 0 });
    push_str(out, " +");
    push_decimal_plus_one(out, first.new_start);
    push_str(out, ",");
    push_decimal(out, if last.new_end >= first.new_start { (last.new_end - first.new_start) as u64 } else { 0 });
    push_str(out, " @@\n");
    proof {
        assert(out@ =~= o0 + header_of(first@, last@));
    }
}

/// Writes one hunk.
pub fn format_hunk(out: &mut String, g: &Vec<DiffOpLines>)
    ensures
        final(out)@ == old(out)@ + hunk_text(g@.map_values(|o: DiffOpLines| o@)),
{
    let ghost v = g@.map_values(|o: DiffOpLines| o@);
    let ghost o0 = out@;
    if g.len() == 0 {
        proof {
            assert(out@ =~= o0 + hunk_text(v));
        }
        return;
    }
    let first = &g[0];
    let last = &g[g.len() - 1];
    push_header(out, first, last);
    proof {
        assert(v[0] == first@);
        assert(v.last() == last@);
    }
    let ghost o1 = out@;
    let mut i: usize = 0;
    while i < g.len()
        invariant
            i <= g@.len(),
            v == g@.map_values(|o: DiffOpLines| o@),
            out@ == o1 + ops_lines(v.take(i as int)),
        decreases g@.len() - i,
    {
        push_change_lines(out, &g[i].changes);
        proof {
            assert(v.take(i + 1).drop_last() =~= v.take(i as int));
            assert(v.take(i + 1).last() == g@[i as int]@);
        }
        i = i + 1;
    }
    proof {
        assert(v.take(i as int) =~= v);
        assert(out@ =~= o0 + hunk_text(v));
    }
}

/// Writes a unified diff for `path` from the grouped line diff.
pub fn format_unified_diff(path: &str, groups: &Vec<Vec<DiffOpLines>>) -> (r: String)
    ensures
        r@ == unified_text(path@, groups_view(groups@)),
{
    let ghost gv = groups_view(groups@);
    let mut out = "--- a/".to_owned();
    push_str(&mut out, path);
    push_str(&mut out, "\n+++ b/");
    push_str(&mut out, path);
    push_str(&mut out, "\n");
    let ghost o1 = out@;
    let mut i: usize = 0;
    while i < groups.len()
        invariant
            i <= groups@.len(),
            gv == groups_view(groups@),
            out@ == o1 + hunks_text(gv.take(i as int)),
        decreases groups@.len() - i,
    {
        format_hunk(&mut out, &groups[i]);
        proof {
            assert(gv.take(i + 1).drop_last() =~= gv.take(i as int));
            assert(gv.take(i + 1).last() == groups@[i as int]@.map_values(|o: DiffOpLines| o@));
        }
        i = i + 1;
    }
    proof {
        assert(gv.take(i as int) =~= gv);
        assert(out@ =~= unified_text(path@, gv));
    }
    out
}

/// What a patch attempt reports for a path.
pub open spec fn result_of(r: PatchResult, path: Seq<char>, generated: bool, skipped: bool, error: Option<Seq<char>>) -> bool {
    &&& r.path@ == path
    &&& r.generated == generated
    &&& r.skipped_binary == skipped
    &&& match error {
        Some(m) => r.error_message matches Some(x) && x@ == m,
        None => r.error_message is None,
    }
}

/// Whether a file checked for binary content was found binary.
pub open spec fn found_binary(check: Result<bool, String>) -> bool {
    check matches Ok(b) && b
}

/// Writes and reports patches for the modified files.
pub struct PatchGenerator<'a> {
    pub config: &'a Config,
}

/// The entries that get a patch: modified files.
pub open spec fn patch_candidate(e: FileEntry) -> bool {
    e.status == FileStatus::Modified && !e.is_directory
}

/// Whether byte sequences are valid UTF-8, as `std::str::from_utf8` decides.
pub uninterp spec fn valid_utf8(bytes: Seq<u8>) -> bool;

/// Whether bytes are valid UTF-8 (`std::str::from_utf8(bytes).is_ok()`).
/// The contract names the result: it is `valid_utf8` of the bytes.
#[verifier::external_body]
fn is_utf8(bytes: &[u8]) -> (r: bool)
    ensures
        r == valid_utf8(bytes@),
{
    std::str::from_utf8(bytes).is_ok()
}

/// Whether the first block of a file looks binary: it holds a NUL byte or
/// is not valid UTF-8; an empty block is text.
pub open spec fn binary_block(bytes: Seq<u8>) -> bool {
    bytes.len() > 0 && (bytes.contains(0u8) || !valid_utf8(bytes))
}

/// Decides whether the first block of a file (up to 8 KiB as read) looks
/// binary.
pub fn is_binary_content(bytes: &[u8]) -> (r: bool)
    ensures
        r == binary_block(bytes@),
{
    if bytes.len() == 0 {
        return false;
    }
    let mut i: usize = 0;
    while i < bytes.len()
        invariant
            i <= bytes@.len(),
            forall|j: int| 0 <= j < i ==> bytes@[j] != 0u8,
        decreases bytes@.len() - i,
    {
        if bytes[i] == 0 {
            proof {
                assert(bytes@[i as int] == 0u8);
            }
            return true;
        }
        i = i + 1;
    }
    !is_utf8(bytes)
}

/// The text of a combined patch file: each patch followed by an empty line.
pub open spec fn combined_text(patches: Seq<Seq<char>>) -> Seq<char>
    decreases patches.len(),
{
    if patches.len() == 0 { Seq::empty() } else { combined_text(patches.drop_last()) + patches.last() + "\n"@ }
}

/// The path of a file below a directory, as `Path::join` forms it for a
/// relative name.
pub open spec fn joined(dir: Seq<char>, name: Seq<char>) -> Seq<char> {
    if dir.len() == 0 || dir.last() == '/' { dir + name } else { dir + "/"@ + name }
}

/// Joins a relative name below a directory, as `Path::join` does for a
/// relative name.
pub fn join_path(dir: &str, name: &str) -> (r: String)
    ensures
        r@ == joined(dir@, name@),
{
    let chars = crate::text::chars_of(dir);
    let mut p = dir.to_owned();
    if !(chars.len() == 0 || chars[chars.len() - 1] == '/') {
        push_str(&mut p, "/");
    }
    push_str(&mut p, name);
    proof {
        assert(p@ =~= joined(dir@, name@));
    }
    p
}

impl<'a> PatchGenerator<'a> {
    /// A generator for the given configuration.
    pub fn new(config: &'a Config) -> (r: PatchGenerator<'a>)
        ensures
            r.config == config,
    {
        PatchGenerator { config }
    }

    /// Whether patches are made at all: not in a dry run, and only when
    /// individual patches or a combined patch file are asked for.
    pub fn should_generate(&self) -> (r: bool)
        ensures
            r == (!self.config.dry_run && (self.config.patch || self.config.patch_file is Some)),
    {
        !self.config.dry_run && (self.config.patch || self.config.patch_file.is_some())
    }

    /// The positions of the entries that get a patch, in order.
    pub fn patch_candidates(&self, entries: &Vec<FileEntry>) -> (r: Vec<usize>)
        ensures
            forall|i: int| 0 <= i < r@.len() ==> r@[i] < entries@.len() && patch_candidate(entries@[r@[i] as int]),
            forall|k: int| 0 <= k < entries@.len() && patch_candidate(entries@[k]) ==> r@.contains(k as usize),
            forall|i: int, j: int| 0 <= i < j < r@.len() ==> r@[i] < r@[j],
    {
        let mut r: Vec<usize> = Vec::new();
        let mut k: usize = 0;
        while k < entries.len()
            invariant
                k <= entries@.len(),
                forall|i: int| 0 <= i < r@.len() ==> r@[i] < k && patch_candidate(entries@[r@[i] as int]),
                forall|j: int| 0 <= j < k && patch_candidate(entries@[j]) ==> r@.contains(j as usize),
                forall|i: int, j: int| 0 <= i < j < r@.len() ==> r@[i] < r@[j],
            decreases entries@.len() - k,
        {
            if entries[k].status == FileStatus::Modified && !entries[k].is_directory {
                let ghost before = r@;
                r.push(k);
                proof {
                    assert(r@[r@.len() - 1] == k);
                    assert forall|j: int| 0 <= j < k + 1 && patch_candidate(entries@[j]) implies r@.contains(j as usize) by {
                        if j < k {
                            assert(before.contains(j as usize));
                            let t = choose|t: int| 0 <= t < before.len() && before[t] == j as usize;
                            assert(r@[t] == j as usize);
                        } else {
                            assert(r@[r@.len() - 1] == j as usize);
                        }
                    }
                }
            }
            k = k + 1;
        }
        r
    }

    /// The unified diff of a file's two versions.
    pub fn create_unified_diff(&self, path: &str, old_content: &str, new_content: &str) -> (r: String)
        ensures
            r@ == unified_text(path@, line_diff_groups(old_content@, new_content@, 3)),
    {
        let groups = grouped_line_diff(old_content, new_content, 3);
        format_unified_diff(path, &groups)
    }

    /// The report of a file found binary in either version (the source is
    /// checked first; a failed check counts as text), or nothing.
    pub fn binary_skip(&self, path: &str, source_binary: &Result<bool, String>, target_binary: &Result<bool, String>) -> (r: Option<PatchResult>)
        ensures
            (found_binary(*source_binary) || found_binary(*target_binary)) ==> (r matches Some(x) && result_of(
                x,
                path@,
                false,
                true,
                None,
            )),
            !(found_binary(*source_binary) || found_binary(*target_binary)) ==> r is None,
    {
        let skip = match source_binary {
            Ok(b) => *b,
            Err(_) => false,
        } || match target_binary {
            Ok(b) => *b,
            Err(_) => false,
        };
        if skip {
            Some(PatchResult { path: path.to_owned(), generated: false, skipped_binary: true, error_message: None })
        } else {
            None
        }
    }

    /// The report of a file whose versions could not be read (the source
    /// first), or nothing.
    pub fn read_failure(&self, path: &str, source: &Result<String, String>, target: &Result<String, String>) -> (r: Option<PatchResult>)
        ensures
            source matches Err(e) ==> (r matches Some(x) && result_of(
                x,
                path@,
                false,
                false,
                Some("Failed to read source file: "@ + e@),
            )),
            source is Ok ==> (target matches Err(e) ==> (r matches Some(x) && result_of(
                x,
                path@,
                false,
                false,
                Some("Failed to read target file: "@ + e@),
            ))),
            source is Ok && target is Ok ==> r is None,
    {
        match source {
            Err(e) => {
                let mut m = "Failed to read source file: ".to_owned();
                push_str(&mut m, e.as_str());
                return Some(PatchResult { path: path.to_owned(), generated: false, skipped_binary: false, error_message: Some(m) });
            },
            Ok(_) => {},
        }
        match target {
            Err(e) => {
                let mut m = "Failed to read target file: ".to_owned();
                push_str(&mut m, e.as_str());
                Some(PatchResult { path: path.to_owned(), generated: false, skipped_binary: false, error_message: Some(m) })
            },
            Ok(_) => None,
        }
    }

    /// The path of the individual patch file of an entry: its relative path
    /// with `.patch` added, below the output directory.
    pub fn patch_file_path(&self, relative_path: &str) -> (r: String)
        ensures
            r@ == joined(self.config.output@, relative_path@ + ".patch"@),
    {
        let name = crate::text::cat2(relative_path, ".patch");
        join_path(self.config.output.as_str(), name.as_str())
    }

    /// The report of a patch made: generated, unless writing its individual
    /// file (when one was written) failed.
    pub fn written_result(&self, path: &str, write: &Option<Result<(), String>>) -> (r: PatchResult)
        ensures
            write matches Some(Err(e)) ==> result_of(r, path@, false, false, Some("Failed to write patch file: "@ + e@)),
            !(write matches Some(Err(_))) ==> result_of(r, path@, true, false, None),
    {
        match write {
            Some(Err(e)) => {
                let mut m = "Failed to write patch file: ".to_owned();
                push_str(&mut m, e.as_str());
                PatchResult { path: path.to_owned(), generated: false, skipped_binary: false, error_message: Some(m) }
            },
            _ => PatchResult { path: path.to_owned(), generated: true, skipped_binary: false, error_message: None },
        }
    }

    /// The contents of the combined patch file.
    pub fn write_combined_patch(&self, patches: &Vec<String>) -> (r: String)
        ensures
            r@ == combined_text(texts(patches@)),
    {
        let ghost v = texts(patches@);
        let mut out = String::new();
        let mut i: usize = 0;
        while i < patches.len()
            invariant
                i <= patches@.len(),
                v == texts(patches@),
                out@ == combined_text(v.take(i as int)),
            decreases patches@.len() - i,
        {
            push_str(&mut out, patches[i].as_str());
            push_str(&mut out, "\n");
            proof {
                assert(v.take(i + 1).drop_last() =~= v.take(i as int));
                assert(v.take(i + 1).last() == patches@[i as int]@);
            }
            i = i + 1;
        }
        proof {
            assert(v.take(i as int) =~= v);
        }
        out
    }
}

} // verus!
