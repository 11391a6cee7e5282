//! The file-tree sheet's row layout: each entry on a row of its own, with
//! a row for each directory above it the first time that directory is met,
//! and cells left blank where they repeat the row above.
use vstd::prelude::*;

use crate::sheet::{
    apply_row_grouping_expanded, Cell, calculate_boundary_rows, cell_views, is_boundary, push_text, row_groups_for, text_cell,
    CellStyle, CellView, Sheet, Tone,
};
use crate::text::{contains_text, join, prefix_of, push_str, same_prefix, texts};

verus! {

/// An entry to lay out: its path components, whether it is a directory, its
/// status text and its colour.
#[derive(Debug, Clone)]
pub struct TreeItem {
    pub components: Vec<String>,
    pub is_directory: bool,
    pub status: String,
    pub tone: Tone,
}

/// An entry as a mathematical value.
pub type ItemView = (Seq<Seq<char>>, bool, Seq<char>, Tone);

impl View for TreeItem {
    type V = ItemView;

    open spec fn view(&self) -> ItemView {
        (texts(self.components@), self.is_directory, self.status@, self.tone)
    }
}

/// One row of the tree: its depth, whether it is an entry (not a directory
/// row above one), its first-level directory, the texts of its path cells
/// (one per level down to its own), and its status text and colour.
#[derive(Debug, Clone)]
pub struct LayoutRow {
    pub depth: usize,
    pub is_file: bool,
    pub first_level: String,
    pub labels: Vec<String>,
    pub status: String,
    pub tone: Tone,
}

/// A row as a mathematical value.
pub type RowView = (nat, bool, Seq<char>, Seq<Seq<char>>, Seq<char>, Tone);

impl View for LayoutRow {
    type V = RowView;

    open spec fn view(&self) -> RowView {
        (self.depth as nat, self.is_file, self.first_level@, texts(self.labels@), self.status@, self.tone)
    }
}

/// The rows as mathematical values.
pub open spec fn rows_view(rows: Seq<LayoutRow>) -> Seq<RowView> {
    rows.map_values(|r: LayoutRow| r@)
}

/// The entries as mathematical values.
pub open spec fn items_view(items: Seq<TreeItem>) -> Seq<ItemView> {
    items.map_values(|i: TreeItem| i@)
}

/// The path of the directory at level `i` of a component list: its first
/// `i + 1` components joined with `/`.
pub open spec fn dir_key(c: Seq<Seq<char>>, i: int) -> Seq<char> {
    join(c.take(i + 1), "/"@)
}

/// The first component, or nothing.
pub open spec fn first_of(c: Seq<Seq<char>>) -> Seq<char> {
    if c.len() > 0 { c[0] } else { Seq::empty() }
}

/// A cell at level `i` repeats the row above when the row above reaches that
/// level along the same path.
pub open spec fn keeps_cell(c: Seq<Seq<char>>, prev: Seq<Seq<char>>, i: int) -> bool {
    i < prev.len() && c.take(i + 1) == prev.take(i + 1)
}

/// The text shown at level `i`: blank where it repeats the row above.
pub open spec fn shown(c: Seq<Seq<char>>, prev: Seq<Seq<char>>, i: int, label: Seq<char>) -> Seq<char> {
    if keeps_cell(c, prev, i) { Seq::empty() } else { label }
}

/// The row of the directory at level `i` above an entry.
pub open spec fn dir_row(c: Seq<Seq<char>>, prev: Seq<Seq<char>>, i: int) -> RowView {
    (
        (i + 1) as nat,
        false,
        first_of(c),
        Seq::new((i + 1) as nat, |k: int| if k < i { Seq::empty() } else { shown(c, prev, i, c[i] + "/"@) }),
        Seq::empty(),
        Tone::Neutral,
    )
}

/// The text of level `k` of an entry's path: directories end in `/`.
pub open spec fn entry_label(c: Seq<Seq<char>>, k: int, is_dir: bool) -> Seq<char> {
    if k < c.len() - 1 || is_dir { c[k] + "/"@ } else { c[k] }
}

/// The row of an entry.
pub open spec fn file_row(item: ItemView, prev: Seq<Seq<char>>) -> RowView {
    let c = item.0;
    (c.len(), true, first_of(c), Seq::new(c.len(), |k: int| shown(c, prev, k, entry_label(c, k, item.1))), item.2, item.3)
}

/// The directory rows above an entry, from level `i` down: a row for each
/// directory not written yet. Returns the rows, the directories written and
/// the last row's path.
pub open spec fn dir_rows(c: Seq<Seq<char>>, w: Seq<Seq<char>>, prev: Seq<Seq<char>>, i: int) -> (
    Seq<RowView>,
    Seq<Seq<char>>,
    Seq<Seq<char>>,
)
    decreases c.len() - i,
{
    if i < 0 || i + 1 >= c.len() {
        (Seq::empty(), w, prev)
    } else if w.contains(dir_key(c, i)) {
        dir_rows(c, w, prev, i + 1)
    } else {
        let (rest, w2, p2) = dir_rows(c, w.push(dir_key(c, i)), c.take(i + 1), i + 1);
        (seq![dir_row(c, prev, i)] + rest, w2, p2)
    }
}

/// The rows of one entry: the directory rows above it, then its own row; its
/// parent directory counts as written afterwards.
pub open spec fn entry_rows(item: ItemView, w: Seq<Seq<char>>, prev: Seq<Seq<char>>) -> (
    Seq<RowView>,
    Seq<Seq<char>>,
    Seq<Seq<char>>,
) {
    let c = item.0;
    let (dirs, w1, p1) = dir_rows(c, w, prev, 0);
    let w2 = if c.len() > 1 { w1.push(dir_key(c, c.len() - 2)) } else { w1 };
    (dirs.push(file_row(item, p1)), w2, c)
}

/// The rows of all entries, in order.
pub open spec fn layout(items: Seq<ItemView>) -> (Seq<RowView>, Seq<Seq<char>>, Seq<Seq<char>>)
    decreases items.len(),
{
    if items.len() == 0 {
        (Seq::empty(), Seq::empty(), Seq::empty())
    } else {
        let (r, w, p) = layout(items.drop_last());
        let (r2, w2, p2) = entry_rows(items.last(), w, p);
        (r + r2, w2, p2)
    }
}

/// The entry rows among rows (not the directory rows above entries), in
/// order.
pub open spec fn entry_rows_of(rows: Seq<RowView>) -> Seq<RowView>
    decreases rows.len(),
{
    if rows.len() == 0 {
        Seq::empty()
    } else if rows.last().1 {
        entry_rows_of(rows.drop_last()).push(rows.last())
    } else {
        entry_rows_of(rows.drop_last())
    }
}

proof fn lemma_entry_rows_concat(a: Seq<RowView>, b: Seq<RowView>)
    ensures
        entry_rows_of(a + b) == entry_rows_of(a) + entry_rows_of(b),
    decreases b.len(),
{
    if b.len() == 0 {
        assert(a + b =~= a);
        assert(entry_rows_of(a) + entry_rows_of(b) =~= entry_rows_of(a));
    } else {
        assert((a + b).drop_last() =~= a + b.drop_last());
        assert((a + b).last() == b.last());
        lemma_entry_rows_concat(a, b.drop_last());
        if b.last().1 {
            assert(entry_rows_of(a) + entry_rows_of(b) =~= (entry_rows_of(a) + entry_rows_of(b.drop_last())).push(b.last()));
        }
    }
}

proof fn lemma_dir_rows_no_entries(c: Seq<Seq<char>>, w: Seq<Seq<char>>, prev: Seq<Seq<char>>, i: int)
    ensures
        entry_rows_of(dir_rows(c, w, prev, i).0) == Seq::<RowView>::empty(),
    decreases c.len() - i,
{
    if i < 0 || i + 1 >= c.len() {
    } else if w.contains(dir_key(c, i)) {
        lemma_dir_rows_no_entries(c, w, prev, i + 1);
    } else {
        let (rest, w2, p2) = dir_rows(c, w.push(dir_key(c, i)), c.take(i + 1), i + 1);
        lemma_dir_rows_no_entries(c, w.push(dir_key(c, i)), c.take(i + 1), i + 1);
        let one = seq![dir_row(c, prev, i)];
        lemma_entry_rows_concat(one, rest);
        assert(one.drop_last() =~= Seq::<RowView>::empty());
        assert(entry_rows_of(Seq::<RowView>::empty()) == Seq::<RowView>::empty());
        assert(!one.last().1);
        assert(entry_rows_of(one) =~= Seq::<RowView>::empty());
        assert(entry_rows_of(one + rest) =~= Seq::<RowView>::empty());
    }
}

/// Each entry gets exactly one entry row, in the order of the entries, at
/// the entry's depth and with its status and colour; every other row is a
/// directory row above an entry.
pub proof fn lemma_one_row_per_entry(items: Seq<ItemView>)
    ensures
        entry_rows_of(layout(items).0).len() == items.len(),
        forall|k: int|
            0 <= k < items.len() ==> {
                let row = #[trigger] entry_rows_of(layout(items).0)[k];
                &&& row.0 == items[k].0.len()
                &&& row.4 == items[k].2
                &&& row.5 == items[k].3
            },
    decreases items.len(),
{
    if items.len() > 0 {
        let init = items.drop_last();
        lemma_one_row_per_entry(init);
        let (r, w, p) = layout(init);
        let item = items.last();
        let c = item.0;
        let (dirs, w1, p1) = dir_rows(c, w, p, 0);
        let r2 = dirs.push(file_row(item, p1));
        lemma_dir_rows_no_entries(c, w, p, 0);
        assert(r2.drop_last() =~= dirs);
        assert(entry_rows_of(r2) =~= seq![file_row(item, p1)]);
        lemma_entry_rows_concat(r, r2);
        let all = entry_rows_of(layout(items).0);
        assert(all =~= entry_rows_of(r).push(file_row(item, p1)));
        assert forall|k: int| 0 <= k < items.len() implies {
            let row = #[trigger] all[k];
            &&& row.0 == items[k].0.len()
            &&& row.4 == items[k].2
            &&& row.5 == items[k].3
        } by {
            if k < init.len() {
                assert(all[k] == entry_rows_of(r)[k]);
                assert(items[k] == init[k]);
            }
        }
    }
}

fn blank_labels(n: usize) -> (r: Vec<String>)
    ensures
        texts(r@) == Seq::new(n as nat, |k: int| Seq::<char>::empty()),
{
    let mut r: Vec<String> = Vec::new();
    let mut k: usize = 0;
    while k < n
        invariant
            k <= n,
            texts(r@) == Seq::new(k as nat, |j: int| Seq::<char>::empty()),
        decreases n - k,
    {
        let ghost before = r@;
        let e = String::new();
        r.push(e);
        proof {
            assert(texts(r@) =~= texts(before).push(Seq::<char>::empty()));
            assert(texts(r@) =~= Seq::new((k + 1) as nat, |j: int| Seq::<char>::empty()));
        }
        k = k + 1;
    }
    r
}

fn keeps(c: &Vec<String>, prev: &Vec<String>, i: usize) -> (r: bool)
    requires
        i < c@.len(),
    ensures
        r == keeps_cell(texts(c@), texts(prev@), i as int),
{
    i < prev.len() && same_prefix(c, prev, i + 1)
}

fn make_dir_row(c: &Vec<String>, prev: &Vec<String>, i: usize) -> (r: LayoutRow)
    requires
        i + 1 < c@.len(),
    ensures
        r@ == dir_row(texts(c@), texts(prev@), i as int),
{
    let mut labels = blank_labels(i);
    let label = if keeps(c, prev, i) {
        String::new()
    } else {
        let mut l = c[i].clone();
        push_str(&mut l, "/");
        l
    };
    let ghost before = labels@;
    let ghost lv = label@;
    labels.push(label);
    proof {
        assert(texts(labels@) =~= texts(before).push(lv));
    }
    let n = c.len();
    assert(i + 1 < n);
    let r = LayoutRow {
        depth: i + 1,
        is_file: false,
        first_level: c[0].clone(),
        labels,
        status: String::new(),
        tone: Tone::Neutral,
    };
    proof {
        let cv = texts(c@);
        assert(cv[i as int] == c@[i as int]@);
        assert(texts(r.labels@) =~= dir_row(cv, texts(prev@), i as int).3);
    }
    r
}

fn make_file_row(item: &TreeItem, prev: &Vec<String>) -> (r: LayoutRow)
    ensures
        r@ == file_row(item@, texts(prev@)),
{
    let c = &item.components;
    let d = c.len();
    let ghost cv = texts(c@);
    let mut labels: Vec<String> = Vec::new();
    let mut k: usize = 0;
    while k < d
        invariant
            k <= d == c@.len(),
            cv == texts(c@),
            texts(labels@) == Seq::new(k as nat, |j: int| shown(cv, texts(prev@), j, entry_label(cv, j, item.is_directory))),
        decreases d - k,
    {
        let label = if keeps(c, prev, k) {
            String::new()
        } else if k + 1 < d || item.is_directory {
            let mut l = c[k].clone();
            push_str(&mut l, "/");
            l
        } else {
            c[k].clone()
        };
        let ghost before = labels@;
        let ghost lv = label@;
        labels.push(label);
        proof {
            assert(texts(labels@) =~= texts(before).push(lv));
            assert(cv[k as int] == c@[k as int]@);
            assert(texts(labels@) =~= Seq::new(
                (k + 1) as nat,
                |j: int| shown(cv, texts(prev@), j, entry_label(cv, j, item.is_directory)),
            ));
        }
        k = k + 1;
    }
    let first = if d > 0 { c[0].clone() } else { String::new() };
    proof {
        if d > 0 {
            assert(cv[0] == c@[0]@);
        }
    }
    LayoutRow {
        depth: d,
        is_file: true,
        first_level: first,
        labels,
        status: item.status.clone(),
        tone: item.tone,
    }
}

fn lay_out_entry(item: &TreeItem, written: &mut Vec<String>, prev: &mut Vec<String>, rows: &mut Vec<LayoutRow>)
    ensures
        ({
            let (r2, w2, p2) = entry_rows(item@, texts(old(written)@), texts(old(prev)@));
            &&& rows_view(final(rows)@) == rows_view(old(rows)@) + r2
            &&& texts(final(written)@) == w2
            &&& texts(final(prev)@) == p2
        }),
{
    let c = &item.components;
    let d = c.len();
    let ghost cv = texts(c@);
    let ghost w0 = texts(written@);
    let ghost p0 = texts(prev@);
    let ghost rows0 = rows_view(rows@);
    let ghost total = dir_rows(cv, w0, p0, 0);
    let mut key = String::new();
    let mut i: usize = 0;
    while i + 1 < d
        invariant
            i <= d,
            i < d || i == 0,
            d == c@.len(),
            cv == texts(c@),
            i > 0 ==> key@ == dir_key(cv, i - 1),
            rows_view(rows@) + dir_rows(cv, texts(written@), texts(prev@), i as int).0 == rows0 + total.0,
            dir_rows(cv, texts(written@), texts(prev@), i as int).1 == total.1,
            dir_rows(cv, texts(written@), texts(prev@), i as int).2 == total.2,
        decreases d - i,
    {
        if i == 0 {
            key = c[0].clone();
        } else {
            push_str(&mut key, "/");
            push_str(&mut key, c[i].as_str());
        }
        proof {
            reveal_strlit("/");
            assert(cv[i as int] == c@[i as int]@);
            if i == 0 {
                assert(cv.take(1) =~= seq![cv[0]]);
            } else {
                assert(cv.take(i + 1).drop_last() =~= cv.take(i as int));
            }
            assert(key@ == dir_key(cv, i as int));
        }
        let ghost wv = texts(written@);
        let ghost pv = texts(prev@);
        if !contains_text(written, key.as_str()) {
            let row = make_dir_row(c, prev, i);
            let ghost rb = rows@;
            rows.push(row);
            let ghost wb = written@;
            written.push(key.clone());
            *prev = prefix_of(c, i + 1);
            proof {
                assert(rows_view(rows@) =~= rows_view(rb).push(dir_row(cv, pv, i as int)));
                assert(texts(written@) =~= wv.push(dir_key(cv, i as int)));
                let rest = dir_rows(cv, wv.push(dir_key(cv, i as int)), cv.take(i + 1), i + 1);
                assert(dir_rows(cv, wv, pv, i as int).0 == seq![dir_row(cv, pv, i as int)] + rest.0);
                assert(rows_view(rows@) + rest.0 =~= rows_view(rb) + (seq![dir_row(cv, pv, i as int)] + rest.0));
            }
        }
        i = i + 1;
    }
    proof {
        assert(dir_rows(cv, texts(written@), texts(prev@), i as int).0 =~= Seq::<RowView>::empty());
        assert(rows_view(rows@) =~= rows0 + total.0);
    }
    let file = make_file_row(item, prev);
    let ghost rb = rows@;
    rows.push(file);
    proof {
        assert(rows_view(rows@) =~= rows_view(rb).push(file_row(item@, total.2)));
    }
    if d > 1 {
        let parent = key.clone();
        let ghost wb = texts(written@);
        written.push(parent);
        proof {
            assert(texts(written@) =~= wb.push(dir_key(cv, d - 2)));
        }
    }
    *prev = prefix_of(c, d);
    proof {
        assert(cv.take(d as int) =~= cv);
        assert(rows0 + total.0.push(file_row(item@, total.2)) =~= (rows0 + total.0).push(file_row(item@, total.2)));
    }
}

/// Lays out the rows of the file-tree sheet for the given entries.
pub fn layout_rows(items: &Vec<TreeItem>) -> (r: Vec<LayoutRow>)
    ensures
        rows_view(r@) == layout(items_view(items@)).0,
{
    let mut rows: Vec<LayoutRow> = Vec::new();
    let mut written: Vec<String> = Vec::new();
    let mut prev: Vec<String> = Vec::new();
    let mut k: usize = 0;
    while k < items.len()
        invariant
            k <= items@.len(),
            (rows_view(rows@), texts(written@), texts(prev@)) == layout(items_view(items@).take(k as int)),
        decreases items@.len() - k,
    {
        proof {
            assert(items_view(items@).take(k + 1).drop_last() =~= items_view(items@).take(k as int));
            assert(items_view(items@).take(k + 1).last() == items@[k as int]@);
        }
        lay_out_entry(&items[k], &mut written, &mut prev, &mut rows);
        k = k + 1;
    }
    proof {
        assert(items_view(items@).take(k as int) =~= items_view(items@));
    }
    rows
}


/// The cells of a laid-out row on sheet row `row`: its path cells, blank
/// cells up to the status column, then its status; all in the row's tone,
/// with a thick bottom border when the row closes a top-level block.
pub open spec fn row_cells(r: RowView, row: u32, max_depth: usize, bottom: bool) -> Seq<CellView> {
    let style = CellStyle::Tree(r.5, bottom);
    let n = r.3.len();
    let blanks: nat = if max_depth > n { (max_depth - n) as nat } else { 0 };
    Seq::new(n, |k: int| text_cell(row, k as u16, r.3[k], style))
        + Seq::new(blanks, |k: int| text_cell(row, (n + k) as u16, Seq::empty(), style))
        + seq![text_cell(row, max_depth as u16, r.4, style)]
}

/// The header row: `Path` over the first path column, blank headers over
/// the others, then `Status`.
pub open spec fn header_cells(max_depth: usize, style: CellStyle) -> Seq<CellView> {
    Seq::new(max_depth as nat, |k: int| text_cell(0, k as u16, if k == 0 { "Path"@ } else { Seq::empty() }, style))
        + seq![text_cell(0, max_depth as u16, "Status"@, style)]
}

/// The first-level directory of each row.
pub open spec fn first_levels(rows: Seq<RowView>) -> Seq<Seq<char>> {
    rows.map_values(|r: RowView| r.2)
}

/// The cells of the first `n` rows, the rows numbered from 1.
pub open spec fn body_cells(rows: Seq<RowView>, max_depth: usize, n: nat) -> Seq<CellView>
    decreases n,
{
    if n == 0 {
        Seq::empty()
    } else {
        body_cells(rows, max_depth, (n - 1) as nat) + row_cells(
            rows[n - 1],
            n as u32,
            max_depth,
            is_boundary(first_levels(rows), n - 1),
        )
    }
}

/// The deepest path among the entries.
pub open spec fn deepest(items: Seq<ItemView>) -> nat
    decreases items.len(),
{
    if items.len() == 0 {
        0
    } else {
        let d = deepest(items.drop_last());
        if items.last().0.len() > d { items.last().0.len() } else { d }
    }
}

/// The number of path columns: the deepest path, or 1 when there are no
/// entries.
pub open spec fn path_columns(items: Seq<ItemView>) -> nat {
    if items.len() == 0 { 1 } else { deepest(items) }
}

/// The column widths of the tree sheet: 20 for each path column, then the
/// status column's.
pub open spec fn tree_widths(max_depth: usize, status_width: u32) -> Seq<(u16, u32)> {
    Seq::new((max_depth + 1) as nat, |k: int| (k as u16, if k < max_depth { 20u32 } else { status_width }))
}

/// The text of the tree sheet when `--no-tree` is given.
pub open spec fn no_tree_cells() -> Seq<CellView> {
    seq![text_cell(0, 0, "(File Tree disabled by --no-tree option)"@, CellStyle::Plain)]
}

fn max_depth(items: &Vec<TreeItem>) -> (r: usize)
    ensures
        r == path_columns(items_view(items@)),
{
    let mut best: usize = 0;
    let mut k: usize = 0;
    while k < items.len()
        invariant
            k <= items@.len(),
            best == deepest(items_view(items@).take(k as int)),
        decreases items@.len() - k,
    {
        proof {
            assert(items_view(items@).take(k + 1).drop_last() =~= items_view(items@).take(k as int));
            assert(items_view(items@).take(k + 1).last() == items@[k as int]@);
        }
        let d = items[k].components.len();
        if d > best {
            best = d;
        }
        k = k + 1;
    }
    proof {
        assert(items_view(items@).take(k as int) =~= items_view(items@));
    }
    if items.len() == 0 { 1 } else { best }
}

fn push_row_cells(cells: &mut Vec<Cell>, r: &LayoutRow, row: u32, max_depth: usize, bottom: bool)
    ensures
        cell_views(final(cells)@) == cell_views(old(cells)@) + row_cells(r@, row, max_depth, bottom),
{
    let style = CellStyle::Tree(r.tone, bottom);
    let ghost base = cell_views(cells@);
    let ghost rv = r@;
    let n = r.labels.len();
    let mut k: usize = 0;
    while k < n
        invariant
            k <= n == r.labels@.len(),
            rv == r@,
            cell_views(cells@) == base + Seq::new(k as nat, |j: int| text_cell(row, j as u16, rv.3[j], style)),
        decreases n - k,
    {
        push_text(cells, row, k as u16, r.labels[k].as_str(), style);
        proof {
            assert(rv.3[k as int] == r.labels@[k as int]@);
            assert(cell_views(cells@) =~= base + Seq::new((k + 1) as nat, |j: int| text_cell(row, j as u16, rv.3[j], style)));
        }
        k = k + 1;
    }
    let ghost mid = cell_views(cells@);
    let mut col: usize = n;
    while col < max_depth
        invariant
            n <= col,
            n == rv.3.len(),
            col <= max_depth || col == n,
            cell_views(cells@) == mid + Seq::new((col - n) as nat, |j: int| text_cell(row, (n + j) as u16, Seq::empty(), style)),
        decreases max_depth - col,
    {
        push_text(cells, row, col as u16, "", style);
        proof {
            reveal_strlit("");
            assert(""@ =~= Seq::<char>::empty());
            assert(cell_views(cells@) =~= mid + Seq::new((col + 1 - n) as nat, |j: int| text_cell(row, (n + j) as u16, Seq::empty(), style)));
        }
        col = col + 1;
    }
    push_text(cells, row, max_depth as u16, r.status.as_str(), style);
    proof {
        let blanks: nat = if max_depth > n { (max_depth - n) as nat } else { 0 };
        assert((col - n) as nat == blanks);
        assert(cell_views(cells@) =~= base + row_cells(rv, row, max_depth, bottom));
    }
}

/// The sheet is the file-tree sheet of the given entries: with `--no-tree`
/// a single note; else the header row, the laid-out rows, the column widths,
/// and the folded row ranges when a positive fold level is given.
pub open spec fn tree_sheet_of(
    r: Sheet,
    items: Seq<ItemView>,
    no_tree: bool,
    fold_level: Option<usize>,
    header_style: CellStyle,
    status_width: u32,
) -> bool {
    &&& r.name@ == "File Tree"@
    &&& r.row_styles@.len() == 0
    &&& no_tree ==> cell_views(r.cells@) == no_tree_cells() && r.column_widths@.len() == 0 && r.row_groups@.len() == 0
    &&& !no_tree ==> ({
        let rows = layout(items).0;
        let md = path_columns(items);
        &&& cell_views(r.cells@) == header_cells(md as usize, header_style) + body_cells(rows, md as usize, rows.len())
        &&& r.column_widths@ == tree_widths(md as usize, status_width)
        &&& r.row_groups@ == (match fold_level {
            Some(l) => if l > 0 { row_groups_for(rows.map_values(|x: RowView| x.0 as usize), l) } else { Seq::empty() },
            None => Seq::empty(),
        })
    })
}

/// The file-tree sheet of the given entries (already filtered): a header
/// row, the laid-out rows, path columns 20 wide and the status column
/// `status_width` wide, and the rows folded at `fold_level` when it is
/// given and positive.
pub fn tree_sheet(
    items: &Vec<TreeItem>,
    no_tree: bool,
    fold_level: Option<usize>,
    header_style: CellStyle,
    status_width: u32,
) -> (r: Sheet)
    ensures
        tree_sheet_of(r, items_view(items@), no_tree, fold_level, header_style, status_width),
{
    let mut cells: Vec<Cell> = Vec::new();
    if no_tree {
        push_text(&mut cells, 0, 0, "(File Tree disabled by --no-tree option)", CellStyle::Plain);
        proof {
            assert(cell_views(cells@) =~= no_tree_cells());
        }
        return Sheet {
            name: "File Tree".to_owned(),
            cells,
            column_widths: Vec::new(),
            row_groups: Vec::new(),
            row_styles: Vec::new(),
        };
    }
    let md = max_depth(items);
    let mut col: usize = 0;
    while col < md
        invariant
            col <= md,
            cell_views(cells@) == Seq::new(col as nat, |k: int| text_cell(0, k as u16, if k == 0 { "Path"@ } else { Seq::empty() }, header_style)),
        decreases md - col,
    {
        let ghost before = cell_views(cells@);
        if col == 0 {
            push_text(&mut cells, 0, 0, "Path", header_style);
        } else {
            push_text(&mut cells, 0, col as u16, "", header_style);
        }
        proof {
            reveal_strlit("");
            assert(""@ =~= Seq::<char>::empty());
            assert(cell_views(cells@) =~= Seq::new((col + 1) as nat, |k: int| text_cell(0, k as u16, if k == 0 { "Path"@ } else { Seq::empty() }, header_style)));
        }
        col = col + 1;
    }
    push_text(&mut cells, 0, md as u16, "Status", header_style);
    proof {
        assert(cell_views(cells@) =~= header_cells(md, header_style));
    }
    let rows = layout_rows(items);
    let ghost rv = rows_view(rows@);
    let mut firsts: Vec<String> = Vec::new();
    let mut depths: Vec<usize> = Vec::new();
    let mut k: usize = 0;
    while k < rows.len()
        invariant
            k <= rows@.len(),
            rv == rows_view(rows@),
            texts(firsts@) == first_levels(rv).take(k as int),
            depths@ == rv.map_values(|x: RowView| x.0 as usize).take(k as int),
        decreases rows@.len() - k,
    {
        let ghost fb = firsts@;
        let f = rows[k].first_level.clone();
        firsts.push(f);
        depths.push(rows[k].depth);
        proof {
            assert(texts(firsts@) =~= texts(fb).push(rv[k as int].2));
            assert(texts(firsts@) =~= first_levels(rv).take(k + 1));
            assert(depths@ =~= rv.map_values(|x: RowView| x.0 as usize).take(k + 1));
        }
        k = k + 1;
    }
    proof {
        assert(texts(firsts@) =~= first_levels(rv));
        assert(depths@ =~= rv.map_values(|x: RowView| x.0 as usize));
    }
    let bottoms = calculate_boundary_rows(&firsts);
    let ghost head = cell_views(cells@);
    let mut i: usize = 0;
    while i < rows.len()
        invariant
            i <= rows@.len(),
            rv == rows_view(rows@),
            bottoms@.len() == rows@.len(),
            texts(firsts@) == first_levels(rv),
            forall|j: int| 0 <= j < bottoms@.len() ==> bottoms@[j] == is_boundary(texts(firsts@), j),
            cell_views(cells@) == head + body_cells(rv, md, i as nat),
        decreases rows@.len() - i,
    {
        push_row_cells(&mut cells, &rows[i], (i + 1) as u32, md, bottoms[i]);
        proof {
            assert(rv[i as int] == rows@[i as int]@);
            assert(head + body_cells(rv, md, (i + 1) as nat) =~= head + body_cells(rv, md, i as nat) + row_cells(
                rv[i as int],
                (i + 1) as u32,
                md,
                is_boundary(first_levels(rv), i as int),
            ));
        }
        i = i + 1;
    }
    let mut widths: Vec<(u16, u32)> = Vec::new();
    let mut c: usize = 0;
    while c < md
        invariant
            c <= md,
            widths@ == tree_widths(md, status_width).take(c as int),
        decreases md - c,
    {
        widths.push((c as u16, 20u32));
        proof {
            assert(widths@ =~= tree_widths(md, status_width).take(c + 1));
        }
        c = c + 1;
    }
    widths.push((md as u16, status_width));
    proof {
        assert(widths@ =~= tree_widths(md, status_width));
    }
    let groups = match fold_level {
        Some(l) => if l > 0 { apply_row_grouping_expanded(&depths, l) } else { Vec::new() },
        None => Vec::new(),
    };
    Sheet { name: "File Tree".to_owned(), cells, column_widths: widths, row_groups: groups, row_styles: Vec::new() }
}
} // verus!
