//! The contents of a report worksheet as plain values: cells with their
//! style, column widths and row groups. Writing them into a workbook file
//! is left to the caller.
use vstd::prelude::*;

use crate::text::str_equal;

verus! {

/// The colour family of a file-tree or detail cell.
#[derive(Debug, Clone, Copy, PartialEq, Eq, Structural)]
pub enum Tone {
    Neutral,
    Added,
    Modified,
    Deleted,
    Symlink,
    Unchanged,
    OursOnly,
    TheirsOnly,
    BothSame,
    Conflict,
    AddedThree,
    DeletedThree,
}

/// The font colour (RGB) of a tone; none for the neutral tone.
pub open spec fn tone_rgb(t: Tone) -> Option<u32> {
    match t {
        Tone::Neutral => None,
        Tone::Added | Tone::OursOnly => Some(0x008000u32),
        Tone::Modified | Tone::TheirsOnly => Some(0x0066CCu32),
        Tone::Deleted | Tone::Conflict => Some(0xCC0000u32),
        Tone::Symlink => Some(0x9933FFu32),
        Tone::Unchanged => Some(0x808080u32),
        Tone::BothSame => Some(0x00B0F0u32),
        Tone::AddedThree => Some(0x92D050u32),
        Tone::DeletedThree => Some(0xFFC7CEu32),
    }
}

/// The font colour of a tone: green for added and ours-only, blue for
/// modified and theirs-only, red for deleted and conflicts, purple for
/// links, grey for unchanged, light blue for both-same, light green for
/// three-way additions, pink for three-way deletions.
pub fn tone_color(t: Tone) -> (r: Option<u32>)
    ensures
        r == tone_rgb(t),
{
    match t {
        Tone::Neutral => None,
        Tone::Added | Tone::OursOnly => Some(0x008000),
        Tone::Modified | Tone::TheirsOnly => Some(0x0066CC),
        Tone::Deleted | Tone::Conflict => Some(0xCC0000),
        Tone::Symlink => Some(0x9933FF),
        Tone::Unchanged => Some(0x808080),
        Tone::BothSame => Some(0x00B0F0),
        Tone::AddedThree => Some(0x92D050),
        Tone::DeletedThree => Some(0xFFC7CE),
    }
}

/// How a cell is formatted.
#[derive(Debug, Clone, Copy, PartialEq, Eq, Structural)]
pub enum CellStyle {
    /// No format.
    Plain,
    /// The sheet title: bold, large, blue.
    Title,
    /// A column or section header: bold, white on blue, bordered.
    Header,
    /// A header without border (three-way sheets).
    HeaderPlain,
    /// A bold label with a border.
    Label,
    /// A bold label without border.
    LabelPlain,
    /// A bordered value.
    Value,
    /// A bordered number with thousands separators.
    Number,
    /// A section header of the details sheet.
    Section,
    /// A monospaced file-tree cell of the given tone, with a thick bottom
    /// border when it closes a top-level directory.
    Tree(Tone, bool),
    /// A bordered detail cell of the given tone.
    Detail(Tone),
    /// Red text of the conflicts sheet.
    ConflictText,
}

/// One cell: its position, its text (or number) and its style.
#[derive(Debug, Clone)]
pub struct Cell {
    pub row: u32,
    pub col: u16,
    pub text: String,
    pub number: Option<u64>,
    pub style: CellStyle,
}

/// A cell as a mathematical value.
pub type CellView = (u32, u16, Seq<char>, Option<u64>, CellStyle);

impl View for Cell {
    type V = CellView;

    open spec fn view(&self) -> CellView {
        (self.row, self.col, self.text@, self.number, self.style)
    }
}

/// The cells of a sheet as mathematical values, in writing order.
pub open spec fn cell_views(cells: Seq<Cell>) -> Seq<CellView> {
    cells.map_values(|c: Cell| c@)
}

/// A text cell.
pub open spec fn text_cell(row: u32, col: u16, text: Seq<char>, style: CellStyle) -> CellView {
    (row, col, text, None, style)
}

/// A number cell.
pub open spec fn number_cell(row: u32, col: u16, n: u64, style: CellStyle) -> CellView {
    (row, col, Seq::empty(), Some(n), style)
}

/// A worksheet: its name, its cells in writing order, its column widths
/// (column, width in characters), the row ranges grouped for folding, and
/// rows formatted as a whole.
#[derive(Debug, Clone)]
pub struct Sheet {
    pub name: String,
    pub cells: Vec<Cell>,
    pub column_widths: Vec<(u16, u32)>,
    pub row_groups: Vec<(u32, u32)>,
    pub row_styles: Vec<(u32, CellStyle)>,
}

/// Appends a text cell.
pub fn push_text(cells: &mut Vec<Cell>, row: u32, col: u16, text: &str, style: CellStyle)
    ensures
        cell_views(final(cells)@) == cell_views(old(cells)@).push(text_cell(row, col, text@, style)),
{
    let ghost before = cells@;
    cells.push(Cell { row, col, text: text.to_owned(), number: None, style });
    proof {
        assert(cell_views(cells@) =~= cell_views(before).push(text_cell(row, col, text@, style)));
    }
}

/// Appends a number cell.
pub fn push_number(cells: &mut Vec<Cell>, row: u32, col: u16, n: u64, style: CellStyle)
    ensures
        cell_views(final(cells)@) == cell_views(old(cells)@).push(number_cell(row, col, n, style)),
{
    let ghost before = cells@;
    cells.push(Cell { row, col, text: String::new(), number: Some(n), style });
    proof {
        assert(cell_views(cells@) =~= cell_views(before).push(number_cell(row, col, n, style)));
    }
}

/// The row ranges folded at a level: the maximal runs of consecutive rows
/// whose depth is at least the level. Rows are numbered from 1, below the
/// header row. Built left to right: `open` is the first row of the run in
/// progress, if any.
pub open spec fn fold_groups(depths: Seq<usize>, level: usize) -> (Seq<(u32, u32)>, Option<u32>)
    decreases depths.len(),
{
    if depths.len() == 0 {
        (Seq::empty(), None)
    } else {
        let (done, open) = fold_groups(depths.drop_last(), level);
        let row = depths.len() as u32;
        if depths.last() >= level {
            (done, if open is Some { open } else { Some(row) })
        } else {
            match open {
                Some(start) => (if row > start { done.push((start, (row - 1) as u32)) } else { done }, None),
                None => (done, None),
            }
        }
    }
}

/// The folded row ranges, the run still open at the end closed on the last
/// row.
pub open spec fn row_groups_for(depths: Seq<usize>, level: usize) -> Seq<(u32, u32)> {
    let (done, open) = fold_groups(depths, level);
    match open {
        Some(start) => if depths.len() as u32 >= start { done.push((start, depths.len() as u32)) } else { done },
        None => done,
    }
}

/// The row ranges to group for a fold level, from the depth of each row.
pub fn apply_row_grouping_expanded(depths: &Vec<usize>, fold_level: usize) -> (r: Vec<(u32, u32)>)
    ensures
        r@ == row_groups_for(depths@, fold_level),
{
    let mut groups: Vec<(u32, u32)> = Vec::new();
    let mut open: Option<u32> = None;
    let mut idx: usize = 0;
    while idx < depths.len()
        invariant
            idx <= depths@.len(),
            (groups@, open) == fold_groups(depths@.take(idx as int), fold_level),
        decreases depths@.len() - idx,
    {
        let row = (idx + 1) as u32;
        proof {
            assert(depths@.take(idx + 1).drop_last() =~= depths@.take(idx as int));
        }
        if depths[idx] >= fold_level {
            if open.is_none() {
                open = Some(row);
            }
        } else {
            if let Some(start) = open {
                if row > start {
                    groups.push((start, row - 1));
                }
            }
            open = None;
        }
        idx = idx + 1;
    }
    proof {
        assert(depths@.take(idx as int) =~= depths@);
    }
    if let Some(start) = open {
        let last_row = depths.len() as u32;
        if last_row >= start {
            groups.push((start, last_row));
        }
    }
    groups
}

/// Whether two rows' first-level directories differ, or the row is the last:
/// the rows that close a top-level block get a thick bottom border.
pub open spec fn is_boundary(first_levels: Seq<Seq<char>>, i: int) -> bool {
    i + 1 >= first_levels.len() || first_levels[i] != first_levels[i + 1]
}

/// For each row, whether it closes a block of rows with the same first-level
/// directory (the last row always does).
pub fn calculate_boundary_rows(first_levels: &Vec<String>) -> (r: Vec<bool>)
    ensures
        r@.len() == first_levels@.len(),
        forall|i: int| 0 <= i < r@.len() ==> r@[i] == is_boundary(first_levels@.map_values(|s: String| s@), i),
{
    let ghost fl = first_levels@.map_values(|s: String| s@);
    let mut r: Vec<bool> = Vec::new();
    let n = first_levels.len();
    let mut i: usize = 0;
    while i < n
        invariant
            i <= n,
            n == first_levels@.len(),
            fl == first_levels@.map_values(|s: String| s@),
            r@.len() == i,
            forall|k: int| 0 <= k < i ==> r@[k] == is_boundary(fl, k),
        decreases n - i,
    {
        let b = if i + 1 >= n {
            true
        } else {
            !str_equal(first_levels[i].as_str(), first_levels[i + 1].as_str())
        };
        proof {
            if i + 1 < n {
                assert(fl[i as int] == first_levels@[i as int]@);
                assert(fl[i + 1] == first_levels@[i + 1]@);
            }
        }
        r.push(b);
        i = i + 1;
    }
    r
}

} // verus!
