//! The list of search results: one row for each file with a match and,
//! below it, one row for each of its matches.

use vstd::prelude::*;
use crate::geometry::{Point, Size};
use crate::split::{
    ChildView, ContentView, LapceSplitNew, LeafContent, LeafKind, PaneContent, SplitDirection,
    SplitView,
};

verus! {

/// The extent that the input of a search panel asks for.
pub const SEARCH_INPUT_EXTENT: u32 = 45;

/// The identities of the parts of a search panel.
#[derive(Clone, Copy, Debug, PartialEq, Eq, Structural)]
pub struct SearchData {
    /// The part that has the focus.
    pub active: u64,
    /// The panel.
    pub widget_id: u64,
    /// The split container inside the panel.
    pub split_id: u64,
    /// The editor that holds the pattern.
    pub editor_view_id: u64,
}

/// The list of search results.
#[derive(Clone, Copy, Debug, PartialEq, Eq, Structural)]
pub struct SearchContent {
    /// Where the pointer was seen last.
    pub mouse_pos: Point,
}

/// A match in the list: the index of its file, and its index among the
/// matches of that file.
#[derive(Clone, Copy, Debug, PartialEq, Eq, Structural)]
pub struct MatchRef {
    pub file: usize,
    pub index: usize,
}

/// The row on which file `k` stands, where `counts` holds the number of
/// matches of each file: a file takes one row for itself and one for each
/// match.
pub open spec fn first_row(counts: Seq<usize>, k: int) -> int
    decreases k,
{
    if k <= 0 || k > counts.len() {
        0
    } else {
        first_row(counts, k - 1) + counts[k - 1] + 1
    }
}

/// The number of rows of the whole list.
pub open spec fn row_count(counts: Seq<usize>) -> int {
    first_row(counts, counts.len() as int)
}

/// The row on which match `m` of file `k` stands.
pub open spec fn match_row(counts: Seq<usize>, m: MatchRef) -> int {
    first_row(counts, m.file as int) + 1 + m.index
}

/// Whether `m` is a match of the list.
pub open spec fn is_match(counts: Seq<usize>, m: MatchRef) -> bool {
    m.file < counts.len() && m.index < counts[m.file as int]
}

/// The row at height `y` where each row is `line_height` high; the first
/// row above the list.
pub open spec fn row_at(y: i64, line_height: u32) -> int {
    if y < 0 {
        0
    } else {
        y as int / line_height as int
    }
}

/// The files stand further and further down.
pub proof fn lemma_first_row_monotonic(counts: Seq<usize>, j: int, k: int)
    requires
        0 <= j <= k <= counts.len(),
    ensures
        0 <= first_row(counts, j) <= first_row(counts, k),
        j < k ==> first_row(counts, j) + counts[j] + 1 <= first_row(counts, k),
    decreases k,
{
    if k > 0 {
        if j < k {
            lemma_first_row_monotonic(counts, j, k - 1);
        } else {
            lemma_first_row_monotonic(counts, j - 1, k - 1);
        }
    }
}

/// No two matches stand on the same row.
pub proof fn lemma_rows_differ(counts: Seq<usize>, a: MatchRef, b: MatchRef)
    requires
        is_match(counts, a),
        is_match(counts, b),
        match_row(counts, a) == match_row(counts, b),
    ensures
        a == b,
{
    if a.file < b.file {
        lemma_first_row_monotonic(counts, a.file as int, b.file as int);
    } else if b.file < a.file {
        lemma_first_row_monotonic(counts, b.file as int, a.file as int);
    }
}

/// The line of a document, counted from 0, that has the number
/// `line_number` in a list that counts from 1; `None` for 0, which numbers
/// no line, and for a number whose line does not fit into 32 bits.
pub fn zero_based_line(line_number: usize) -> (line: Option<u32>)
    ensures
        line == if 1 <= line_number <= u32::MAX {
            Some((line_number - 1) as u32)
        } else {
            None
        },
{
    if line_number == 0 || line_number > u32::MAX as usize {
        None
    } else {
        Some((line_number - 1) as u32)
    }
}

/// The match that stands on row `row`, where `counts` holds the number of
/// matches of each file in the order of the list; `None` where the row
/// holds a file's name or lies below the list.
pub fn locate_match(counts: &Vec<usize>, row: u64) -> (hit: Option<MatchRef>)
    ensures
        match hit {
            Some(m) => is_match(counts@, m) && match_row(counts@, m) == row,
            None => forall|m: MatchRef| is_match(counts@, m) ==> match_row(counts@, m) != row,
        },
{
    let n: usize = counts.len();
    let mut left: u64 = row;
    let mut k: usize = 0;
    while k < n
        invariant
            k <= n,
            n == counts@.len(),
            left <= row,
            row - left == first_row(counts@, k as int),
            forall|m: MatchRef|
                is_match(counts@, m) && m.file < k ==> match_row(counts@, m) != row,
        decreases n - k,
    {
        let count: u64 = counts[k] as u64;
        if left == 0 {
            proof {
                assert forall|m: MatchRef| is_match(counts@, m) implies match_row(counts@, m)
                    != row by {
                    if m.file >= k {
                        lemma_first_row_monotonic(counts@, k as int, m.file as int);
                    }
                }
            }
            return None;
        }
        if left <= count {
            return Some(MatchRef { file: k, index: (left - 1) as usize });
        }
        proof {
            assert forall|m: MatchRef| is_match(counts@, m) && m.file < k + 1 implies match_row(
                counts@,
                m,
            ) != row by {}
        }
        left = left - count - 1;
        k = k + 1;
    }
    proof {
        assert forall|m: MatchRef| is_match(counts@, m) implies match_row(counts@, m) != row by {}
    }
    None
}

/// The number of rows of the list, where `counts` holds the number of
/// matches of each file; `None` where it is beyond `usize::MAX`.
pub fn total_rows(counts: &Vec<usize>) -> (rows: Option<usize>)
    ensures
        match rows {
            Some(r) => r == row_count(counts@),
            None => row_count(counts@) > usize::MAX,
        },
{
    let n: usize = counts.len();
    let mut rows: usize = 0;
    let mut k: usize = 0;
    while k < n
        invariant
            k <= n,
            n == counts@.len(),
            rows == first_row(counts@, k as int),
        decreases n - k,
    {
        proof {
            lemma_first_row_monotonic(counts@, k as int + 1, n as int);
        }
        let count: usize = counts[k];
        if count == usize::MAX || rows > usize::MAX - (count + 1) {
            return None;
        }
        rows = rows + count + 1;
        k = k + 1;
    }
    Some(rows)
}

impl SearchData {
    /// The parts of a search panel with the given identities; the editor
    /// that holds the pattern has the focus.
    pub fn new(editor_view_id: u64, widget_id: u64, split_id: u64) -> (data: SearchData)
        ensures
            data == (SearchData { active: editor_view_id, widget_id, split_id, editor_view_id }),
    {
        SearchData { active: editor_view_id, widget_id, split_id, editor_view_id }
    }

    /// The container of a search panel as a mathematical value: the input
    /// on top, as high as it asks, and the list `content_id` in all that is
    /// left below.
    pub open spec fn panel_view(self, content_id: u64) -> SplitView {
        (SplitView {
            direction: SplitDirection::Horizontal,
            ..SplitView::empty(self.split_id)
        }).appended(
            ChildView::fresh(
                self.editor_view_id,
                ContentView::Leaf(LeafContent::spec_filling(LeafKind::Editor)),
                false,
                SEARCH_INPUT_EXTENT,
            ),
        ).appended(
            ChildView::fresh(
                content_id,
                ContentView::Leaf(LeafContent::spec_filling(LeafKind::Other)),
                true,
                1,
            ),
        )
    }

    /// The container of the search panel, with the list of results as the
    /// pane `content_id`.
    pub fn new_panel(&self, content_id: u64) -> (split: LapceSplitNew)
        ensures
            split@ == self.panel_view(content_id),
            split@.wf(),
    {
        let input = PaneContent::leaf(LeafContent::filling(LeafKind::Editor));
        let content = PaneContent::leaf(LeafContent::filling(LeafKind::Other));
        LapceSplitNew::new(self.split_id).horizontal().with_child(
            input,
            self.editor_view_id,
            SEARCH_INPUT_EXTENT,
        ).with_flex_child(content, content_id, 1)
    }
}

impl SearchContent {
    /// A list that has not seen the pointer yet.
    pub fn new() -> (content: SearchContent)
        ensures
            content.mouse_pos == Point::spec_zero(),
    {
        SearchContent { mouse_pos: Point::zero() }
    }

    /// Notes where the pointer is.
    pub fn mouse_move(&mut self, pos: Point)
        ensures
            final(self).mouse_pos == pos,
    {
        self.mouse_pos = pos;
    }

    /// The match that a click at `pos` jumps to, where each row is
    /// `line_height` high: the one on the row of the click. `None` where
    /// that row holds no match, and where rows have no height.
    pub fn mouse_down(&self, counts: &Vec<usize>, line_height: u32, pos: Point) -> (hit: Option<
        MatchRef,
    >)
        ensures
            line_height == 0 ==> hit.is_none(),
            line_height > 0 ==> match hit {
                Some(m) => is_match(counts@, m) && match_row(counts@, m) == row_at(
                    pos.y,
                    line_height,
                ),
                None => forall|m: MatchRef|
                    is_match(counts@, m) ==> match_row(counts@, m) != row_at(pos.y, line_height),
            },
    {
        if line_height == 0 {
            return None;
        }
        let row: u64 = if pos.y < 0 {
            0
        } else {
            (pos.y as u64) / (line_height as u64)
        };
        locate_match(counts, row)
    }

    /// The size of the list in `avail`: as wide as is available, and as
    /// high as all rows together. `None` where that is beyond `u32::MAX`.
    pub fn layout(&self, avail: Size, counts: &Vec<usize>, line_height: u32) -> (size: Option<Size>)
        ensures
            match size {
                Some(s) => s.width == avail.width && s.height == line_height * row_count(counts@),
                None => line_height * row_count(counts@) > u32::MAX,
            },
    {
        proof {
            lemma_first_row_monotonic(counts@, 0, counts@.len() as int);
        }
        let rows: usize = match total_rows(counts) {
            Some(rows) => rows,
            None => {
                if line_height == 0 {
                    assert(line_height * row_count(counts@) == 0) by (nonlinear_arith)
                        requires
                            line_height == 0,
                    ;
                    return Some(Size::new(avail.width, 0));
                }
                assert(line_height * row_count(counts@) > u32::MAX) by (nonlinear_arith)
                    requires
                        line_height >= 1,
                        row_count(counts@) > usize::MAX,
                        usize::MAX >= u32::MAX,
                ;
                return None;
            },
        };
        assert(line_height * rows <= 0xFFFF_FFFF * 0xFFFF_FFFF_FFFF_FFFF) by (nonlinear_arith)
            requires
                0 <= line_height <= 0xFFFF_FFFF,
                0 <= rows <= 0xFFFF_FFFF_FFFF_FFFF,
        ;
        let height: u128 = (line_height as u128) * (rows as u128);
        assert(height == line_height * row_count(counts@));
        if height > u32::MAX as u128 {
            None
        } else {
            Some(Size::new(avail.width, height as u32))
        }
    }
}

} // verus!
