//! The title bar, as far as it answers the pointer: a row of regions, each
//! of which runs a command when it is clicked.

use vstd::prelude::*;
use crate::geometry::{Point, Rect, Size};

verus! {

/// The height of the title bar.
pub const TITLE_HEIGHT: u32 = 28;

/// The space behind the text of a region.
pub const TITLE_PADDING: u32 = 15;

/// The space in front of the icon of a menu.
pub const ICON_GAP: u32 = 5;

/// The measured widths of the texts of the title bar.
#[derive(Clone, Copy, Debug, PartialEq, Eq, Structural)]
pub struct TitleTexts {
    /// The name of the remote host, where the workspace is remote.
    pub remote: Option<u32>,
    /// The name of the workspace folder.
    pub folder: u32,
    /// The name of the branch, where one is checked out.
    pub branch: Option<u32>,
}

/// The width of the region of the remote host in a bar of height `height`:
/// a square for the icon, 10 more, and room for the name of the host where
/// there is one.
pub open spec fn remote_width(height: u32, remote: Option<u32>) -> int {
    height + 10 + match remote {
        Some(text) => text + TITLE_PADDING - 5,
        None => 0,
    }
}

/// The width of a region that opens a menu in a bar of height `height`: a
/// gap, a square for the icon, the text, and the padding.
pub open spec fn menu_width(height: u32, text: u32) -> int {
    ICON_GAP + height + text + TITLE_PADDING
}

/// The widths of the regions of the title bar, from left to right: the
/// remote host, the workspace folder, and the branch where there is one.
pub open spec fn region_widths(height: u32, texts: TitleTexts) -> Seq<int> {
    let first = seq![remote_width(height, texts.remote), menu_width(height, texts.folder)];
    match texts.branch {
        Some(text) => first.push(menu_width(height, text)),
        None => first,
    }
}

/// Where region `k` starts: at `start`, behind the regions before it.
pub open spec fn region_start(start: u32, widths: Seq<int>, k: int) -> int
    decreases k,
{
    if k <= 0 || k > widths.len() {
        start as int
    } else {
        region_start(start, widths, k - 1) + widths[k - 1]
    }
}

/// Whether rectangle `rect` is region `k` of a bar of height `height`.
pub open spec fn is_region(rect: Rect, start: u32, height: u32, widths: Seq<int>, k: int) -> bool {
    &&& rect.origin.x == region_start(start, widths, k)
    &&& rect.origin.y == 0
    &&& rect.size.width == widths[k]
    &&& rect.size.height == height
}

/// The regions of a title bar of height `height` whose first region starts
/// at `start`, for texts of the given widths; `None` where a region is
/// wider than `u32::MAX`.
pub fn title_regions(start: u32, height: u32, texts: TitleTexts) -> (regions: Option<Vec<Rect>>)
    ensures
        match regions {
            Some(r) => {
                &&& r@.len() == region_widths(height, texts).len()
                &&& forall|k: int|
                    0 <= k < r@.len() ==> is_region(
                        #[trigger] r@[k],
                        start,
                        height,
                        region_widths(height, texts),
                        k,
                    )
            },
            None => exists|k: int|
                0 <= k < region_widths(height, texts).len() && #[trigger] region_widths(
                    height,
                    texts,
                )[k] > u32::MAX,
        },
{
    let ghost widths = region_widths(height, texts);
    let remote: u64 = height as u64 + 10 + match texts.remote {
        Some(text) => text as u64 + TITLE_PADDING as u64 - 5,
        None => 0,
    };
    let folder: u64 = ICON_GAP as u64 + height as u64 + texts.folder as u64 + TITLE_PADDING as u64;
    assert(remote == widths[0]);
    assert(folder == widths[1]);
    if remote > u32::MAX as u64 {
        return None;
    }
    if folder > u32::MAX as u64 {
        return None;
    }
    let mut regions: Vec<Rect> = Vec::new();
    let mut x: i64 = start as i64;
    regions.push(Rect::new(Point::new(x, 0), Size::new(remote as u32, height)));
    x = x + remote as i64;
    regions.push(Rect::new(Point::new(x, 0), Size::new(folder as u32, height)));
    x = x + folder as i64;
    proof {
        reveal_with_fuel(region_start, 4);
    }
    match texts.branch {
        Some(text) => {
            let branch: u64 = ICON_GAP as u64 + height as u64 + text as u64 + TITLE_PADDING as u64;
            assert(branch == widths[2]);
            if branch > u32::MAX as u64 {
                return None;
            }
            regions.push(Rect::new(Point::new(x, 0), Size::new(branch as u32, height)));
        },
        None => {},
    }
    Some(regions)
}

/// The title bar.
#[derive(Debug)]
pub struct Title {
    mouse_pos: Point,
    commands: Vec<Rect>,
}

/// The indices below `n` of the rectangles of `rects` that hold `p`, in
/// order.
pub open spec fn hits(rects: Seq<Rect>, p: Point, n: int) -> Seq<usize>
    decreases n,
{
    if n <= 0 || n > rects.len() {
        Seq::empty()
    } else if rects[n - 1].spec_contains(p) {
        hits(rects, p, n - 1).push((n - 1) as usize)
    } else {
        hits(rects, p, n - 1)
    }
}

/// Whether a rectangle of `rects` holds `p`.
pub open spec fn any_hit(rects: Seq<Rect>, p: Point) -> bool {
    exists|i: int| 0 <= i < rects.len() && (#[trigger] rects[i]).spec_contains(p)
}

impl Title {
    /// Where the pointer was seen last.
    pub closed spec fn pointer(&self) -> Point {
        self.mouse_pos
    }

    /// The regions that the last drawing left, in the order of their
    /// commands.
    pub closed spec fn regions(&self) -> Seq<Rect> {
        self.commands@
    }

    /// A title bar that was not drawn yet.
    pub fn new() -> (title: Title)
        ensures
            title.pointer() == Point::spec_zero(),
            title.regions() == Seq::<Rect>::empty(),
    {
        Title { mouse_pos: Point::zero(), commands: Vec::new() }
    }

    /// Notes the regions that a drawing produced.
    pub fn set_regions(&mut self, regions: Vec<Rect>)
        ensures
            final(self).regions() == regions@,
            final(self).pointer() == old(self).pointer(),
    {
        self.commands = regions;
    }

    /// Notes where the pointer is, and says whether it is over a region.
    pub fn mouse_move(&mut self, pos: Point) -> (over: bool)
        ensures
            final(self).pointer() == pos,
            final(self).regions() == old(self).regions(),
            over == any_hit(old(self).regions(), pos),
    {
        self.mouse_pos = pos;
        self.icon_hit_test(pos)
    }

    /// Whether `pos` lies in one of the regions.
    pub fn icon_hit_test(&self, pos: Point) -> (over: bool)
        ensures
            over == any_hit(self.regions(), pos),
    {
        let n: usize = self.commands.len();
        let mut i: usize = 0;
        while i < n
            invariant
                i <= n,
                n == self.commands@.len(),
                forall|j: int| 0 <= j < i ==> !(#[trigger] self.commands@[j]).spec_contains(pos),
            decreases n - i,
        {
            if self.commands[i].contains(pos) {
                return true;
            }
            i = i + 1;
        }
        false
    }

    /// The indices of the commands that a click at `pos` runs: those of
    /// all regions that hold `pos`, in order.
    pub fn mouse_down(&self, pos: Point) -> (run: Vec<usize>)
        ensures
            run@ == hits(self.regions(), pos, self.regions().len() as int),
    {
        let mut run: Vec<usize> = Vec::new();
        let n: usize = self.commands.len();
        let mut i: usize = 0;
        while i < n
            invariant
                i <= n,
                n == self.commands@.len(),
                run@ == hits(self.commands@, pos, i as int),
            decreases n - i,
        {
            if self.commands[i].contains(pos) {
                run.push(i);
            }
            i = i + 1;
        }
        run
    }

    /// The size of the title bar in `avail`: as wide as is available, and
    /// `TITLE_HEIGHT` high.
    pub fn layout(&self, avail: Size) -> (size: Size)
        ensures
            size == (Size { width: avail.width, height: TITLE_HEIGHT }),
    {
        Size::new(avail.width, TITLE_HEIGHT)
    }
}

} // verus!
