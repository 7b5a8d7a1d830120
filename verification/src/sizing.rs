//! The sizing of a split container, as mathematics.
//!
//! Along its main axis a container first measures its fixed panes, each in a
//! box of the extent that the pane asks for. What they leave of the
//! available extent is the budget of the flexible panes, shared by weight
//! (see [`crate::flex`]). Every pane is placed behind the pane before it, by
//! the extent that it measured, not by the one it was offered: a pane that
//! cannot shrink pushes the panes behind it. The container reports the sum
//! of the measured extents along the main axis, and the largest measured
//! extent across it.

use vstd::prelude::*;
use crate::empty_state::EnvView;
use crate::flex::{flex_extent, lemma_flex_extent_bounds, lemma_same_sizing, same_sizing};
use crate::geometry::{Point, Rect, Size};
use crate::split::{ChildView, ContentView, SplitDirection, SplitView};

verus! {

impl SplitDirection {
    /// The extent of `size` along the axis on which the panes follow each
    /// other.
    pub open spec fn main_of(self, size: Size) -> u32 {
        match self {
            SplitDirection::Vertical => size.width,
            SplitDirection::Horizontal => size.height,
        }
    }

    /// The extent of `size` across that axis.
    pub open spec fn cross_of(self, size: Size) -> u32 {
        match self {
            SplitDirection::Vertical => size.height,
            SplitDirection::Horizontal => size.width,
        }
    }

    /// The size with the given extents along and across the axis.
    pub open spec fn size_of(self, main: int, cross: int) -> Size {
        match self {
            SplitDirection::Vertical => Size { width: main as u32, height: cross as u32 },
            SplitDirection::Horizontal => Size { width: cross as u32, height: main as u32 },
        }
    }

    /// The point at `offset` along the axis, on the near edge.
    pub open spec fn point_at(self, offset: int) -> Point {
        match self {
            SplitDirection::Vertical => Point { x: offset as i64, y: 0 },
            SplitDirection::Horizontal => Point { x: 0, y: offset as i64 },
        }
    }
}

impl ContentView {
    /// The size that the content measures in the box `b`.
    pub open spec fn size_in(self, b: Size) -> Size
        decreases self, 0int, 0int,
    {
        match self {
            ContentView::Leaf(leaf) => leaf.measure_spec(b),
            ContentView::Nested(inner) => inner.measure(b),
        }
    }

    /// Whether the sums of a layout in the box `b` stay within `u32::MAX`,
    /// in every container inside.
    pub open spec fn fits_in(self, b: Size) -> bool
        decreases self, 0int,
    {
        match self {
            ContentView::Leaf(_) => true,
            ContentView::Nested(inner) => inner.fits(b),
        }
    }

    /// The content after a layout in the box `b`.
    pub open spec fn laid_out(self, b: Size, env: EnvView) -> ContentView
        decreases self, 0int,
    {
        match self {
            ContentView::Leaf(leaf) => ContentView::Leaf(leaf),
            ContentView::Nested(inner) => ContentView::Nested(Box::new(inner.laid_out(b, env))),
        }
    }
}

impl SplitView {
    /// The box in which pane `k` is measured as a fixed pane: the extent
    /// that it asks for along the axis, all that is available across.
    pub open spec fn fixed_box(self, avail: Size, k: int) -> Size {
        self.direction.size_of(
            self.children[k].params as int,
            self.direction.cross_of(avail) as int,
        )
    }

    /// The size that pane `k` measures as a fixed pane.
    pub open spec fn fixed_size(self, avail: Size, k: int) -> Size
        decreases self, 1int, 0int,
    {
        if 0 <= k < self.children.len() {
            self.children[k].content.size_in(self.fixed_box(avail, k))
        } else {
            Size::spec_zero()
        }
    }

    /// The extent that the fixed panes among the first `n` measure along the
    /// axis, in sum.
    pub open spec fn fixed_total(self, avail: Size, n: int) -> int
        decreases self, 2int, n,
    {
        if n <= 0 || n > self.children.len() {
            0
        } else {
            self.fixed_total(avail, n - 1) + if self.children[n - 1].flex {
                0
            } else {
                self.direction.main_of(self.fixed_size(avail, n - 1)) as int
            }
        }
    }

    /// What the fixed panes leave of the available extent; nothing where
    /// they take more than there is.
    pub open spec fn budget(self, avail: Size) -> int
        decreases self, 3int, 0int,
    {
        let left = self.direction.main_of(avail) - self.fixed_total(
            avail,
            self.children.len() as int,
        );
        if left < 0 {
            0
        } else {
            left
        }
    }

    /// The box in which pane `k` is measured.
    pub open spec fn child_box(self, avail: Size, k: int) -> Size
        decreases self, 4int, 0int,
    {
        if self.children[k].flex {
            self.direction.size_of(
                flex_extent(self.children, self.budget(avail), k),
                self.direction.cross_of(avail) as int,
            )
        } else {
            self.fixed_box(avail, k)
        }
    }

    /// The size that pane `k` measures.
    pub open spec fn child_size(self, avail: Size, k: int) -> Size
        decreases self, 5int, 0int,
    {
        if 0 <= k < self.children.len() {
            self.children[k].content.size_in(self.child_box(avail, k))
        } else {
            Size::spec_zero()
        }
    }

    /// Where pane `n` starts along the axis: the extents that the panes
    /// before it measure, in sum.
    pub open spec fn offset(self, avail: Size, n: int) -> int
        decreases self, 6int, n,
    {
        if n <= 0 || n > self.children.len() {
            0
        } else {
            self.offset(avail, n - 1) + self.direction.main_of(self.child_size(avail, n - 1))
        }
    }

    /// The largest extent across the axis that one of the first `n` panes
    /// measures.
    pub open spec fn cross_max(self, avail: Size, n: int) -> int
        decreases self, 6int, n,
    {
        if n <= 0 || n > self.children.len() {
            0
        } else {
            let before = self.cross_max(avail, n - 1);
            let here = self.direction.cross_of(self.child_size(avail, n - 1)) as int;
            if here > before {
                here
            } else {
                before
            }
        }
    }

    /// The size that the container reports where `avail` is available: all
    /// of it where the container is empty; else the sum of what its panes
    /// measure along the axis, and the most that one measures across.
    pub open spec fn measure(self, avail: Size) -> Size
        decreases self, 7int, 0int,
    {
        if self.children.len() == 0 {
            avail
        } else {
            self.direction.size_of(
                self.offset(avail, self.children.len() as int),
                self.cross_max(avail, self.children.len() as int),
            )
        }
    }

    /// Whether the sums of a layout in `avail` stay within `u32::MAX`, in
    /// this container and in every container inside.
    pub open spec fn fits(self, avail: Size) -> bool
        decreases self, 1int,
    {
        &&& self.offset(avail, self.children.len() as int) <= u32::MAX
        &&& forall|k: int|
            0 <= k < self.children.len() ==> (#[trigger] self.children[k]).content.fits_in(
                self.child_box(avail, k),
            )
    }

    /// The rectangle of pane `k`: behind the pane before it, on the near
    /// edge, with the size that the pane measures.
    pub open spec fn child_rect(self, avail: Size, k: int) -> Rect {
        Rect {
            origin: self.direction.point_at(self.offset(avail, k)),
            size: self.child_size(avail, k),
        }
    }

    /// Pane `k` after a layout of the container in `avail`.
    pub open spec fn laid_out_child(self, avail: Size, env: EnvView, k: int) -> ChildView
        decreases self, 1int,
    {
        if 0 <= k < self.children.len() {
            ChildView {
                layout_rect: self.child_rect(avail, k),
                content: self.children[k].content.laid_out(self.child_box(avail, k), env),
                ..self.children[k]
            }
        } else {
            arbitrary()
        }
    }

    /// The container after a layout in `avail`: an empty container holds
    /// the list of commands for its size, any other has every pane in its
    /// rectangle, laid out in turn.
    pub open spec fn laid_out(self, avail: Size, env: EnvView) -> SplitView
        decreases self, 2int,
    {
        if self.children.len() == 0 {
            SplitView { commands: env.entries(avail), ..self }
        } else {
            SplitView {
                children: Seq::new(
                    self.children.len(),
                    |k: int| self.laid_out_child(avail, env, k),
                ),
                ..self
            }
        }
    }
}

impl SplitDirection {
    /// The extent of `size` along the axis on which the panes follow each
    /// other.
    pub fn main_extent(self, size: Size) -> (extent: u32)
        ensures
            extent == self.main_of(size),
    {
        match self {
            SplitDirection::Vertical => size.width,
            SplitDirection::Horizontal => size.height,
        }
    }

    /// The extent of `size` across that axis.
    pub fn cross_extent(self, size: Size) -> (extent: u32)
        ensures
            extent == self.cross_of(size),
    {
        match self {
            SplitDirection::Vertical => size.height,
            SplitDirection::Horizontal => size.width,
        }
    }

    /// The size with the given extents along and across the axis.
    pub fn size_with(self, main: u32, cross: u32) -> (size: Size)
        ensures
            size == self.size_of(main as int, cross as int),
            self.main_of(size) == main,
            self.cross_of(size) == cross,
    {
        match self {
            SplitDirection::Vertical => Size { width: main, height: cross },
            SplitDirection::Horizontal => Size { width: cross, height: main },
        }
    }

    /// The point at `offset` along the axis, on the near edge.
    pub fn point_along(self, offset: u32) -> (p: Point)
        ensures
            p == self.point_at(offset as int),
    {
        match self {
            SplitDirection::Vertical => Point { x: offset as i64, y: 0 },
            SplitDirection::Horizontal => Point { x: 0, y: offset as i64 },
        }
    }
}

/// The budget of the flexible panes is between nothing and the available
/// extent.
pub proof fn lemma_budget_bounds(split: SplitView, avail: Size)
    ensures
        0 <= split.budget(avail) <= split.direction.main_of(avail),
        0 <= split.fixed_total(avail, split.children.len() as int),
{
    lemma_fixed_total_bounds(split, avail, split.children.len() as int);
}

/// What the fixed panes measure adds up from nothing.
pub proof fn lemma_fixed_total_bounds(split: SplitView, avail: Size, n: int)
    requires
        0 <= n <= split.children.len(),
    ensures
        0 <= split.fixed_total(avail, n),
    decreases n,
{
    if n > 0 {
        lemma_fixed_total_bounds(split, avail, n - 1);
    }
}

/// The box of a pane: along the axis what the pane asks for where it is
/// fixed and what it receives where it is flexible, across the axis all that
/// is available.
pub proof fn lemma_child_box(split: SplitView, avail: Size, k: int)
    requires
        0 <= k < split.children.len(),
    ensures
        split.direction.cross_of(split.child_box(avail, k)) == split.direction.cross_of(avail),
        split.children[k].flex ==> split.direction.main_of(split.child_box(avail, k))
            == flex_extent(split.children, split.budget(avail), k),
        !split.children[k].flex ==> split.direction.main_of(split.child_box(avail, k))
            == split.children[k].params,
        !split.children[k].flex ==> split.child_box(avail, k) == split.fixed_box(avail, k),
        !split.children[k].flex ==> split.child_size(avail, k) == split.fixed_size(avail, k),
{
    lemma_budget_bounds(split, avail);
    lemma_flex_extent_bounds(split.children, split.budget(avail), k);
}

/// The panes start further and further along the axis.
pub proof fn lemma_offset_monotonic(split: SplitView, avail: Size, m: int, n: int)
    requires
        0 <= m <= n <= split.children.len(),
    ensures
        0 <= split.offset(avail, m) <= split.offset(avail, n),
    decreases n,
{
    if n > 0 {
        if m < n {
            lemma_offset_monotonic(split, avail, m, n - 1);
        } else {
            lemma_offset_monotonic(split, avail, m - 1, n - 1);
        }
    }
}

/// The fixed panes among the first `n` take no more than all of the first
/// `n` panes.
pub proof fn lemma_fixed_total_le_offset(split: SplitView, avail: Size, n: int)
    requires
        0 <= n <= split.children.len(),
    ensures
        split.fixed_total(avail, n) <= split.offset(avail, n),
    decreases n,
{
    if n > 0 {
        lemma_fixed_total_le_offset(split, avail, n - 1);
        lemma_child_box(split, avail, n - 1);
    }
}

impl ContentView {
    /// Whether two contents differ in nothing but the rectangles and the
    /// lists of commands that layouts left in them.
    pub open spec fn same_structure(self, other: ContentView) -> bool
        decreases self,
    {
        match (self, other) {
            (ContentView::Leaf(a), ContentView::Leaf(b)) => a == b,
            (ContentView::Nested(a), ContentView::Nested(b)) => a.same_structure(*b),
            _ => false,
        }
    }
}

impl SplitView {
    /// Whether two containers differ in nothing but the rectangles and the
    /// lists of commands that layouts left in them.
    pub open spec fn same_structure(self, other: SplitView) -> bool
        decreases self,
    {
        &&& self.split_id == other.split_id
        &&& self.direction == other.direction
        &&& self.show_border == other.show_border
        &&& self.children.len() == other.children.len()
        &&& forall|k: int|
            0 <= k < self.children.len() ==> {
                &&& (#[trigger] self.children[k]).id == other.children[k].id
                &&& self.children[k].flex == other.children[k].flex
                &&& self.children[k].params == other.children[k].params
                &&& self.children[k].content.same_structure(other.children[k].content)
            }
    }
}

/// Panes of the same structure agree on how a budget is shared.
pub proof fn lemma_structure_sizing(a: SplitView, b: SplitView)
    requires
        a.same_structure(b),
    ensures
        same_sizing(a.children, b.children),
{
    assert forall|k: int| 0 <= k < a.children.len() implies (#[trigger] a.children[k]).flex
        == b.children[k].flex && a.children[k].params == b.children[k].params by {}
}

/// Contents of the same structure measure the same in the same box.
pub proof fn lemma_content_structure(a: ContentView, b: ContentView, box_: Size)
    requires
        a.same_structure(b),
    ensures
        a.size_in(box_) == b.size_in(box_),
        a.fits_in(box_) == b.fits_in(box_),
    decreases a, 0int, 0int,
{
    match (a, b) {
        (ContentView::Nested(x), ContentView::Nested(y)) => {
            lemma_structure(*x, *y, box_);
        },
        _ => {},
    }
}

/// The fixed panes of containers of the same structure measure the same.
pub proof fn lemma_structure_fixed(a: SplitView, b: SplitView, avail: Size, n: int)
    requires
        a.same_structure(b),
        0 <= n <= a.children.len(),
    ensures
        a.fixed_total(avail, n) == b.fixed_total(avail, n),
    decreases a, 1int, n,
{
    if n > 0 {
        lemma_structure_fixed(a, b, avail, n - 1);
        assert(a.children[n - 1].id == b.children[n - 1].id);
        lemma_content_structure(
            a.children[n - 1].content,
            b.children[n - 1].content,
            a.fixed_box(avail, n - 1),
        );
        assert(a.fixed_box(avail, n - 1) == b.fixed_box(avail, n - 1));
        assert(a.fixed_size(avail, n - 1) == b.fixed_size(avail, n - 1));
    }
}

/// Pane `k` of containers of the same structure gets the same box and
/// measures the same in it.
pub proof fn lemma_structure_child(a: SplitView, b: SplitView, avail: Size, k: int)
    requires
        a.same_structure(b),
        0 <= k < a.children.len(),
    ensures
        a.budget(avail) == b.budget(avail),
        a.child_box(avail, k) == b.child_box(avail, k),
        a.child_size(avail, k) == b.child_size(avail, k),
        a.children[k].content.fits_in(a.child_box(avail, k)) == b.children[k].content.fits_in(
            b.child_box(avail, k),
        ),
    decreases a, 2int, 0int,
{
    lemma_structure_fixed(a, b, avail, a.children.len() as int);
    lemma_structure_sizing(a, b);
    lemma_same_sizing(a.children, b.children, a.budget(avail), k);
    assert(a.children[k].id == b.children[k].id);
    lemma_content_structure(a.children[k].content, b.children[k].content, a.child_box(avail, k));
}

/// The first `n` panes of containers of the same structure take the same
/// extents.
pub proof fn lemma_structure_sums(a: SplitView, b: SplitView, avail: Size, n: int)
    requires
        a.same_structure(b),
        0 <= n <= a.children.len(),
    ensures
        a.offset(avail, n) == b.offset(avail, n),
        a.cross_max(avail, n) == b.cross_max(avail, n),
    decreases a, 3int, n,
{
    if n > 0 {
        lemma_structure_sums(a, b, avail, n - 1);
        lemma_structure_child(a, b, avail, n - 1);
    }
}

/// The sizing of a container depends on nothing but its structure:
/// containers of the same structure report the same size in the same
/// available size, and a layout fits either both or neither.
pub proof fn lemma_structure(a: SplitView, b: SplitView, avail: Size)
    requires
        a.same_structure(b),
    ensures
        a.measure(avail) == b.measure(avail),
        a.fits(avail) == b.fits(avail),
    decreases a, 4int, 0int,
{
    lemma_structure_sums(a, b, avail, a.children.len() as int);
    assert forall|k: int| 0 <= k < a.children.len() implies (#[trigger] a.children[k]).content.fits_in(
        a.child_box(avail, k),
    ) == b.children[k].content.fits_in(b.child_box(avail, k)) by {
        lemma_structure_child(a, b, avail, k);
    }
    if a.fits(avail) {
        assert forall|k: int| 0 <= k < b.children.len() implies (#[trigger] b.children[k]).content.fits_in(
            b.child_box(avail, k),
        ) by {
            assert(a.children[k].content.fits_in(a.child_box(avail, k)));
        }
    }
    if b.fits(avail) {
        assert forall|k: int| 0 <= k < a.children.len() implies (#[trigger] a.children[k]).content.fits_in(
            a.child_box(avail, k),
        ) by {
            assert(b.children[k].content.fits_in(b.child_box(avail, k)));
        }
    }
}

/// A layout leaves the structure of content as it is.
pub proof fn lemma_content_laid_out_structure(content: ContentView, box_: Size, env: EnvView)
    ensures
        content.same_structure(content.laid_out(box_, env)),
    decreases content, 0int,
{
    match content {
        ContentView::Nested(inner) => {
            lemma_laid_out_structure(*inner, box_, env);
        },
        _ => {},
    }
}

/// A layout leaves the structure of a container as it is: it changes
/// rectangles and lists of commands, and nothing else.
pub proof fn lemma_laid_out_structure(split: SplitView, avail: Size, env: EnvView)
    ensures
        split.same_structure(split.laid_out(avail, env)),
    decreases split, 1int,
{
    let after = split.laid_out(avail, env);
    assert forall|k: int| 0 <= k < split.children.len() implies {
        &&& (#[trigger] split.children[k]).id == after.children[k].id
        &&& split.children[k].flex == after.children[k].flex
        &&& split.children[k].params == after.children[k].params
        &&& split.children[k].content.same_structure(after.children[k].content)
    } by {
        lemma_content_laid_out_structure(
            split.children[k].content,
            split.child_box(avail, k),
            env,
        );
    }
}

/// A layout of content that is well formed leaves it well formed.
pub proof fn lemma_content_laid_out_wf(content: ContentView, box_: Size, env: EnvView)
    requires
        content.wf(),
    ensures
        content.laid_out(box_, env).wf(),
    decreases content, 0int,
{
    match content {
        ContentView::Nested(inner) => {
            lemma_laid_out_wf(*inner, box_, env);
        },
        _ => {},
    }
}

/// A layout of a container that is well formed leaves it well formed.
pub proof fn lemma_laid_out_wf(split: SplitView, avail: Size, env: EnvView)
    requires
        split.wf(),
    ensures
        split.laid_out(avail, env).wf(),
    decreases split, 1int,
{
    let after = split.laid_out(avail, env);
    assert(after.ids() =~= split.ids());
    assert forall|k: int| 0 <= k < after.children.len() implies (
    #[trigger] after.children[k]).content.wf() by {
        assert(split.children[k].content.wf());
        lemma_content_laid_out_wf(split.children[k].content, split.child_box(avail, k), env);
    }
}

/// A second layout of content in the same box changes nothing.
pub proof fn lemma_content_layout_idempotent(content: ContentView, box_: Size, env: EnvView)
    ensures
        content.laid_out(box_, env).laid_out(box_, env) == content.laid_out(box_, env),
    decreases content, 0int,
{
    match content {
        ContentView::Nested(inner) => {
            lemma_layout_idempotent(*inner, box_, env);
        },
        _ => {},
    }
}

/// Sizing is idempotent: a second layout in the same available size, with
/// the panes as they are, places every pane where the first placed it, in
/// this container and in every container inside.
pub proof fn lemma_layout_idempotent(split: SplitView, avail: Size, env: EnvView)
    ensures
        split.laid_out(avail, env).laid_out(avail, env) == split.laid_out(avail, env),
        split.laid_out(avail, env).measure(avail) == split.measure(avail),
    decreases split, 1int,
{
    let once = split.laid_out(avail, env);
    let twice = once.laid_out(avail, env);
    lemma_laid_out_structure(split, avail, env);
    lemma_structure(split, once, avail);
    if split.children.len() > 0 {
        assert forall|k: int| 0 <= k < split.children.len() implies #[trigger] twice.children[k]
            == once.children[k] by {
            lemma_structure_child(split, once, avail, k);
            lemma_structure_sums(split, once, avail, k);
            lemma_content_layout_idempotent(
                split.children[k].content,
                split.child_box(avail, k),
                env,
            );
        }
        assert(twice.children =~= once.children);
    }
}

} // verus!
