//! The split container: an ordered list of panes along one axis.
//!
//! A pane holds either leaf content or another split container. The
//! container and its panes are described by plain mathematical values, a
//! [`SplitView`] of [`ChildView`]s, and every operation says what it does to
//! them.

use vstd::prelude::*;
use crate::empty_state::{entry_views, CommandEntry, EntryView};
use crate::geometry::{Rect, Size};

mod event;
mod layout;
mod ops;
mod paint;

pub use paint::{divider, dividers, entry_ops, painting, PaintOp};

verus! {

/// A direction in which the focus moves from one pane to the next.
#[derive(Clone, Copy, Debug, PartialEq, Eq, Structural)]
pub enum SplitMoveDirection {
    Up,
    Down,
    Right,
    Left,
}

/// The axis along which a split container arranges its children.
#[derive(Clone, Copy, Debug, PartialEq, Eq, Structural)]
pub enum SplitDirection {
    /// The dividers are vertical: the children sit side by side, from left
    /// to right.
    Vertical,
    /// The dividers are horizontal: the children are stacked, from top to
    /// bottom.
    Horizontal,
}

/// What kind of content a leaf pane shows.
#[derive(Clone, Copy, Debug, PartialEq, Eq, Structural)]
pub enum LeafKind {
    Editor,
    Terminal,
    Other,
}

/// The content of a leaf pane, as far as a layout depends on it: the size
/// below which it cannot shrink, and the size beyond which it does not grow.
#[derive(Clone, Copy, Debug, PartialEq, Eq, Structural)]
pub struct LeafContent {
    pub kind: LeafKind,
    pub min_size: Size,
    pub max_size: Size,
}

/// What a pane holds.
#[derive(Debug)]
pub enum PaneContent {
    Leaf(LeafContent),
    Nested(Box<LapceSplitNew>),
}

/// One pane of a split container.
#[derive(Debug)]
pub struct ChildWidgetNew {
    id: u64,
    widget: PaneContent,
    flex: bool,
    params: u32,
    layout_rect: Rect,
}

/// A split container.
#[derive(Debug)]
pub struct LapceSplitNew {
    split_id: u64,
    children: Vec<ChildWidgetNew>,
    direction: SplitDirection,
    show_border: bool,
    commands: Vec<CommandEntry>,
}

/// What a pane holds, as a mathematical value.
pub enum ContentView {
    Leaf(LeafContent),
    Nested(Box<SplitView>),
}

/// A pane as a mathematical value.
pub struct ChildView {
    /// The pane's identity.
    pub id: u64,
    pub content: ContentView,
    /// Whether the pane shares the space that the fixed panes leave.
    pub flex: bool,
    /// The weight of a flexible pane, the requested extent of a fixed one.
    pub params: u32,
    /// The rectangle that the last layout gave the pane.
    pub layout_rect: Rect,
}

/// A split container as a mathematical value.
pub struct SplitView {
    /// The container's identity.
    pub split_id: u64,
    /// The panes, in the order in which they are shown.
    pub children: Seq<ChildView>,
    pub direction: SplitDirection,
    /// Whether divider lines are drawn between the panes.
    pub show_border: bool,
    /// The list of commands that the last layout of the empty container
    /// computed.
    pub commands: Seq<EntryView>,
}

/// `v`, held between `lo` and `hi`; `lo` wins where the two cross.
pub open spec fn clamp(v: u32, lo: u32, hi: u32) -> u32 {
    if v < lo {
        lo
    } else if v > hi {
        hi
    } else {
        v
    }
}

/// The index of the first element of `ids` at or after `from` that equals
/// `id`, or the length of `ids` where there is none.
pub open spec fn index_from(ids: Seq<u64>, id: u64, from: int) -> int
    decreases ids.len() - from,
{
    if from < 0 || from >= ids.len() {
        ids.len() as int
    } else if ids[from] == id {
        from
    } else {
        index_from(ids, id, from + 1)
    }
}

/// What [`index_from`] finds is the first occurrence at or after `from`.
pub proof fn lemma_index_from(ids: Seq<u64>, id: u64, from: int)
    requires
        0 <= from <= ids.len(),
    ensures
        from <= index_from(ids, id, from) <= ids.len(),
        index_from(ids, id, from) < ids.len() ==> ids[index_from(ids, id, from)] == id,
        forall|j: int| from <= j < index_from(ids, id, from) ==> ids[j] != id,
    decreases ids.len() - from,
{
    if from < ids.len() && ids[from] != id {
        lemma_index_from(ids, id, from + 1);
    }
}

impl LeafContent {
    /// The size that the content takes where `avail` is offered: `avail`,
    /// held between the smallest and the largest size of the content, each
    /// axis by itself.
    pub open spec fn measure_spec(&self, avail: Size) -> Size {
        Size {
            width: clamp(avail.width, self.min_size.width, self.max_size.width),
            height: clamp(avail.height, self.min_size.height, self.max_size.height),
        }
    }

    pub fn new(kind: LeafKind, min_size: Size, max_size: Size) -> (leaf: LeafContent)
        ensures
            leaf == (LeafContent { kind, min_size, max_size }),
    {
        LeafContent { kind, min_size, max_size }
    }

    /// Content that takes whatever it is offered.
    pub open spec fn spec_filling(kind: LeafKind) -> LeafContent {
        LeafContent {
            kind,
            min_size: Size { width: 0, height: 0 },
            max_size: Size { width: u32::MAX, height: u32::MAX },
        }
    }

    /// Content that takes whatever it is offered.
    #[verifier::when_used_as_spec(spec_filling)]
    pub fn filling(kind: LeafKind) -> (leaf: LeafContent)
        ensures
            leaf == LeafContent::spec_filling(kind),
    {
        LeafContent {
            kind,
            min_size: Size { width: 0, height: 0 },
            max_size: Size { width: u32::MAX, height: u32::MAX },
        }
    }

    /// The size that the content takes where `avail` is offered.
    #[verifier::when_used_as_spec(measure_spec)]
    pub fn measure(&self, avail: Size) -> (size: Size)
        ensures
            size == self.measure_spec(avail),
    {
        Size {
            width: clamp_to(avail.width, self.min_size.width, self.max_size.width),
            height: clamp_to(avail.height, self.min_size.height, self.max_size.height),
        }
    }
}

fn clamp_to(v: u32, lo: u32, hi: u32) -> (r: u32)
    ensures
        r == clamp(v, lo, hi),
{
    if v < lo {
        lo
    } else if v > hi {
        hi
    } else {
        v
    }
}

impl ContentView {
    /// Every container inside is well formed.
    pub open spec fn wf(self) -> bool
        decreases self,
    {
        match self {
            ContentView::Leaf(_) => true,
            ContentView::Nested(inner) => inner.wf(),
        }
    }
}

impl ChildView {
    /// A pane that no layout has placed yet.
    pub open spec fn fresh(id: u64, content: ContentView, flex: bool, params: u32) -> ChildView {
        ChildView { id, content, flex, params, layout_rect: Rect::spec_zero() }
    }

    /// The pane with weight 1 where it is flexible, unchanged where it is
    /// fixed.
    pub open spec fn evened(self) -> ChildView {
        ChildView { params: if self.flex { 1u32 } else { self.params }, ..self }
    }
}

impl SplitView {
    /// The container with identity `split_id` that `LapceSplitNew::new`
    /// makes: no panes, vertical dividers, borders shown.
    pub open spec fn empty(split_id: u64) -> SplitView {
        SplitView {
            split_id,
            children: Seq::empty(),
            direction: SplitDirection::Vertical,
            show_border: true,
            commands: Seq::empty(),
        }
    }

    /// The identities of the panes, in order.
    pub open spec fn ids(self) -> Seq<u64> {
        Seq::new(self.children.len(), |k: int| self.children[k].id)
    }

    /// The index of the pane with identity `id`, or the number of panes
    /// where there is none.
    pub open spec fn index_of(self, id: u64) -> int {
        index_from(self.ids(), id, 0)
    }

    /// Whether a pane has identity `id`.
    pub open spec fn has_child(self, id: u64) -> bool {
        self.index_of(id) < self.children.len()
    }

    /// No two panes of the container share an identity, and no description
    /// in its list of commands starts right of every possible container; and
    /// the same holds of every container nested in it.
    pub open spec fn wf(self) -> bool
        decreases self,
    {
        &&& self.ids().no_duplicates()
        &&& forall|i: int|
            0 <= i < self.commands.len() ==> (#[trigger] self.commands[i]).rect.origin.x
                <= u32::MAX
        &&& forall|k: int|
            0 <= k < self.children.len() ==> (#[trigger] self.children[k]).content.wf()
    }

    /// The container with `child` at `index`; unchanged where a pane has the
    /// identity of `child` already.
    pub open spec fn inserted(self, index: int, child: ChildView) -> SplitView {
        if self.has_child(child.id) {
            self
        } else {
            SplitView { children: self.children.insert(index, child), ..self }
        }
    }

    /// The container with `child` behind its last pane; unchanged where a
    /// pane has the identity of `child` already.
    pub open spec fn appended(self, child: ChildView) -> SplitView {
        self.inserted(self.children.len() as int, child)
    }

    /// The container with every flexible pane at weight 1.
    pub open spec fn evened(self) -> SplitView {
        SplitView {
            children: Seq::new(self.children.len(), |k: int| self.children[k].evened()),
            ..self
        }
    }
}

impl PaneContent {
    /// The content as a mathematical value.
    pub open spec fn model(self) -> ContentView
        decreases self,
    {
        match self {
            PaneContent::Leaf(leaf) => ContentView::Leaf(leaf),
            PaneContent::Nested(inner) => ContentView::Nested(Box::new(inner.model())),
        }
    }
}

impl ChildWidgetNew {
    /// The pane as a mathematical value.
    pub closed spec fn model(self) -> ChildView
        decreases self,
    {
        ChildView {
            id: self.id,
            content: self.widget.model(),
            flex: self.flex,
            params: self.params,
            layout_rect: self.layout_rect,
        }
    }
}

impl LapceSplitNew {
    /// The container as a mathematical value.
    pub closed spec fn model(self) -> SplitView
        decreases self,
    {
        SplitView {
            split_id: self.split_id,
            children: Seq::new(
                self.children@.len(),
                |k: int|
                    if 0 <= k < self.children@.len() {
                        self.children@[k].model()
                    } else {
                        arbitrary()
                    },
            ),
            direction: self.direction,
            show_border: self.show_border,
            commands: entry_views(self.commands@),
        }
    }
}

impl View for PaneContent {
    type V = ContentView;

    open spec fn view(&self) -> ContentView {
        self.model()
    }
}

impl View for ChildWidgetNew {
    type V = ChildView;

    closed spec fn view(&self) -> ChildView {
        self.model()
    }
}

impl View for LapceSplitNew {
    type V = SplitView;

    closed spec fn view(&self) -> SplitView {
        self.model()
    }
}

impl PaneContent {
    /// Leaf content.
    pub fn leaf(content: LeafContent) -> (pane: PaneContent)
        ensures
            pane@ == ContentView::Leaf(content),
    {
        PaneContent::Leaf(content)
    }

    /// A nested container.
    pub fn nested(inner: LapceSplitNew) -> (pane: PaneContent)
        ensures
            pane@ == ContentView::Nested(Box::new(inner@)),
    {
        PaneContent::Nested(Box::new(inner))
    }
}

impl LapceSplitNew {
    /// An empty container with identity `split_id`, vertical dividers and
    /// borders shown.
    pub fn new(split_id: u64) -> (split: LapceSplitNew)
        ensures
            split@ == SplitView::empty(split_id),
            split@.wf(),
    {
        let split = LapceSplitNew {
            split_id,
            children: Vec::new(),
            direction: SplitDirection::Vertical,
            show_border: true,
            commands: Vec::new(),
        };
        assert(split@.children =~= Seq::empty());
        assert(split@.commands =~= Seq::empty());
        split
    }

    /// The container along another axis.
    pub fn direction(self, direction: SplitDirection) -> (split: LapceSplitNew)
        ensures
            split@ == (SplitView { direction, ..self@ }),
    {
        let mut split = self;
        split.direction = direction;
        split
    }

    /// The container with horizontal dividers.
    pub fn horizontal(self) -> (split: LapceSplitNew)
        ensures
            split@ == (SplitView { direction: SplitDirection::Horizontal, ..self@ }),
    {
        let mut split = self;
        split.direction = SplitDirection::Horizontal;
        split
    }

    /// The container without divider lines.
    pub fn hide_border(self) -> (split: LapceSplitNew)
        ensures
            split@ == (SplitView { show_border: false, ..self@ }),
    {
        let mut split = self;
        split.show_border = false;
        split
    }

    /// The container's identity.
    pub fn id(&self) -> (id: u64)
        ensures
            id == self@.split_id,
    {
        self.split_id
    }

    /// The axis along which the panes are arranged.
    pub fn axis(&self) -> (direction: SplitDirection)
        ensures
            direction == self@.direction,
    {
        self.direction
    }

    /// Whether divider lines are drawn between the panes.
    pub fn shows_border(&self) -> (shown: bool)
        ensures
            shown == self@.show_border,
    {
        self.show_border
    }

    /// The number of panes.
    pub fn len(&self) -> (n: usize)
        ensures
            n == self@.children.len(),
    {
        self.children.len()
    }

    /// Whether the container has no panes.
    pub fn is_empty(&self) -> (empty: bool)
        ensures
            empty == (self@.children.len() == 0),
    {
        self.children.len() == 0
    }
}

/// An index that [`index_from`] finds is the first at which `id` stands;
/// where it finds none, `id` stands nowhere.
pub proof fn lemma_index_of(split: SplitView, id: u64)
    ensures
        0 <= split.index_of(id) <= split.children.len(),
        split.has_child(id) ==> split.children[split.index_of(id)].id == id,
        forall|j: int| 0 <= j < split.index_of(id) ==> split.children[j].id != id,
        split.has_child(id) == split.ids().contains(id),
{
    lemma_index_from(split.ids(), id, 0);
    if split.has_child(id) {
        assert(split.ids()[split.index_of(id)] == id);
    }
    assert forall|j: int| 0 <= j < split.index_of(id) implies split.children[j].id != id by {
        assert(split.ids()[j] != id);
    }
    if split.ids().contains(id) {
        let j = choose|j: int| 0 <= j < split.ids().len() && split.ids()[j] == id;
        assert(split.index_of(id) <= j);
    }
}

impl ChildWidgetNew {
    /// A pane that no layout has placed yet.
    pub fn new(id: u64, widget: PaneContent, flex: bool, params: u32) -> (child: ChildWidgetNew)
        ensures
            child@ == ChildView::fresh(id, widget@, flex, params),
    {
        ChildWidgetNew { id, widget, flex, params, layout_rect: Rect::zero() }
    }

    /// The pane's identity.
    pub fn id(&self) -> (id: u64)
        ensures
            id == self@.id,
    {
        self.id
    }

    /// Whether the pane is flexible.
    pub fn is_flex(&self) -> (flex: bool)
        ensures
            flex == self@.flex,
    {
        self.flex
    }

    /// The weight of a flexible pane, the requested extent of a fixed one.
    pub fn params(&self) -> (params: u32)
        ensures
            params == self@.params,
    {
        self.params
    }

    /// The rectangle that the last layout gave the pane.
    pub fn layout_rect(&self) -> (rect: Rect)
        ensures
            rect == self@.layout_rect,
    {
        self.layout_rect
    }

    /// What the pane holds.
    pub fn widget(&self) -> (widget: &PaneContent)
        ensures
            widget@ == self@.content,
    {
        &self.widget
    }
}

impl LapceSplitNew {
    /// The parts of the view that the fields give at once.
    proof fn lemma_fields(&self)
        ensures
            self@.split_id == self.split_id,
            self@.direction == self.direction,
            self@.show_border == self.show_border,
            self@.commands == entry_views(self.commands@),
            self@.children.len() == self.children@.len(),
            forall|k: int|
                0 <= k < self.children@.len() ==> #[trigger] self@.children[k]
                    == self.children@[k]@,
            forall|k: int|
                0 <= k < self.children@.len() ==> #[trigger] self@.ids()[k]
                    == self.children@[k].id,
            forall|k: int|
                0 <= k < self.children@.len() ==> {
                    &&& (#[trigger] self.children@[k])@.id == self.children@[k].id
                    &&& self.children@[k]@.flex == self.children@[k].flex
                    &&& self.children@[k]@.params == self.children@[k].params
                    &&& self.children@[k]@.layout_rect == self.children@[k].layout_rect
                    &&& self.children@[k]@.content == self.children@[k].widget@
                },
    {
    }

    /// The pane at `index`.
    pub fn child(&self, index: usize) -> (child: &ChildWidgetNew)
        requires
            index < self@.children.len(),
        ensures
            child@ == self@.children[index as int],
    {
        &self.children[index]
    }

    /// The list of commands that the last layout of the empty container
    /// computed.
    pub fn commands(&self) -> (commands: &Vec<CommandEntry>)
        ensures
            entry_views(commands@) == self@.commands,
    {
        &self.commands
    }

    /// The index of the pane with identity `id`, found by going through
    /// the panes from the first; `None` where no pane has it.
    pub fn find_child(&self, id: u64) -> (found: Option<usize>)
        ensures
            found.is_some() == self@.has_child(id),
            found matches Some(i) ==> i == self@.index_of(id),
    {
        proof {
            self.lemma_fields();
        }
        let ghost ids = self@.ids();
        let n: usize = self.children.len();
        let mut i: usize = 0;
        while i < n
            invariant
                i <= n,
                n == self.children@.len(),
                ids == self@.ids(),
                ids.len() == n,
                index_from(ids, id, 0) == index_from(ids, id, i as int),
            decreases n - i,
        {
            proof {
                self.lemma_fields();
            }
            if self.children[i].id == id {
                return Some(i);
            }
            i = i + 1;
        }
        None
    }

    /// The identities of the panes, in order.
    pub fn ids(&self) -> (ids: Vec<u64>)
        ensures
            ids@ == self@.ids(),
    {
        let n: usize = self.children.len();
        let mut ids: Vec<u64> = Vec::new();
        let mut i: usize = 0;
        while i < n
            invariant
                i <= n,
                n == self.children@.len(),
                ids@.len() == i,
                forall|k: int| 0 <= k < i ==> ids@[k] == self.children@[k].id,
            decreases n - i,
        {
            ids.push(self.children[i].id);
            i = i + 1;
        }
        proof {
            self.lemma_fields();
            assert(ids@ =~= self@.ids());
        }
        ids
    }

    /// Takes pane `index` out.
    fn remove_child(&mut self, index: usize) -> (child: ChildWidgetNew)
        requires
            index < old(self)@.children.len(),
        ensures
            final(self)@ == (SplitView {
                children: old(self)@.children.remove(index as int),
                ..old(self)@
            }),
            child@ == old(self)@.children[index as int],
    {
        proof {
            self.lemma_fields();
        }
        let child = self.children.remove(index);
        proof {
            self.lemma_fields();
            assert(self@.children =~= old(self)@.children.remove(index as int));
        }
        child
    }

    /// Puts `child` in at `index`.
    fn insert_child(&mut self, index: usize, child: ChildWidgetNew)
        requires
            index <= old(self)@.children.len(),
        ensures
            final(self)@ == (SplitView {
                children: old(self)@.children.insert(index as int, child@),
                ..old(self)@
            }),
    {
        proof {
            self.lemma_fields();
        }
        self.children.insert(index, child);
        proof {
            self.lemma_fields();
            assert(self@.children =~= old(self)@.children.insert(index as int, child@));
        }
    }

    /// The container with a flexible pane of weight `params` behind its
    /// last pane. Nothing is added where a pane has the identity `child_id`
    /// already.
    pub fn with_flex_child(self, child: PaneContent, child_id: u64, params: u32) -> (split:
        LapceSplitNew)
        ensures
            split@ == self@.appended(ChildView::fresh(child_id, child@, true, params)),
            self@.wf() && child@.wf() ==> split@.wf(),
    {
        let mut split = self;
        let n: usize = split.children.len();
        split.insert_flex_child(n, child, child_id, params);
        split
    }

    /// The container with a fixed pane that asks for the extent `params`
    /// behind its last pane. Nothing is added where a pane has the identity
    /// `child_id` already.
    pub fn with_child(self, child: PaneContent, child_id: u64, params: u32) -> (split:
        LapceSplitNew)
        ensures
            split@ == self@.appended(ChildView::fresh(child_id, child@, false, params)),
            self@.wf() && child@.wf() ==> split@.wf(),
    {
        let mut split = self;
        if split.find_child(child_id).is_none() {
            let n: usize = split.children.len();
            proof {
                lemma_inserted_wf(
                    split@,
                    n as int,
                    ChildView::fresh(child_id, child@, false, params),
                );
            }
            split.insert_child(n, ChildWidgetNew::new(child_id, child, false, params));
        }
        split
    }

    /// Puts a flexible pane of weight `params` in at `index`. Nothing is
    /// added where a pane has the identity `child_id` already.
    pub fn insert_flex_child(
        &mut self,
        index: usize,
        child: PaneContent,
        child_id: u64,
        params: u32,
    )
        requires
            index <= old(self)@.children.len(),
        ensures
            final(self)@ == old(self)@.inserted(
                index as int,
                ChildView::fresh(child_id, child@, true, params),
            ),
            old(self)@.wf() && child@.wf() ==> final(self)@.wf(),
    {
        if self.find_child(child_id).is_none() {
            proof {
                lemma_inserted_wf(
                    self@,
                    index as int,
                    ChildView::fresh(child_id, child@, true, params),
                );
            }
            self.insert_child(index, ChildWidgetNew::new(child_id, child, true, params));
        }
    }

    /// Gives every flexible pane the weight 1.
    pub fn even_flex_children(&mut self)
        ensures
            final(self)@ == old(self)@.evened(),
            old(self)@.wf() ==> final(self)@.wf(),
    {
        proof {
            self.lemma_fields();
        }
        let n: usize = self.children.len();
        let mut i: usize = 0;
        while i < n
            invariant
                i <= n,
                n == self.children@.len(),
                n == old(self).children@.len(),
                self.split_id == old(self).split_id,
                self.direction == old(self).direction,
                self.show_border == old(self).show_border,
                self.commands == old(self).commands,
                forall|k: int| i <= k < n ==> self.children@[k] == old(self).children@[k],
                forall|k: int|
                    0 <= k < i ==> (#[trigger] self.children@[k])@ == old(
                        self,
                    ).children@[k]@.evened(),
            decreases n - i,
        {
            if self.children[i].flex {
                let child = &mut self.children[i];
                child.params = 1;
            }
            i = i + 1;
        }
        proof {
            self.lemma_fields();
            old(self).lemma_fields();
            assert(self@.children =~= old(self)@.evened().children);
            lemma_evened_wf(old(self)@);
        }
    }
}

/// Evening the weights changes no identity and no content.
pub proof fn lemma_evened_wf(split: SplitView)
    ensures
        split.evened().ids() == split.ids(),
        split.wf() ==> split.evened().wf(),
{
    assert(split.evened().ids() =~= split.ids());
    if split.wf() {
        assert forall|k: int| 0 <= k < split.evened().children.len() implies (
        #[trigger] split.evened().children[k]).content.wf() by {
            assert(split.children[k].content.wf());
        }
    }
}

/// A well formed container stays so when a well formed pane with a new
/// identity comes in.
pub proof fn lemma_inserted_wf(split: SplitView, index: int, child: ChildView)
    requires
        0 <= index <= split.children.len(),
    ensures
        split.wf() && child.content.wf() ==> split.inserted(index, child).wf(),
        !split.has_child(child.id) ==> split.inserted(index, child).ids() == split.ids().insert(
            index,
            child.id,
        ),
{
    lemma_index_of(split, child.id);
    if !split.has_child(child.id) {
        let after = split.inserted(index, child);
        assert(after.ids() =~= split.ids().insert(index, child.id));
        if split.wf() && child.content.wf() {
            assert forall|a: int, b: int|
                0 <= a < after.ids().len() && 0 <= b < after.ids().len() && a != b implies after.ids()[a]
                != after.ids()[b] by {
                let oa = if a < index {
                    a
                } else {
                    a - 1
                };
                let ob = if b < index {
                    b
                } else {
                    b - 1
                };
                if a == index {
                    assert(split.ids()[ob] == after.ids()[b]);
                } else if b == index {
                    assert(split.ids()[oa] == after.ids()[a]);
                } else {
                    assert(split.ids()[oa] == after.ids()[a]);
                    assert(split.ids()[ob] == after.ids()[b]);
                }
            }
            assert forall|k: int| 0 <= k < after.children.len() implies (
            #[trigger] after.children[k]).content.wf() by {
                if k < index {
                    assert(split.children[k].content.wf());
                } else if k > index {
                    assert(split.children[k - 1].content.wf());
                }
            }
        }
    }
}

/// A well formed container stays so when a pane goes.
pub proof fn lemma_removed_wf(split: SplitView, index: int)
    requires
        0 <= index < split.children.len(),
    ensures
        split.wf() ==> (SplitView { children: split.children.remove(index), ..split }).wf(),
        (SplitView { children: split.children.remove(index), ..split }).ids()
            == split.ids().remove(index),
{
    let after = SplitView { children: split.children.remove(index), ..split };
    assert(after.ids() =~= split.ids().remove(index));
    if split.wf() {
        assert forall|a: int, b: int|
            0 <= a < after.ids().len() && 0 <= b < after.ids().len() && a != b implies after.ids()[a]
            != after.ids()[b] by {
            let oa = if a < index {
                a
            } else {
                a + 1
            };
            let ob = if b < index {
                b
            } else {
                b + 1
            };
            assert(split.ids()[oa] == after.ids()[a]);
            assert(split.ids()[ob] == after.ids()[b]);
        }
        assert forall|k: int| 0 <= k < after.children.len() implies (
        #[trigger] after.children[k]).content.wf() by {
            if k < index {
                assert(split.children[k].content.wf());
            } else {
                assert(split.children[k + 1].content.wf());
            }
        }
    }
}

} // verus!
