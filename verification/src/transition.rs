//! What each operation of a split container does, as mathematics: from the
//! container and the registry before it to both after it, and to the
//! requests that it sends out.
//!
//! An operation that names a pane looks the pane up by its identity at that
//! moment. Where no pane has the identity, nothing happens.

use vstd::prelude::*;
use crate::empty_state::{entry_rects, first_hit};
use crate::geometry::Point;
use crate::registry::{EditorState, RegistryView, TerminalRef};
use crate::split::{
    lemma_evened_wf, lemma_inserted_wf, lemma_removed_wf, ChildView, ContentView, LeafContent,
    LeafKind, SplitDirection, SplitMoveDirection, SplitView,
};

verus! {

/// A request that a split container sends out.
#[derive(Clone, Copy, Debug, PartialEq, Eq, Structural)]
pub enum SplitEffect {
    /// Give the focus to the pane, or to the container, with this identity.
    Focus(u64),
    /// Scroll the pane with this identity so that its cursor is visible.
    EnsureVisible(u64),
    /// Scroll the pane with this identity to the given offsets.
    RestoreScrollOffset(u64, i64, i64),
    /// The rectangles of the panes are out of date.
    LayoutInvalidated,
    /// Panes were added or removed.
    ChildrenChanged,
    /// The container with this identity takes the keyboard focus itself.
    TakeFocus(u64),
    /// The key press is dealt with here: pass it to the key bindings and to
    /// nothing else.
    HandleKeyDown,
    /// Run the command of the list of an empty container at this index.
    RunCommand(usize),
    /// Show the pointer that marks something to click on.
    SetCursorPointer,
    /// Show the ordinary pointer.
    ClearCursor,
}

/// The end of an operation.
pub struct Outcome {
    pub split: SplitView,
    pub registry: RegistryView,
    pub effects: Seq<SplitEffect>,
}

/// Nothing happens.
pub open spec fn unchanged(split: SplitView, registry: RegistryView) -> Outcome {
    Outcome { split, registry, effects: Seq::empty() }
}

/// The index of the pane that gets the focus when pane `i` of `len` panes
/// goes: the next one, or the one before where `i` is the last.
pub open spec fn heir(len: int, i: int) -> int {
    if i >= len - 1 {
        i - 1
    } else {
        i + 1
    }
}

/// The container without pane `i`, the weights evened.
pub open spec fn without(split: SplitView, i: int) -> SplitView {
    (SplitView { children: split.children.remove(i), ..split }).evened()
}

/// The container with `child` at `index`, the weights evened.
pub open spec fn with_pane(split: SplitView, index: int, child: ChildView) -> SplitView {
    (SplitView { children: split.children.insert(index, child), ..split }).evened()
}

/// The container with panes `i` and `i + 1` in each other's place.
pub open spec fn exchanged(split: SplitView, i: int) -> SplitView {
    SplitView {
        children: split.children.update(i, split.children[i + 1]).update(
            i + 1,
            split.children[i],
        ),
        ..split
    }
}

/// A new flexible pane of weight 1 with content of kind `kind` that takes
/// whatever it is offered.
pub open spec fn new_pane(id: u64, kind: LeafKind) -> ChildView {
    ChildView::fresh(id, ContentView::Leaf(LeafContent::spec_filling(kind)), true, 1)
}

/// Whether `id` is the identity of no pane of the container and of no pane
/// that the registry tracks.
pub open spec fn is_new(split: SplitView, registry: RegistryView, id: u64) -> bool {
    !split.has_child(id) && !registry.tracks(id)
}

/// Closing the editor pane `id`.
///
/// The pane goes, from the container and from the registry, the weights are
/// evened and the registry gets the new order. The focus goes to the next
/// pane, or to the one before where the pane was the last. Where it was the
/// only pane, no editor pane is active any more and the focus goes to the
/// container.
pub open spec fn close_editor(split: SplitView, registry: RegistryView, id: u64) -> Outcome {
    let i = split.index_of(id);
    let len = split.children.len() as int;
    if !split.has_child(id) {
        unchanged(split, registry)
    } else {
        let after = without(split, i);
        Outcome {
            split: after,
            registry: RegistryView {
                editors: registry.editors.remove(id),
                order: after.ids(),
                active: if len > 1 {
                    registry.active
                } else {
                    None
                },
                ..registry
            },
            effects: seq![
                SplitEffect::Focus(
                    if len > 1 {
                        split.children[heir(len, i)].id
                    } else {
                        split.split_id
                    },
                ),
                SplitEffect::ChildrenChanged,
            ],
        }
    }
}

/// Exchanging the pane `id` with the pane behind it.
///
/// Nothing happens where the pane is the last. Else the two panes change
/// places, the focus goes to the pane that was behind, and the registry
/// gets the new order where it tracks the pane `id`.
pub open spec fn exchange(split: SplitView, registry: RegistryView, id: u64) -> Outcome {
    let i = split.index_of(id);
    let len = split.children.len() as int;
    if !split.has_child(id) || i >= len - 1 {
        unchanged(split, registry)
    } else {
        let after = exchanged(split, i);
        Outcome {
            split: after,
            registry: if registry.tracks(id) {
                RegistryView { order: after.ids(), ..registry }
            } else {
                registry
            },
            effects: seq![
                SplitEffect::Focus(split.children[i + 1].id),
                SplitEffect::LayoutInvalidated,
            ],
        }
    }
}

/// Whether `direction` points along the axis of a container with dividers
/// in direction `axis`.
pub open spec fn along(axis: SplitDirection, direction: SplitMoveDirection) -> bool {
    match axis {
        SplitDirection::Vertical => direction == SplitMoveDirection::Left || direction
            == SplitMoveDirection::Right,
        SplitDirection::Horizontal => direction == SplitMoveDirection::Up || direction
            == SplitMoveDirection::Down,
    }
}

/// Whether `direction` points to the pane before.
pub open spec fn backwards(direction: SplitMoveDirection) -> bool {
    direction == SplitMoveDirection::Left || direction == SplitMoveDirection::Up
}

/// The index to which the focus moves from pane `i` of `len` panes: one
/// back or one on along the axis, `i` itself at either end and for a
/// direction across the axis.
pub open spec fn move_target(
    axis: SplitDirection,
    direction: SplitMoveDirection,
    len: int,
    i: int,
) -> int {
    if !along(axis, direction) {
        i
    } else if backwards(direction) {
        if i == 0 {
            i
        } else {
            i - 1
        }
    } else {
        if i >= len - 1 {
            i
        } else {
            i + 1
        }
    }
}

/// Moving the focus from the pane `id` in `direction`.
///
/// Neither the container nor the registry changes. Where the focus moves,
/// the new pane is asked to take it and to show its cursor.
pub open spec fn move_focus(
    split: SplitView,
    registry: RegistryView,
    direction: SplitMoveDirection,
    id: u64,
) -> Outcome {
    let i = split.index_of(id);
    let len = split.children.len() as int;
    let target = move_target(split.direction, direction, len, i);
    if !split.has_child(id) || target == i {
        unchanged(split, registry)
    } else {
        Outcome {
            split,
            registry,
            effects: seq![
                SplitEffect::Focus(split.children[target].id),
                SplitEffect::EnsureVisible(split.children[target].id),
            ],
        }
    }
}

/// Splitting the editor pane `id`: a new editor pane `new_id` behind it
/// that shows the same document at the same place.
///
/// Nothing happens where the registry does not track the pane `id`, or
/// where `new_id` is in use. Else the new pane stands behind the pane `id`,
/// the weights are evened, the registry holds the new pane's state and the
/// new order, and the new pane is asked to scroll to where the pane `id`
/// is scrolled.
pub open spec fn split_editor(
    split: SplitView,
    registry: RegistryView,
    id: u64,
    new_id: u64,
) -> Outcome {
    let i = split.index_of(id);
    if !split.has_child(id) || !registry.tracks(id) || !is_new(split, registry, new_id) {
        unchanged(split, registry)
    } else {
        let from = registry.editors[id];
        let after = with_pane(split, i + 1, new_pane(new_id, LeafKind::Editor));
        Outcome {
            split: after,
            registry: RegistryView {
                editors: registry.editors.insert(
                    new_id,
                    EditorState {
                        content: from.content,
                        cursor: from.cursor,
                        scroll_x: 0,
                        scroll_y: 0,
                    },
                ),
                order: after.ids(),
                ..registry
            },
            effects: seq![
                SplitEffect::RestoreScrollOffset(new_id, from.scroll_x, from.scroll_y),
                SplitEffect::ChildrenChanged,
                SplitEffect::LayoutInvalidated,
            ],
        }
    }
}

/// Adding a pane for the editor `id` that the registry tracks already.
///
/// Nothing happens where the registry does not track `id`, or where a pane
/// has that identity. Else the new pane stands in front of all others, the
/// weights are evened, the registry gets the new order, and the new pane is
/// asked to take the focus.
pub open spec fn add_editor(split: SplitView, registry: RegistryView, id: u64) -> Outcome {
    if !registry.tracks(id) || split.has_child(id) {
        unchanged(split, registry)
    } else {
        let after = with_pane(split, 0, new_pane(id, LeafKind::Editor));
        Outcome {
            split: after,
            registry: RegistryView { order: after.ids(), ..registry },
            effects: seq![SplitEffect::ChildrenChanged, SplitEffect::Focus(id)],
        }
    }
}

/// Splitting the pane `id` for a terminal: a new pane `new_id` behind it
/// that shows the terminal `term_id`.
///
/// Nothing happens where no pane has the identity `id`, or where `new_id`
/// is in use. Else the new pane stands behind the pane `id`, the weights
/// are evened, and the registry records the terminal with its pane. The
/// order in the registry stays: it is the order of the editor panes.
pub open spec fn split_terminal(
    split: SplitView,
    registry: RegistryView,
    id: u64,
    term_id: u64,
    new_id: u64,
) -> Outcome {
    let i = split.index_of(id);
    if !split.has_child(id) || !is_new(split, registry, new_id) {
        unchanged(split, registry)
    } else {
        Outcome {
            split: with_pane(split, i + 1, new_pane(new_id, LeafKind::Terminal)),
            registry: RegistryView {
                terminals: registry.terminals.insert(term_id, new_id),
                ..registry
            },
            effects: seq![SplitEffect::ChildrenChanged, SplitEffect::LayoutInvalidated],
        }
    }
}

/// Closing the pane `id` that shows the terminal `term_id`.
///
/// The pane goes, the weights are evened, and the registry forgets the
/// terminal. The focus goes to the next pane, or to the one before where
/// the pane was the last. Where it was the only pane, the panel of the
/// terminals is hidden, and the focus goes to the editor pane that was
/// active last, if there is one.
pub open spec fn close_terminal(
    split: SplitView,
    registry: RegistryView,
    term_id: u64,
    id: u64,
) -> Outcome {
    let i = split.index_of(id);
    let len = split.children.len() as int;
    if !split.has_child(id) {
        unchanged(split, registry)
    } else if len == 1 {
        Outcome {
            split: without(split, i),
            registry: RegistryView {
                terminals: registry.terminals.remove(term_id),
                terminal_shown: false,
                ..registry
            },
            effects: match registry.active {
                Some(active) => seq![SplitEffect::ChildrenChanged, SplitEffect::Focus(active)],
                None => seq![SplitEffect::ChildrenChanged],
            },
        }
    } else {
        Outcome {
            split: without(split, i),
            registry: RegistryView {
                terminals: registry.terminals.remove(term_id),
                ..registry
            },
            effects: seq![
                SplitEffect::Focus(split.children[heir(len, i)].id),
                SplitEffect::ChildrenChanged,
            ],
        }
    }
}

/// Opening the first terminal in the panel of the terminals: a pane
/// `widget_id` in front of all others that shows the terminal `term_id`.
///
/// Nothing happens where the registry records a terminal already, or where
/// `widget_id` is in use. Else the registry records the terminal with its
/// pane, as the one that is active, and the pane is asked to take the focus
/// where `focus` says so. The weights stay as they are.
pub open spec fn init_terminal_panel(
    split: SplitView,
    registry: RegistryView,
    focus: bool,
    term_id: u64,
    widget_id: u64,
) -> Outcome {
    if registry.terminals.dom().len() != 0 || !is_new(split, registry, widget_id) {
        unchanged(split, registry)
    } else {
        Outcome {
            split: SplitView {
                children: split.children.insert(0, new_pane(widget_id, LeafKind::Terminal)),
                ..split
            },
            registry: RegistryView {
                terminals: registry.terminals.insert(term_id, widget_id),
                active_terminal: Some(TerminalRef { widget_id, term_id }),
                ..registry
            },
            effects: if focus {
                seq![SplitEffect::Focus(widget_id), SplitEffect::ChildrenChanged]
            } else {
                seq![SplitEffect::ChildrenChanged]
            },
        }
    }
}

/// Something that happens to a split container.
#[derive(Clone, Copy, Debug, PartialEq, Eq, Structural)]
pub enum SplitEvent {
    /// The pointer moved to this place.
    MouseMove(Point),
    /// A mouse button went down at this place.
    MouseDown(Point),
    /// A key went down.
    KeyDown,
    /// The container is asked to take the focus.
    Focus,
    /// Add a pane for this editor.
    SplitAddEditor(u64),
    /// Split the editor pane with the second identity; the third is that of
    /// the new pane. The first value hints at an axis.
    SplitEditor(bool, u64, u64),
    /// Move the focus from this pane in this direction.
    SplitEditorMove(SplitMoveDirection, u64),
    /// Exchange this pane with the pane behind it.
    SplitEditorExchange(u64),
    /// Close this editor pane.
    SplitEditorClose(u64),
    /// Split the pane with the second identity for the terminal with the
    /// third; the fourth is that of the new pane. The first value hints at
    /// an axis.
    SplitTerminal(bool, u64, u64, u64),
    /// Close the pane with the second identity, which shows the terminal
    /// with the first.
    SplitTerminalClose(u64, u64),
    /// Open the first terminal (the second value) in the pane with the
    /// third value as its identity, and give it the focus where the first
    /// value says so.
    InitTerminalPanel(bool, u64, u64),
    /// Anything else.
    Other,
}

/// Where the pointer is over an empty container: over one of the commands
/// or not.
pub open spec fn pointer_over(split: SplitView, p: Point) -> Seq<SplitEffect> {
    if split.children.len() != 0 {
        Seq::empty()
    } else if first_hit(entry_rects(split.commands), p) < split.commands.len() {
        seq![SplitEffect::SetCursorPointer]
    } else {
        seq![SplitEffect::ClearCursor]
    }
}

/// What a click on an empty container runs: the first command whose
/// description holds the place of the click.
pub open spec fn click_at(split: SplitView, p: Point) -> Seq<SplitEffect> {
    if split.children.len() == 0 && first_hit(entry_rects(split.commands), p)
        < split.commands.len() {
        seq![SplitEffect::RunCommand(first_hit(entry_rects(split.commands), p) as usize)]
    } else {
        Seq::empty()
    }
}

/// What a key press does: an empty container deals with it by the key
/// bindings, any other leaves it to its panes.
pub open spec fn key_down(split: SplitView) -> Seq<SplitEffect> {
    if split.children.len() == 0 {
        seq![SplitEffect::HandleKeyDown]
    } else {
        Seq::empty()
    }
}

/// What `event` does to a container and a registry.
pub open spec fn handle(split: SplitView, registry: RegistryView, event: SplitEvent) -> Outcome {
    match event {
        SplitEvent::MouseMove(p) => Outcome { split, registry, effects: pointer_over(split, p) },
        SplitEvent::MouseDown(p) => Outcome { split, registry, effects: click_at(split, p) },
        SplitEvent::KeyDown => Outcome { split, registry, effects: key_down(split) },
        SplitEvent::Focus => Outcome {
            split,
            registry,
            effects: seq![SplitEffect::TakeFocus(split.split_id)],
        },
        SplitEvent::SplitAddEditor(id) => add_editor(split, registry, id),
        SplitEvent::SplitEditor(_, id, new_id) => split_editor(split, registry, id, new_id),
        SplitEvent::SplitEditorMove(direction, id) => move_focus(split, registry, direction, id),
        SplitEvent::SplitEditorExchange(id) => exchange(split, registry, id),
        SplitEvent::SplitEditorClose(id) => close_editor(split, registry, id),
        SplitEvent::SplitTerminal(_, id, term_id, new_id) => split_terminal(
            split,
            registry,
            id,
            term_id,
            new_id,
        ),
        SplitEvent::SplitTerminalClose(term_id, id) => close_terminal(split, registry, term_id, id),
        SplitEvent::InitTerminalPanel(focus, term_id, widget_id) => init_terminal_panel(
            split,
            registry,
            focus,
            term_id,
            widget_id,
        ),
        SplitEvent::Other => unchanged(split, registry),
    }
}

impl ContentView {
    /// Whether the content is, or holds somewhere inside, the container
    /// with identity `target`.
    pub open spec fn holds_split(self, target: u64) -> bool
        decreases self, 0int, 0int,
    {
        match self {
            ContentView::Leaf(_) => false,
            ContentView::Nested(inner) => inner.holds_split(target),
        }
    }
}

impl SplitView {
    /// The index of the first pane at or after `from` that holds the
    /// container with identity `target`, or the number of panes where none
    /// does.
    pub open spec fn holder_from(self, target: u64, from: int) -> int
        decreases self, 1int, self.children.len() - from,
    {
        if from < 0 || from >= self.children.len() {
            self.children.len() as int
        } else if self.children[from].content.holds_split(target) {
            from
        } else {
            self.holder_from(target, from + 1)
        }
    }

    /// Whether this is, or holds somewhere inside, the container with
    /// identity `target`.
    pub open spec fn holds_split(self, target: u64) -> bool
        decreases self, 2int, 0int,
    {
        self.split_id == target || self.holder_from(target, 0) < self.children.len()
    }

    /// The container with `inner` as the content of pane `k`.
    pub open spec fn with_nested(self, k: int, inner: SplitView) -> SplitView {
        SplitView {
            children: self.children.update(
                k,
                ChildView { content: ContentView::Nested(Box::new(inner)), ..self.children[k] },
            ),
            ..self
        }
    }

    /// What `event` does where it is sent to the container with identity
    /// `target`: this container answers it where it has that identity;
    /// else the first pane that holds such a container passes it on; and
    /// where there is none, nothing happens.
    pub open spec fn route(self, registry: RegistryView, target: u64, event: SplitEvent) -> Outcome
        decreases self,
    {
        let k = self.holder_from(target, 0);
        if self.split_id == target {
            handle(self, registry, event)
        } else if 0 <= k < self.children.len() {
            match self.children[k].content {
                ContentView::Nested(inner) => {
                    let below = inner.route(registry, target, event);
                    Outcome {
                        split: self.with_nested(k, below.split),
                        registry: below.registry,
                        effects: below.effects,
                    }
                },
                ContentView::Leaf(_) => unchanged(self, registry),
            }
        } else {
            unchanged(self, registry)
        }
    }
}

/// What [`SplitView::holder_from`] finds is the first pane at or after
/// `from` that holds the container, and such a pane holds a container.
pub proof fn lemma_holder_from(split: SplitView, target: u64, from: int)
    requires
        0 <= from <= split.children.len(),
    ensures
        from <= split.holder_from(target, from) <= split.children.len(),
        split.holder_from(target, from) < split.children.len() ==> split.children[split.holder_from(
            target,
            from,
        )].content.holds_split(target) && split.children[split.holder_from(target, from)].content
            is Nested,
        forall|j: int|
            from <= j < split.holder_from(target, from) ==> !(
            #[trigger] split.children[j]).content.holds_split(target),
    decreases split.children.len() - from,
{
    if from < split.children.len() && !split.children[from].content.holds_split(target) {
        lemma_holder_from(split, target, from + 1);
    }
}

/// A well formed container stays so when a pane goes and the weights are
/// evened.
pub proof fn lemma_without_wf(split: SplitView, index: int)
    requires
        0 <= index < split.children.len(),
    ensures
        split.wf() ==> without(split, index).wf(),
        without(split, index).ids() == split.ids().remove(index),
{
    lemma_removed_wf(split, index);
    lemma_evened_wf(SplitView { children: split.children.remove(index), ..split });
}

/// A well formed container stays so when a new pane comes in and the
/// weights are evened.
pub proof fn lemma_with_pane_wf(split: SplitView, index: int, id: u64, kind: LeafKind)
    requires
        0 <= index <= split.children.len(),
        !split.has_child(id),
    ensures
        split.wf() ==> with_pane(split, index, new_pane(id, kind)).wf(),
        with_pane(split, index, new_pane(id, kind)).ids() == split.ids().insert(index, id),
{
    lemma_inserted_wf(split, index, new_pane(id, kind));
    lemma_evened_wf(split.inserted(index, new_pane(id, kind)));
}

/// A well formed container stays so when two panes change places.
pub proof fn lemma_exchanged_wf(split: SplitView, index: int)
    requires
        0 <= index,
        index + 1 < split.children.len(),
    ensures
        split.wf() ==> exchanged(split, index).wf(),
        exchanged(split, index).ids() == split.ids().update(index, split.ids()[index + 1]).update(
            index + 1,
            split.ids()[index],
        ),
{
    let after = exchanged(split, index);
    assert(after.ids() =~= split.ids().update(index, split.ids()[index + 1]).update(
        index + 1,
        split.ids()[index],
    ));
    if split.wf() {
        assert forall|a: int, b: int|
            0 <= a < after.ids().len() && 0 <= b < after.ids().len() && a != b implies after.ids()[a]
            != after.ids()[b] by {
            let oa = if a == index {
                index + 1
            } else if a == index + 1 {
                index
            } else {
                a
            };
            let ob = if b == index {
                index + 1
            } else if b == index + 1 {
                index
            } else {
                b
            };
            assert(split.ids()[oa] == after.ids()[a]);
            assert(split.ids()[ob] == after.ids()[b]);
        }
        assert forall|k: int| 0 <= k < after.children.len() implies (
        #[trigger] after.children[k]).content.wf() by {
            let ok = if k == index {
                index + 1
            } else if k == index + 1 {
                index
            } else {
                k
            };
            assert(split.children[ok].content.wf());
        }
    }
}

} // verus!
