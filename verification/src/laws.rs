//! What holds of a split container whatever is done to it.

use vstd::prelude::*;
use crate::empty_state::EnvView;
use crate::flex::{equal_weights, extent_sum, flex_extent, lemma_equal_weights_extents};
use crate::geometry::Size;
use crate::registry::RegistryView;
use crate::sizing::{lemma_child_box, lemma_structure_child, lemma_structure_sums};
use crate::split::{
    lemma_evened_wf, lemma_index_of, lemma_inserted_wf, ContentView, LeafKind,
    SplitMoveDirection, SplitView,
};
use crate::transition::{
    backwards, close_editor, handle, lemma_exchanged_wf, lemma_holder_from, lemma_with_pane_wf,
    lemma_without_wf, move_focus, new_pane, unchanged, Outcome, SplitEffect, SplitEvent,
};

verus! {

/// Whether the order of the registry and the order of the panes agree on
/// the panes that the registry tracks.
pub open spec fn in_step(split: SplitView, registry: RegistryView) -> bool {
    registry.tracked_of(registry.order) == registry.tracked_of(split.ids())
}

/// What a sequence of events leaves: each event is answered in the state
/// that the events before it left, and the requests are sent in order.
pub open spec fn run(split: SplitView, registry: RegistryView, events: Seq<SplitEvent>) -> Outcome
    decreases events.len(),
{
    if events.len() == 0 {
        unchanged(split, registry)
    } else {
        let before = run(split, registry, events.drop_last());
        let last = handle(before.split, before.registry, events.last());
        Outcome {
            split: last.split,
            registry: last.registry,
            effects: before.effects + last.effects,
        }
    }
}

/// A new container and a new registry are in step.
pub proof fn lemma_new_in_step(split_id: u64)
    ensures
        in_step(SplitView::empty(split_id), RegistryView::empty()),
        SplitView::empty(split_id).wf(),
{
    assert(SplitView::empty(split_id).ids() =~= Seq::<u64>::empty());
    assert(RegistryView::empty().order =~= Seq::<u64>::empty());
}

/// Taking one element out of a sequence that a filter drops leaves what the
/// filter keeps.
proof fn lemma_filter_remove(s: Seq<u64>, i: int, pred: spec_fn(u64) -> bool)
    requires
        0 <= i < s.len(),
        !pred(s[i]),
    ensures
        s.remove(i).filter(pred) == s.filter(pred),
{
    reveal_with_fuel(Seq::filter, 2);
    let a = s.subrange(0, i);
    let x = seq![s[i]];
    let b = s.subrange(i + 1, s.len() as int);
    assert(s =~= a + x + b);
    assert(s.remove(i) =~= a + b);
    assert(x.drop_last() =~= Seq::<u64>::empty());
    assert(x.filter(pred) =~= Seq::<u64>::empty());
    Seq::filter_distributes_over_add(a, x, pred);
    Seq::filter_distributes_over_add(a + x, b, pred);
    Seq::filter_distributes_over_add(a, b, pred);
    assert(a.filter(pred) + x.filter(pred) =~= a.filter(pred));
}

/// Putting an element into a sequence that a filter drops leaves what the
/// filter keeps.
proof fn lemma_filter_insert(s: Seq<u64>, i: int, x: u64, pred: spec_fn(u64) -> bool)
    requires
        0 <= i <= s.len(),
        !pred(x),
    ensures
        s.insert(i, x).filter(pred) == s.filter(pred),
{
    let t = s.insert(i, x);
    assert(t.remove(i) =~= s);
    lemma_filter_remove(t, i, pred);
}

/// Exchanging two neighbours of which a filter drops the first leaves what
/// the filter keeps.
proof fn lemma_filter_exchange(s: Seq<u64>, i: int, pred: spec_fn(u64) -> bool)
    requires
        0 <= i,
        i + 1 < s.len(),
        !pred(s[i]),
    ensures
        s.update(i, s[i + 1]).update(i + 1, s[i]).filter(pred) == s.filter(pred),
{
    let t = s.update(i, s[i + 1]).update(i + 1, s[i]);
    assert(t.remove(i + 1) =~= s.remove(i));
    lemma_filter_remove(t, i + 1, pred);
    lemma_filter_remove(s, i, pred);
}

/// One event keeps the orders in step.
///
/// The one exception is the closing of a terminal pane: it leaves the
/// order of the registry alone, so the pane that goes must be one that the
/// registry does not track.
pub proof fn lemma_step_keeps_in_step(split: SplitView, registry: RegistryView, event: SplitEvent)
    requires
        in_step(split, registry),
        event matches SplitEvent::SplitTerminalClose(_, id) ==> !registry.tracks(id),
    ensures
        in_step(handle(split, registry, event).split, handle(split, registry, event).registry),
{
    let after = handle(split, registry, event);
    let pred = |id: u64| registry.editors.contains_key(id);
    match event {
        SplitEvent::SplitEditorExchange(id) => {
            lemma_index_of(split, id);
            let i = split.index_of(id);
            if split.has_child(id) && i < split.children.len() - 1 && !registry.tracks(id) {
                assert(split.ids()[i] == id);
                assert(after.split.ids() =~= split.ids().update(i, split.ids()[i + 1]).update(
                    i + 1,
                    split.ids()[i],
                ));
                lemma_filter_exchange(split.ids(), i, pred);
            }
        },
        SplitEvent::SplitTerminal(_, id, _, new_id) => {
            lemma_index_of(split, id);
            let i = split.index_of(id);
            if after.split != split {
                let grown = SplitView {
                    children: split.children.insert(i + 1, new_pane(new_id, LeafKind::Terminal)),
                    ..split
                };
                lemma_evened_wf(grown);
                assert(grown.ids() =~= split.ids().insert(i + 1, new_id));
                lemma_filter_insert(split.ids(), i + 1, new_id, pred);
            }
        },
        SplitEvent::InitTerminalPanel(_, _, widget_id) => {
            if after.split != split {
                assert(after.split.ids() =~= split.ids().insert(0, widget_id));
                lemma_filter_insert(split.ids(), 0, widget_id, pred);
            }
        },
        SplitEvent::SplitTerminalClose(_, id) => {
            lemma_index_of(split, id);
            let i = split.index_of(id);
            if split.has_child(id) {
                let shrunk = SplitView { children: split.children.remove(i), ..split };
                lemma_evened_wf(shrunk);
                assert(shrunk.ids() =~= split.ids().remove(i));
                assert(split.ids()[i] == id);
                lemma_filter_remove(split.ids(), i, pred);
            }
        },
        _ => {},
    }
}

/// The order invariant: where the order of the registry and the order of
/// the panes agree on the panes that the registry tracks, they still do
/// after any sequence of events that split, close, exchange or move, or do
/// anything else but close a terminal pane.
pub proof fn lemma_order_invariant(
    split: SplitView,
    registry: RegistryView,
    events: Seq<SplitEvent>,
)
    requires
        in_step(split, registry),
        forall|i: int| 0 <= i < events.len() ==> !(events[i] is SplitTerminalClose),
    ensures
        in_step(run(split, registry, events).split, run(split, registry, events).registry),
    decreases events.len(),
{
    if events.len() > 0 {
        lemma_order_invariant(split, registry, events.drop_last());
        let before = run(split, registry, events.drop_last());
        assert(!(events[events.len() - 1] is SplitTerminalClose));
        lemma_step_keeps_in_step(before.split, before.registry, events.last());
    }
}

/// A well formed container stays so whatever events it answers.
pub proof fn lemma_run_keeps_wf(split: SplitView, registry: RegistryView, events: Seq<SplitEvent>)
    requires
        split.wf(),
    ensures
        run(split, registry, events).split.wf(),
    decreases events.len(),
{
    if events.len() > 0 {
        lemma_run_keeps_wf(split, registry, events.drop_last());
        let before = run(split, registry, events.drop_last());
        lemma_step_keeps_wf(before.split, before.registry, events.last());
    }
}

/// A well formed container stays so when it answers an event.
pub proof fn lemma_step_keeps_wf(split: SplitView, registry: RegistryView, event: SplitEvent)
    requires
        split.wf(),
    ensures
        handle(split, registry, event).split.wf(),
{
    match event {
        SplitEvent::SplitAddEditor(id) => {
            if !split.has_child(id) {
                lemma_with_pane_wf(split, 0, id, LeafKind::Editor);
            }
        },
        SplitEvent::SplitEditor(_, id, new_id) => {
            lemma_index_of(split, id);
            if split.has_child(id) && !split.has_child(new_id) {
                lemma_with_pane_wf(
                    split,
                    split.index_of(id) + 1,
                    new_id,
                    LeafKind::Editor,
                );
            }
        },
        SplitEvent::SplitEditorExchange(id) => {
            lemma_index_of(split, id);
            if split.has_child(id) && split.index_of(id) < split.children.len() - 1 {
                lemma_exchanged_wf(split, split.index_of(id));
            }
        },
        SplitEvent::SplitEditorClose(id) => {
            lemma_index_of(split, id);
            if split.has_child(id) {
                lemma_without_wf(split, split.index_of(id));
            }
        },
        SplitEvent::SplitTerminal(_, id, _, new_id) => {
            lemma_index_of(split, id);
            if split.has_child(id) && !split.has_child(new_id) {
                lemma_with_pane_wf(
                    split,
                    split.index_of(id) + 1,
                    new_id,
                    LeafKind::Terminal,
                );
            }
        },
        SplitEvent::SplitTerminalClose(_, id) => {
            lemma_index_of(split, id);
            if split.has_child(id) {
                lemma_without_wf(split, split.index_of(id));
            }
        },
        SplitEvent::InitTerminalPanel(_, _, widget_id) => {
            if !split.has_child(widget_id) {
                lemma_inserted_wf(
                    split,
                    0,
                    new_pane(widget_id, LeafKind::Terminal),
                );
            }
        },
        _ => {},
    }
}

/// Every pane of a container whose panes are all flexible gets its share of
/// all that is available.
pub proof fn lemma_all_flex_budget(split: SplitView, avail: Size, n: int)
    requires
        forall|k: int| 0 <= k < split.children.len() ==> (#[trigger] split.children[k]).flex,
        0 <= n <= split.children.len(),
    ensures
        split.fixed_total(avail, n) == 0,
    decreases n,
{
    if n > 0 {
        lemma_all_flex_budget(split, avail, n - 1);
        assert(split.children[n - 1].flex);
    }
}

/// Flex conservation with equal weights: where every pane of a container is
/// flexible and all weights are the same and above 0, every pane but the
/// last is offered the available extent divided by the number of panes,
/// rounded down, the last pane is offered that and the remainder of the
/// division, and together they are offered exactly the available extent.
pub proof fn lemma_equal_weights_layout(split: SplitView, avail: Size, w: u32, k: int)
    requires
        equal_weights(split.children, w as int),
        w > 0,
        0 <= k < split.children.len(),
    ensures
        split.budget(avail) == split.direction.main_of(avail),
        k < split.children.len() - 1 ==> split.direction.main_of(split.child_box(avail, k))
            == split.direction.main_of(avail) as int / (split.children.len() as int),
        k == split.children.len() - 1 ==> split.direction.main_of(split.child_box(avail, k))
            == split.direction.main_of(avail) as int / (split.children.len() as int)
            + split.direction.main_of(avail) as int % (split.children.len() as int),
        extent_sum(
            split.children,
            split.direction.main_of(avail) as int,
            split.children.len() as int,
        ) == split.direction.main_of(avail),
{
    let n = split.children.len() as int;
    let main = split.direction.main_of(avail) as int;
    assert forall|j: int| 0 <= j < split.children.len() implies (#[trigger] split.children[j]).flex by {
        assert(split.children[j].flex && split.children[j].params == w);
    }
    lemma_all_flex_budget(split, avail, n);
    lemma_child_box(split, avail, k);
    assert(split.children[k].flex);
    lemma_equal_weights_extents(split.children, w as int, main, k);
    assert(main / n <= main) by (nonlinear_arith)
        requires
            0 <= main,
            n > 0,
    ;
    assert(flex_extent(split.children, main, k) <= main) by {
        crate::flex::lemma_flex_extent_bounds(split.children, main, k);
    }
}

/// Close to empty: closing the only pane of a container leaves the
/// container empty, and a layout of it fits whatever is available, reports
/// all of it, and computes the list of commands.
pub proof fn lemma_close_only_child(
    split: SplitView,
    registry: RegistryView,
    avail: Size,
    env: EnvView,
)
    requires
        split.children.len() == 1,
    ensures
        ({
            let after = close_editor(split, registry, split.children[0].id);
            &&& after.split.children.len() == 0
            &&& after.registry.order.len() == 0
            &&& after.registry.active.is_none()
            &&& after.effects == seq![
                SplitEffect::Focus(split.split_id),
                SplitEffect::ChildrenChanged,
            ]
            &&& after.split.fits(avail)
            &&& after.split.measure(avail) == avail
            &&& after.split.laid_out(avail, env).commands == env.entries(avail)
            &&& after.split.laid_out(avail, env).children.len() == 0
        }),
{
    let id = split.children[0].id;
    assert(split.ids()[0] == id);
    lemma_index_of(split, id);
    let after = close_editor(split, registry, id);
    assert(after.split.children =~= Seq::empty());
    assert(after.registry.order =~= Seq::empty());
}

/// Move at the boundary: moving the focus from the first pane towards the
/// pane before it changes neither the panes nor the registry, and asks for
/// no change of focus.
pub proof fn lemma_move_before_first(
    split: SplitView,
    registry: RegistryView,
    direction: SplitMoveDirection,
)
    requires
        split.children.len() > 0,
        backwards(direction),
    ensures
        move_focus(split, registry, direction, split.children[0].id) == unchanged(split, registry),
{
    assert(split.ids()[0] == split.children[0].id);
}

/// Moving the focus from the last pane towards the pane behind it changes
/// nothing either, where the identities of the panes differ.
pub proof fn lemma_move_behind_last(
    split: SplitView,
    registry: RegistryView,
    direction: SplitMoveDirection,
)
    requires
        split.children.len() > 0,
        split.wf(),
        !backwards(direction),
    ensures
        move_focus(split, registry, direction, split.children.last().id) == unchanged(
            split,
            registry,
        ),
{
    let last = split.children.len() - 1;
    let id = split.children.last().id;
    assert(split.ids()[last] == id);
    lemma_index_of(split, id);
    let i = split.index_of(id);
    assert(split.ids()[i] == id);
    assert(i == last);
}

/// A well formed container stays so when an event is sent to it or to a
/// container inside it.
pub proof fn lemma_route_keeps_wf(
    split: SplitView,
    registry: RegistryView,
    target: u64,
    event: SplitEvent,
)
    requires
        split.wf(),
    ensures
        split.route(registry, target, event).split.wf(),
    decreases split,
{
    let k = split.holder_from(target, 0);
    if split.split_id == target {
        lemma_step_keeps_wf(split, registry, event);
    } else if 0 <= k < split.children.len() {
        lemma_holder_from(split, target, 0);
        match split.children[k].content {
            ContentView::Nested(inner) => {
                assert(split.children[k].content.wf());
                lemma_route_keeps_wf(*inner, registry, target, event);
                let after = split.route(registry, target, event).split;
                assert(after.ids() =~= split.ids());
                assert forall|j: int| 0 <= j < after.children.len() implies (
                #[trigger] after.children[j]).content.wf() by {
                    if j != k {
                        assert(split.children[j].content.wf());
                    }
                }
            },
            _ => {},
        }
    }
}

/// Whether every flexible pane has the weight 1.
pub open spec fn evenly_weighted(split: SplitView) -> bool {
    forall|k: int|
        0 <= k < split.children.len() && (#[trigger] split.children[k]).flex
            ==> split.children[k].params == 1
}

/// Whether `event` asks for a pane to come or go, and for the weights to
/// be evened with that.
pub open spec fn evens(event: SplitEvent) -> bool {
    event is SplitAddEditor || event is SplitEditor || event is SplitEditorClose
        || event is SplitTerminal || event is SplitTerminalClose
}

/// The weights are evened with every pane that comes or goes: after an
/// event that adds or removes a pane, every flexible pane has the weight 1.
pub proof fn lemma_weights_evened(split: SplitView, registry: RegistryView, event: SplitEvent)
    requires
        evens(event),
        handle(split, registry, event).split.children.len() != split.children.len(),
    ensures
        evenly_weighted(handle(split, registry, event).split),
{
}

/// Identical panes in an identical available size get identical
/// placements: where two containers differ in nothing but what earlier
/// layouts left in them, a layout gives pane `k` of the one the rectangle
/// that it gives pane `k` of the other.
pub proof fn lemma_same_panes_same_placements(
    a: SplitView,
    b: SplitView,
    avail: Size,
    env: EnvView,
    k: int,
)
    requires
        a.same_structure(b),
        0 <= k < a.children.len(),
    ensures
        a.laid_out(avail, env).children[k].layout_rect == b.laid_out(
            avail,
            env,
        ).children[k].layout_rect,
{
    lemma_structure_child(a, b, avail, k);
    lemma_structure_sums(a, b, avail, k);
}

} // verus!
