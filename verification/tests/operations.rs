use lapce_core::empty_state::EmptyStateEnv;
use lapce_core::geometry::{Point, Size};
use lapce_core::keypress::Platform;
use lapce_core::registry::{EditorState, PaneRegistry, TerminalRef};
use lapce_core::split::{
    LapceSplitNew, LeafContent, LeafKind, PaneContent, SplitDirection, SplitMoveDirection,
};
use lapce_core::transition::{SplitEffect, SplitEvent};

fn editor() -> PaneContent {
    PaneContent::leaf(LeafContent::filling(LeafKind::Editor))
}

fn state(content: u64) -> EditorState {
    EditorState { content, cursor: 3, scroll_x: 10, scroll_y: 20 }
}

/// A container with the editor panes `ids`, and a registry that tracks
/// them in that order.
fn editors(ids: &[u64]) -> (LapceSplitNew, PaneRegistry) {
    let mut split = LapceSplitNew::new(100);
    let mut registry = PaneRegistry::new();
    for id in ids {
        split = split.with_flex_child(editor(), *id, 1);
        registry.insert(*id, state(*id));
    }
    registry.set_order(ids.to_vec());
    (split, registry)
}

fn known(registry: &PaneRegistry, ids: &[u64]) -> Vec<u64> {
    ids.iter().copied().filter(|id| registry.contains(*id)).collect()
}

fn in_step(split: &LapceSplitNew, registry: &PaneRegistry) -> bool {
    known(registry, registry.order()) == known(registry, &split.ids())
}

fn weights(split: &LapceSplitNew) -> Vec<u32> {
    (0..split.len()).map(|i| split.child(i).params()).collect()
}

fn env() -> EmptyStateEnv {
    EmptyStateEnv {
        modal: true,
        has_workspace: true,
        line_height: 20,
        platform: Platform::Other,
        keymaps: Vec::new(),
        label_sizes: vec![Size::new(100, 14), Size::new(120, 14), Size::new(60, 14)],
    }
}

#[test]
fn new_container_is_empty_vertical_and_bordered() {
    let split = LapceSplitNew::new(7);
    assert_eq!(split.id(), 7);
    assert_eq!(split.len(), 0);
    assert!(split.is_empty());
    assert_eq!(split.axis(), SplitDirection::Vertical);
    assert!(split.shows_border());
    assert!(split.commands().is_empty());
    assert_eq!(split.ids(), Vec::<u64>::new());
}

#[test]
fn builders_set_axis_and_border() {
    let split = LapceSplitNew::new(7).horizontal();
    assert_eq!(split.axis(), SplitDirection::Horizontal);
    let split = split.direction(SplitDirection::Vertical);
    assert_eq!(split.axis(), SplitDirection::Vertical);
    let split = split.hide_border();
    assert!(!split.shows_border());
    assert_eq!(split.id(), 7);
}

#[test]
fn builders_add_panes_in_order() {
    let split = LapceSplitNew::new(1)
        .with_child(editor(), 5, 45)
        .with_flex_child(editor(), 6, 2);
    assert_eq!(split.ids(), vec![5, 6]);
    assert!(!split.child(0).is_flex());
    assert_eq!(split.child(0).params(), 45);
    assert_eq!(split.child(0).id(), 5);
    assert!(split.child(1).is_flex());
    assert_eq!(split.child(1).params(), 2);
    assert_eq!(split.child(1).layout_rect(), lapce_core::geometry::Rect::zero());
    match split.child(1).widget() {
        PaneContent::Leaf(leaf) => assert_eq!(*leaf, LeafContent::filling(LeafKind::Editor)),
        PaneContent::Nested(_) => panic!("the pane holds a leaf"),
    }
}

#[test]
fn a_second_pane_with_the_same_identity_is_not_added() {
    let mut split = LapceSplitNew::new(1)
        .with_flex_child(editor(), 5, 1)
        .with_flex_child(editor(), 5, 9)
        .with_child(editor(), 5, 9);
    assert_eq!(split.ids(), vec![5]);
    assert_eq!(split.child(0).params(), 1);
    split.insert_flex_child(0, editor(), 5, 3);
    assert_eq!(split.ids(), vec![5]);
    split.insert_flex_child(0, editor(), 6, 3);
    assert_eq!(split.ids(), vec![6, 5]);
    split.insert_flex_child(2, editor(), 7, 4);
    assert_eq!(split.ids(), vec![6, 5, 7]);
    assert_eq!(weights(&split), vec![3, 1, 4]);
}

#[test]
fn find_child_goes_by_identity() {
    let (split, _) = editors(&[4, 9, 2]);
    assert_eq!(split.find_child(4), Some(0));
    assert_eq!(split.find_child(9), Some(1));
    assert_eq!(split.find_child(2), Some(2));
    assert_eq!(split.find_child(3), None);
    assert_eq!(LapceSplitNew::new(1).find_child(0), None);
}

#[test]
fn evening_sets_flexible_weights_to_one() {
    let mut split = LapceSplitNew::new(1)
        .with_flex_child(editor(), 1, 5)
        .with_child(editor(), 2, 45)
        .with_flex_child(editor(), 3, 0);
    split.even_flex_children();
    assert_eq!(weights(&split), vec![1, 45, 1]);
    assert_eq!(split.ids(), vec![1, 2, 3]);
}

#[test]
fn exchange_of_the_middle_pane() {
    let (mut split, mut registry) = editors(&[10, 11, 12]);
    let effects = split.split_editor_exchange(&mut registry, 11);
    assert_eq!(split.ids(), vec![10, 12, 11]);
    assert_eq!(registry.order(), &vec![10, 12, 11]);
    assert_eq!(effects, vec![SplitEffect::Focus(12), SplitEffect::LayoutInvalidated]);
}

#[test]
fn exchange_of_the_last_pane_does_nothing() {
    let (mut split, mut registry) = editors(&[10, 11, 12]);
    let effects = split.split_editor_exchange(&mut registry, 12);
    assert_eq!(split.ids(), vec![10, 11, 12]);
    assert_eq!(registry.order(), &vec![10, 11, 12]);
    assert_eq!(effects, vec![]);
    let (mut single, mut registry) = editors(&[10]);
    assert_eq!(single.split_editor_exchange(&mut registry, 10), vec![]);
    assert_eq!(single.ids(), vec![10]);
}

#[test]
fn exchange_of_a_pane_that_the_registry_does_not_track_leaves_its_order() {
    let (mut split, mut registry) = editors(&[10, 11, 12]);
    registry.remove(11);
    registry.set_order(vec![10, 12]);
    let effects = split.split_editor_exchange(&mut registry, 11);
    assert_eq!(split.ids(), vec![10, 12, 11]);
    assert_eq!(registry.order(), &vec![10, 12]);
    assert_eq!(effects, vec![SplitEffect::Focus(12), SplitEffect::LayoutInvalidated]);
    assert!(in_step(&split, &registry));
}

#[test]
fn exchange_keeps_weights_with_their_panes() {
    let mut split = LapceSplitNew::new(1)
        .with_flex_child(editor(), 1, 5)
        .with_child(editor(), 2, 45);
    let mut registry = PaneRegistry::new();
    split.split_editor_exchange(&mut registry, 1);
    assert_eq!(split.ids(), vec![2, 1]);
    assert_eq!(weights(&split), vec![45, 5]);
    assert!(!split.child(0).is_flex());
}

#[test]
fn close_of_a_middle_pane_focuses_the_next() {
    let (mut split, mut registry) = editors(&[10, 11, 12]);
    registry.set_active(Some(11));
    let effects = split.split_editor_close(&mut registry, 11);
    assert_eq!(split.ids(), vec![10, 12]);
    assert_eq!(registry.order(), &vec![10, 12]);
    assert!(!registry.contains(11));
    assert_eq!(registry.get(11), None);
    assert_eq!(registry.active(), Some(11));
    assert_eq!(effects, vec![SplitEffect::Focus(12), SplitEffect::ChildrenChanged]);
}

#[test]
fn close_of_the_last_pane_focuses_the_one_before() {
    let (mut split, mut registry) = editors(&[10, 11, 12]);
    let effects = split.split_editor_close(&mut registry, 12);
    assert_eq!(split.ids(), vec![10, 11]);
    assert_eq!(effects, vec![SplitEffect::Focus(11), SplitEffect::ChildrenChanged]);
}

#[test]
fn close_evens_the_weights() {
    let mut split = LapceSplitNew::new(1)
        .with_flex_child(editor(), 1, 5)
        .with_flex_child(editor(), 2, 7)
        .with_child(editor(), 3, 45);
    let mut registry = PaneRegistry::new();
    split.split_editor_close(&mut registry, 1);
    assert_eq!(weights(&split), vec![1, 45]);
}

#[test]
fn close_of_the_only_pane_empties_the_container() {
    let (mut split, mut registry) = editors(&[10]);
    registry.set_active(Some(10));
    let effects = split.split_editor_close(&mut registry, 10);
    assert!(split.is_empty());
    assert_eq!(registry.order(), &Vec::<u64>::new());
    assert_eq!(registry.active(), None);
    assert_eq!(effects, vec![SplitEffect::Focus(100), SplitEffect::ChildrenChanged]);
    // A layout of the empty container is the list of its commands.
    assert_eq!(split.measure(Size::new(640, 480)), Some(Size::new(640, 480)));
    assert_eq!(split.try_layout(Size::new(640, 480), &env()), Some(Size::new(640, 480)));
    assert_eq!(split.commands().len(), 3);
    assert_eq!(split.commands()[0].rect.origin, Point::new(320 - 100, 240 + 40));
    assert_eq!(split.commands()[2].rect.origin, Point::new(320 - 60, 240 + 40 + 40));
}

#[test]
fn operations_on_a_pane_that_is_gone_do_nothing() {
    let (mut split, mut registry) = editors(&[10, 11]);
    assert_eq!(split.split_editor_close(&mut registry, 99), vec![]);
    assert_eq!(split.split_editor_exchange(&mut registry, 99), vec![]);
    assert_eq!(split.split_editor_move(&mut registry, &SplitMoveDirection::Right, 99), vec![]);
    assert_eq!(split.split_editor(&mut registry, true, 99, 50), vec![]);
    assert_eq!(split.split_terminal(&mut registry, true, 99, 1, 50), vec![]);
    assert_eq!(split.split_terminal_close(&mut registry, 1, 99), vec![]);
    assert_eq!(split.split_add_editor(&mut registry, 99), vec![]);
    assert_eq!(split.ids(), vec![10, 11]);
    assert_eq!(registry.order(), &vec![10, 11]);
    assert!(registry.contains(10) && registry.contains(11) && !registry.contains(50));
    let mut empty = LapceSplitNew::new(1);
    assert_eq!(empty.split_editor_close(&mut registry, 10), vec![]);
    assert_eq!(empty.split_editor_move(&mut registry, &SplitMoveDirection::Right, 10), vec![]);
    assert_eq!(empty.split_terminal_close(&mut registry, 1, 10), vec![]);
}

#[test]
fn move_along_a_vertical_container() {
    let (mut split, mut registry) = editors(&[10, 11, 12]);
    assert_eq!(
        split.split_editor_move(&mut registry, &SplitMoveDirection::Right, 10),
        vec![SplitEffect::Focus(11), SplitEffect::EnsureVisible(11)]
    );
    assert_eq!(
        split.split_editor_move(&mut registry, &SplitMoveDirection::Left, 12),
        vec![SplitEffect::Focus(11), SplitEffect::EnsureVisible(11)]
    );
    assert_eq!(
        split.split_editor_move(&mut registry, &SplitMoveDirection::Left, 11),
        vec![SplitEffect::Focus(10), SplitEffect::EnsureVisible(10)]
    );
    assert_eq!(split.ids(), vec![10, 11, 12]);
    assert_eq!(registry.order(), &vec![10, 11, 12]);
}

#[test]
fn move_at_either_end_does_nothing() {
    let (mut split, mut registry) = editors(&[10, 11, 12]);
    assert_eq!(split.split_editor_move(&mut registry, &SplitMoveDirection::Left, 10), vec![]);
    assert_eq!(split.split_editor_move(&mut registry, &SplitMoveDirection::Right, 12), vec![]);
    assert_eq!(split.ids(), vec![10, 11, 12]);
    assert_eq!(registry.order(), &vec![10, 11, 12]);
    let (split, mut registry) = editors(&[10, 11, 12]);
    let mut split = split.horizontal();
    assert_eq!(split.split_editor_move(&mut registry, &SplitMoveDirection::Up, 10), vec![]);
    assert_eq!(split.split_editor_move(&mut registry, &SplitMoveDirection::Down, 12), vec![]);
}

#[test]
fn move_across_the_axis_is_ignored() {
    let (mut split, mut registry) = editors(&[10, 11, 12]);
    assert_eq!(split.split_editor_move(&mut registry, &SplitMoveDirection::Up, 11), vec![]);
    assert_eq!(split.split_editor_move(&mut registry, &SplitMoveDirection::Down, 11), vec![]);
    let mut split = split.horizontal();
    assert_eq!(split.split_editor_move(&mut registry, &SplitMoveDirection::Left, 11), vec![]);
    assert_eq!(split.split_editor_move(&mut registry, &SplitMoveDirection::Right, 11), vec![]);
    assert_eq!(
        split.split_editor_move(&mut registry, &SplitMoveDirection::Down, 11),
        vec![SplitEffect::Focus(12), SplitEffect::EnsureVisible(12)]
    );
    assert_eq!(
        split.split_editor_move(&mut registry, &SplitMoveDirection::Up, 11),
        vec![SplitEffect::Focus(10), SplitEffect::EnsureVisible(10)]
    );
}

#[test]
fn split_puts_a_copy_behind_the_pane() {
    let (mut split, mut registry) = editors(&[10, 11]);
    let effects = split.split_editor(&mut registry, false, 10, 50);
    assert_eq!(split.ids(), vec![10, 50, 11]);
    assert_eq!(registry.order(), &vec![10, 50, 11]);
    assert_eq!(
        registry.get(50),
        Some(EditorState { content: 10, cursor: 3, scroll_x: 0, scroll_y: 0 })
    );
    assert_eq!(registry.get(10), Some(state(10)));
    assert_eq!(
        effects,
        vec![
            SplitEffect::RestoreScrollOffset(50, 10, 20),
            SplitEffect::ChildrenChanged,
            SplitEffect::LayoutInvalidated,
        ]
    );
    assert!(split.child(1).is_flex());
    assert_eq!(weights(&split), vec![1, 1, 1]);
    match split.child(1).widget() {
        PaneContent::Leaf(leaf) => assert_eq!(leaf.kind, LeafKind::Editor),
        PaneContent::Nested(_) => panic!("the new pane holds a leaf"),
    }
}

#[test]
fn split_evens_the_weights() {
    let mut split = LapceSplitNew::new(1)
        .with_flex_child(editor(), 1, 5)
        .with_child(editor(), 2, 45);
    let mut registry = PaneRegistry::new();
    registry.insert(1, state(1));
    split.split_editor(&mut registry, true, 1, 3);
    assert_eq!(split.ids(), vec![1, 3, 2]);
    assert_eq!(weights(&split), vec![1, 1, 45]);
}

#[test]
fn split_needs_a_tracked_pane_and_a_new_identity() {
    let (mut split, mut registry) = editors(&[10, 11]);
    // The new identity is that of a pane.
    assert_eq!(split.split_editor(&mut registry, true, 10, 11), vec![]);
    // The new identity is one that the registry tracks.
    registry.insert(60, state(60));
    assert_eq!(split.split_editor(&mut registry, true, 10, 60), vec![]);
    // The registry does not track the pane.
    registry.remove(10);
    assert_eq!(split.split_editor(&mut registry, true, 10, 70), vec![]);
    assert_eq!(split.ids(), vec![10, 11]);
    assert_eq!(registry.order(), &vec![10, 11]);
    assert!(!registry.contains(70));
}

#[test]
fn add_editor_puts_the_pane_first() {
    let (mut split, mut registry) = editors(&[10, 11]);
    registry.insert(12, state(12));
    let effects = split.split_add_editor(&mut registry, 12);
    assert_eq!(split.ids(), vec![12, 10, 11]);
    assert_eq!(registry.order(), &vec![12, 10, 11]);
    assert_eq!(effects, vec![SplitEffect::ChildrenChanged, SplitEffect::Focus(12)]);
    // Not twice, and not for an editor that the registry does not track.
    assert_eq!(split.split_add_editor(&mut registry, 12), vec![]);
    assert_eq!(split.split_add_editor(&mut registry, 13), vec![]);
    assert_eq!(split.ids(), vec![12, 10, 11]);
}

#[test]
fn split_terminal_puts_a_terminal_behind_the_pane() {
    let mut split = LapceSplitNew::new(1).with_flex_child(
        PaneContent::leaf(LeafContent::filling(LeafKind::Terminal)),
        20,
        4,
    );
    let mut registry = PaneRegistry::new();
    registry.set_order(vec![1, 2]);
    let effects = split.split_terminal(&mut registry, true, 20, 900, 21);
    assert_eq!(split.ids(), vec![20, 21]);
    assert_eq!(weights(&split), vec![1, 1]);
    assert_eq!(registry.terminal_pane(900), Some(21));
    assert!(!registry.has_no_terminal());
    assert_eq!(registry.order(), &vec![1, 2]);
    assert_eq!(effects, vec![SplitEffect::ChildrenChanged, SplitEffect::LayoutInvalidated]);
    match split.child(1).widget() {
        PaneContent::Leaf(leaf) => assert_eq!(leaf.kind, LeafKind::Terminal),
        PaneContent::Nested(_) => panic!("the new pane holds a leaf"),
    }
    // Not with an identity that is in use.
    assert_eq!(split.split_terminal(&mut registry, true, 20, 901, 21), vec![]);
    assert_eq!(registry.terminal_pane(901), None);
}

#[test]
fn close_of_a_terminal_among_others() {
    let mut split = LapceSplitNew::new(1);
    let mut registry = PaneRegistry::new();
    split.init_terminal_panel(&mut registry, false, 900, 20);
    split.split_terminal(&mut registry, true, 20, 901, 21);
    split.split_terminal(&mut registry, true, 21, 902, 22);
    assert_eq!(split.ids(), vec![20, 21, 22]);
    let effects = split.split_terminal_close(&mut registry, 901, 21);
    assert_eq!(split.ids(), vec![20, 22]);
    assert_eq!(effects, vec![SplitEffect::Focus(22), SplitEffect::ChildrenChanged]);
    assert_eq!(registry.terminal_pane(901), None);
    assert_eq!(registry.terminal_pane(902), Some(22));
    assert!(registry.terminal_shown());
    let effects = split.split_terminal_close(&mut registry, 902, 22);
    assert_eq!(split.ids(), vec![20]);
    assert_eq!(effects, vec![SplitEffect::Focus(20), SplitEffect::ChildrenChanged]);
}

#[test]
fn close_of_the_only_terminal_hides_the_panel() {
    let mut split = LapceSplitNew::new(1);
    let mut registry = PaneRegistry::new();
    registry.set_active(Some(10));
    split.init_terminal_panel(&mut registry, false, 900, 20);
    let effects = split.split_terminal_close(&mut registry, 900, 20);
    assert!(split.is_empty());
    assert!(registry.has_no_terminal());
    assert!(!registry.terminal_shown());
    assert_eq!(effects, vec![SplitEffect::ChildrenChanged, SplitEffect::Focus(10)]);
    // Without an editor that was active nothing gets the focus.
    let mut split = LapceSplitNew::new(1);
    let mut registry = PaneRegistry::new();
    split.init_terminal_panel(&mut registry, false, 900, 20);
    let effects = split.split_terminal_close(&mut registry, 900, 20);
    assert_eq!(effects, vec![SplitEffect::ChildrenChanged]);
}

#[test]
fn init_terminal_panel_opens_the_first_terminal_only() {
    let mut split = LapceSplitNew::new(1);
    let mut registry = PaneRegistry::new();
    assert!(registry.has_no_terminal());
    let effects = split.init_terminal_panel(&mut registry, true, 900, 20);
    assert_eq!(effects, vec![SplitEffect::Focus(20), SplitEffect::ChildrenChanged]);
    assert_eq!(split.ids(), vec![20]);
    assert_eq!(registry.terminal_pane(900), Some(20));
    assert_eq!(
        registry.active_terminal(),
        Some(TerminalRef { widget_id: 20, term_id: 900 })
    );
    let effects = split.init_terminal_panel(&mut registry, true, 901, 21);
    assert_eq!(effects, vec![]);
    assert_eq!(split.ids(), vec![20]);
    let mut split = LapceSplitNew::new(1);
    let mut registry = PaneRegistry::new();
    let effects = split.init_terminal_panel(&mut registry, false, 900, 20);
    assert_eq!(effects, vec![SplitEffect::ChildrenChanged]);
}

#[test]
fn the_orders_stay_in_step() {
    let (mut split, mut registry) = editors(&[1, 2, 3]);
    let events = vec![
        SplitEvent::SplitEditor(true, 2, 4),
        SplitEvent::SplitEditorExchange(1),
        SplitEvent::SplitEditorMove(SplitMoveDirection::Right, 2),
        SplitEvent::SplitEditorClose(3),
        SplitEvent::SplitEditor(false, 4, 5),
        SplitEvent::SplitEditorExchange(5),
        SplitEvent::SplitEditorClose(99),
        SplitEvent::SplitEditorExchange(4),
        SplitEvent::SplitEditorClose(2),
        SplitEvent::SplitTerminal(true, 1, 900, 30),
        SplitEvent::SplitEditorExchange(30),
        SplitEvent::SplitEditor(true, 30, 31),
        SplitEvent::SplitAddEditor(5),
        SplitEvent::SplitEditorClose(1),
        SplitEvent::SplitEditorClose(4),
        SplitEvent::SplitEditorClose(5),
    ];
    assert!(in_step(&split, &registry));
    for event in events.iter() {
        split.event(&mut registry, event);
        assert!(in_step(&split, &registry), "after {:?}", event);
        let mut ids = split.ids();
        ids.sort();
        ids.dedup();
        assert_eq!(ids.len(), split.len(), "after {:?}", event);
    }
    assert_eq!(split.ids(), vec![30]);
    assert_eq!(known(&registry, registry.order()), Vec::<u64>::new());
}

#[test]
fn events_are_answered_like_the_operations() {
    let (mut split, mut registry) = editors(&[10, 11, 12]);
    assert_eq!(
        split.event(&mut registry, &SplitEvent::SplitEditorExchange(11)),
        vec![SplitEffect::Focus(12), SplitEffect::LayoutInvalidated]
    );
    assert_eq!(split.ids(), vec![10, 12, 11]);
    assert_eq!(
        split.event(&mut registry, &SplitEvent::SplitEditorMove(SplitMoveDirection::Left, 12)),
        vec![SplitEffect::Focus(10), SplitEffect::EnsureVisible(10)]
    );
    assert_eq!(
        split.event(&mut registry, &SplitEvent::SplitEditorClose(10)),
        vec![SplitEffect::Focus(12), SplitEffect::ChildrenChanged]
    );
    assert_eq!(
        split.event(&mut registry, &SplitEvent::SplitEditor(true, 12, 13)),
        vec![
            SplitEffect::RestoreScrollOffset(13, 10, 20),
            SplitEffect::ChildrenChanged,
            SplitEffect::LayoutInvalidated,
        ]
    );
    assert_eq!(split.ids(), vec![12, 13, 11]);
    assert_eq!(
        split.event(&mut registry, &SplitEvent::SplitTerminal(true, 11, 900, 40)),
        vec![SplitEffect::ChildrenChanged, SplitEffect::LayoutInvalidated]
    );
    assert_eq!(
        split.event(&mut registry, &SplitEvent::SplitTerminalClose(900, 40)),
        vec![SplitEffect::Focus(11), SplitEffect::ChildrenChanged]
    );
    registry.insert(14, state(14));
    assert_eq!(
        split.event(&mut registry, &SplitEvent::SplitAddEditor(14)),
        vec![SplitEffect::ChildrenChanged, SplitEffect::Focus(14)]
    );
    assert_eq!(split.ids(), vec![14, 12, 13, 11]);
    assert_eq!(registry.order(), &vec![14, 12, 13, 11]);
    assert_eq!(split.event(&mut registry, &SplitEvent::Focus), vec![SplitEffect::TakeFocus(100)]);
    assert_eq!(split.event(&mut registry, &SplitEvent::Other), vec![]);
    // With panes in it the container leaves the pointer and the keys to
    // them.
    assert_eq!(split.event(&mut registry, &SplitEvent::KeyDown), vec![]);
    assert_eq!(split.event(&mut registry, &SplitEvent::MouseMove(Point::new(1, 1))), vec![]);
    assert_eq!(split.event(&mut registry, &SplitEvent::MouseDown(Point::new(1, 1))), vec![]);
    let mut terminals = LapceSplitNew::new(200);
    assert_eq!(
        terminals.event(&mut registry, &SplitEvent::InitTerminalPanel(true, 901, 41)),
        vec![SplitEffect::Focus(41), SplitEffect::ChildrenChanged]
    );
}

#[test]
fn registry_keeps_what_it_is_given() {
    let mut registry = PaneRegistry::new();
    assert_eq!(registry.order(), &Vec::<u64>::new());
    assert_eq!(registry.active(), None);
    assert_eq!(registry.active_terminal(), None);
    assert!(registry.terminal_shown());
    assert!(registry.has_no_terminal());
    assert!(!registry.contains(1));
    registry.insert(1, state(5));
    registry.insert(2, state(6));
    registry.insert(1, state(7));
    assert_eq!(registry.get(1), Some(state(7)));
    assert_eq!(registry.get(2), Some(state(6)));
    assert_eq!(registry.get(3), None);
    registry.remove(2);
    registry.remove(3);
    assert!(registry.contains(1) && !registry.contains(2));
    registry.set_order(vec![3, 1]);
    assert_eq!(registry.order(), &vec![3, 1]);
    registry.set_active(Some(1));
    assert_eq!(registry.active(), Some(1));
    registry.insert_terminal(9, 1);
    assert_eq!(registry.terminal_pane(9), Some(1));
    assert_eq!(registry.terminal_pane(1), None);
    registry.remove_terminal(9);
    assert!(registry.has_no_terminal());
    registry.set_terminal_shown(false);
    assert!(!registry.terminal_shown());
    registry.set_active_terminal(Some(TerminalRef { widget_id: 1, term_id: 9 }));
    assert_eq!(registry.active_terminal(), Some(TerminalRef { widget_id: 1, term_id: 9 }));
}

#[test]
fn events_reach_the_container_that_they_are_sent_to() {
    let (inner, mut registry) = editors(&[10, 11]);
    let mut outer = LapceSplitNew::new(1)
        .with_flex_child(editor(), 5, 1)
        .with_flex_child(PaneContent::nested(inner), 6, 1);
    assert!(outer.contains_split(1));
    assert!(outer.contains_split(100));
    assert!(!outer.contains_split(6));
    assert!(!outer.contains_split(10));
    let effects = outer.dispatch(&mut registry, 100, &SplitEvent::SplitEditorExchange(10));
    assert_eq!(effects, vec![SplitEffect::Focus(11), SplitEffect::LayoutInvalidated]);
    assert_eq!(outer.ids(), vec![5, 6]);
    match outer.child(1).widget() {
        PaneContent::Nested(inner) => assert_eq!(inner.ids(), vec![11, 10]),
        PaneContent::Leaf(_) => panic!("the second pane holds a container"),
    }
    assert_eq!(registry.order(), &vec![11, 10]);
    // The outer container answers what is sent to it.
    let effects = outer.dispatch(
        &mut registry,
        1,
        &SplitEvent::SplitEditorMove(SplitMoveDirection::Right, 5),
    );
    assert_eq!(effects, vec![SplitEffect::Focus(6), SplitEffect::EnsureVisible(6)]);
    // The same key may go to both: across its axis a container ignores it.
    let mut outer = outer.horizontal();
    let event = SplitEvent::SplitEditorMove(SplitMoveDirection::Left, 10);
    assert_eq!(outer.dispatch(&mut registry, 1, &event), vec![]);
    assert_eq!(
        outer.dispatch(&mut registry, 100, &event),
        vec![SplitEffect::Focus(11), SplitEffect::EnsureVisible(11)]
    );
    // Nobody answers what is sent to a container that is not there.
    assert_eq!(outer.dispatch(&mut registry, 77, &SplitEvent::SplitEditorClose(10)), vec![]);
    match outer.child(1).widget() {
        PaneContent::Nested(inner) => assert_eq!(inner.ids(), vec![11, 10]),
        PaneContent::Leaf(_) => panic!("the second pane holds a container"),
    }
}
