use lapce_core::empty_state::EmptyStateEnv;
use lapce_core::geometry::{Point, Rect, Size};
use lapce_core::keypress::Platform;
use lapce_core::registry::{EditorState, PaneRegistry};
use lapce_core::split::{
    LapceSplitNew, LeafContent, LeafKind, PaneContent, SplitDirection,
};

fn env() -> EmptyStateEnv {
    EmptyStateEnv {
        modal: false,
        has_workspace: false,
        line_height: 20,
        platform: Platform::Other,
        keymaps: Vec::new(),
        label_sizes: Vec::new(),
    }
}

fn editor() -> PaneContent {
    PaneContent::leaf(LeafContent::filling(LeafKind::Editor))
}

fn leaf(min: (u32, u32), max: (u32, u32)) -> PaneContent {
    PaneContent::leaf(LeafContent::new(
        LeafKind::Other,
        Size::new(min.0, min.1),
        Size::new(max.0, max.1),
    ))
}

fn flex_row(split_id: u64, weights: &[u32]) -> LapceSplitNew {
    let mut split = LapceSplitNew::new(split_id);
    for (i, w) in weights.iter().enumerate() {
        split = split.with_flex_child(editor(), i as u64 + 1, *w);
    }
    split
}

fn rects(split: &LapceSplitNew) -> Vec<Rect> {
    (0..split.len()).map(|i| split.child(i).layout_rect()).collect()
}

fn widths(split: &LapceSplitNew) -> Vec<u32> {
    rects(split).iter().map(|r| r.size.width).collect()
}

fn heights(split: &LapceSplitNew) -> Vec<u32> {
    rects(split).iter().map(|r| r.size.height).collect()
}

#[test]
fn three_equal_panes_share_300() {
    let mut split = flex_row(100, &[1, 1, 1]);
    let size = split.layout(Size::new(300, 200), &env());
    assert_eq!(size, Size::new(300, 200));
    assert_eq!(widths(&split), vec![100, 100, 100]);
    assert_eq!(heights(&split), vec![200, 200, 200]);
    assert_eq!(
        rects(&split),
        vec![
            Rect::new(Point::new(0, 0), Size::new(100, 200)),
            Rect::new(Point::new(100, 0), Size::new(100, 200)),
            Rect::new(Point::new(200, 0), Size::new(100, 200)),
        ]
    );
}

#[test]
fn split_of_second_pane_gives_four_times_75() {
    let mut split = flex_row(100, &[1, 1, 1]);
    let mut registry = PaneRegistry::new();
    for id in 1..=3u64 {
        registry.insert(id, EditorState { content: 7, cursor: 0, scroll_x: 0, scroll_y: 0 });
    }
    split.layout(Size::new(300, 200), &env());
    assert_eq!(widths(&split), vec![100, 100, 100]);
    split.split_editor(&mut registry, true, 2, 4);
    assert_eq!(split.ids(), vec![1, 2, 4, 3]);
    let weights: Vec<u32> = (0..4).map(|i| split.child(i).params()).collect();
    assert_eq!(weights, vec![1, 1, 1, 1]);
    split.layout(Size::new(300, 200), &env());
    assert_eq!(widths(&split), vec![75, 75, 75, 75]);
}

#[test]
fn remainder_goes_to_the_last_pane() {
    let mut split = flex_row(100, &[1, 1, 1, 1]);
    let size = split.layout(Size::new(302, 50), &env());
    assert_eq!(widths(&split), vec![75, 75, 75, 77]);
    assert_eq!(widths(&split).iter().sum::<u32>(), 302);
    assert_eq!(size, Size::new(302, 50));
}

#[test]
fn equal_weights_give_floor_and_remainder() {
    for n in 1..=7u32 {
        for a in [0u32, 1, 5, 99, 100, 1000, 1001] {
            for w in [1u32, 3, 1000] {
                let weights: Vec<u32> = (0..n).map(|_| w).collect();
                let mut split = flex_row(1, &weights);
                split.layout(Size::new(a, 10), &env());
                let got = widths(&split);
                for k in 0..(n as usize - 1) {
                    assert_eq!(got[k], a / n);
                }
                assert_eq!(got[n as usize - 1], a / n + a % n);
                assert_eq!(got.iter().sum::<u32>(), a);
            }
        }
    }
}

#[test]
fn unequal_weights_share_by_weight() {
    let mut split = flex_row(1, &[1, 2]);
    split.layout(Size::new(10, 4), &env());
    // 10 * 1 / 3 = 3, 10 * 2 / 3 = 6, and the one that rounding leaves.
    assert_eq!(widths(&split), vec![3, 7]);
    let mut split = flex_row(1, &[2, 1, 0]);
    split.layout(Size::new(10, 4), &env());
    // The last pane has no weight: the rest goes to the pane before it.
    assert_eq!(widths(&split), vec![6, 4, 0]);
}

#[test]
fn zero_weight_sum_gives_zero_extents() {
    let mut split = flex_row(1, &[0, 0]);
    let size = split.layout(Size::new(300, 200), &env());
    assert_eq!(widths(&split), vec![0, 0]);
    assert_eq!(heights(&split), vec![200, 200]);
    assert_eq!(size, Size::new(0, 200));
}

#[test]
fn zero_available_extent_gives_zero_size_panes() {
    let mut split = flex_row(1, &[1, 1]);
    let size = split.layout(Size::new(0, 0), &env());
    assert_eq!(size, Size::new(0, 0));
    assert_eq!(
        rects(&split),
        vec![
            Rect::new(Point::new(0, 0), Size::new(0, 0)),
            Rect::new(Point::new(0, 0), Size::new(0, 0)),
        ]
    );
}

#[test]
fn fixed_panes_take_their_extent_first() {
    let mut split = LapceSplitNew::new(1)
        .horizontal()
        .with_child(editor(), 10, 45)
        .with_flex_child(editor(), 11, 1);
    let size = split.layout(Size::new(200, 500), &env());
    assert_eq!(size, Size::new(200, 500));
    assert_eq!(
        rects(&split),
        vec![
            Rect::new(Point::new(0, 0), Size::new(200, 45)),
            Rect::new(Point::new(0, 45), Size::new(200, 455)),
        ]
    );
}

#[test]
fn fixed_panes_that_take_too_much_squeeze_flexible_ones_to_zero() {
    let mut split = LapceSplitNew::new(1)
        .with_child(editor(), 1, 80)
        .with_flex_child(editor(), 2, 1)
        .with_child(editor(), 3, 70);
    let size = split.layout(Size::new(100, 10), &env());
    assert_eq!(widths(&split), vec![80, 0, 70]);
    assert_eq!(
        rects(&split).iter().map(|r| r.origin.x).collect::<Vec<i64>>(),
        vec![0, 80, 80]
    );
    // The container reports more than was available.
    assert_eq!(size, Size::new(150, 10));
}

#[test]
fn a_fixed_pane_may_report_another_extent_than_it_asked_for() {
    // The first pane asks for 50 and cannot be narrower than 60; the second
    // asks for 50 and never grows beyond 20.
    let mut split = LapceSplitNew::new(1)
        .with_child(leaf((60, 0), (500, 500)), 1, 50)
        .with_child(leaf((0, 0), (20, 500)), 2, 50)
        .with_flex_child(editor(), 3, 1);
    let size = split.layout(Size::new(200, 100), &env());
    // The budget goes by what the fixed panes measured: 200 - 60 - 20.
    assert_eq!(widths(&split), vec![60, 20, 120]);
    assert_eq!(
        rects(&split).iter().map(|r| r.origin.x).collect::<Vec<i64>>(),
        vec![0, 60, 80]
    );
    assert_eq!(size, Size::new(200, 100));
}

#[test]
fn a_pane_that_cannot_shrink_pushes_the_panes_behind_it() {
    let mut split = LapceSplitNew::new(1)
        .with_flex_child(leaf((80, 0), (1000, 1000)), 1, 1)
        .with_flex_child(editor(), 2, 1);
    let size = split.layout(Size::new(100, 30), &env());
    assert_eq!(widths(&split), vec![80, 50]);
    assert_eq!(split.child(1).layout_rect().origin, Point::new(80, 0));
    assert_eq!(size, Size::new(130, 30));
}

#[test]
fn the_cross_extent_is_the_largest_that_a_pane_measures() {
    let mut split = LapceSplitNew::new(1)
        .with_flex_child(leaf((0, 0), (1000, 40)), 1, 1)
        .with_flex_child(leaf((0, 70), (1000, 1000)), 2, 1)
        .with_flex_child(leaf((0, 0), (1000, 10)), 3, 1);
    let size = split.layout(Size::new(90, 50), &env());
    assert_eq!(heights(&split), vec![40, 70, 10]);
    assert_eq!(size, Size::new(90, 70));
}

#[test]
fn horizontal_dividers_stack_the_panes() {
    let mut split = flex_row(1, &[1, 3]).direction(SplitDirection::Horizontal);
    let size = split.layout(Size::new(50, 200), &env());
    assert_eq!(size, Size::new(50, 200));
    assert_eq!(
        rects(&split),
        vec![
            Rect::new(Point::new(0, 0), Size::new(50, 50)),
            Rect::new(Point::new(0, 50), Size::new(50, 150)),
        ]
    );
}

#[test]
fn layout_twice_places_the_same() {
    let mut split = LapceSplitNew::new(1)
        .with_child(leaf((60, 0), (500, 500)), 1, 50)
        .with_flex_child(editor(), 2, 2)
        .with_flex_child(leaf((0, 0), (30, 30)), 3, 5)
        .with_flex_child(editor(), 4, 1);
    let first_size = split.layout(Size::new(321, 123), &env());
    let first = rects(&split);
    let second_size = split.layout(Size::new(321, 123), &env());
    assert_eq!(first_size, second_size);
    assert_eq!(first, rects(&split));
}

#[test]
fn nested_containers_are_laid_out_in_their_box() {
    let inner = flex_row(2, &[1, 1]).horizontal();
    let mut split = LapceSplitNew::new(1)
        .with_flex_child(editor(), 10, 1)
        .with_flex_child(PaneContent::nested(inner), 11, 1);
    let size = split.layout(Size::new(200, 100), &env());
    assert_eq!(size, Size::new(200, 100));
    assert_eq!(
        split.child(1).layout_rect(),
        Rect::new(Point::new(100, 0), Size::new(100, 100))
    );
    match split.child(1).widget() {
        PaneContent::Nested(inner) => {
            assert_eq!(
                rects(inner),
                vec![
                    Rect::new(Point::new(0, 0), Size::new(100, 50)),
                    Rect::new(Point::new(0, 50), Size::new(100, 50)),
                ]
            );
        }
        PaneContent::Leaf(_) => panic!("the second pane holds a container"),
    }
}

#[test]
fn an_empty_nested_container_takes_its_box_and_lists_commands() {
    let inner = LapceSplitNew::new(2);
    let mut split = LapceSplitNew::new(1)
        .with_child(PaneContent::nested(inner), 10, 30)
        .with_flex_child(editor(), 11, 1);
    split.layout(Size::new(100, 60), &env());
    assert_eq!(widths(&split), vec![30, 70]);
    match split.child(0).widget() {
        PaneContent::Nested(inner) => assert_eq!(inner.commands().len(), 4),
        PaneContent::Leaf(_) => panic!("the first pane holds a container"),
    }
}

#[test]
fn measure_reports_what_layout_returns_and_changes_nothing() {
    let mut split = LapceSplitNew::new(1)
        .with_child(leaf((60, 0), (500, 500)), 1, 50)
        .with_flex_child(editor(), 2, 2);
    let before = rects(&split);
    let measured = split.measure(Size::new(100, 40));
    assert_eq!(before, rects(&split));
    assert_eq!(measured, Some(Size::new(100, 40)));
    assert_eq!(split.layout(Size::new(100, 40), &env()), Size::new(100, 40));
}

#[test]
fn sums_beyond_u32_are_refused() {
    let huge = u32::MAX - 10;
    let mut split = LapceSplitNew::new(1)
        .with_child(leaf((huge, 0), (u32::MAX, 10)), 1, 5)
        .with_child(leaf((huge, 0), (u32::MAX, 10)), 2, 5);
    assert_eq!(split.measure(Size::new(100, 10)), None);
    let before = rects(&split);
    assert_eq!(split.try_layout(Size::new(100, 10), &env()), None);
    assert_eq!(before, rects(&split));
    // One such pane alone fits.
    let mut split = LapceSplitNew::new(1).with_child(leaf((huge, 0), (u32::MAX, 10)), 1, 5);
    assert_eq!(split.try_layout(Size::new(100, 10), &env()), Some(Size::new(huge, 10)));
}

#[test]
fn sums_beyond_u32_inside_a_nested_container_are_refused() {
    let huge = u32::MAX - 10;
    let inner = LapceSplitNew::new(2)
        .with_child(leaf((huge, 0), (u32::MAX, 10)), 1, 5)
        .with_child(leaf((huge, 0), (u32::MAX, 10)), 2, 5);
    let mut split = LapceSplitNew::new(1)
        .horizontal()
        .with_flex_child(PaneContent::nested(inner), 10, 1);
    assert_eq!(split.measure(Size::new(100, 10)), None);
    assert_eq!(split.try_layout(Size::new(100, 10), &env()), None);
}

#[test]
fn try_layout_lays_out_where_it_fits() {
    let mut split = flex_row(1, &[1, 1]);
    assert_eq!(
        split.try_layout(Size::new(10, 10), &env()),
        Some(Size::new(10, 10))
    );
    assert_eq!(widths(&split), vec![5, 5]);
}

#[test]
fn leaf_content_is_held_between_its_bounds() {
    let content = LeafContent::new(LeafKind::Other, Size::new(10, 20), Size::new(30, 40));
    assert_eq!(content.measure(Size::new(0, 0)), Size::new(10, 20));
    assert_eq!(content.measure(Size::new(15, 100)), Size::new(15, 40));
    assert_eq!(content.measure(Size::new(30, 20)), Size::new(30, 20));
    assert_eq!(content.measure(Size::new(31, 19)), Size::new(30, 20));
    // Where the bounds cross, the lower one wins.
    let crossed = LeafContent::new(LeafKind::Other, Size::new(50, 0), Size::new(30, 5));
    assert_eq!(crossed.measure(Size::new(40, 3)), Size::new(50, 3));
    let filling = LeafContent::filling(LeafKind::Terminal);
    assert_eq!(filling.measure(Size::new(7, 9)), Size::new(7, 9));
}

#[test]
fn rect_holds_its_near_edges_only() {
    let rect = Rect::new(Point::new(-5, 10), Size::new(10, 20));
    assert!(rect.contains(Point::new(-5, 10)));
    assert!(rect.contains(Point::new(4, 29)));
    assert!(!rect.contains(Point::new(5, 10)));
    assert!(!rect.contains(Point::new(-5, 30)));
    assert!(!rect.contains(Point::new(-6, 15)));
    assert!(!rect.contains(Point::new(0, 9)));
    assert!(!Rect::zero().contains(Point::zero()));
    let far = Rect::new(Point::new(i64::MAX, i64::MAX), Size::new(u32::MAX, u32::MAX));
    assert!(far.contains(Point::new(i64::MAX, i64::MAX)));
    assert_eq!(rect.with_origin(Point::new(1, 2)), Rect::new(Point::new(1, 2), Size::new(10, 20)));
    assert_eq!(rect.with_size(Size::new(1, 2)), Rect::new(Point::new(-5, 10), Size::new(1, 2)));
}

#[test]
fn axis_helpers_agree_with_the_axis() {
    let size = Size::new(3, 4);
    assert_eq!(SplitDirection::Vertical.main_extent(size), 3);
    assert_eq!(SplitDirection::Vertical.cross_extent(size), 4);
    assert_eq!(SplitDirection::Horizontal.main_extent(size), 4);
    assert_eq!(SplitDirection::Horizontal.cross_extent(size), 3);
    assert_eq!(SplitDirection::Vertical.size_with(3, 4), size);
    assert_eq!(SplitDirection::Horizontal.size_with(4, 3), size);
    assert_eq!(SplitDirection::Vertical.point_along(9), Point::new(9, 0));
    assert_eq!(SplitDirection::Horizontal.point_along(9), Point::new(0, 9));
}
