use goober_ui::alignment::{Alignment, Horizontal, Vertical};
use goober_ui::arrangement::{BuiltinHorizontal, BuiltinVertical};
use goober_ui::layout::{Layout, LayoutTree, NodeId};
use goober_ui::modifier::ApplyModifier;
use goober_ui::runner::dispatch;
use goober_ui::stacking::{stack_x, stack_y, stack_z};
use goober_ui::text::text;
use goober_ui::unit::{Density, Dp, Point, Size};
use goober_ui::view::{Action, Event, HandlerId, SignalId, View};

fn extent(width: i32, height: i32) -> Size {
    Size { width, height }
}

fn layout(x: i32, y: i32, width: i32, height: i32) -> Layout {
    Layout { size: extent(width, height), location: Point { x, y } }
}

#[test]
fn row_places_its_children_by_its_arrangement() {
    let row = stack_x((
        text("hello", extent(50, 20)).hovering(SignalId(1)),
        text("world", extent(60, 20)).hovering(SignalId(2)),
    ))
    .arrange(BuiltinHorizontal::SpacedBy(Dp(10)));
    let mut tree = LayoutTree::new();
    let root = row.measure(None, &mut tree, false);
    row.place(root, Point { x: 0, y: 0 }, extent(200, 100), Density(1000), &mut tree, false);
    assert_eq!(tree.layout(NodeId(0)), layout(0, 0, 50, 20));
    assert_eq!(tree.layout(NodeId(1)), layout(60, 0, 60, 20));
    assert_eq!(tree.layout(root), layout(0, 0, 110, 20));
    assert!(!tree.dirty(root));
    assert!(!tree.dirty(NodeId(0)));

    let density = Density(1000);
    let gap = dispatch(&row, root, &tree, density, false, &Event::CursorMove(Point { x: 55, y: 5 }));
    assert_eq!(
        gap,
        vec![
            Action::Hover { signal: SignalId(1), hovering: false },
            Action::Hover { signal: SignalId(2), hovering: false },
        ]
    );
    let over = dispatch(&row, root, &tree, density, false, &Event::CursorMove(Point { x: 65, y: 5 }));
    assert_eq!(
        over,
        vec![
            Action::Hover { signal: SignalId(1), hovering: false },
            Action::Hover { signal: SignalId(2), hovering: true },
        ]
    );
}

#[test]
fn nested_containers_place_from_their_own_position() {
    let column = stack_y((
        text("top", extent(30, 10)),
        stack_x((text("a", extent(10, 10)), text("b", extent(20, 10))))
            .arrange(BuiltinHorizontal::End),
    ))
    .arrange(BuiltinVertical::SpacedAligned(Dp(5), Vertical::Bottom));
    let mut tree = LayoutTree::new();
    let root = column.measure(None, &mut tree, false);
    assert_eq!(tree.total_node_count(), 5);
    column.place(root, Point { x: 10, y: 0 }, extent(110, 100), Density(2000), &mut tree, false);
    // The column has 100 pixels; its children take 10 + 10 (spacing at
    // density 2) + 10 and are moved to the bottom as a group.
    assert_eq!(tree.layout(NodeId(0)), layout(10, 70, 30, 10));
    assert_eq!(tree.layout(NodeId(3)), layout(10, 90, 30, 10));
    // The inner row packs against the end of the span from its own x.
    assert_eq!(tree.layout(NodeId(1)), layout(80, 90, 10, 10));
    assert_eq!(tree.layout(NodeId(2)), layout(90, 90, 20, 10));
    assert_eq!(tree.layout(root), layout(10, 0, 30, 20));
}

#[test]
fn pile_places_every_child_at_its_own_position() {
    let pile = stack_z(vec![text("a", extent(10, 20)), text("b", extent(30, 5))]);
    let mut tree = LayoutTree::new();
    let root = pile.measure(None, &mut tree, false);
    pile.place(root, Point { x: 3, y: 4 }, extent(100, 100), Density(1000), &mut tree, false);
    assert_eq!(tree.layout(NodeId(0)), layout(3, 4, 10, 20));
    assert_eq!(tree.layout(NodeId(1)), layout(3, 4, 30, 5));
    assert_eq!(tree.layout(root), layout(3, 4, 30, 20));
}

#[test]
fn centered_row() {
    let row = stack_x((text("a", extent(10, 10)), text("b", extent(20, 10))))
        .arrange(BuiltinHorizontal::Aligned(Horizontal::Center));
    let mut tree = LayoutTree::new();
    let root = row.measure(None, &mut tree, false);
    row.place(root, Point { x: 0, y: 0 }, extent(100, 100), Density(1000), &mut tree, false);
    assert_eq!(tree.layout(NodeId(0)), layout(35, 0, 10, 10));
    assert_eq!(tree.layout(NodeId(1)), layout(45, 0, 20, 10));
}

#[test]
fn aligned_view_places_itself_in_the_canvas() {
    let view = text("a", extent(10, 10)).align(Alignment::center());
    let mut tree = LayoutTree::new();
    let node = view.measure(None, &mut tree, false);
    view.place(node, Point { x: 0, y: 0 }, extent(100, 50), Density(1000), &mut tree, false);
    assert_eq!(tree.layout(node), layout(45, 20, 10, 10));
    let view = text("a", extent(10, 10)).align(Alignment::bottom_end());
    view.place(node, Point { x: 1, y: 2 }, extent(100, 50), Density(1000), &mut tree, false);
    assert_eq!(tree.layout(node), layout(91, 42, 10, 10));
    let view = text("a", extent(10, 10)).align(Alignment::top_start()).on_click(HandlerId(1));
    view.place(node, Point { x: 1, y: 2 }, extent(100, 50), Density(1000), &mut tree, false);
    assert_eq!(tree.layout(node), layout(1, 2, 10, 10));
}
