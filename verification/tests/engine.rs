use goober_ui::arrangement::BuiltinHorizontal;
use goober_ui::layout::{Layout, LayoutTree, NodeId};
use goober_ui::modifier::ApplyModifier;
use goober_ui::runner::dispatch;
use goober_ui::stacking::{stack_x, stack_z};
use goober_ui::style;
use goober_ui::text::text;
use goober_ui::unit::{Density, Dp, Point, Rect, Size};
use goober_ui::view::{Action, Event, HandlerId, MouseButton, SignalId, View};

fn dimension(d: style::Dimension) -> taffy::style::Dimension {
    match d {
        style::Dimension::Points(p) => taffy::style::Dimension::Points(p as f32),
        style::Dimension::Percent(p) => taffy::style::Dimension::Percent(p as f32 / 1000.0),
        style::Dimension::Auto => taffy::style::Dimension::Auto,
    }
}

fn length(l: style::LengthPercentage) -> taffy::style::LengthPercentage {
    match l {
        style::LengthPercentage::Points(p) => taffy::style::LengthPercentage::Points(p as f32),
        style::LengthPercentage::Percent(p) => {
            taffy::style::LengthPercentage::Percent(p as f32 / 1000.0)
        }
    }
}

fn length_auto(l: style::LengthPercentageAuto) -> taffy::style::LengthPercentageAuto {
    match l {
        style::LengthPercentageAuto::Points(p) => {
            taffy::style::LengthPercentageAuto::Points(p as f32)
        }
        style::LengthPercentageAuto::Percent(p) => {
            taffy::style::LengthPercentageAuto::Percent(p as f32 / 1000.0)
        }
        style::LengthPercentageAuto::Auto => taffy::style::LengthPercentageAuto::Auto,
    }
}

fn align(a: style::AlignItems) -> taffy::style::AlignItems {
    match a {
        style::AlignItems::Start => taffy::style::AlignItems::Start,
        style::AlignItems::End => taffy::style::AlignItems::End,
        style::AlignItems::Center => taffy::style::AlignItems::Center,
    }
}

fn engine_style(s: &style::Style) -> taffy::style::Style {
    taffy::style::Style {
        size: taffy::geometry::Size {
            width: dimension(s.size.width),
            height: dimension(s.size.height),
        },
        flex_direction: match s.flex_direction {
            style::FlexDirection::Row => taffy::style::FlexDirection::Row,
            style::FlexDirection::Column => taffy::style::FlexDirection::Column,
        },
        gap: taffy::geometry::Size { width: length(s.gap.width), height: length(s.gap.height) },
        justify_items: s.justify_items.map(align),
        justify_self: s.justify_self.map(align),
        align_items: s.align_items.map(align),
        padding: taffy::geometry::Rect {
            left: length(s.padding.left),
            right: length(s.padding.right),
            top: length(s.padding.top),
            bottom: length(s.padding.bottom),
        },
        inset: taffy::geometry::Rect {
            left: length_auto(s.inset.left),
            right: length_auto(s.inset.right),
            top: length_auto(s.inset.top),
            bottom: length_auto(s.inset.bottom),
        },
        ..Default::default()
    }
}

/// Solves the layout of the block that ends at `root` with the engine and
/// stores the absolute geometry of every node in the tree.
fn solve(tree: &mut LayoutTree, root: NodeId, width: i32, height: i32) {
    let mut engine = taffy::Taffy::new();
    let mut nodes = Vec::new();
    for k in 0..=root.0 {
        let node = NodeId(k);
        let children: Vec<taffy::node::Node> =
            (0..tree.child_count(node)).map(|i| nodes[tree.child(node, i).0]).collect();
        let made = engine.new_with_children(engine_style(&tree.style(node)), &children).unwrap();
        nodes.push(made);
    }
    engine
        .compute_layout(
            nodes[root.0],
            taffy::geometry::Size {
                width: taffy::style::AvailableSpace::Definite(width as f32),
                height: taffy::style::AvailableSpace::Definite(height as f32),
            },
        )
        .unwrap();
    let mut origins = vec![(0i32, 0i32); root.0 + 1];
    for k in (0..=root.0).rev() {
        let node = NodeId(k);
        let found = engine.layout(nodes[k]).unwrap();
        let above = match tree.parent(node) {
            Some(parent) if k != root.0 => origins[parent.0],
            _ => (0, 0),
        };
        let x = above.0 + found.location.x as i32;
        let y = above.1 + found.location.y as i32;
        origins[k] = (x, y);
        tree.set_layout(
            node,
            Layout {
                size: Size { width: found.size.width as i32, height: found.size.height as i32 },
                location: Point { x, y },
            },
        );
    }
}

fn points(p: i32) -> style::LengthPercentage {
    style::LengthPercentage::Points(p)
}

#[test]
fn padding_leaves_the_content_box() {
    for (l, r, t, b) in [(5, 6, 7, 8), (0, 0, 0, 0), (1, 0, 0, 9), (20, 30, 10, 5)] {
        let inner = text("x", Size { width: 30, height: 10 });
        let outer = stack_z((inner,)).padding((points(l), points(r), points(t), points(b)));
        let mut tree = LayoutTree::new();
        let root = outer.measure(None, &mut tree, false);
        assert_eq!(
            tree.style(root).padding,
            Rect { left: points(l), right: points(r), top: points(t), bottom: points(b) }
        );
        solve(&mut tree, root, 200, 100);
        let outside = tree.layout(root);
        let content = tree.layout(tree.child(root, 0));
        assert_eq!(content.size.width, outside.size.width - (l + r));
        assert_eq!(content.size.height, outside.size.height - (t + b));
        assert_eq!(content.location, Point { x: l, y: t });
    }
}

#[test]
fn engine_places_a_spaced_row() {
    let row = stack_x((
        text("hello", Size { width: 50, height: 20 }).hovering(SignalId(1)),
        text("world", Size { width: 60, height: 20 }).hovering(SignalId(2)),
    ))
    .arrange(BuiltinHorizontal::SpacedBy(Dp(10)));
    let mut tree = LayoutTree::new();
    let root = row.measure(None, &mut tree, false);
    solve(&mut tree, root, 200, 100);
    assert_eq!(tree.layout(NodeId(0)).location, Point { x: 0, y: 0 });
    assert_eq!(tree.layout(NodeId(1)).location, Point { x: 60, y: 0 });
    let over =
        dispatch(&row, root, &tree, Density(1000), false, &Event::CursorMove(Point { x: 65, y: 5 }));
    assert_eq!(
        over,
        vec![
            Action::Hover { signal: SignalId(1), hovering: false },
            Action::Hover { signal: SignalId(2), hovering: true },
        ]
    );
    let gap =
        dispatch(&row, root, &tree, Density(1000), false, &Event::CursorMove(Point { x: 55, y: 5 }));
    assert_eq!(
        gap,
        vec![
            Action::Hover { signal: SignalId(1), hovering: false },
            Action::Hover { signal: SignalId(2), hovering: false },
        ]
    );
}

#[test]
fn engine_layout_decides_which_child_is_clicked() {
    let row = stack_x((
        text("a", Size { width: 40, height: 20 }).on_click(HandlerId(1)),
        text("b", Size { width: 40, height: 20 }).on_click(HandlerId(2)),
    ));
    let mut tree = LayoutTree::new();
    let root = row.measure(None, &mut tree, false);
    solve(&mut tree, root, 200, 100);
    let click = Event::Click(Point { x: 50, y: 10 }, MouseButton::Left);
    assert_eq!(
        dispatch(&row, root, &tree, Density(1000), false, &click),
        vec![Action::Click { handler: HandlerId(2), button: MouseButton::Left }]
    );
}

#[test]
fn nested_rows_are_hit_at_their_absolute_place() {
    let inner = stack_x((
        text("a", Size { width: 10, height: 10 }).on_click(HandlerId(1)),
        text("b", Size { width: 10, height: 10 }).on_click(HandlerId(2)),
    ));
    let outer = stack_x((text("left", Size { width: 100, height: 10 }), inner));
    let mut tree = LayoutTree::new();
    let root = outer.measure(None, &mut tree, false);
    solve(&mut tree, root, 200, 100);
    assert_eq!(tree.layout(NodeId(2)).location, Point { x: 110, y: 0 });
    let click = Event::Click(Point { x: 115, y: 5 }, MouseButton::Left);
    assert_eq!(
        dispatch(&outer, root, &tree, Density(1000), false, &click),
        vec![Action::Click { handler: HandlerId(2), button: MouseButton::Left }]
    );
}
