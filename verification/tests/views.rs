use goober_ui::arrangement::{BuiltinHorizontal, Horizontal};
use goober_ui::button::button;
use goober_ui::layout::{Layout, LayoutTree, NodeId};
use goober_ui::modifier::{Applied, ApplyModifier, Identity};
use goober_ui::paint::{Color, Paint, PaintStyle, BLUE, WHITE};
use goober_ui::runner::{dispatch, paint, refresh, Host, HostEvent, Reaction};
use goober_ui::stacking::{stack_x, stack_y, stack_z};
use goober_ui::style::{Dimension, FlexDirection, LengthPercentage, Style};
use goober_ui::text::text;
use goober_ui::unit::{Density, Dp, Point, Rect, Size};
use goober_ui::view::{
    hover_write, Action, DrawCommand, Event, HandlerId, MouseButton, RenderContext, SignalId,
    TerminalEvent, View,
};

fn size(width: i32, height: i32) -> Size {
    Size { width, height }
}

fn at(x: i32, y: i32, width: i32, height: i32) -> Layout {
    Layout { size: size(width, height), location: Point { x, y } }
}

#[test]
fn hello_world_row_places_and_hovers() {
    let row = stack_x((
        text("hello", size(50, 20)).hovering(SignalId(1)),
        text("world", size(60, 20)).hovering(SignalId(2)),
    ))
    .arrange(BuiltinHorizontal::SpacedBy(Dp(10)));
    let density = Density(1000);

    let sizes = vec![50, 60];
    let offsets = row.arrangement.arrange(density, 200, sizes);
    assert_eq!(offsets, vec![0, 60]);
    assert_eq!(row.size(false), size(110, 20));

    let mut tree = LayoutTree::new();
    let root = row.measure(None, &mut tree, false);
    assert_eq!(root, NodeId(2));
    assert_eq!(tree.total_node_count(), 3);
    assert_eq!(tree.child(root, 0), NodeId(0));
    assert_eq!(tree.child(root, 1), NodeId(1));
    assert_eq!(tree.style(root).flex_direction, FlexDirection::Row);
    assert_eq!(tree.style(root).gap.width, LengthPercentage::Points(10));
    assert_eq!(tree.style(NodeId(0)).size.width, Dimension::Points(50));
    assert_eq!(tree.style(NodeId(1)).size.width, Dimension::Points(60));

    tree.set_layout(NodeId(0), at(offsets[0], 0, 50, 20));
    tree.set_layout(NodeId(1), at(offsets[1], 0, 60, 20));
    tree.set_layout(root, at(0, 0, 200, 20));

    let gap = dispatch(&row, root, &tree, density, false, &Event::CursorMove(Point { x: 55, y: 5 }));
    assert_eq!(
        gap,
        vec![
            Action::Hover { signal: SignalId(1), hovering: false },
            Action::Hover { signal: SignalId(2), hovering: false },
        ]
    );
    let second =
        dispatch(&row, root, &tree, density, false, &Event::CursorMove(Point { x: 65, y: 5 }));
    assert_eq!(
        second,
        vec![
            Action::Hover { signal: SignalId(1), hovering: false },
            Action::Hover { signal: SignalId(2), hovering: true },
        ]
    );
}

#[test]
fn click_reaches_only_the_child_it_falls_in() {
    let row = stack_x((
        text("a", size(30, 10)).on_click(HandlerId(1)),
        text("b", size(30, 10)).on_click(HandlerId(2)),
    ));
    let mut tree = LayoutTree::new();
    let root = row.measure(None, &mut tree, false);
    tree.set_layout(NodeId(0), at(0, 0, 30, 10));
    tree.set_layout(NodeId(1), at(30, 0, 30, 10));
    tree.set_layout(root, at(0, 0, 60, 10));
    let click = Event::Click(Point { x: 45, y: 5 }, MouseButton::Left);
    let actions = dispatch(&row, root, &tree, Density(1000), false, &click);
    assert_eq!(actions, vec![Action::Click { handler: HandlerId(2), button: MouseButton::Left }]);
    let outside = Event::Click(Point { x: 60, y: 5 }, MouseButton::Left);
    assert_eq!(dispatch(&row, root, &tree, Density(1000), false, &outside), vec![]);
    let edge = Event::Click(Point { x: 30, y: 0 }, MouseButton::Right);
    assert_eq!(
        dispatch(&row, root, &tree, Density(1000), false, &edge),
        vec![Action::Click { handler: HandlerId(2), button: MouseButton::Right }]
    );
}

#[test]
fn measuring_again_keeps_every_node() {
    let column = stack_y((
        stack_x((text("a", size(1, 1)), text("b", size(2, 2)))),
        text("c", size(3, 3)).padding((LengthPercentage::Points(1), LengthPercentage::Points(2))),
    ));
    let mut tree = LayoutTree::new();
    let root = column.measure(None, &mut tree, false);
    assert_eq!(tree.total_node_count(), 5);
    assert_eq!(root, NodeId(4));
    tree.set_layout(root, at(0, 0, 10, 10));
    assert!(!tree.dirty(root));
    let again = column.measure(Some(root), &mut tree, false);
    assert_eq!(again, root);
    assert_eq!(tree.total_node_count(), 5);
    assert_eq!(tree.child(root, 0), NodeId(2));
    assert_eq!(tree.child(root, 1), NodeId(3));
    assert_eq!(tree.child(NodeId(2), 0), NodeId(0));
    assert_eq!(tree.child(NodeId(2), 1), NodeId(1));
    assert!(tree.dirty(root));
    assert_eq!(tree.layout(root), at(0, 0, 10, 10));
    assert!(refresh(&column, root, &mut tree, false));
    assert_eq!(tree.total_node_count(), 5);
}

#[test]
fn pile_is_as_large_as_its_largest_children() {
    let pile = stack_z((text("a", size(10, 20)), text("b", size(30, 5))));
    assert_eq!(pile.size(false), size(30, 20));
    let row = stack_x((text("a", size(10, 20)), text("b", size(30, 5))));
    assert_eq!(row.size(false), size(40, 20));
    let column = stack_y(vec![text("a", size(10, 20)), text("b", size(30, 5))]);
    assert_eq!(column.size(false), size(30, 25));
    let empty = stack_z(Vec::<goober_ui::text::Text>::new());
    assert_eq!(empty.size(false), size(0, 0));
}

#[test]
fn padding_goes_into_the_style() {
    let padded = text("a", size(3, 3)).padding((
        LengthPercentage::Points(1),
        LengthPercentage::Points(2),
        LengthPercentage::Points(3),
        LengthPercentage::Points(4),
    ));
    let style = padded.style(false);
    assert_eq!(
        style.padding,
        Rect {
            left: LengthPercentage::Points(1),
            right: LengthPercentage::Points(2),
            top: LengthPercentage::Points(3),
            bottom: LengthPercentage::Points(4),
        }
    );
    assert_eq!(style.size.width, Dimension::Points(3));
    let mut tree = LayoutTree::new();
    let node = padded.measure(None, &mut tree, false);
    assert_eq!(tree.total_node_count(), 1);
    assert_eq!(tree.style(node), style);
}

#[test]
fn identity_modifier_changes_nothing() {
    let plain = text("a", size(3, 4)).on_click(HandlerId(7));
    let wrapped = Applied { view: text("a", size(3, 4)).on_click(HandlerId(7)), modifier: Identity };
    assert_eq!(plain.style(false), wrapped.style(false));
    assert_eq!(plain.size(false), wrapped.size(false));
    let mut one = LayoutTree::new();
    let mut two = LayoutTree::new();
    let a = plain.measure(None, &mut one, false);
    let b = wrapped.measure(None, &mut two, false);
    assert_eq!(a, b);
    assert_eq!(one.style(a), two.style(b));
    one.set_layout(a, at(1, 2, 3, 4));
    two.set_layout(b, at(1, 2, 3, 4));
    let click = Event::Click(Point { x: 2, y: 3 }, MouseButton::Middle);
    assert_eq!(
        dispatch(&plain, a, &one, Density(1000), false, &click),
        dispatch(&wrapped, b, &two, Density(1000), false, &click)
    );
    assert_eq!(
        paint(&plain, a, &one, Density(1000), false),
        paint(&wrapped, b, &two, Density(1000), false)
    );
}

#[test]
fn background_is_drawn_before_the_view() {
    let blue = Paint { color: Color(BLUE), style: PaintStyle::Fill };
    let view = text("hi", size(20, 10)).background(Color(BLUE));
    let mut tree = LayoutTree::new();
    let node = view.measure(None, &mut tree, false);
    tree.set_layout(node, at(5, 6, 20, 10));
    let frame = paint(&view, node, &tree, Density(1000), false);
    assert_eq!(frame.len(), 3);
    assert_eq!(frame[0], DrawCommand::Clear(Color(WHITE)));
    assert_eq!(
        frame[1],
        DrawCommand::Rect { rect: Rect { left: 5, right: 25, top: 6, bottom: 16 }, paint: blue }
    );
    assert_eq!(
        frame[2],
        DrawCommand::Text {
            text: "hi".to_string(),
            position: Point { x: 5, y: 6 },
            font: view.view.font,
            paint: view.view.paint,
        }
    );
}

#[test]
fn button_answers_presses_on_both_surfaces() {
    let view = button(text("ok", size(10, 10)), HandlerId(3));
    let mut tree = LayoutTree::new();
    let node = view.measure(None, &mut tree, false);
    tree.set_layout(node, at(0, 0, 10, 10));
    let how = RenderContext::of(&tree, node, Density(1000), false);
    let mut out = Vec::new();
    view.ev(&Event::Click(Point { x: 1, y: 1 }, MouseButton::Left), &how, &mut out);
    view.ev(&Event::Click(Point { x: 11, y: 1 }, MouseButton::Left), &how, &mut out);
    view.ev(
        &Event::Terminal(TerminalEvent::MouseDown { row: 2, column: 3, button: MouseButton::Right }),
        &how,
        &mut out,
    );
    view.ev(&Event::Terminal(TerminalEvent::Other), &how, &mut out);
    assert_eq!(
        out,
        vec![
            Action::Press {
                handler: HandlerId(3),
                point: Point { x: 1, y: 1 },
                button: MouseButton::Left
            },
            Action::Press {
                handler: HandlerId(3),
                point: Point { x: 2, y: 3 },
                button: MouseButton::Right
            },
        ]
    );
}

#[test]
fn host_turns_input_into_events() {
    let mut host = Host::new();
    assert_eq!(host.react(HostEvent::Init), Reaction::Wait);
    assert_eq!(
        host.react(HostEvent::MousePressed(MouseButton::Left)),
        Reaction::Dispatch(Event::Click(Point { x: 0, y: 0 }, MouseButton::Left))
    );
    assert_eq!(
        host.react(HostEvent::CursorMoved(Point { x: 7, y: 9 })),
        Reaction::Dispatch(Event::CursorMove(Point { x: 7, y: 9 }))
    );
    assert_eq!(
        host.react(HostEvent::MousePressed(MouseButton::Other(5))),
        Reaction::Dispatch(Event::Click(Point { x: 7, y: 9 }, MouseButton::Other(5)))
    );
    assert_eq!(
        host.react(HostEvent::Resized { width: 3, height: 4 }),
        Reaction::Resize { width: 3, height: 4 }
    );
    assert_eq!(host.react(HostEvent::RedrawRequested), Reaction::Redraw);
    assert_eq!(host.react(HostEvent::CloseRequested), Reaction::Exit);
    assert_eq!(host.react(HostEvent::Other), Reaction::Ignore);
}

#[test]
fn hover_false_is_written_only_over_true() {
    assert_eq!(hover_write(false, true), Some(true));
    assert_eq!(hover_write(true, true), Some(true));
    assert_eq!(hover_write(true, false), Some(false));
    assert_eq!(hover_write(false, false), None);
}

#[test]
fn default_style_is_an_open_row() {
    let style = Style::default();
    assert_eq!(style.flex_direction, FlexDirection::Row);
    assert_eq!(style.size.width, Dimension::Auto);
    assert_eq!(style.justify_items, None);
}

#[test]
fn collections_of_every_size_keep_their_order() {
    let one = stack_x((text("a", size(1, 1)).on_click(HandlerId(1)),));
    let three = stack_x((
        text("a", size(1, 1)).on_click(HandlerId(1)),
        text("b", size(1, 1)).on_click(HandlerId(2)),
        text("c", size(1, 1)).on_click(HandlerId(3)),
    ));
    let four = stack_y((
        text("a", size(1, 1)).on_click(HandlerId(1)),
        text("b", size(1, 1)).on_click(HandlerId(2)),
        text("c", size(1, 1)).on_click(HandlerId(3)),
        text("d", size(1, 1)).on_click(HandlerId(4)),
    ));
    let many = stack_z(vec![
        text("a", size(1, 1)).on_click(HandlerId(1)),
        text("b", size(1, 1)).on_click(HandlerId(2)),
        text("c", size(1, 1)).on_click(HandlerId(3)),
        text("d", size(1, 1)).on_click(HandlerId(4)),
        text("e", size(1, 1)).on_click(HandlerId(5)),
    ]);
    let click = Event::Click(Point { x: 0, y: 0 }, MouseButton::Left);
    let handlers = |actions: Vec<Action>| -> Vec<u64> {
        actions
            .into_iter()
            .map(|action| match action {
                Action::Click { handler, .. } => handler.0,
                _ => 0,
            })
            .collect()
    };

    let mut tree = LayoutTree::new();
    let a = one.measure(None, &mut tree, false);
    let b = three.measure(None, &mut tree, false);
    let c = four.measure(None, &mut tree, false);
    let d = many.measure(None, &mut tree, false);
    assert_eq!((a, b, c, d), (NodeId(1), NodeId(5), NodeId(10), NodeId(16)));
    assert_eq!(tree.total_node_count(), 17);
    assert_eq!(tree.parent(NodeId(0)), Some(a));
    assert_eq!(tree.parent(NodeId(4)), Some(b));
    assert_eq!(tree.parent(b), None);
    for k in 0..17 {
        tree.set_layout(NodeId(k), at(0, 0, 1, 1));
    }
    assert_eq!(handlers(dispatch(&one, a, &tree, Density(1000), false, &click)), vec![1]);
    assert_eq!(handlers(dispatch(&three, b, &tree, Density(1000), false, &click)), vec![1, 2, 3]);
    assert_eq!(handlers(dispatch(&four, c, &tree, Density(1000), false, &click)), vec![1, 2, 3, 4]);
    assert_eq!(
        handlers(dispatch(&many, d, &tree, Density(1000), false, &click)),
        vec![1, 2, 3, 4, 5]
    );

    // Measuring one of them again touches its block and nothing before it.
    assert_eq!(three.measure(Some(b), &mut tree, false), b);
    assert_eq!(tree.total_node_count(), 17);
    assert!(!tree.dirty(a));
    assert!(tree.dirty(b) && tree.dirty(NodeId(2)) && tree.dirty(NodeId(4)));
    assert!(!tree.dirty(c));
    assert_eq!(many.measure(Some(d), &mut tree, false), d);
    assert!(tree.dirty(NodeId(11)) && tree.dirty(NodeId(15)) && tree.dirty(d));
    assert!(!tree.dirty(c) && !tree.dirty(NodeId(10)));
}

#[test]
fn every_handler_on_the_way_sees_the_event() {
    let view = button(
        stack_x((text("a", size(10, 10)).on(HandlerId(1)).on_click(HandlerId(2)),))
            .on_click(HandlerId(3)),
        HandlerId(4),
    );
    let mut tree = LayoutTree::new();
    let root = view.measure(None, &mut tree, false);
    tree.set_layout(NodeId(0), at(0, 0, 10, 10));
    tree.set_layout(root, at(0, 0, 20, 10));
    let click = Event::Click(Point { x: 15, y: 5 }, MouseButton::Left);
    assert_eq!(
        dispatch(&view, root, &tree, Density(1000), false, &click),
        vec![
            Action::Press {
                handler: HandlerId(4),
                point: Point { x: 15, y: 5 },
                button: MouseButton::Left
            },
            Action::Click { handler: HandlerId(3), button: MouseButton::Left },
            Action::Event { handler: HandlerId(1), event: click },
        ]
    );
}
