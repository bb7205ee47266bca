use goober_ui::alignment::{offset_by_bias, Alignment, Horizontal, Vertical};
use goober_ui::arrangement::{
    BuiltinHorizontal, BuiltinVertical, Horizontal as ArrangeHorizontal,
    Vertical as ArrangeVertical,
};
use goober_ui::canvas::{rectangle, with_canvas};
use goober_ui::layout::{Layout, LayoutTree, NodeId};
use goober_ui::modifier::ApplyModifier;
use goober_ui::paint::{
    terminal_color, Color, IntoPaint, IntoRect, Paint, PaintStyle, TerminalColor, TerminalPaint,
    BLACK, DARK_GRAY, GRAY, RED, TRANSPARENT,
};
use goober_ui::runner::{dispatch, paint};
use goober_ui::stacking::{column_extent, overlay_extent, row_extent, stack_x};
use goober_ui::style::{AlignItems, Dimension, LengthPercentage, LengthPercentageAuto, Style};
use goober_ui::terminal::{cursor_cell, switch_render_mode};
use goober_ui::text::text;
use goober_ui::unit::{rounded_div, saturate, Density, Dp, IntoDp, Point, Rect, Size};
use goober_ui::view::{
    taffy_rect, taffy_rect_contains, DrawCommand, Event, HandlerId, MouseButton, View,
};

#[test]
fn pixels_are_rounded_away_from_zero() {
    assert_eq!(Density(1000).round_to_pixels(Dp(10)), 10);
    assert_eq!(Density(1500).round_to_pixels(Dp(3)), 5);
    assert_eq!(Density(1500).round_to_pixels(Dp(-3)), -5);
    assert_eq!(Density(1250).round_to_pixels(Dp(2)), 3);
    assert_eq!(Density(1249).round_to_pixels(Dp(2)), 2);
    assert_eq!(Density(0).round_to_pixels(Dp(7)), 0);
    assert_eq!(Density(u32::MAX).round_to_pixels(Dp(i32::MAX)), i32::MAX);
    assert_eq!(Density(u32::MAX).round_to_pixels(Dp(i32::MIN)), i32::MIN);
}

#[test]
fn pixels_go_back_to_dp() {
    assert_eq!(Density(2000).dp(10), Dp(5));
    assert_eq!(Density(2000).dp(Dp(5)), Dp(3));
    assert_eq!(Density(1500).dp(-3), Dp(-2));
    assert_eq!(7.dp(), Dp(7));
    assert_eq!(Dp::zero(), Dp(0));
}

#[test]
fn rounding_and_saturation() {
    assert_eq!(rounded_div(5, 2), 3);
    assert_eq!(rounded_div(-5, 2), -3);
    assert_eq!(rounded_div(4, 3), 1);
    assert_eq!(rounded_div(-4, 3), -1);
    assert_eq!(rounded_div(0, 7), 0);
    assert_eq!(saturate(1 << 40), i32::MAX);
    assert_eq!(saturate(-(1 << 40)), i32::MIN);
    assert_eq!(saturate(-7), -7);
}

#[test]
fn alignment_at_the_ends_of_the_scale() {
    for (size, space) in [(10, 100), (100, 100), (0, 7), (3, 8), (-5, 5)] {
        assert_eq!(Horizontal::Start.align(size, space), 0);
        assert_eq!(Horizontal::End.align(size, space), space - size);
        assert_eq!(Vertical::Top.align(size, space), 0);
        assert_eq!(Vertical::Bottom.align(size, space), space - size);
    }
    assert_eq!(Horizontal::Center.align(10, 100), 45);
    assert_eq!(Horizontal::Center.align(3, 8), 3);
    assert_eq!(Vertical::Center.align(8, 3), -3);
    assert_eq!(Horizontal::Custom(500).align(0, 100), 75);
    assert_eq!(Horizontal::Custom(-500).align(0, 100), 25);
    assert_eq!(Horizontal::Custom(2000).align(0, 100), 150);
    assert_eq!(Horizontal::End.align(i32::MIN, i32::MAX), i32::MAX);
    assert_eq!(offset_by_bias(0, 7), 4);
}

#[test]
fn alignment_on_both_axes() {
    let offset = Alignment::bottom_center()
        .align(Size { width: 10, height: 10 }, Size { width: 100, height: 50 });
    assert_eq!(offset, Point { x: 45, y: 40 });
    assert_eq!(Alignment::top_start().horizontal, Horizontal::Start);
    assert_eq!(Alignment::center_end().vertical, Vertical::Center);
    assert_eq!(Alignment::default(), Alignment::center());
    assert_eq!(Horizontal::default(), Horizontal::Center);
    assert_eq!(Horizontal::Start.bias(), -1000);
    assert_eq!(Vertical::Bottom.bias(), 1000);
    assert_eq!(Vertical::Custom(7).bias(), 7);
}

#[test]
fn alignment_for_the_engine() {
    assert_eq!(Horizontal::Start.justify(), AlignItems::Start);
    assert_eq!(Horizontal::Custom(501).justify(), AlignItems::End);
    assert_eq!(Horizontal::Custom(500).justify(), AlignItems::Center);
    assert_eq!(Vertical::Custom(-501).align_items(), AlignItems::Start);
    assert_eq!(BuiltinHorizontal::SpacedBy(Dp(3)).spacing(), Dp(3));
    assert_eq!(BuiltinHorizontal::End.spacing(), Dp(0));
    assert_eq!(BuiltinHorizontal::End.justify(), AlignItems::End);
    assert_eq!(BuiltinHorizontal::SpacedBy(Dp(3)).justify(), AlignItems::Start);
    assert_eq!(BuiltinHorizontal::Aligned(Horizontal::Center).justify(), AlignItems::Center);
    assert_eq!(BuiltinVertical::SpacedAligned(Dp(2), Vertical::Bottom).align(), AlignItems::End);
    assert_eq!(BuiltinVertical::SpacedAligned(Dp(2), Vertical::Bottom).spacing(), Dp(2));
    assert_eq!(
        BuiltinVertical::Bottom.arrange(Density(1000), 50, vec![10, 10]),
        vec![30, 40]
    );
}

#[test]
fn rectangles_hold_their_near_edges_only() {
    let rect = taffy_rect(Size { width: 10, height: 20 }, Point { x: 5, y: 6 });
    assert_eq!(rect, Rect { left: 5, right: 15, top: 6, bottom: 26 });
    assert!(taffy_rect_contains(&rect, &Point { x: 5, y: 6 }));
    assert!(taffy_rect_contains(&rect, &Point { x: 14, y: 25 }));
    assert!(!taffy_rect_contains(&rect, &Point { x: 15, y: 6 }));
    assert!(!taffy_rect_contains(&rect, &Point { x: 5, y: 26 }));
    assert!(!taffy_rect_contains(&rect, &Point { x: 4, y: 6 }));
    let wide = taffy_rect(Size { width: i32::MAX, height: 1 }, Point { x: i32::MAX, y: 0 });
    assert_eq!(wide.right, 2 * (i32::MAX as i64));
}

#[test]
fn terminal_paint_takes_the_colour_where_the_paint_goes() {
    let fill = TerminalPaint::from(Paint { color: Color(RED), style: PaintStyle::Fill });
    assert_eq!(fill.foreground_color, None);
    assert_eq!(fill.background_color, Some(TerminalColor::Red));
    let stroke = TerminalPaint::from(Paint { color: Color(GRAY), style: PaintStyle::Stroke });
    assert_eq!(stroke.foreground_color, Some(TerminalColor::Grey));
    assert_eq!(stroke.background_color, None);
    let both =
        TerminalPaint::from(Paint { color: Color(0xFF01_0203), style: PaintStyle::StrokeAndFill });
    assert_eq!(both.foreground_color, Some(TerminalColor::Rgb { r: 1, g: 2, b: 3 }));
    assert_eq!(both.background_color, both.foreground_color);
    assert_eq!(terminal_color(Color(TRANSPARENT)), None);
    assert_eq!(terminal_color(Color(DARK_GRAY)), Some(TerminalColor::DarkGrey));
    assert_eq!(terminal_color(Color(BLACK)), Some(TerminalColor::Black));
    assert_eq!(terminal_color(Color(0x0100_0000)), Some(TerminalColor::Rgb { r: 0, g: 0, b: 0 }));
}

#[test]
fn paints_and_rects_from_shorter_values() {
    assert_eq!(Color(RED).into_paint(), Paint { color: Color(RED), style: PaintStyle::Fill });
    assert_eq!(Paint::new(Color(RED)), Color(RED).into_paint());
    assert_eq!(Paint::default().color, Color(BLACK));
    assert_eq!((Dp(1), Dp(2)).into_rect(), Rect { left: Dp(1), right: Dp(0), top: Dp(2), bottom: Dp(0) });
    assert_eq!(
        (1, 2, 3, 4).into_rect(),
        Rect { left: 1, right: 2, top: 3, bottom: 4 }
    );
    let offset = text("a", Size { width: 1, height: 1 })
        .offset((LengthPercentageAuto::Points(10), LengthPercentageAuto::Points(20)));
    assert_eq!(
        offset.style(false).inset,
        Rect {
            left: LengthPercentageAuto::Points(10),
            right: LengthPercentageAuto::Points(0),
            top: LengthPercentageAuto::Points(20),
            bottom: LengthPercentageAuto::Points(0),
        }
    );
}

#[test]
fn align_modifier_sets_the_engine_fields() {
    let view = text("a", Size { width: 1, height: 1 }).align(Alignment::bottom_start());
    let style = view.style(false);
    assert_eq!(style.justify_self, Some(AlignItems::Start));
    assert_eq!(style.align_items, Some(AlignItems::End));
    assert_eq!(style.size.width, Dimension::Points(1));
}

#[test]
fn cursor_cells() {
    assert_eq!(cursor_cell(Point { x: 3, y: 4 }), (3, 4));
    assert_eq!(cursor_cell(Point { x: -3, y: 0 }), (3, 0));
    assert_eq!(cursor_cell(Point { x: 65535, y: -65535 }), (65535, 65535));
}

#[test]
fn text_on_a_terminal_is_one_cell_for_each_byte() {
    let view = text("héllo", Size { width: 50, height: 20 });
    assert_eq!(view.size(false), Size { width: 50, height: 20 });
    assert_eq!(view.size(true), Size { width: 6, height: 1 });
    assert_eq!(view.style(true).size.width, Dimension::Points(6));
    assert_eq!(view.style(true).size.height, Dimension::Points(1));
}

#[test]
fn switch_picks_the_view_for_the_surface() {
    let view = switch_render_mode(
        text("graphical", Size { width: 90, height: 20 }).on_click(HandlerId(1)),
        stack_x((text("terminal", Size { width: 80, height: 20 }).on_click(HandlerId(2)),)),
    );
    assert_eq!(view.size(false), Size { width: 90, height: 20 });
    assert_eq!(view.size(true), Size { width: 8, height: 1 });
    let mut graphical = LayoutTree::new();
    let node = view.measure(None, &mut graphical, false);
    assert_eq!(graphical.total_node_count(), 1);
    graphical.set_layout(
        node,
        Layout { size: Size { width: 90, height: 20 }, location: Point { x: 0, y: 0 } },
    );
    let click = Event::Click(Point { x: 1, y: 1 }, MouseButton::Left);
    let actions = dispatch(&view, node, &graphical, Density(1000), false, &click);
    assert_eq!(actions.len(), 1);
    let mut terminal = LayoutTree::new();
    let node = view.measure(None, &mut terminal, true);
    assert_eq!(terminal.total_node_count(), 2);
    assert_eq!(node, NodeId(1));
    view.place(
        node,
        Point { x: 0, y: 0 },
        Size { width: 80, height: 24 },
        Density(1000),
        &mut terminal,
        true,
    );
    let frame = paint(&view, node, &terminal, Density(1000), true);
    assert_eq!(frame.len(), 2);
}

#[test]
fn canvas_views_draw_for_themselves() {
    let style = Style {
        size: Size { width: Dimension::Points(30), height: Dimension::Auto },
        ..Default::default()
    };
    let view = with_canvas(HandlerId(9), style);
    assert_eq!(view.style(false), style);
    assert_eq!(view.size(false), Size { width: 30, height: 0 });
    let mut tree = LayoutTree::new();
    let node = view.measure(None, &mut tree, false);
    tree.set_layout(node, Layout { size: Size { width: 30, height: 4 }, location: Point { x: 7, y: 8 } });
    let frame = paint(&view, node, &tree, Density(1000), false);
    assert_eq!(frame[1], DrawCommand::Canvas { painter: HandlerId(9), origin: Point { x: 7, y: 8 } });

    let view = rectangle((Dp(1), Dp(2), Dp(3), Dp(4)), Color(RED));
    assert_eq!(view.size(false), Size { width: 3, height: 7 });
    assert_eq!(view.style(false).size.height, Dimension::Points(7));
    let mut tree = LayoutTree::new();
    let node = view.measure(None, &mut tree, false);
    let frame = paint(&view, node, &tree, Density(2000), false);
    assert_eq!(
        frame[1],
        DrawCommand::Rect {
            rect: Rect { left: 2, right: 4, top: 6, bottom: 8 },
            paint: Paint { color: Color(RED), style: PaintStyle::Fill },
        }
    );
}

#[test]
fn extents_of_containers() {
    let sizes = vec![Size { width: 10, height: 20 }, Size { width: 30, height: 5 }];
    assert_eq!(overlay_extent(&sizes), Size { width: 30, height: 20 });
    assert_eq!(row_extent(&sizes), Size { width: 40, height: 20 });
    assert_eq!(column_extent(&sizes), Size { width: 30, height: 25 });
    assert_eq!(overlay_extent(&vec![Size { width: -3, height: -4 }]), Size { width: -3, height: -4 });
    let huge = vec![Size { width: i32::MAX, height: 1 }, Size { width: i32::MAX, height: 2 }];
    assert_eq!(row_extent(&huge), Size { width: i32::MAX, height: 2 });
    let _ = LengthPercentage::Points(0);
}
