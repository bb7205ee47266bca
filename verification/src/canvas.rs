//! Canvas primitives: views that draw for themselves.

use vstd::prelude::*;
use vstd::view::View as _;
use crate::layout::{Layout, LayoutTree, NodeId};
use crate::paint::{IntoPaint, IntoRect, Paint};
use crate::plan::{leaf_plan, lemma_leaf_plan, Plan};
use crate::style::{Dimension, Style};
use crate::text::{fixed_style, spec_fixed_style};
use crate::unit::{clamp_i32, saturate, Density, Dp, Point, Rect, Size};
use crate::view::{
    measure_leaf, place_leaf, Action, DrawCommand, Event, HandlerId, RenderContext, View,
};

verus! {

/// A view that the application's painter `f` draws, in a node of the given
/// style.
pub struct WithCanvas {
    pub f: HandlerId,
    pub style: Style,
}

/// The extent that a style fixes: its points where it names points, and
/// nothing along an axis that it leaves open.
pub open spec fn spec_style_extent(style: Style) -> Size {
    Size {
        width: match style.size.width {
            Dimension::Points(w) => w,
            _ => 0,
        },
        height: match style.size.height {
            Dimension::Points(h) => h,
            _ => 0,
        },
    }
}

impl View for WithCanvas {
    open spec fn plan(&self, terminal: bool) -> Seq<Plan> {
        leaf_plan(self.style)
    }

    open spec fn spec_ev(&self, event: Event, how: RenderContext) -> Seq<Action> {
        Seq::empty()
    }

    open spec fn spec_render(&self, how: RenderContext) -> Seq<DrawCommand> {
        seq![DrawCommand::Canvas { painter: self.f, origin: how.layout.location }]
    }

    open spec fn spec_size(&self, terminal: bool) -> Size {
        spec_style_extent(self.style)
    }

    open spec fn spec_layouts(
        &self,
        position: Point,
        canvas: Size,
        density: Density,
        terminal: bool,
    ) -> Seq<Layout> {
        seq![Layout { size: self.spec_size(terminal), location: position }]
    }

    proof fn lemma_layouts(&self, position: Point, canvas: Size, density: Density, terminal: bool) {
    }

    proof fn lemma_plan(&self, terminal: bool) {
        lemma_leaf_plan(self.style);
    }

    fn style(&self, terminal: bool) -> (style: Style) {
        self.style
    }

    fn size(&self, terminal: bool) -> (size: Size) {
        Size {
            width: match self.style.size.width {
                Dimension::Points(w) => w,
                _ => 0,
            },
            height: match self.style.size.height {
                Dimension::Points(h) => h,
                _ => 0,
            },
        }
    }

    fn measure(&self, current: Option<NodeId>, tree: &mut LayoutTree, terminal: bool) -> (node:
        NodeId) {
        measure_leaf(self.style, current, tree)
    }

    fn place(
        &self,
        node: NodeId,
        position: Point,
        canvas: Size,
        density: Density,
        tree: &mut LayoutTree,
        terminal: bool,
    ) {
        place_leaf(node, position, self.size(terminal), tree)
    }

    fn render(&self, how: &RenderContext, out: &mut Vec<DrawCommand>) {
        out.push(DrawCommand::Canvas { painter: self.f, origin: how.layout.location });
        assert(out@ =~= old(out)@ + self.spec_render(*how));
    }

    fn ev(&self, event: &Event, how: &RenderContext, out: &mut Vec<Action>) {
        assert(out@ =~= old(out)@ + self.spec_ev(*event, *how));
    }
}

/// A view drawn by the painter `f`.
pub fn with_canvas(f: HandlerId, style: Style) -> (view: WithCanvas)
    ensures
        view.f == f,
        view.style == style,
{
    WithCanvas { f, style }
}

/// A painted rectangle, its edges in density-independent pixels.
pub struct Rectangle {
    pub rect: Rect<Dp>,
    pub paint: Paint,
}

impl Rectangle {
    /// The extent that the rectangle asks for: its left and right edge
    /// together wide, its top and bottom edge together high.
    pub open spec fn spec_extent(&self) -> Size {
        Size {
            width: clamp_i32(self.rect.left.0 + self.rect.right.0) as i32,
            height: clamp_i32(self.rect.top.0 + self.rect.bottom.0) as i32,
        }
    }

    /// The rectangle in physical pixels.
    pub open spec fn spec_pixels(&self, how: RenderContext) -> Rect<i64> {
        Rect {
            left: how.density.spec_round_to_pixels(self.rect.left) as i64,
            right: how.density.spec_round_to_pixels(self.rect.right) as i64,
            top: how.density.spec_round_to_pixels(self.rect.top) as i64,
            bottom: how.density.spec_round_to_pixels(self.rect.bottom) as i64,
        }
    }
}

impl View for Rectangle {
    open spec fn plan(&self, terminal: bool) -> Seq<Plan> {
        leaf_plan(spec_fixed_style(self.spec_extent()))
    }

    open spec fn spec_ev(&self, event: Event, how: RenderContext) -> Seq<Action> {
        Seq::empty()
    }

    open spec fn spec_render(&self, how: RenderContext) -> Seq<DrawCommand> {
        seq![DrawCommand::Rect { rect: self.spec_pixels(how), paint: self.paint }]
    }

    open spec fn spec_size(&self, terminal: bool) -> Size {
        self.spec_extent()
    }

    open spec fn spec_layouts(
        &self,
        position: Point,
        canvas: Size,
        density: Density,
        terminal: bool,
    ) -> Seq<Layout> {
        seq![Layout { size: self.spec_size(terminal), location: position }]
    }

    proof fn lemma_layouts(&self, position: Point, canvas: Size, density: Density, terminal: bool) {
    }

    proof fn lemma_plan(&self, terminal: bool) {
        lemma_leaf_plan(spec_fixed_style(self.spec_extent()));
    }

    fn style(&self, terminal: bool) -> (style: Style) {
        fixed_style(self.size(terminal))
    }

    fn size(&self, terminal: bool) -> (size: Size) {
        Size {
            width: saturate(self.rect.left.0 as i128 + self.rect.right.0 as i128),
            height: saturate(self.rect.top.0 as i128 + self.rect.bottom.0 as i128),
        }
    }

    fn measure(&self, current: Option<NodeId>, tree: &mut LayoutTree, terminal: bool) -> (node:
        NodeId) {
        measure_leaf(self.style(terminal), current, tree)
    }

    fn place(
        &self,
        node: NodeId,
        position: Point,
        canvas: Size,
        density: Density,
        tree: &mut LayoutTree,
        terminal: bool,
    ) {
        place_leaf(node, position, self.size(terminal), tree)
    }

    fn render(&self, how: &RenderContext, out: &mut Vec<DrawCommand>) {
        let rect = Rect {
            left: how.density.round_to_pixels(self.rect.left) as i64,
            right: how.density.round_to_pixels(self.rect.right) as i64,
            top: how.density.round_to_pixels(self.rect.top) as i64,
            bottom: how.density.round_to_pixels(self.rect.bottom) as i64,
        };
        out.push(DrawCommand::Rect { rect, paint: self.paint });
        assert(out@ =~= old(out)@ + self.spec_render(*how));
    }

    fn ev(&self, event: &Event, how: &RenderContext, out: &mut Vec<Action>) {
        assert(out@ =~= old(out)@ + self.spec_ev(*event, *how));
    }
}

/// A rectangle of the given edges and paint.
pub fn rectangle<R: IntoRect<Dp>, P: IntoPaint>(rect: R, paint: P) -> (view: Rectangle)
    ensures
        view.rect == rect.spec_into_rect(),
        view.paint == paint.spec_into_paint(),
{
    Rectangle { rect: rect.into_rect(), paint: paint.into_paint() }
}

} // verus!
