//! Buttons: a view that answers presses.

use vstd::prelude::*;
use vstd::view::View as _;
use crate::layout::{Layout, LayoutTree, NodeId};
use crate::plan::Plan;
use crate::style::Style;
use crate::unit::{Density, Point, Size};
use crate::view::{
    hits, taffy_rect, taffy_rect_contains, Action, DrawCommand, Event, HandlerId, RenderContext,
    TerminalEvent, View,
};

verus! {

/// A view that hands the presses that fall inside it to a handler. It looks
/// and is measured like its child.
pub struct Button<C> {
    pub child: C,
    pub on_click: HandlerId,
}

/// The press that a button makes of an event: a click inside its rectangle,
/// or a button going down over a cell inside it. On a terminal the row is
/// taken for the horizontal and the column for the vertical position.
pub open spec fn press_actions(handler: HandlerId, event: Event, how: RenderContext) -> Seq<
    Action,
> {
    match event {
        Event::Click(point, button) => if hits(how.layout, point) {
            seq![Action::Press { handler, point, button }]
        } else {
            Seq::empty()
        },
        Event::Terminal(TerminalEvent::MouseDown { row, column, button }) => {
            let point = Point { x: row as i32, y: column as i32 };
            if hits(how.layout, point) {
                seq![Action::Press { handler, point, button }]
            } else {
                Seq::empty()
            }
        },
        _ => Seq::empty(),
    }
}

impl<C: View> View for Button<C> {
    open spec fn plan(&self, terminal: bool) -> Seq<Plan> {
        self.child.plan(terminal)
    }

    open spec fn spec_ev(&self, event: Event, how: RenderContext) -> Seq<Action> {
        press_actions(self.on_click, event, how) + self.child.spec_ev(event, how)
    }

    open spec fn spec_render(&self, how: RenderContext) -> Seq<DrawCommand> {
        self.child.spec_render(how)
    }

    open spec fn spec_size(&self, terminal: bool) -> Size {
        self.child.spec_size(terminal)
    }

    open spec fn spec_layouts(
        &self,
        position: Point,
        canvas: Size,
        density: Density,
        terminal: bool,
    ) -> Seq<Layout> {
        self.child.spec_layouts(position, canvas, density, terminal)
    }

    proof fn lemma_layouts(&self, position: Point, canvas: Size, density: Density, terminal: bool) {
        self.child.lemma_layouts(position, canvas, density, terminal);
    }

    proof fn lemma_plan(&self, terminal: bool) {
        self.child.lemma_plan(terminal);
    }

    fn style(&self, terminal: bool) -> (style: Style) {
        self.child.style(terminal)
    }

    fn size(&self, terminal: bool) -> (size: Size) {
        self.child.size(terminal)
    }

    fn measure(&self, current: Option<NodeId>, tree: &mut LayoutTree, terminal: bool) -> (node:
        NodeId) {
        self.child.measure(current, tree, terminal)
    }

    fn place(
        &self,
        node: NodeId,
        position: Point,
        canvas: Size,
        density: Density,
        tree: &mut LayoutTree,
        terminal: bool,
    ) {
        self.child.place(node, position, canvas, density, tree, terminal)
    }

    fn render(&self, how: &RenderContext, out: &mut Vec<DrawCommand>) {
        self.child.render(how, out)
    }

    fn ev(&self, event: &Event, how: &RenderContext, out: &mut Vec<Action>) {
        let rect = taffy_rect(how.layout.size, how.layout.location);
        match event {
            Event::Click(point, button) => {
                if taffy_rect_contains(&rect, point) {
                    out.push(
                        Action::Press { handler: self.on_click, point: *point, button: *button },
                    );
                }
            },
            Event::Terminal(TerminalEvent::MouseDown { row, column, button }) => {
                let point = Point { x: *row as i32, y: *column as i32 };
                if taffy_rect_contains(&rect, &point) {
                    out.push(Action::Press { handler: self.on_click, point, button: *button });
                }
            },
            _ => {},
        }
        assert(out@ =~= old(out)@ + press_actions(self.on_click, *event, *how));
        self.child.ev(event, how, out);
        assert(out@ =~= old(out)@ + self.spec_ev(*event, *how));
    }
}

/// A button around `child` whose presses go to `on_click`.
pub fn button<C: View>(child: C, on_click: HandlerId) -> (view: Button<C>)
    ensures
        view.child == child,
        view.on_click == on_click,
{
    Button { child, on_click }
}

} // verus!
