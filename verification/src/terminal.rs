//! Terminals: what differs when the surface is a grid of character cells.

use vstd::prelude::*;
use vstd::view::View as _;
use crate::layout::{Layout, LayoutTree, NodeId};
use crate::plan::Plan;
use crate::style::Style;
use crate::unit::{Density, Point, Size};
use crate::view::{Action, DrawCommand, Event, RenderContext, View};

verus! {

/// The magnitude of a coordinate.
pub open spec fn magnitude(v: int) -> int {
    if v < 0 {
        -v
    } else {
        v
    }
}

/// The cell that the cursor moves to for a point: the magnitudes of its
/// coordinates.
pub fn cursor_cell(point: Point) -> (cell: (u16, u16))
    requires
        magnitude(point.x as int) <= u16::MAX,
        magnitude(point.y as int) <= u16::MAX,
    ensures
        cell.0 == magnitude(point.x as int),
        cell.1 == magnitude(point.y as int),
{
    let x: i32 = if point.x < 0 {
        -point.x
    } else {
        point.x
    };
    let y: i32 = if point.y < 0 {
        -point.y
    } else {
        point.y
    };
    (x as u16, y as u16)
}

/// One view for graphical surfaces and another for terminals.
pub struct SwitchIfTerminal<G, T> {
    pub graphical: G,
    pub terminal: T,
}

impl<G: View, T: View> View for SwitchIfTerminal<G, T> {
    open spec fn plan(&self, terminal: bool) -> Seq<Plan> {
        if terminal {
            self.terminal.plan(terminal)
        } else {
            self.graphical.plan(terminal)
        }
    }

    open spec fn spec_ev(&self, event: Event, how: RenderContext) -> Seq<Action> {
        if how.is_terminal {
            self.terminal.spec_ev(event, how)
        } else {
            self.graphical.spec_ev(event, how)
        }
    }

    open spec fn spec_render(&self, how: RenderContext) -> Seq<DrawCommand> {
        if how.is_terminal {
            self.terminal.spec_render(how)
        } else {
            self.graphical.spec_render(how)
        }
    }

    open spec fn spec_size(&self, terminal: bool) -> Size {
        if terminal {
            self.terminal.spec_size(terminal)
        } else {
            self.graphical.spec_size(terminal)
        }
    }

    open spec fn spec_layouts(
        &self,
        position: Point,
        canvas: Size,
        density: Density,
        terminal: bool,
    ) -> Seq<Layout> {
        if terminal {
            self.terminal.spec_layouts(position, canvas, density, terminal)
        } else {
            self.graphical.spec_layouts(position, canvas, density, terminal)
        }
    }

    proof fn lemma_layouts(&self, position: Point, canvas: Size, density: Density, terminal: bool) {
        self.terminal.lemma_layouts(position, canvas, density, terminal);
        self.graphical.lemma_layouts(position, canvas, density, terminal);
    }

    proof fn lemma_plan(&self, terminal: bool) {
        self.terminal.lemma_plan(terminal);
        self.graphical.lemma_plan(terminal);
    }

    fn style(&self, terminal: bool) -> (style: Style) {
        if terminal {
            self.terminal.style(terminal)
        } else {
            self.graphical.style(terminal)
        }
    }

    fn size(&self, terminal: bool) -> (size: Size) {
        if terminal {
            self.terminal.size(terminal)
        } else {
            self.graphical.size(terminal)
        }
    }

    fn measure(&self, current: Option<NodeId>, tree: &mut LayoutTree, terminal: bool) -> (node:
        NodeId) {
        if terminal {
            self.terminal.measure(current, tree, terminal)
        } else {
            self.graphical.measure(current, tree, terminal)
        }
    }

    fn place(
        &self,
        node: NodeId,
        position: Point,
        canvas: Size,
        density: Density,
        tree: &mut LayoutTree,
        terminal: bool,
    ) {
        if terminal {
            self.terminal.place(node, position, canvas, density, tree, terminal)
        } else {
            self.graphical.place(node, position, canvas, density, tree, terminal)
        }
    }

    fn render(&self, how: &RenderContext, out: &mut Vec<DrawCommand>) {
        if how.is_terminal {
            self.terminal.render(how, out)
        } else {
            self.graphical.render(how, out)
        }
    }

    fn ev(&self, event: &Event, how: &RenderContext, out: &mut Vec<Action>) {
        if how.is_terminal {
            self.terminal.ev(event, how, out)
        } else {
            self.graphical.ev(event, how, out)
        }
    }
}

/// `graphical` on a graphical surface, `terminal` on a terminal.
pub fn switch_render_mode<G: View, T: View>(graphical: G, terminal: T) -> (view: SwitchIfTerminal<
    G,
    T,
>)
    ensures
        view.graphical == graphical,
        view.terminal == terminal,
{
    SwitchIfTerminal { graphical, terminal }
}

} // verus!
