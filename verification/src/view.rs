//! The view protocol: what every node of a user interface can do.
//!
//! A view reports a style, is measured into the layout tree, renders itself
//! into a list of draw commands and answers an input event with the list of
//! handlers that the event reaches. Rendering and event dispatch read the
//! geometry that a solver has resolved in the tree; they never compute it.

use vstd::prelude::*;
use vstd::view::View as _;
use crate::layout::{Layout, LayoutTree, NodeId};
use crate::paint::{Color, Font, Paint};
use crate::plan::{
    holds, laid_out, leaf_plan, lemma_holds_same_shape, lemma_laid_out_leaf,
    lemma_planted_holds, lemma_planted_leaf, lemma_remeasured_holds, lemma_restyled_leaf,
    plan_wf, planted, remeasured, Plan,
};
use crate::style::Style;
use crate::unit::{Density, Point, Rect, Size};

verus! {

/// A button of a pointing device.
#[derive(Clone, Copy, Debug, PartialEq, Eq)]
pub enum MouseButton {
    Left,
    Middle,
    Right,
    Back,
    Forward,
    Other(u16),
}

/// What a terminal reports of its pointer.
#[derive(Clone, Copy, Debug, PartialEq, Eq)]
pub enum TerminalEvent {
    /// A button went down over the cell at `row` and `column`.
    MouseDown { row: u16, column: u16, button: MouseButton },
    /// Anything else.
    Other,
}

/// An input event as the view tree sees it.
#[derive(Clone, Copy, Debug, PartialEq, Eq)]
pub enum Event {
    Click(Point, MouseButton),
    CursorMove(Point),
    Terminal(TerminalEvent),
}

/// The name under which the application keeps a callback.
#[derive(Clone, Copy, Debug, PartialEq, Eq)]
pub struct HandlerId(pub u64);

/// The name under which the application keeps a writable flag.
#[derive(Clone, Copy, Debug, PartialEq, Eq)]
pub struct SignalId(pub u64);

/// One thing that an event asks of the application.
#[derive(Clone, Copy, Debug, PartialEq, Eq)]
pub enum Action {
    /// Call the handler with the event.
    Event { handler: HandlerId, event: Event },
    /// Call the handler with the button that was clicked.
    Click { handler: HandlerId, button: MouseButton },
    /// Call the handler with the point and the button of a press.
    Press { handler: HandlerId, point: Point, button: MouseButton },
    /// Write whether the pointer is over the view. `false` is written only
    /// over `true`: see [`hover_write`].
    Hover { signal: SignalId, hovering: bool },
}

/// The write that a [`Action::Hover`] comes to, given what the flag holds:
/// `true` is always written, `false` only where the flag is not `false`
/// already.
pub fn hover_write(current: bool, hovering: bool) -> (write: Option<bool>)
    ensures
        write == if hovering {
            Some(true)
        } else if current {
            Some(false)
        } else {
            None::<bool>
        },
{
    if hovering {
        Some(true)
    } else if current {
        Some(false)
    } else {
        None
    }
}

/// One instruction for the drawing surface.
#[derive(Clone, Debug, PartialEq, Eq)]
pub enum DrawCommand {
    /// Cover the whole surface with a colour.
    Clear(Color),
    /// Fill or outline a rectangle.
    Rect { rect: Rect<i64>, paint: Paint },
    /// Draw a run of text from a point.
    Text { text: String, position: Point, font: Font, paint: Paint },
    /// Let the application's painter draw with the origin moved to a point,
    /// and restore the surface afterwards.
    Canvas { painter: HandlerId, origin: Point },
}

/// The rectangle that a node of `size` takes up at `point`. Its edges are
/// wide enough for any position and extent.
pub open spec fn spec_taffy_rect(size: Size, point: Point) -> Rect<i64> {
    Rect {
        left: point.x as i64,
        right: (point.x + size.width) as i64,
        top: point.y as i64,
        bottom: (point.y + size.height) as i64,
    }
}

/// Whether `point` lies inside `rect`: at or after the left and top edges,
/// before the right and bottom edges.
pub open spec fn spec_taffy_rect_contains(rect: Rect<i64>, point: Point) -> bool {
    rect.left <= point.x < rect.right && rect.top <= point.y < rect.bottom
}

/// Whether `point` lies inside the rectangle of `layout`.
pub open spec fn hits(layout: Layout, point: Point) -> bool {
    spec_taffy_rect_contains(spec_taffy_rect(layout.size, layout.location), point)
}

/// Computes [`spec_taffy_rect`].
pub fn taffy_rect(size: Size, point: Point) -> (rect: Rect<i64>)
    ensures
        rect == spec_taffy_rect(size, point),
{
    Rect {
        left: point.x as i64,
        right: point.x as i64 + size.width as i64,
        top: point.y as i64,
        bottom: point.y as i64 + size.height as i64,
    }
}

/// Computes [`spec_taffy_rect_contains`].
pub fn taffy_rect_contains(rect: &Rect<i64>, point: &Point) -> (inside: bool)
    ensures
        inside == spec_taffy_rect_contains(*rect, *point),
{
    rect.left <= point.x as i64 && (point.x as i64) < rect.right && rect.top <= point.y as i64 && (
    point.y as i64) < rect.bottom
}

/// What a view is told when it renders or receives an event: the resolved
/// geometry of its node, the tree to look its children up in, and the
/// display it is shown on.
#[derive(Clone, Copy)]
pub struct RenderContext<'a> {
    pub density: Density,
    pub layout: Layout,
    pub tree: &'a LayoutTree,
    pub this_node: NodeId,
    pub is_terminal: bool,
}

impl<'a> RenderContext<'a> {
    /// The context speaks of a node of its tree, and its geometry is the one
    /// that the tree holds for that node.
    pub open spec fn wf(&self) -> bool {
        &&& self.tree.wf()
        &&& self.tree.has(self.this_node)
        &&& self.layout == self.tree@[self.this_node.0 as int].layout
    }

    /// The context of the child at `index`: everything is looked up in the
    /// tree, nothing is computed from the parent's geometry.
    pub open spec fn spec_child(self, index: int) -> RenderContext<'a> {
        let child = self.tree@[self.this_node.0 as int].children[index];
        RenderContext {
            layout: self.tree@[child.0 as int].layout,
            this_node: child,
            ..self
        }
    }

    /// The context of the node `node` of `tree`.
    pub fn of(tree: &'a LayoutTree, node: NodeId, density: Density, is_terminal: bool) -> (how:
        RenderContext<'a>)
        requires
            tree.wf(),
            tree.has(node),
        ensures
            how.wf(),
            how.tree == tree,
            how.this_node == node,
            how.density == density,
            how.is_terminal == is_terminal,
    {
        RenderContext { density, layout: tree.layout(node), tree, this_node: node, is_terminal }
    }

    /// The context of the child at `index`.
    pub fn child(&self, index: usize) -> (how: RenderContext<'a>)
        requires
            self.wf(),
            index < self.tree@[self.this_node.0 as int].children.len(),
        ensures
            how == self.spec_child(index as int),
            how.wf(),
    {
        proof {
            self.tree.lemma_ordered();
        }
        let child = self.tree.child(self.this_node, index);
        RenderContext {
            density: self.density,
            layout: self.tree.layout(child),
            tree: self.tree,
            this_node: child,
            is_terminal: self.is_terminal,
        }
    }
}

/// A node of a user interface.
pub trait View {
    /// The block of layout nodes that the view is measured into, for a
    /// terminal or for a graphical surface. Its last entry is the view's own
    /// node.
    spec fn plan(&self, terminal: bool) -> Seq<Plan>;

    /// The handlers that an event reaches, in the order in which it reaches
    /// them.
    spec fn spec_ev(&self, event: Event, how: RenderContext) -> Seq<Action>;

    /// What the view draws, in drawing order.
    spec fn spec_render(&self, how: RenderContext) -> Seq<DrawCommand>;

    /// The extent that the view asks for, before any layout.
    spec fn spec_size(&self, terminal: bool) -> Size;

    /// The geometry that the view gives the nodes of its block, in the order
    /// of the block, when it places itself at `position` on a surface of the
    /// size `canvas`.
    spec fn spec_layouts(
        &self,
        position: Point,
        canvas: Size,
        density: Density,
        terminal: bool,
    ) -> Seq<Layout>;

    proof fn lemma_layouts(&self, position: Point, canvas: Size, density: Density, terminal: bool)
        ensures
            self.spec_layouts(position, canvas, density, terminal).len() == self.plan(
                terminal,
            ).len(),
    ;

    proof fn lemma_plan(&self, terminal: bool)
        ensures
            plan_wf(self.plan(terminal)),
    ;

    /// The style of the view's own node, from what the view holds now.
    fn style(&self, terminal: bool) -> (style: Style)
        ensures
            style == self.plan(terminal).last().style,
    ;

    /// The extent that the view asks for, before any layout.
    fn size(&self, terminal: bool) -> (size: Size)
        ensures
            size == self.spec_size(terminal),
    ;

    /// Measures the view into the tree, for a terminal or for a graphical
    /// surface. Without a node, the view's block is
    /// created at the end of the tree, children first and in order. With the
    /// node of an earlier measurement, the styles of that block are brought up
    /// to date in place: no node is created and none changes its place.
    fn measure(&self, current: Option<NodeId>, tree: &mut LayoutTree, terminal: bool) -> (node:
        NodeId)
        requires
            old(tree).wf(),
            current matches Some(id) ==> holds(old(tree)@, self.plan(terminal), id.0 as int),
        ensures
            final(tree).wf(),
            holds(final(tree)@, self.plan(terminal), node.0 as int),
            current matches Some(id) ==> node == id && final(tree)@ == remeasured(
                old(tree)@,
                self.plan(terminal),
                id.0 as int,
            ),
            current is None ==> node.0 == old(tree)@.len() + self.plan(terminal).len() - 1,
            current is None ==> final(tree)@ == old(tree)@ + planted(
                self.plan(terminal),
                old(tree)@.len() as int,
            ),
    ;

    /// Places the view at `position` by itself, without a solver: its own
    /// node gets the extent the view asks for, and a container arranges its
    /// children along its axis from there. What a modifier tells the layout
    /// engine alone (an offset, a padding) is for a solver, and moves nothing
    /// here.
    fn place(
        &self,
        node: NodeId,
        position: Point,
        canvas: Size,
        density: Density,
        tree: &mut LayoutTree,
        terminal: bool,
    )
        requires
            old(tree).wf(),
            holds(old(tree)@, self.plan(terminal), node.0 as int),
        ensures
            final(tree).wf(),
            holds(final(tree)@, self.plan(terminal), node.0 as int),
            final(tree)@ == laid_out(
                old(tree)@,
                self.spec_layouts(position, canvas, density, terminal),
                node.0 as int,
            ),
    ;

    /// Appends what the view draws to `out`.
    fn render(&self, how: &RenderContext, out: &mut Vec<DrawCommand>)
        requires
            how.wf(),
            holds(how.tree@, self.plan(how.is_terminal), how.this_node.0 as int),
        ensures
            final(out)@ == old(out)@ + self.spec_render(*how),
    ;

    /// Appends the handlers that `event` reaches to `out`.
    fn ev(&self, event: &Event, how: &RenderContext, out: &mut Vec<Action>)
        requires
            how.wf(),
            holds(how.tree@, self.plan(how.is_terminal), how.this_node.0 as int),
        ensures
            final(out)@ == old(out)@ + self.spec_ev(*event, *how),
    ;
}

/// Measures a view without children: one node of the given style.
pub fn measure_leaf(style: Style, current: Option<NodeId>, tree: &mut LayoutTree) -> (node: NodeId)
    requires
        old(tree).wf(),
        current matches Some(id) ==> holds(old(tree)@, leaf_plan(style), id.0 as int),
    ensures
        final(tree).wf(),
        holds(final(tree)@, leaf_plan(style), node.0 as int),
        match current {
            Some(id) => node == id && final(tree)@ == remeasured(
                old(tree)@,
                leaf_plan(style),
                id.0 as int,
            ),
            None => node.0 == old(tree)@.len() && final(tree)@ == old(tree)@ + planted(
                leaf_plan(style),
                old(tree)@.len() as int,
            ),
        },
{
    match current {
        Some(id) => {
            proof {
                lemma_restyled_leaf(tree@, id.0 as int, style);
                lemma_remeasured_holds(tree@, leaf_plan(style), id.0 as int);
            }
            tree.set_style(id, style);
            id
        },
        None => {
            let node = tree.new_leaf(style);
            proof {
                lemma_planted_leaf(style, old(tree)@.len() as int);
                lemma_planted_holds(old(tree)@, leaf_plan(style));
            }
            assert(tree@ =~= old(tree)@ + planted(leaf_plan(style), old(tree)@.len() as int));
            node
        },
    }
}

/// Places a view without children: its node gets the extent `size` at
/// `position`.
pub fn place_leaf(node: NodeId, position: Point, size: Size, tree: &mut LayoutTree)
    requires
        old(tree).wf(),
        old(tree).has(node),
    ensures
        final(tree).wf(),
        forall|plan: Seq<Plan>|
            holds(old(tree)@, plan, node.0 as int) ==> #[trigger] holds(
                final(tree)@,
                plan,
                node.0 as int,
            ),
        final(tree)@ == laid_out(
            old(tree)@,
            seq![Layout { size, location: position }],
            node.0 as int,
        ),
{
    proof {
        lemma_laid_out_leaf(tree@, node.0 as int, Layout { size, location: position });
    }
    tree.set_layout(node, Layout { size, location: position });
    proof {
        assert forall|plan: Seq<Plan>|
            holds(old(tree)@, plan, node.0 as int) implies #[trigger] holds(
            tree@,
            plan,
            node.0 as int,
        ) by {
            lemma_holds_same_shape(old(tree)@, tree@, plan, node.0 as int);
        }
    }
}

} // verus!
