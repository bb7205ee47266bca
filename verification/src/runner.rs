//! The frame protocol: what is decided between the host's input and the
//! view tree. The host delivers its events; the application performs what
//! comes back: it solves the layout, draws the commands, runs the handlers.

use vstd::prelude::*;
use vstd::view::View as _;
use crate::layout::{LayoutTree, NodeId};
use crate::paint::{Color, WHITE};
use crate::plan::{holds, lemma_remeasured_holds, remeasured};
use crate::unit::{Density, Point};
use crate::view::{Action, DrawCommand, Event, MouseButton, RenderContext, View};

verus! {

/// What the host reports.
#[derive(Clone, Copy, Debug, PartialEq, Eq)]
pub enum HostEvent {
    /// The event loop has started.
    Init,
    /// The window has been asked to close.
    CloseRequested,
    /// The window has to be drawn again.
    RedrawRequested,
    /// The window has a new size in pixels.
    Resized { width: u32, height: u32 },
    /// A mouse button went down.
    MousePressed(MouseButton),
    /// The pointer is at a new position.
    CursorMoved(Point),
    /// Anything else.
    Other,
}

/// What the application is to do about a host event.
#[derive(Clone, Copy, Debug, PartialEq, Eq)]
pub enum Reaction {
    /// Wait for events instead of polling.
    Wait,
    /// Leave the event loop.
    Exit,
    /// Draw the frame again.
    Redraw,
    /// Fit the surface to the new size and ask for a redraw.
    Resize { width: u32, height: u32 },
    /// Hand the event to the root view.
    Dispatch(Event),
    /// Nothing.
    Ignore,
}

/// What is remembered between host events: where the pointer was last seen.
#[derive(Clone, Copy, Debug, PartialEq, Eq)]
pub struct Host {
    pub last_mouse: Point,
}

impl Host {
    /// The reaction to a host event. A press is a click where the pointer
    /// was last seen; a move is a cursor move to the new position.
    pub open spec fn spec_react(self, event: HostEvent) -> Reaction {
        match event {
            HostEvent::Init => Reaction::Wait,
            HostEvent::CloseRequested => Reaction::Exit,
            HostEvent::RedrawRequested => Reaction::Redraw,
            HostEvent::Resized { width, height } => Reaction::Resize { width, height },
            HostEvent::MousePressed(button) => Reaction::Dispatch(
                Event::Click(self.last_mouse, button),
            ),
            HostEvent::CursorMoved(position) => Reaction::Dispatch(Event::CursorMove(position)),
            HostEvent::Other => Reaction::Ignore,
        }
    }

    /// Where the pointer was last seen after a host event.
    pub open spec fn spec_after(self, event: HostEvent) -> Host {
        match event {
            HostEvent::CursorMoved(position) => Host { last_mouse: position },
            _ => self,
        }
    }

    /// A host that has not seen the pointer yet.
    pub fn new() -> (host: Host)
        ensures
            host == (Host { last_mouse: Point { x: 0, y: 0 } }),
    {
        Host { last_mouse: Point { x: 0, y: 0 } }
    }

    /// Takes a host event in and says what is to be done about it.
    pub fn react(&mut self, event: HostEvent) -> (reaction: Reaction)
        ensures
            reaction == old(self).spec_react(event),
            *final(self) == old(self).spec_after(event),
    {
        match event {
            HostEvent::Init => Reaction::Wait,
            HostEvent::CloseRequested => Reaction::Exit,
            HostEvent::RedrawRequested => Reaction::Redraw,
            HostEvent::Resized { width, height } => Reaction::Resize { width, height },
            HostEvent::MousePressed(button) => Reaction::Dispatch(
                Event::Click(self.last_mouse, button),
            ),
            HostEvent::CursorMoved(position) => {
                self.last_mouse = position;
                Reaction::Dispatch(Event::CursorMove(position))
            },
            HostEvent::Other => Reaction::Ignore,
        }
    }
}

/// Measures the root view again on its node and says whether the layout
/// has to be solved again.
pub fn refresh<V: View>(root: &V, node: NodeId, tree: &mut LayoutTree, terminal: bool) -> (relayout:
    bool)
    requires
        old(tree).wf(),
        holds(old(tree)@, root.plan(terminal), node.0 as int),
    ensures
        final(tree).wf(),
        final(tree)@ == remeasured(old(tree)@, root.plan(terminal), node.0 as int),
        holds(final(tree)@, root.plan(terminal), node.0 as int),
        relayout == final(tree)@[node.0 as int].dirty,
        relayout,
{
    proof {
        lemma_remeasured_holds(tree@, root.plan(terminal), node.0 as int);
    }
    let same = root.measure(Some(node), tree, terminal);
    tree.dirty(node)
}

/// The frame: the surface cleared to white, and the root view drawn from
/// the geometry that the tree holds for it now.
pub fn paint<V: View>(
    root: &V,
    node: NodeId,
    tree: &LayoutTree,
    density: Density,
    terminal: bool,
) -> (frame: Vec<DrawCommand>)
    requires
        tree.wf(),
        holds(tree@, root.plan(terminal), node.0 as int),
    ensures
        frame@ == seq![DrawCommand::Clear(Color(WHITE))] + root.spec_render(
            RenderContext {
                density,
                layout: tree@[node.0 as int].layout,
                tree,
                this_node: node,
                is_terminal: terminal,
            },
        ),
{
    let how = RenderContext::of(tree, node, density, terminal);
    let mut frame: Vec<DrawCommand> = Vec::new();
    frame.push(DrawCommand::Clear(Color(WHITE)));
    root.render(&how, &mut frame);
    frame
}

/// The handlers that an event reaches, from the geometry that the tree
/// holds now.
pub fn dispatch<V: View>(
    root: &V,
    node: NodeId,
    tree: &LayoutTree,
    density: Density,
    terminal: bool,
    event: &Event,
) -> (actions: Vec<Action>)
    requires
        tree.wf(),
        holds(tree@, root.plan(terminal), node.0 as int),
    ensures
        actions@ == root.spec_ev(
            *event,
            RenderContext {
                density,
                layout: tree@[node.0 as int].layout,
                tree,
                this_node: node,
                is_terminal: terminal,
            },
        ),
{
    let how = RenderContext::of(tree, node, density, terminal);
    let mut actions: Vec<Action> = Vec::new();
    root.ev(event, &how, &mut actions);
    assert(actions@ =~= root.spec_ev(*event, how));
    actions
}

} // verus!
