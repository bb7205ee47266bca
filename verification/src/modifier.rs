//! Modifiers: behaviour wrapped around a view.
//!
//! A modifier may change the style of the view it wraps, draw before it, or
//! listen to the events that pass through it. What it does not change it
//! hands to the view unchanged, so modifiers stack in any order and number.

use vstd::prelude::*;
use vstd::view::View as _;
use crate::alignment::{nearest_position, Alignment};
use crate::layout::{Layout, LayoutTree, NodeId};
use crate::paint::{IntoPaint, IntoRect, Paint};
use crate::plan::{
    holds, lemma_planted_holds, lemma_remeasured_holds, lemma_restyle_planted,
    lemma_restyle_remeasured, lemma_with_root_style, planted, remeasured, with_root_style, Plan,
};
use crate::style::{LengthPercentage, LengthPercentageAuto, Style};
use crate::unit::{clamp_i32, saturate, Density, Point, Rect, Size};
use crate::view::{
    hits, spec_taffy_rect, taffy_rect, taffy_rect_contains, Action, DrawCommand, Event, HandlerId,
    MouseButton, RenderContext, SignalId, View,
};

verus! {

/// Behaviour wrapped around a view of type `V`.
pub trait Modifier<V: View> {
    /// The style of the modified view. Unless a modifier says otherwise, it
    /// is the style of the view.
    open spec fn spec_style(&self, view: &V, terminal: bool) -> Style {
        view.plan(terminal).last().style
    }

    /// The handlers that an event reaches in the modified view. Unless a
    /// modifier says otherwise, they are those of the view.
    open spec fn spec_ev(&self, view: &V, event: Event, how: RenderContext) -> Seq<Action> {
        view.spec_ev(event, how)
    }

    /// What the modified view draws. Unless a modifier says otherwise, it is
    /// what the view draws.
    open spec fn spec_render(&self, view: &V, how: RenderContext) -> Seq<DrawCommand> {
        view.spec_render(how)
    }

    /// Where the modified view places itself when it is told to place
    /// itself at `position` on a surface of the size `canvas`. Unless a
    /// modifier says otherwise, it is `position`.
    open spec fn spec_origin(
        &self,
        view: &V,
        position: Point,
        canvas: Size,
        terminal: bool,
    ) -> Point {
        position
    }

    fn style(&self, view: &V, terminal: bool) -> (style: Style)
        ensures
            style == self.spec_style(view, terminal),
    ;

    fn origin(&self, view: &V, position: Point, canvas: Size, terminal: bool) -> (origin: Point)
        ensures
            origin == self.spec_origin(view, position, canvas, terminal),
    ;

    /// Measures the view, then gives its node the style of the modified
    /// view.
    fn measure(
        &self,
        view: &V,
        current: Option<NodeId>,
        tree: &mut LayoutTree,
        terminal: bool,
    ) -> (node: NodeId)
        requires
            old(tree).wf(),
            current matches Some(id) ==> holds(old(tree)@, view.plan(terminal), id.0 as int),
        ensures
            final(tree).wf(),
            holds(
                final(tree)@,
                with_root_style(view.plan(terminal), self.spec_style(view, terminal)),
                node.0 as int,
            ),
            current matches Some(id) ==> node == id && final(tree)@ == remeasured(
                old(tree)@,
                with_root_style(view.plan(terminal), self.spec_style(view, terminal)),
                id.0 as int,
            ),
            current is None ==> node.0 == old(tree)@.len() + view.plan(terminal).len() - 1,
            current is None ==> final(tree)@ == old(tree)@ + planted(
                with_root_style(view.plan(terminal), self.spec_style(view, terminal)),
                old(tree)@.len() as int,
            ),
    {
        proof {
            let merged = with_root_style(view.plan(terminal), self.spec_style(view, terminal));
            view.lemma_plan(terminal);
            lemma_with_root_style(view.plan(terminal), self.spec_style(view, terminal));
            match current {
                Some(id) => {
                    lemma_restyle_remeasured(
                        old(tree)@,
                        view.plan(terminal),
                        id.0 as int,
                        self.spec_style(view, terminal),
                    );
                    assert(holds(old(tree)@, merged, id.0 as int));
                    lemma_remeasured_holds(old(tree)@, merged, id.0 as int);
                },
                None => {
                    lemma_restyle_planted(
                        old(tree)@,
                        view.plan(terminal),
                        self.spec_style(view, terminal),
                    );
                    lemma_planted_holds(old(tree)@, merged);
                },
            }
        }
        let node = view.measure(current, tree, terminal);
        let style = self.style(view, terminal);
        tree.set_style(node, style);
        node
    }

    fn ev(&self, view: &V, event: &Event, how: &RenderContext, out: &mut Vec<Action>)
        requires
            how.wf(),
            holds(how.tree@, view.plan(how.is_terminal), how.this_node.0 as int),
        ensures
            final(out)@ == old(out)@ + self.spec_ev(view, *event, *how),
    ;

    fn render(&self, view: &V, how: &RenderContext, out: &mut Vec<DrawCommand>)
        requires
            how.wf(),
            holds(how.tree@, view.plan(how.is_terminal), how.this_node.0 as int),
        ensures
            final(out)@ == old(out)@ + self.spec_render(view, *how),
    ;
}

/// A view with a modifier around it.
pub struct Applied<V, M> {
    pub view: V,
    pub modifier: M,
}

impl<V: View, M: Modifier<V>> View for Applied<V, M> {
    open spec fn plan(&self, terminal: bool) -> Seq<Plan> {
        with_root_style(self.view.plan(terminal), self.modifier.spec_style(&self.view, terminal))
    }

    open spec fn spec_ev(&self, event: Event, how: RenderContext) -> Seq<Action> {
        self.modifier.spec_ev(&self.view, event, how)
    }

    open spec fn spec_render(&self, how: RenderContext) -> Seq<DrawCommand> {
        self.modifier.spec_render(&self.view, how)
    }

    open spec fn spec_size(&self, terminal: bool) -> Size {
        self.view.spec_size(terminal)
    }

    open spec fn spec_layouts(
        &self,
        position: Point,
        canvas: Size,
        density: Density,
        terminal: bool,
    ) -> Seq<Layout> {
        self.view.spec_layouts(
            self.modifier.spec_origin(&self.view, position, canvas, terminal),
            canvas,
            density,
            terminal,
        )
    }

    proof fn lemma_layouts(&self, position: Point, canvas: Size, density: Density, terminal: bool) {
        self.view.lemma_layouts(
            self.modifier.spec_origin(&self.view, position, canvas, terminal),
            canvas,
            density,
            terminal,
        );
        self.lemma_unwrapped(terminal);
    }

    proof fn lemma_plan(&self, terminal: bool) {
        self.view.lemma_plan(terminal);
        lemma_with_root_style(
            self.view.plan(terminal),
            self.modifier.spec_style(&self.view, terminal),
        );
    }

    fn style(&self, terminal: bool) -> (style: Style) {
        proof {
            self.lemma_unwrapped(terminal);
        }
        self.modifier.style(&self.view, terminal)
    }

    fn size(&self, terminal: bool) -> (size: Size) {
        self.view.size(terminal)
    }

    fn measure(&self, current: Option<NodeId>, tree: &mut LayoutTree, terminal: bool) -> (node:
        NodeId) {
        proof {
            self.lemma_unwrapped(terminal);
        }
        self.modifier.measure(&self.view, current, tree, terminal)
    }

    fn place(
        &self,
        node: NodeId,
        position: Point,
        canvas: Size,
        density: Density,
        tree: &mut LayoutTree,
        terminal: bool,
    ) {
        proof {
            self.lemma_unwrapped(terminal);
        }
        let origin = self.modifier.origin(&self.view, position, canvas, terminal);
        self.view.place(node, origin, canvas, density, tree, terminal)
    }

    fn render(&self, how: &RenderContext, out: &mut Vec<DrawCommand>) {
        proof {
            self.lemma_unwrapped(how.is_terminal);
        }
        self.modifier.render(&self.view, how, out)
    }

    fn ev(&self, event: &Event, how: &RenderContext, out: &mut Vec<Action>) {
        proof {
            self.lemma_unwrapped(how.is_terminal);
        }
        self.modifier.ev(&self.view, event, how, out)
    }
}

impl<V: View, M: Modifier<V>> Applied<V, M> {
    /// A modified view takes up the nodes of the view: wherever one has its
    /// shape, so has the other.
    pub proof fn lemma_unwrapped(&self, terminal: bool)
        ensures
            self.plan(terminal).len() == self.view.plan(terminal).len(),
            self.plan(terminal).last().style == self.modifier.spec_style(&self.view, terminal),
            forall|nodes: Seq<crate::layout::NodeData>, root: int|
                holds(nodes, self.view.plan(terminal), root) <==> #[trigger] holds(
                    nodes,
                    self.plan(terminal),
                    root,
                ),
    {
        self.view.lemma_plan(terminal);
        lemma_with_root_style(
            self.view.plan(terminal),
            self.modifier.spec_style(&self.view, terminal),
        );
    }
}

/// The modifier that changes nothing.
pub struct Identity;

impl<V: View> Modifier<V> for Identity {
    fn style(&self, view: &V, terminal: bool) -> (style: Style) {
        view.style(terminal)
    }

    fn origin(&self, view: &V, position: Point, canvas: Size, terminal: bool) -> (origin: Point) {
        position
    }

    fn ev(&self, view: &V, event: &Event, how: &RenderContext, out: &mut Vec<Action>) {
        view.ev(event, how, out)
    }

    fn render(&self, view: &V, how: &RenderContext, out: &mut Vec<DrawCommand>) {
        view.render(how, out)
    }
}

/// Wrapping a view in a modifier that changes nothing changes nothing: the
/// style, the plan, the drawing and the events of the wrapped view are those
/// of the view.
pub proof fn lemma_identity_delegates<V: View>(
    view: V,
    terminal: bool,
    event: Event,
    how: RenderContext,
)
    ensures
        (Applied { view, modifier: Identity }).plan(terminal) == view.plan(terminal),
        (Applied { view, modifier: Identity }).plan(terminal).last().style == view.plan(
            terminal,
        ).last().style,
        (Applied { view, modifier: Identity }).spec_ev(event, how) == view.spec_ev(event, how),
        (Applied { view, modifier: Identity }).spec_render(how) == view.spec_render(how),
        (Applied { view, modifier: Identity }).spec_size(terminal) == view.spec_size(terminal),
        forall|position: Point, canvas: Size, density: Density|
            #[trigger] (Applied { view, modifier: Identity }).spec_layouts(
                position,
                canvas,
                density,
                terminal,
            ) == view.spec_layouts(position, canvas, density, terminal),
{
    view.lemma_plan(terminal);
    let plan = view.plan(terminal);
    assert(with_root_style(plan, plan.last().style) =~= plan);
}

/// The same of any modifier that, for this view, leaves the three alone.
pub proof fn lemma_unchanged_delegates<V: View, M: Modifier<V>>(
    view: V,
    modifier: M,
    terminal: bool,
    event: Event,
    how: RenderContext,
)
    requires
        modifier.spec_style(&view, terminal) == view.plan(terminal).last().style,
        modifier.spec_ev(&view, event, how) == view.spec_ev(event, how),
        modifier.spec_render(&view, how) == view.spec_render(how),
    ensures
        (Applied { view, modifier }).plan(terminal) == view.plan(terminal),
        (Applied { view, modifier }).spec_ev(event, how) == view.spec_ev(event, how),
        (Applied { view, modifier }).spec_render(how) == view.spec_render(how),
{
    view.lemma_plan(terminal);
    let plan = view.plan(terminal);
    assert(with_root_style(plan, plan.last().style) =~= plan);
}

/// Paints the rectangle of the view before the view draws.
#[derive(Clone, Copy, Debug, PartialEq, Eq)]
pub struct Background(pub Paint);

impl<V: View> Modifier<V> for Background {
    open spec fn spec_render(&self, view: &V, how: RenderContext) -> Seq<DrawCommand> {
        seq![
            DrawCommand::Rect {
                rect: spec_taffy_rect(how.layout.size, how.layout.location),
                paint: self.0,
            },
        ] + view.spec_render(how)
    }

    fn style(&self, view: &V, terminal: bool) -> (style: Style) {
        view.style(terminal)
    }

    fn origin(&self, view: &V, position: Point, canvas: Size, terminal: bool) -> (origin: Point) {
        position
    }

    fn ev(&self, view: &V, event: &Event, how: &RenderContext, out: &mut Vec<Action>) {
        view.ev(event, how, out)
    }

    fn render(&self, view: &V, how: &RenderContext, out: &mut Vec<DrawCommand>) {
        out.push(
            DrawCommand::Rect {
                rect: taffy_rect(how.layout.size, how.layout.location),
                paint: self.0,
            },
        );
        let ghost drawn = out@;
        view.render(how, out);
        assert(out@ =~= old(out)@ + self.spec_render(view, *how));
    }
}

/// Moves the view away from the place that the layout gives it.
#[derive(Clone, Copy, Debug, PartialEq, Eq)]
pub struct Offset(pub Rect<LengthPercentageAuto>);

impl<V: View> Modifier<V> for Offset {
    open spec fn spec_style(&self, view: &V, terminal: bool) -> Style {
        Style { inset: self.0, ..view.plan(terminal).last().style }
    }

    fn style(&self, view: &V, terminal: bool) -> (style: Style) {
        let mut style = view.style(terminal);
        style.inset = self.0;
        style
    }

    fn origin(&self, view: &V, position: Point, canvas: Size, terminal: bool) -> (origin: Point) {
        position
    }

    fn ev(&self, view: &V, event: &Event, how: &RenderContext, out: &mut Vec<Action>) {
        view.ev(event, how, out)
    }

    fn render(&self, view: &V, how: &RenderContext, out: &mut Vec<DrawCommand>) {
        view.render(how, out)
    }
}

/// Keeps the content of the view away from its edges.
#[derive(Clone, Copy, Debug, PartialEq, Eq)]
pub struct Padding(pub Rect<LengthPercentage>);

impl<V: View> Modifier<V> for Padding {
    open spec fn spec_style(&self, view: &V, terminal: bool) -> Style {
        Style { padding: self.0, ..view.plan(terminal).last().style }
    }

    fn style(&self, view: &V, terminal: bool) -> (style: Style) {
        let mut style = view.style(terminal);
        style.padding = self.0;
        style
    }

    fn origin(&self, view: &V, position: Point, canvas: Size, terminal: bool) -> (origin: Point) {
        position
    }

    fn ev(&self, view: &V, event: &Event, how: &RenderContext, out: &mut Vec<Action>) {
        view.ev(event, how, out)
    }

    fn render(&self, view: &V, how: &RenderContext, out: &mut Vec<DrawCommand>) {
        view.render(how, out)
    }
}

/// Hands every event to a handler, wherever it happens.
#[derive(Clone, Copy, Debug, PartialEq, Eq)]
pub struct OnEvent(pub HandlerId);

impl<V: View> Modifier<V> for OnEvent {
    open spec fn spec_ev(&self, view: &V, event: Event, how: RenderContext) -> Seq<Action> {
        seq![Action::Event { handler: self.0, event }] + view.spec_ev(event, how)
    }

    fn style(&self, view: &V, terminal: bool) -> (style: Style) {
        view.style(terminal)
    }

    fn origin(&self, view: &V, position: Point, canvas: Size, terminal: bool) -> (origin: Point) {
        position
    }

    fn ev(&self, view: &V, event: &Event, how: &RenderContext, out: &mut Vec<Action>) {
        out.push(Action::Event { handler: self.0, event: *event });
        view.ev(event, how, out);
        assert(out@ =~= old(out)@ + self.spec_ev(view, *event, *how));
    }

    fn render(&self, view: &V, how: &RenderContext, out: &mut Vec<DrawCommand>) {
        view.render(how, out)
    }
}

/// The handlers that a click modifier adds: its own, if the event is a
/// click inside the rectangle of the node.
pub open spec fn click_actions(handler: HandlerId, event: Event, how: RenderContext) -> Seq<
    Action,
> {
    match event {
        Event::Click(point, button) => if hits(how.layout, point) {
            seq![Action::Click { handler, button }]
        } else {
            Seq::empty()
        },
        _ => Seq::empty(),
    }
}

/// Hands the clicks that fall inside the view to a handler.
#[derive(Clone, Copy, Debug, PartialEq, Eq)]
pub struct OnClick(pub HandlerId);

impl<V: View> Modifier<V> for OnClick {
    open spec fn spec_ev(&self, view: &V, event: Event, how: RenderContext) -> Seq<Action> {
        click_actions(self.0, event, how) + view.spec_ev(event, how)
    }

    fn style(&self, view: &V, terminal: bool) -> (style: Style) {
        view.style(terminal)
    }

    fn origin(&self, view: &V, position: Point, canvas: Size, terminal: bool) -> (origin: Point) {
        position
    }

    fn ev(&self, view: &V, event: &Event, how: &RenderContext, out: &mut Vec<Action>) {
        match event {
            Event::Click(point, button) => {
                let rect = taffy_rect(how.layout.size, how.layout.location);
                if taffy_rect_contains(&rect, point) {
                    out.push(Action::Click { handler: self.0, button: *button });
                }
            },
            _ => {},
        }
        assert(out@ =~= old(out)@ + click_actions(self.0, *event, *how));
        view.ev(event, how, out);
        assert(out@ =~= old(out)@ + self.spec_ev(view, *event, *how));
    }

    fn render(&self, view: &V, how: &RenderContext, out: &mut Vec<DrawCommand>) {
        view.render(how, out)
    }
}

/// The write that a hover modifier adds: whether the pointer has moved to a
/// point inside the rectangle of the node.
pub open spec fn hover_actions(signal: SignalId, event: Event, how: RenderContext) -> Seq<
    Action,
> {
    match event {
        Event::CursorMove(point) => seq![
            Action::Hover { signal, hovering: hits(how.layout, point) },
        ],
        _ => Seq::empty(),
    }
}

/// Keeps a flag that says whether the pointer is over the view.
#[derive(Clone, Copy, Debug, PartialEq, Eq)]
pub struct Hovering(pub SignalId);

impl<V: View> Modifier<V> for Hovering {
    open spec fn spec_ev(&self, view: &V, event: Event, how: RenderContext) -> Seq<Action> {
        hover_actions(self.0, event, how) + view.spec_ev(event, how)
    }

    fn style(&self, view: &V, terminal: bool) -> (style: Style) {
        view.style(terminal)
    }

    fn origin(&self, view: &V, position: Point, canvas: Size, terminal: bool) -> (origin: Point) {
        position
    }

    fn ev(&self, view: &V, event: &Event, how: &RenderContext, out: &mut Vec<Action>) {
        match event {
            Event::CursorMove(point) => {
                let rect = taffy_rect(how.layout.size, how.layout.location);
                let hovering = taffy_rect_contains(&rect, point);
                out.push(Action::Hover { signal: self.0, hovering });
            },
            _ => {},
        }
        assert(out@ =~= old(out)@ + hover_actions(self.0, *event, *how));
        view.ev(event, how, out);
        assert(out@ =~= old(out)@ + self.spec_ev(view, *event, *how));
    }

    fn render(&self, view: &V, how: &RenderContext, out: &mut Vec<DrawCommand>) {
        view.render(how, out)
    }
}

/// Says where the view sits in the space it is given: to the layout engine
/// by its style, and to the view itself when it places itself.
#[derive(Clone, Copy, Debug, PartialEq, Eq)]
pub struct Align(pub Alignment);

impl<V: View> Modifier<V> for Align {
    open spec fn spec_origin(
        &self,
        view: &V,
        position: Point,
        canvas: Size,
        terminal: bool,
    ) -> Point {
        let size = view.spec_size(terminal);
        Point {
            x: clamp_i32(
                position.x + self.0.horizontal.spec_align(size.width as int, canvas.width as int),
            ) as i32,
            y: clamp_i32(
                position.y + self.0.vertical.spec_align(size.height as int, canvas.height as int),
            ) as i32,
        }
    }

    open spec fn spec_style(&self, view: &V, terminal: bool) -> Style {
        Style {
            justify_self: Some(nearest_position(self.0.horizontal.spec_bias())),
            align_items: Some(nearest_position(self.0.vertical.spec_bias())),
            ..view.plan(terminal).last().style
        }
    }

    fn style(&self, view: &V, terminal: bool) -> (style: Style) {
        let mut style = view.style(terminal);
        style.justify_self = Some(self.0.horizontal.justify());
        style.align_items = Some(self.0.vertical.align_items());
        style
    }

    fn origin(&self, view: &V, position: Point, canvas: Size, terminal: bool) -> (origin: Point) {
        let size = view.size(terminal);
        let moved = self.0.align(size, canvas);
        Point {
            x: saturate(position.x as i128 + moved.x as i128),
            y: saturate(position.y as i128 + moved.y as i128),
        }
    }

    fn ev(&self, view: &V, event: &Event, how: &RenderContext, out: &mut Vec<Action>) {
        view.ev(event, how, out)
    }

    fn render(&self, view: &V, how: &RenderContext, out: &mut Vec<DrawCommand>) {
        view.render(how, out)
    }
}

/// Wrapping a view in modifiers, one call each.
pub trait ApplyModifier: Sized {
    /// The view inside `modifier`.
    fn modifier<M>(self, modifier: M) -> (applied: Applied<Self, M>)
        ensures
            applied.view == self,
            applied.modifier == modifier,
    ;

    /// The view on a background.
    fn background<P: IntoPaint>(self, background: P) -> (applied: Applied<Self, Background>)
        ensures
            applied.view == self,
            applied.modifier == Background(background.spec_into_paint()),
    {
        self.modifier(Background(background.into_paint()))
    }

    /// The view moved by `offset`.
    fn offset<R: IntoRect<LengthPercentageAuto>>(self, offset: R) -> (applied: Applied<
        Self,
        Offset,
    >)
        ensures
            applied.view == self,
            applied.modifier == Offset(offset.spec_into_rect()),
    {
        self.modifier(Offset(offset.into_rect()))
    }

    /// The view with `padding` around its content.
    fn padding<R: IntoRect<LengthPercentage>>(self, padding: R) -> (applied: Applied<
        Self,
        Padding,
    >)
        ensures
            applied.view == self,
            applied.modifier == Padding(padding.spec_into_rect()),
    {
        self.modifier(Padding(padding.into_rect()))
    }

    /// The view with a handler for every event.
    fn on(self, handler: HandlerId) -> (applied: Applied<Self, OnEvent>)
        ensures
            applied.view == self,
            applied.modifier == OnEvent(handler),
    {
        self.modifier(OnEvent(handler))
    }

    /// The view with a handler for the clicks inside it.
    fn on_click(self, handler: HandlerId) -> (applied: Applied<Self, OnClick>)
        ensures
            applied.view == self,
            applied.modifier == OnClick(handler),
    {
        self.modifier(OnClick(handler))
    }

    /// The view with a flag that says whether the pointer is over it.
    fn hovering(self, write: SignalId) -> (applied: Applied<Self, Hovering>)
        ensures
            applied.view == self,
            applied.modifier == Hovering(write),
    {
        self.modifier(Hovering(write))
    }

    /// The view aligned in the space it is given.
    fn align(self, alignment: Alignment) -> (applied: Applied<Self, Align>)
        ensures
            applied.view == self,
            applied.modifier == Align(alignment),
    {
        self.modifier(Align(alignment))
    }
}

impl<V: View> ApplyModifier for V {
    fn modifier<M>(self, modifier: M) -> (applied: Applied<Self, M>) {
        Applied { view: self, modifier }
    }
}

/// A click reaches the click handler of a view exactly when it falls into
/// the rectangle of the view's node, and the view itself in any case.
pub proof fn lemma_click_lands<V: View>(
    view: V,
    handler: HandlerId,
    point: Point,
    button: MouseButton,
    how: RenderContext,
)
    ensures
        hits(how.layout, point) ==> (Applied { view, modifier: OnClick(handler) }).spec_ev(
            Event::Click(point, button),
            how,
        ) == seq![Action::Click { handler, button }] + view.spec_ev(
            Event::Click(point, button),
            how,
        ),
        !hits(how.layout, point) ==> (Applied { view, modifier: OnClick(handler) }).spec_ev(
            Event::Click(point, button),
            how,
        ) == view.spec_ev(Event::Click(point, button), how),
{
    let event = Event::Click(point, button);
    if !hits(how.layout, point) {
        assert(click_actions(handler, event, how) + view.spec_ev(event, how) =~= view.spec_ev(
            event,
            how,
        ));
    }
}

} // verus!
