//! Containers: views that hold an ordered collection of child views.
//!
//! A container is measured after its children and becomes their parent in
//! the layout tree, child by child in the order of the collection. When it
//! renders or receives an event it looks each child's node and geometry up
//! in the tree and hands the child its own context; every child sees every
//! event.

use vstd::prelude::*;
use vstd::view::View as _;
use crate::alignment;
use crate::arrangement;
use crate::arrangement::saturated;
use crate::children::Views;
use crate::layout::{Layout, LayoutTree, NodeId};
use crate::modifier::{lemma_click_lands, Applied, OnClick};
use crate::plan::{
    holds, laid_from, laid_out, lemma_ends_monotone, lemma_ends_step, lemma_flatten_len,
    lemma_holds_same_shape, lemma_laid_from_concat, lemma_planted_holds,
    lemma_remeasured_holds, lemma_stack_holds, lemma_stack_plan_wf, lemma_stack_planted,
    lemma_stack_remeasured, planted, remeasured, stack_plan, Plan,
};
use crate::style::{FlexDirection, LengthPercentage, Style};
use crate::unit::{clamp_i32, saturate, Density, Point, Size};
use crate::view::{hits, Action, DrawCommand, Event, MouseButton, RenderContext, View};

verus! {

/// Measures a container of the given style over `views`.
pub fn measure_stack<V: Views>(
    views: &V,
    style: Style,
    current: Option<NodeId>,
    tree: &mut LayoutTree,
    terminal: bool,
) -> (node: NodeId)
    requires
        old(tree).wf(),
        current matches Some(id) ==> holds(
            old(tree)@,
            stack_plan(style, views.plans(terminal)),
            id.0 as int,
        ),
    ensures
        final(tree).wf(),
        holds(final(tree)@, stack_plan(style, views.plans(terminal)), node.0 as int),
        match current {
            Some(id) => node == id && final(tree)@ == remeasured(
                old(tree)@,
                stack_plan(style, views.plans(terminal)),
                id.0 as int,
            ),
            None => node.0 == old(tree)@.len() + stack_plan(style, views.plans(terminal)).len()
                - 1 && final(tree)@ == old(tree)@ + planted(
                stack_plan(style, views.plans(terminal)),
                old(tree)@.len() as int,
            ),
        },
{
    proof {
        views.lemma_plans(terminal);
        lemma_stack_plan_wf(style, views.plans(terminal));
    }
    match current {
        Some(id) => {
            proof {
                lemma_stack_remeasured(tree@, style, views.plans(terminal), id.0 as int);
                lemma_remeasured_holds(
                    tree@,
                    stack_plan(style, views.plans(terminal)),
                    id.0 as int,
                );
            }
            tree.set_style(id, style);
            views.remeasure_all(id, tree, terminal);
            id
        },
        None => {
            let roots = views.measure_all(tree, terminal);
            let grown = tree.total_node_count();
            proof {
                lemma_stack_planted(old(tree)@, style, views.plans(terminal));
                lemma_planted_holds(old(tree)@, stack_plan(style, views.plans(terminal)));
            }
            proof {
                assert forall|i: int| 0 <= i < roots.len() implies tree.has(
                    #[trigger] roots[i],
                ) by {
                    lemma_flatten_len(views.plans(terminal));
                    lemma_ends_step(views.plans(terminal), i, views.plans(terminal).len() - 1);
                    lemma_ends_monotone(views.plans(terminal), i, i);
                }
            }
            tree.new_with_children(style, &roots)
        },
    }
}

/// The sum of the first `n` widths.
pub open spec fn sum_widths(sizes: Seq<Size>, n: int) -> int
    decreases n,
{
    if n <= 0 {
        0
    } else {
        sum_widths(sizes, n - 1) + sizes[n - 1].width
    }
}

/// The sum of the first `n` heights.
pub open spec fn sum_heights(sizes: Seq<Size>, n: int) -> int
    decreases n,
{
    if n <= 0 {
        0
    } else {
        sum_heights(sizes, n - 1) + sizes[n - 1].height
    }
}

/// The largest of the first `n` widths; zero of none.
pub open spec fn max_widths(sizes: Seq<Size>, n: int) -> int
    decreases n,
{
    if n <= 0 {
        0
    } else if n == 1 {
        sizes[0].width as int
    } else if max_widths(sizes, n - 1) >= sizes[n - 1].width {
        max_widths(sizes, n - 1)
    } else {
        sizes[n - 1].width as int
    }
}

/// The largest of the first `n` heights; zero of none.
pub open spec fn max_heights(sizes: Seq<Size>, n: int) -> int
    decreases n,
{
    if n <= 0 {
        0
    } else if n == 1 {
        sizes[0].height as int
    } else if max_heights(sizes, n - 1) >= sizes[n - 1].height {
        max_heights(sizes, n - 1)
    } else {
        sizes[n - 1].height as int
    }
}

/// The extent of a row: as wide as its children together, as high as the
/// highest of them.
pub open spec fn spec_row_extent(sizes: Seq<Size>) -> Size {
    Size {
        width: clamp_i32(sum_widths(sizes, sizes.len() as int)) as i32,
        height: max_heights(sizes, sizes.len() as int) as i32,
    }
}

/// The extent of a column: as wide as the widest of its children, as high
/// as they are together.
pub open spec fn spec_column_extent(sizes: Seq<Size>) -> Size {
    Size {
        width: max_widths(sizes, sizes.len() as int) as i32,
        height: clamp_i32(sum_heights(sizes, sizes.len() as int)) as i32,
    }
}

/// The extent of children laid over each other: the smallest that holds
/// every one of them.
pub open spec fn spec_overlay_extent(sizes: Seq<Size>) -> Size {
    Size {
        width: max_widths(sizes, sizes.len() as int) as i32,
        height: max_heights(sizes, sizes.len() as int) as i32,
    }
}

struct Extents {
    sum_width: i128,
    sum_height: i128,
    max_width: i32,
    max_height: i32,
}

fn extents(sizes: &Vec<Size>) -> (e: Extents)
    ensures
        e.sum_width == sum_widths(sizes@, sizes.len() as int),
        e.sum_height == sum_heights(sizes@, sizes.len() as int),
        e.max_width == max_widths(sizes@, sizes.len() as int),
        e.max_height == max_heights(sizes@, sizes.len() as int),
{
    let mut e = Extents { sum_width: 0, sum_height: 0, max_width: 0, max_height: 0 };
    let mut i: usize = 0;
    while i < sizes.len()
        invariant
            i <= sizes.len(),
            e.sum_width == sum_widths(sizes@, i as int),
            e.sum_height == sum_heights(sizes@, i as int),
            e.max_width == max_widths(sizes@, i as int),
            e.max_height == max_heights(sizes@, i as int),
            -0x8000_0000 * i <= e.sum_width <= 0x8000_0000 * i,
            -0x8000_0000 * i <= e.sum_height <= 0x8000_0000 * i,
        decreases sizes.len() - i,
    {
        let size = sizes[i];
        e.sum_width = e.sum_width + size.width as i128;
        e.sum_height = e.sum_height + size.height as i128;
        if i == 0 || size.width > e.max_width {
            e.max_width = size.width;
        }
        if i == 0 || size.height > e.max_height {
            e.max_height = size.height;
        }
        i = i + 1;
    }
    e
}

/// Computes [`spec_row_extent`].
pub fn row_extent(sizes: &Vec<Size>) -> (size: Size)
    ensures
        size == spec_row_extent(sizes@),
{
    let e = extents(sizes);
    Size { width: saturate(e.sum_width), height: e.max_height }
}

/// Computes [`spec_column_extent`].
pub fn column_extent(sizes: &Vec<Size>) -> (size: Size)
    ensures
        size == spec_column_extent(sizes@),
{
    let e = extents(sizes);
    Size { width: e.max_width, height: saturate(e.sum_height) }
}

/// Computes [`spec_overlay_extent`].
pub fn overlay_extent(sizes: &Vec<Size>) -> (size: Size)
    ensures
        size == spec_overlay_extent(sizes@),
{
    let e = extents(sizes);
    Size { width: e.max_width, height: e.max_height }
}

/// The widths of the extents, in order.
pub open spec fn widths(sizes: Seq<Size>) -> Seq<i32> {
    Seq::new(sizes.len(), |i: int| sizes[i].width)
}

/// The heights of the extents, in order.
pub open spec fn heights(sizes: Seq<Size>) -> Seq<i32> {
    Seq::new(sizes.len(), |i: int| sizes[i].height)
}

/// The positions of the children of a row at `position`: each moved along
/// the row by its offset.
pub open spec fn row_positions(position: Point, offsets: Seq<i32>) -> Seq<Point> {
    Seq::new(
        offsets.len(),
        |i: int| Point { x: clamp_i32(position.x + offsets[i]) as i32, y: position.y },
    )
}

/// The positions of the children of a column at `position`: each moved down
/// the column by its offset.
pub open spec fn column_positions(position: Point, offsets: Seq<i32>) -> Seq<Point> {
    Seq::new(
        offsets.len(),
        |i: int| Point { x: position.x, y: clamp_i32(position.y + offsets[i]) as i32 },
    )
}

/// The positions of the children of a pile at `position`: all the same.
pub open spec fn pile_positions(position: Point, count: nat) -> Seq<Point> {
    Seq::new(count, |i: int| position)
}

fn widths_of(sizes: &Vec<Size>) -> (out: Vec<i32>)
    ensures
        out@ == widths(sizes@),
{
    let mut out: Vec<i32> = Vec::with_capacity(sizes.len());
    let mut i: usize = 0;
    while i < sizes.len()
        invariant
            i <= sizes.len(),
            out.len() == i,
            forall|k: int| 0 <= k < i ==> out[k] == (#[trigger] sizes[k]).width,
        decreases sizes.len() - i,
    {
        out.push(sizes[i].width);
        i = i + 1;
    }
    assert(out@ =~= widths(sizes@));
    out
}

fn heights_of(sizes: &Vec<Size>) -> (out: Vec<i32>)
    ensures
        out@ == heights(sizes@),
{
    let mut out: Vec<i32> = Vec::with_capacity(sizes.len());
    let mut i: usize = 0;
    while i < sizes.len()
        invariant
            i <= sizes.len(),
            out.len() == i,
            forall|k: int| 0 <= k < i ==> out[k] == (#[trigger] sizes[k]).height,
        decreases sizes.len() - i,
    {
        out.push(sizes[i].height);
        i = i + 1;
    }
    assert(out@ =~= heights(sizes@));
    out
}

fn positions_of(position: Point, offsets: &Vec<i32>, row: bool) -> (out: Vec<Point>)
    ensures
        out@ == if row {
            row_positions(position, offsets@)
        } else {
            column_positions(position, offsets@)
        },
{
    let mut out: Vec<Point> = Vec::with_capacity(offsets.len());
    let mut i: usize = 0;
    while i < offsets.len()
        invariant
            i <= offsets.len(),
            out.len() == i,
            forall|k: int|
                0 <= k < i ==> out[k] == if row {
                    Point { x: clamp_i32(position.x + #[trigger] offsets[k]) as i32, y: position.y }
                } else {
                    Point { x: position.x, y: clamp_i32(position.y + offsets[k]) as i32 }
                },
        decreases offsets.len() - i,
    {
        let offset: i128 = offsets[i] as i128;
        if row {
            out.push(Point { x: saturate(position.x as i128 + offset), y: position.y });
        } else {
            out.push(Point { x: position.x, y: saturate(position.y as i128 + offset) });
        }
        i = i + 1;
    }
    if row {
        assert(out@ =~= row_positions(position, offsets@));
    } else {
        assert(out@ =~= column_positions(position, offsets@));
    }
    out
}

fn pile_of(position: Point, count: usize) -> (out: Vec<Point>)
    ensures
        out@ == pile_positions(position, count as nat),
{
    let mut out: Vec<Point> = Vec::with_capacity(count);
    let mut i: usize = 0;
    while i < count
        invariant
            i <= count,
            out.len() == i,
            forall|k: int| 0 <= k < i ==> out[k] == position,
        decreases count - i,
    {
        out.push(position);
        i = i + 1;
    }
    assert(out@ =~= pile_positions(position, count as nat));
    out
}

/// Places a container of the given style over `views`: the children at
/// `positions`, then the container's own node with the geometry `own`.
pub fn place_stack<V: Views>(
    views: &V,
    node: NodeId,
    positions: &Vec<Point>,
    own: Layout,
    canvas: Size,
    density: Density,
    tree: &mut LayoutTree,
    terminal: bool,
    Ghost(style): Ghost<Style>,
)
    requires
        old(tree).wf(),
        holds(old(tree)@, stack_plan(style, views.plans(terminal)), node.0 as int),
        positions.len() == views.plans(terminal).len(),
    ensures
        final(tree).wf(),
        holds(final(tree)@, stack_plan(style, views.plans(terminal)), node.0 as int),
        final(tree)@ == laid_out(
            old(tree)@,
            views.spec_layouts_all(positions@, canvas, density, terminal) + seq![own],
            node.0 as int,
        ),
{
    let ghost all = views.spec_layouts_all(positions@, canvas, density, terminal);
    proof {
        views.lemma_plans(terminal);
        views.lemma_layouts_all(positions@, canvas, density, terminal);
        lemma_stack_plan_wf(style, views.plans(terminal));
        lemma_stack_holds(tree@, style, views.plans(terminal), node.0 as int);
        lemma_laid_from_concat(tree@, all, seq![own], node.0 - all.len());
    }
    views.place_all(node, positions, canvas, density, tree, terminal);
    let ghost middle = tree@;
    tree.set_layout(node, own);
    assert(tree@ =~= laid_from(middle, seq![own], node.0 as int));
    proof {
        lemma_holds_same_shape(
            old(tree)@,
            tree@,
            stack_plan(style, views.plans(terminal)),
            node.0 as int,
        );
    }
}

/// A row: children side by side.
pub struct StackX<V, A> {
    pub views: V,
    pub arrangement: A,
    pub alignment: alignment::Horizontal,
}

impl<V, A> StackX<V, A> {
    /// The same row with another alignment across its axis.
    pub fn alignment(self, alignment: alignment::Horizontal) -> (stack: StackX<V, A>)
        ensures
            stack.views == self.views,
            stack.arrangement == self.arrangement,
            stack.alignment == alignment,
    {
        StackX { views: self.views, arrangement: self.arrangement, alignment }
    }

    /// The same row with another arrangement along its axis.
    pub fn arrange<A2>(self, arrangement: A2) -> (stack: StackX<V, A2>)
        ensures
            stack.views == self.views,
            stack.arrangement == arrangement,
            stack.alignment == self.alignment,
    {
        StackX { views: self.views, arrangement, alignment: self.alignment }
    }

    /// The same row with another arrangement along its axis.
    pub fn arrangement<A2>(self, arrangement: A2) -> (stack: StackX<V, A2>)
        ensures
            stack.views == self.views,
            stack.arrangement == arrangement,
            stack.alignment == self.alignment,
    {
        StackX { views: self.views, arrangement, alignment: self.alignment }
    }
}

impl<V: Views, A: arrangement::Horizontal> StackX<V, A> {
    /// The style of the row's own node: a row whose gap is the spacing of the
    /// arrangement and whose children are justified as the arrangement says.
    pub open spec fn own_style(&self) -> Style {
        Style {
            justify_items: Some(self.arrangement.spec_justify()),
            gap: Size {
                width: LengthPercentage::Points(self.arrangement.spec_spacing().0),
                height: LengthPercentage::Points(0),
            },
            flex_direction: FlexDirection::Row,
            ..Style::spec_default()
        }
    }
    /// Where the children are placed: along the axis by the offsets that
    /// the arrangement gives their extents in the span that is left on the
    /// surface from `position` on.
    pub open spec fn spec_positions(
        &self,
        position: Point,
        canvas: Size,
        density: Density,
        terminal: bool,
    ) -> Seq<Point> {
        row_positions(
            position,
            saturated(
                self.arrangement.spec_arrange(
                    density,
                    clamp_i32(canvas.width - position.x),
                    widths(self.views.spec_sizes(terminal)),
                ),
            ),
        )
    }

}

impl<V: Views, A: arrangement::Horizontal> View for StackX<V, A> {
    open spec fn plan(&self, terminal: bool) -> Seq<Plan> {
        stack_plan(self.own_style(), self.views.plans(terminal))
    }

    open spec fn spec_ev(&self, event: Event, how: RenderContext) -> Seq<Action> {
        self.views.spec_ev_all(event, how)
    }

    open spec fn spec_render(&self, how: RenderContext) -> Seq<DrawCommand> {
        self.views.spec_render_all(how)
    }

    open spec fn spec_size(&self, terminal: bool) -> Size {
        spec_row_extent(self.views.spec_sizes(terminal))
    }

    open spec fn spec_layouts(
        &self,
        position: Point,
        canvas: Size,
        density: Density,
        terminal: bool,
    ) -> Seq<Layout> {
        self.views.spec_layouts_all(
            self.spec_positions(position, canvas, density, terminal),
            canvas,
            density,
            terminal,
        ) + seq![Layout { size: self.spec_size(terminal), location: position }]
    }

    proof fn lemma_layouts(&self, position: Point, canvas: Size, density: Density, terminal: bool) {
        self.views.lemma_plans(terminal);
        self.arrangement.lemma_arrange(
            density,
            clamp_i32(canvas.width - position.x),
            widths(self.views.spec_sizes(terminal)),
        );
        self.views.lemma_layouts_all(
            self.spec_positions(position, canvas, density, terminal),
            canvas,
            density,
            terminal,
        );
        lemma_stack_plan_wf(self.own_style(), self.views.plans(terminal));
    }

    proof fn lemma_plan(&self, terminal: bool) {
        self.views.lemma_plans(terminal);
        lemma_stack_plan_wf(self.own_style(), self.views.plans(terminal));
    }

    fn style(&self, terminal: bool) -> (style: Style) {
        proof {
            self.lemma_plan(terminal);
        }
        let mut style = Style::default();
        style.justify_items = Some(self.arrangement.justify());
        style.gap = Size {
            width: LengthPercentage::from_dp(self.arrangement.spacing()),
            height: LengthPercentage::Points(0),
        };
        style.flex_direction = FlexDirection::Row;
        style
    }

    fn size(&self, terminal: bool) -> (size: Size) {
        let sizes = self.views.sizes(terminal);
        row_extent(&sizes)
    }

    fn measure(&self, current: Option<NodeId>, tree: &mut LayoutTree, terminal: bool) -> (node:
        NodeId) {
        let style = self.style(terminal);
        proof {
            self.lemma_plan(terminal);
        }
        measure_stack(&self.views, style, current, tree, terminal)
    }

    fn place(
        &self,
        node: NodeId,
        position: Point,
        canvas: Size,
        density: Density,
        tree: &mut LayoutTree,
        terminal: bool,
    ) {
        let sizes = self.views.sizes(terminal);
        let main = widths_of(&sizes);
        let total = saturate(canvas.width as i128 - position.x as i128);
        let offsets = self.arrangement.arrange(density, total, main);
        let positions = positions_of(position, &offsets, true);
        let own = Layout { size: row_extent(&sizes), location: position };
        proof {
            self.views.lemma_plans(terminal);
            self.arrangement.lemma_arrange(
                density,
                clamp_i32(canvas.width - position.x),
                widths(self.views.spec_sizes(terminal)),
            );
        }
        place_stack(
            &self.views,
            node,
            &positions,
            own,
            canvas,
            density,
            tree,
            terminal,
            Ghost(self.own_style()),
        )
    }

    fn render(&self, how: &RenderContext, out: &mut Vec<DrawCommand>) {
        proof {
            self.views.lemma_plans(how.is_terminal);
            lemma_stack_holds(
                how.tree@,
                self.own_style(),
                self.views.plans(how.is_terminal),
                how.this_node.0 as int,
            );
        }
        self.views.render_all(how, out)
    }

    fn ev(&self, event: &Event, how: &RenderContext, out: &mut Vec<Action>) {
        proof {
            self.views.lemma_plans(how.is_terminal);
            lemma_stack_holds(
                how.tree@,
                self.own_style(),
                self.views.plans(how.is_terminal),
                how.this_node.0 as int,
            );
        }
        self.views.ev_all(event, how, out)
    }
}

/// A row of `views`, packed from the start.
pub fn stack_x<V: Views>(views: V) -> (stack: StackX<V, arrangement::BuiltinHorizontal>)
    ensures
        stack.views == views,
        stack.arrangement == arrangement::BuiltinHorizontal::Start,
        stack.alignment == alignment::Horizontal::Start,
{
    StackX {
        views,
        arrangement: arrangement::BuiltinHorizontal::Start,
        alignment: alignment::Horizontal::Start,
    }
}

/// A column: children below each other.
pub struct StackY<V, A> {
    pub views: V,
    pub arrangement: A,
    pub alignment: alignment::Vertical,
}

impl<V, A> StackY<V, A> {
    /// The same column with another alignment across its axis.
    pub fn alignment(self, alignment: alignment::Vertical) -> (stack: StackY<V, A>)
        ensures
            stack.views == self.views,
            stack.arrangement == self.arrangement,
            stack.alignment == alignment,
    {
        StackY { views: self.views, arrangement: self.arrangement, alignment }
    }

    /// The same column with another arrangement along its axis.
    pub fn arrange<A2>(self, arrangement: A2) -> (stack: StackY<V, A2>)
        ensures
            stack.views == self.views,
            stack.arrangement == arrangement,
            stack.alignment == self.alignment,
    {
        StackY { views: self.views, arrangement, alignment: self.alignment }
    }
}

impl<V: Views, A: arrangement::Vertical> StackY<V, A> {
    /// The style of the column's own node: a column whose gap is the spacing
    /// of the arrangement and whose children are justified as the arrangement
    /// says.
    pub open spec fn own_style(&self) -> Style {
        Style {
            flex_direction: FlexDirection::Column,
            justify_items: Some(self.arrangement.spec_align()),
            gap: Size {
                height: LengthPercentage::Points(self.arrangement.spec_spacing().0),
                width: LengthPercentage::Points(0),
            },
            ..Style::spec_default()
        }
    }
    /// Where the children are placed: along the axis by the offsets that
    /// the arrangement gives their extents in the span that is left on the
    /// surface from `position` on.
    pub open spec fn spec_positions(
        &self,
        position: Point,
        canvas: Size,
        density: Density,
        terminal: bool,
    ) -> Seq<Point> {
        column_positions(
            position,
            saturated(
                self.arrangement.spec_arrange(
                    density,
                    clamp_i32(canvas.height - position.y),
                    heights(self.views.spec_sizes(terminal)),
                ),
            ),
        )
    }

}

impl<V: Views, A: arrangement::Vertical> View for StackY<V, A> {
    open spec fn plan(&self, terminal: bool) -> Seq<Plan> {
        stack_plan(self.own_style(), self.views.plans(terminal))
    }

    open spec fn spec_ev(&self, event: Event, how: RenderContext) -> Seq<Action> {
        self.views.spec_ev_all(event, how)
    }

    open spec fn spec_render(&self, how: RenderContext) -> Seq<DrawCommand> {
        self.views.spec_render_all(how)
    }

    open spec fn spec_size(&self, terminal: bool) -> Size {
        spec_column_extent(self.views.spec_sizes(terminal))
    }

    open spec fn spec_layouts(
        &self,
        position: Point,
        canvas: Size,
        density: Density,
        terminal: bool,
    ) -> Seq<Layout> {
        self.views.spec_layouts_all(
            self.spec_positions(position, canvas, density, terminal),
            canvas,
            density,
            terminal,
        ) + seq![Layout { size: self.spec_size(terminal), location: position }]
    }

    proof fn lemma_layouts(&self, position: Point, canvas: Size, density: Density, terminal: bool) {
        self.views.lemma_plans(terminal);
        self.arrangement.lemma_arrange(
            density,
            clamp_i32(canvas.height - position.y),
            heights(self.views.spec_sizes(terminal)),
        );
        self.views.lemma_layouts_all(
            self.spec_positions(position, canvas, density, terminal),
            canvas,
            density,
            terminal,
        );
        lemma_stack_plan_wf(self.own_style(), self.views.plans(terminal));
    }

    proof fn lemma_plan(&self, terminal: bool) {
        self.views.lemma_plans(terminal);
        lemma_stack_plan_wf(self.own_style(), self.views.plans(terminal));
    }

    fn style(&self, terminal: bool) -> (style: Style) {
        proof {
            self.lemma_plan(terminal);
        }
        let mut style = Style::default();
        style.flex_direction = FlexDirection::Column;
        style.justify_items = Some(self.arrangement.align());
        style.gap = Size {
            height: LengthPercentage::from_dp(self.arrangement.spacing()),
            width: LengthPercentage::Points(0),
        };
        style
    }

    fn size(&self, terminal: bool) -> (size: Size) {
        let sizes = self.views.sizes(terminal);
        column_extent(&sizes)
    }

    fn measure(&self, current: Option<NodeId>, tree: &mut LayoutTree, terminal: bool) -> (node:
        NodeId) {
        let style = self.style(terminal);
        proof {
            self.lemma_plan(terminal);
        }
        measure_stack(&self.views, style, current, tree, terminal)
    }

    fn place(
        &self,
        node: NodeId,
        position: Point,
        canvas: Size,
        density: Density,
        tree: &mut LayoutTree,
        terminal: bool,
    ) {
        let sizes = self.views.sizes(terminal);
        let main = heights_of(&sizes);
        let total = saturate(canvas.height as i128 - position.y as i128);
        let offsets = self.arrangement.arrange(density, total, main);
        let positions = positions_of(position, &offsets, false);
        let own = Layout { size: column_extent(&sizes), location: position };
        proof {
            self.views.lemma_plans(terminal);
            self.arrangement.lemma_arrange(
                density,
                clamp_i32(canvas.height - position.y),
                heights(self.views.spec_sizes(terminal)),
            );
        }
        place_stack(
            &self.views,
            node,
            &positions,
            own,
            canvas,
            density,
            tree,
            terminal,
            Ghost(self.own_style()),
        )
    }

    fn render(&self, how: &RenderContext, out: &mut Vec<DrawCommand>) {
        proof {
            self.views.lemma_plans(how.is_terminal);
            lemma_stack_holds(
                how.tree@,
                self.own_style(),
                self.views.plans(how.is_terminal),
                how.this_node.0 as int,
            );
        }
        self.views.render_all(how, out)
    }

    fn ev(&self, event: &Event, how: &RenderContext, out: &mut Vec<Action>) {
        proof {
            self.views.lemma_plans(how.is_terminal);
            lemma_stack_holds(
                how.tree@,
                self.own_style(),
                self.views.plans(how.is_terminal),
                how.this_node.0 as int,
            );
        }
        self.views.ev_all(event, how, out)
    }
}

/// A column of `views`, packed from the top.
pub fn stack_y<V: Views>(views: V) -> (stack: StackY<V, arrangement::BuiltinVertical>)
    ensures
        stack.views == views,
        stack.arrangement == arrangement::BuiltinVertical::Top,
        stack.alignment == alignment::Vertical::Top,
{
    StackY {
        views,
        arrangement: arrangement::BuiltinVertical::Top,
        alignment: alignment::Vertical::Top,
    }
}

/// A pile: children laid over each other, the first at the bottom.
pub struct StackZ<V> {
    pub views: V,
}

impl<V: Views> View for StackZ<V> {
    open spec fn plan(&self, terminal: bool) -> Seq<Plan> {
        stack_plan(Style::spec_default(), self.views.plans(terminal))
    }

    open spec fn spec_ev(&self, event: Event, how: RenderContext) -> Seq<Action> {
        self.views.spec_ev_all(event, how)
    }

    open spec fn spec_render(&self, how: RenderContext) -> Seq<DrawCommand> {
        self.views.spec_render_all(how)
    }

    open spec fn spec_size(&self, terminal: bool) -> Size {
        spec_overlay_extent(self.views.spec_sizes(terminal))
    }

    open spec fn spec_layouts(
        &self,
        position: Point,
        canvas: Size,
        density: Density,
        terminal: bool,
    ) -> Seq<Layout> {
        self.views.spec_layouts_all(
            pile_positions(position, self.views.plans(terminal).len()),
            canvas,
            density,
            terminal,
        ) + seq![Layout { size: self.spec_size(terminal), location: position }]
    }

    proof fn lemma_layouts(&self, position: Point, canvas: Size, density: Density, terminal: bool) {
        self.views.lemma_plans(terminal);
        self.views.lemma_layouts_all(
            pile_positions(position, self.views.plans(terminal).len()),
            canvas,
            density,
            terminal,
        );
        lemma_stack_plan_wf(Style::spec_default(), self.views.plans(terminal));
    }

    proof fn lemma_plan(&self, terminal: bool) {
        self.views.lemma_plans(terminal);
        lemma_stack_plan_wf(Style::spec_default(), self.views.plans(terminal));
    }

    fn style(&self, terminal: bool) -> (style: Style) {
        proof {
            self.lemma_plan(terminal);
        }
        Style::default()
    }

    fn size(&self, terminal: bool) -> (size: Size) {
        let sizes = self.views.sizes(terminal);
        overlay_extent(&sizes)
    }

    fn measure(&self, current: Option<NodeId>, tree: &mut LayoutTree, terminal: bool) -> (node:
        NodeId) {
        let style = self.style(terminal);
        proof {
            self.lemma_plan(terminal);
        }
        measure_stack(&self.views, style, current, tree, terminal)
    }

    fn place(
        &self,
        node: NodeId,
        position: Point,
        canvas: Size,
        density: Density,
        tree: &mut LayoutTree,
        terminal: bool,
    ) {
        let sizes = self.views.sizes(terminal);
        let positions = pile_of(position, sizes.len());
        let own = Layout { size: overlay_extent(&sizes), location: position };
        proof {
            self.views.lemma_plans(terminal);
        }
        place_stack(
            &self.views,
            node,
            &positions,
            own,
            canvas,
            density,
            tree,
            terminal,
            Ghost(Style::spec_default()),
        )
    }

    fn render(&self, how: &RenderContext, out: &mut Vec<DrawCommand>) {
        proof {
            self.views.lemma_plans(how.is_terminal);
            lemma_stack_holds(
                how.tree@,
                Style::spec_default(),
                self.views.plans(how.is_terminal),
                how.this_node.0 as int,
            );
        }
        self.views.render_all(how, out)
    }

    fn ev(&self, event: &Event, how: &RenderContext, out: &mut Vec<Action>) {
        proof {
            self.views.lemma_plans(how.is_terminal);
            lemma_stack_holds(
                how.tree@,
                Style::spec_default(),
                self.views.plans(how.is_terminal),
                how.this_node.0 as int,
            );
        }
        self.views.ev_all(event, how, out)
    }
}

/// A pile of `views`.
pub fn stack_z<V: Views>(views: V) -> (stack: StackZ<V>)
    ensures
        stack.views == views,
{
    StackZ { views }
}

/// A pile of two is as wide as the wider and as high as the higher of them.
pub proof fn lemma_overlay_of_two(a: Size, b: Size)
    ensures
        spec_overlay_extent(seq![a, b]) == (Size {
            width: if a.width >= b.width {
                a.width
            } else {
                b.width
            },
            height: if a.height >= b.height {
                a.height
            } else {
                b.height
            },
        }),
{
    let sizes = seq![a, b];
    assert(max_widths(sizes, 1) == a.width);
    assert(max_heights(sizes, 1) == a.height);
    assert(max_widths(sizes, 2) == if a.width >= b.width {
        a.width
    } else {
        b.width
    });
    assert(max_heights(sizes, 2) == if a.height >= b.height {
        a.height
    } else {
        b.height
    });
}

/// A pile is at least as large as each of its children, and exactly as
/// large as some child along each axis.
pub proof fn lemma_overlay_bounds(sizes: Seq<Size>, n: int)
    requires
        0 < n <= sizes.len(),
    ensures
        forall|i: int| 0 <= i < n ==> (#[trigger] sizes[i]).width <= max_widths(sizes, n),
        forall|i: int| 0 <= i < n ==> (#[trigger] sizes[i]).height <= max_heights(sizes, n),
        exists|i: int| 0 <= i < n && (#[trigger] sizes[i]).width == max_widths(sizes, n),
        exists|i: int| 0 <= i < n && (#[trigger] sizes[i]).height == max_heights(sizes, n),
    decreases n,
{
    if n > 1 {
        lemma_overlay_bounds(sizes, n - 1);
        let w = choose|i: int| 0 <= i < n - 1 && (#[trigger] sizes[i]).width == max_widths(
            sizes,
            n - 1,
        );
        let h = choose|i: int| 0 <= i < n - 1 && (#[trigger] sizes[i]).height == max_heights(
            sizes,
            n - 1,
        );
        if max_widths(sizes, n - 1) >= sizes[n - 1].width {
            assert(sizes[w].width == max_widths(sizes, n));
        } else {
            assert(sizes[n - 1].width == max_widths(sizes, n));
        }
        if max_heights(sizes, n - 1) >= sizes[n - 1].height {
            assert(sizes[h].height == max_heights(sizes, n));
        } else {
            assert(sizes[n - 1].height == max_heights(sizes, n));
        }
    } else {
        assert(sizes[0].width == max_widths(sizes, n));
        assert(sizes[0].height == max_heights(sizes, n));
    }
}

/// In a row of two views with click handlers, a click that falls into the
/// rectangle of the second and not into that of the first reaches the
/// handler of the second and not that of the first.
pub proof fn lemma_click_in_second<A: View, B: View, R: arrangement::Horizontal>(
    row: StackX<(Applied<A, OnClick>, Applied<B, OnClick>), R>,
    point: Point,
    button: MouseButton,
    how: RenderContext,
)
    requires
        !hits(how.spec_child(0).layout, point),
        hits(how.spec_child(1).layout, point),
    ensures
        row.spec_ev(Event::Click(point, button), how) == (row.views.0).view.spec_ev(
            Event::Click(point, button),
            how.spec_child(0),
        ) + seq![Action::Click { handler: (row.views.1).modifier.0, button }] + (
        row.views.1).view.spec_ev(Event::Click(point, button), how.spec_child(1)),
{
    let first = row.views.0;
    let second = row.views.1;
    lemma_click_lands(first.view, first.modifier.0, point, button, how.spec_child(0));
    lemma_click_lands(second.view, second.modifier.0, point, button, how.spec_child(1));
    assert(first.modifier == OnClick(first.modifier.0));
    assert(second.modifier == OnClick(second.modifier.0));
    assert(first == (Applied { view: first.view, modifier: OnClick(first.modifier.0) }));
    assert(second == (Applied { view: second.view, modifier: OnClick(second.modifier.0) }));
    let click = Event::Click(point, button);
    assert(row.spec_ev(click, how) =~= first.view.spec_ev(click, how.spec_child(0)) + seq![
        Action::Click { handler: second.modifier.0, button },
    ] + second.view.spec_ev(click, how.spec_child(1)));
}

} // verus!
