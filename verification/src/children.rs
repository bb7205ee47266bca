//! Collections of child views: tuples of up to four views of any kinds, and
//! vectors of views of one kind.
//!
//! A container hands its work to its collection, which hands it to each
//! child in order, each on the node that the layout tree holds for the child
//! at that place.

use vstd::prelude::*;
use vstd::view::View as _;
use crate::layout::{on_path, Layout, LayoutTree, NodeData, NodeId};
use crate::plan::{
    child_roots, children_remeasured, ends, flatten, holds, laid_from,
    lemma_children_remeasured_step, lemma_ends_monotone, lemma_ends_prefix, lemma_ends_step,
    lemma_flatten_len, lemma_flatten_push, lemma_laid_from_concat, lemma_planted_concat,
    lemma_stacked_same_shape, plan_wf, planted, stacked, Plan,
};
use crate::unit::{Density, Point, Size};
use crate::view::{Action, DrawCommand, Event, RenderContext, View};

verus! {

/// An ordered collection of views.
pub trait Views {
    /// The plan of each view, in order.
    spec fn plans(&self, terminal: bool) -> Seq<Seq<Plan>>;

    /// The extent that each view asks for, in order.
    spec fn spec_sizes(&self, terminal: bool) -> Seq<Size>;

    /// The handlers that an event reaches when it is handed to every view in
    /// order, each in the context of the child at its place.
    spec fn spec_ev_all(&self, event: Event, how: RenderContext) -> Seq<Action>;

    /// What the views draw, in order, each in the context of the child at its
    /// place.
    spec fn spec_render_all(&self, how: RenderContext) -> Seq<DrawCommand>;

    /// The geometry that the views give the nodes of their blocks, block
    /// after block, when each places itself at its position.
    spec fn spec_layouts_all(
        &self,
        positions: Seq<Point>,
        canvas: Size,
        density: Density,
        terminal: bool,
    ) -> Seq<Layout>;

    proof fn lemma_layouts_all(
        &self,
        positions: Seq<Point>,
        canvas: Size,
        density: Density,
        terminal: bool,
    )
        requires
            positions.len() == self.plans(terminal).len(),
        ensures
            self.spec_layouts_all(positions, canvas, density, terminal).len() == flatten(
                self.plans(terminal),
            ).len(),
    ;

    proof fn lemma_plans(&self, terminal: bool)
        ensures
            forall|k: int|
                0 <= k < self.plans(terminal).len() ==> plan_wf(#[trigger] self.plans(terminal)[k]),
            self.spec_sizes(terminal).len() == self.plans(terminal).len(),
    ;

    fn sizes(&self, terminal: bool) -> (sizes: Vec<Size>)
        ensures
            sizes@ == self.spec_sizes(terminal),
    ;

    /// Measures every view for the first time, in order.
    fn measure_all(&self, tree: &mut LayoutTree, terminal: bool) -> (roots: Vec<NodeId>)
        requires
            old(tree).wf(),
        ensures
            final(tree).wf(),
            final(tree)@ == old(tree)@ + planted(
                flatten(self.plans(terminal)),
                old(tree)@.len() as int,
            ),
            roots@ == child_roots(self.plans(terminal), old(tree)@.len() as int),
    ;

    /// Measures every view again, each on the child of `parent` at its place.
    fn remeasure_all(&self, parent: NodeId, tree: &mut LayoutTree, terminal: bool)
        requires
            old(tree).wf(),
            stacked(old(tree)@, self.plans(terminal), parent.0 as int),
            forall|k: int|
                0 <= k < old(tree)@.len() && on_path(old(tree)@, parent.0 as int, k) ==> old(
                    tree,
                )@[k].dirty,
        ensures
            final(tree).wf(),
            final(tree)@ == children_remeasured(
                old(tree)@,
                self.plans(terminal),
                parent.0 as int,
                self.plans(terminal).len() as int,
            ),
    ;

    /// Places every view at its position, each on the child of `parent` at
    /// its place.
    fn place_all(
        &self,
        parent: NodeId,
        positions: &Vec<Point>,
        canvas: Size,
        density: Density,
        tree: &mut LayoutTree,
        terminal: bool,
    )
        requires
            old(tree).wf(),
            stacked(old(tree)@, self.plans(terminal), parent.0 as int),
            positions.len() == self.plans(terminal).len(),
        ensures
            final(tree).wf(),
            final(tree)@ == laid_from(
                old(tree)@,
                self.spec_layouts_all(positions@, canvas, density, terminal),
                parent.0 - flatten(self.plans(terminal)).len(),
            ),
    ;

    fn ev_all(&self, event: &Event, how: &RenderContext, out: &mut Vec<Action>)
        requires
            how.wf(),
            stacked(how.tree@, self.plans(how.is_terminal), how.this_node.0 as int),
        ensures
            final(out)@ == old(out)@ + self.spec_ev_all(*event, *how),
    ;

    fn render_all(&self, how: &RenderContext, out: &mut Vec<DrawCommand>)
        requires
            how.wf(),
            stacked(how.tree@, self.plans(how.is_terminal), how.this_node.0 as int),
        ensures
            final(out)@ == old(out)@ + self.spec_render_all(*how),
    ;
}

/// Measures the next child of a container for the first time, after the
/// children with the plans `before`, which were measured onto `base`.
pub fn measure_next<V: View>(
    view: &V,
    tree: &mut LayoutTree,
    roots: &mut Vec<NodeId>,
    terminal: bool,
    Ghost(base): Ghost<Seq<NodeData>>,
    Ghost(before): Ghost<Seq<Seq<Plan>>>,
)
    requires
        old(tree).wf(),
        old(tree)@ == base + planted(flatten(before), base.len() as int),
        old(roots)@ == child_roots(before, base.len() as int),
        forall|k: int| 0 <= k < before.len() ==> plan_wf(#[trigger] before[k]),
    ensures
        final(tree).wf(),
        final(tree)@ == base + planted(
            flatten(before.push(view.plan(terminal))),
            base.len() as int,
        ),
        final(roots)@ == child_roots(before.push(view.plan(terminal)), base.len() as int),
{
    let ghost plan = view.plan(terminal);
    let ghost more = before.push(plan);
    proof {
        view.lemma_plan(terminal);
        lemma_flatten_push(before, plan);
        lemma_planted_concat(flatten(before), plan, base.len() as int);
    }
    let node = view.measure(None, tree, terminal);
    roots.push(node);
    proof {
        assert(tree@ =~= base + planted(flatten(more), base.len() as int));
        assert(roots@ =~= child_roots(more, base.len() as int));
    }
}

/// Measures the child at `index` of the container `parent` again, after the
/// children before it.
pub fn remeasure_next<V: View>(
    view: &V,
    index: usize,
    parent: NodeId,
    tree: &mut LayoutTree,
    terminal: bool,
    Ghost(first): Ghost<Seq<NodeData>>,
    Ghost(plans): Ghost<Seq<Seq<Plan>>>,
)
    requires
        old(tree).wf(),
        old(tree)@ == children_remeasured(first, plans, parent.0 as int, index as int),
        stacked(first, plans, parent.0 as int),
        forall|k: int| 0 <= k < plans.len() ==> plan_wf(#[trigger] plans[k]),
        forall|k: int|
            0 <= k < first.len() && on_path(first, parent.0 as int, k) ==> first[k].dirty,
        index < plans.len(),
        plans[index as int] == view.plan(terminal),
    ensures
        final(tree).wf(),
        final(tree)@ == children_remeasured(first, plans, parent.0 as int, index + 1),
{
    proof {
        lemma_children_remeasured_step(first, plans, parent.0 as int, index as int);
    }
    let child = tree.child(parent, index);
    let node = view.measure(Some(child), tree, terminal);
}

/// What is known of the child at `index` of a container.
pub proof fn lemma_stacked_child(nodes: Seq<NodeData>, plans: Seq<Seq<Plan>>, root: int, index: int)
    requires
        stacked(nodes, plans, root),
        root <= usize::MAX,
        forall|k: int| 0 <= k < plans.len() ==> plan_wf(#[trigger] plans[k]),
        0 <= index < plans.len(),
    ensures
        nodes[root].children.len() == plans.len(),
        nodes[root].children[index].0 == root - flatten(plans).len() + ends(plans, index) - 1,
        holds(nodes, plans[index], nodes[root].children[index].0 as int),
{
    lemma_flatten_len(plans);
    lemma_ends_step(plans, index, plans.len() - 1);
    lemma_ends_monotone(plans, index, index);
    let base = root - flatten(plans).len();
    assert(holds(nodes, plans[index], base + ends(plans, index) - 1));
}

/// Places the child at `index` of the container `parent`, after the
/// children before it, which were given the geometry `done`.
pub fn place_next<V: View>(
    view: &V,
    index: usize,
    parent: NodeId,
    position: Point,
    canvas: Size,
    density: Density,
    tree: &mut LayoutTree,
    terminal: bool,
    Ghost(first): Ghost<Seq<NodeData>>,
    Ghost(plans): Ghost<Seq<Seq<Plan>>>,
    Ghost(done): Ghost<Seq<Layout>>,
)
    requires
        old(tree).wf(),
        stacked(first, plans, parent.0 as int),
        forall|k: int| 0 <= k < plans.len() ==> plan_wf(#[trigger] plans[k]),
        index < plans.len(),
        plans[index as int] == view.plan(terminal),
        done.len() == ends(plans, index - 1),
        old(tree)@ == laid_from(first, done, parent.0 - flatten(plans).len()),
    ensures
        final(tree).wf(),
        final(tree)@ == laid_from(
            first,
            done + view.spec_layouts(position, canvas, density, terminal),
            parent.0 - flatten(plans).len(),
        ),
        (done + view.spec_layouts(position, canvas, density, terminal)).len() == ends(
            plans,
            index as int,
        ),
{
    let ghost base: int = parent.0 - flatten(plans).len();
    proof {
        lemma_stacked_same_shape(first, tree@, plans, parent.0 as int);
        lemma_stacked_child(tree@, plans, parent.0 as int, index as int);
        view.lemma_layouts(position, canvas, density, terminal);
        lemma_laid_from_concat(
            first,
            done,
            view.spec_layouts(position, canvas, density, terminal),
            base,
        );
    }
    let child = tree.child(parent, index);
    view.place(child, position, canvas, density, tree, terminal);
}

/// Hands an event to the child at `index` of a container.
pub fn ev_next<V: View>(
    view: &V,
    index: usize,
    event: &Event,
    how: &RenderContext,
    out: &mut Vec<Action>,
    Ghost(plans): Ghost<Seq<Seq<Plan>>>,
)
    requires
        how.wf(),
        stacked(how.tree@, plans, how.this_node.0 as int),
        forall|k: int| 0 <= k < plans.len() ==> plan_wf(#[trigger] plans[k]),
        index < plans.len(),
        plans[index as int] == view.plan(how.is_terminal),
    ensures
        final(out)@ == old(out)@ + view.spec_ev(*event, how.spec_child(index as int)),
{
    proof {
        lemma_stacked_child(how.tree@, plans, how.this_node.0 as int, index as int);
    }
    let child = how.child(index);
    view.ev(event, &child, out);
}

/// Lets the child at `index` of a container draw.
pub fn render_next<V: View>(
    view: &V,
    index: usize,
    how: &RenderContext,
    out: &mut Vec<DrawCommand>,
    Ghost(plans): Ghost<Seq<Seq<Plan>>>,
)
    requires
        how.wf(),
        stacked(how.tree@, plans, how.this_node.0 as int),
        forall|k: int| 0 <= k < plans.len() ==> plan_wf(#[trigger] plans[k]),
        index < plans.len(),
        plans[index as int] == view.plan(how.is_terminal),
    ensures
        final(out)@ == old(out)@ + view.spec_render(how.spec_child(index as int)),
{
    proof {
        lemma_stacked_child(how.tree@, plans, how.this_node.0 as int, index as int);
    }
    let child = how.child(index);
    view.render(&child, out);
}

impl<A: View> Views for (A,) {
    open spec fn plans(&self, terminal: bool) -> Seq<Seq<Plan>> {
        seq![self.0.plan(terminal)]
    }

    open spec fn spec_sizes(&self, terminal: bool) -> Seq<Size> {
        seq![self.0.spec_size(terminal)]
    }

    open spec fn spec_ev_all(&self, event: Event, how: RenderContext) -> Seq<Action> {
        self.0.spec_ev(event, how.spec_child(0))
    }

    open spec fn spec_render_all(&self, how: RenderContext) -> Seq<DrawCommand> {
        self.0.spec_render(how.spec_child(0))
    }

    open spec fn spec_layouts_all(
        &self,
        positions: Seq<Point>,
        canvas: Size,
        density: Density,
        terminal: bool,
    ) -> Seq<Layout> {
        self.0.spec_layouts(positions[0], canvas, density, terminal)
    }

    proof fn lemma_layouts_all(
        &self,
        positions: Seq<Point>,
        canvas: Size,
        density: Density,
        terminal: bool,
    ) {
        self.0.lemma_layouts(positions[0], canvas, density, terminal);
        self.0.lemma_plan(terminal);
        let none = Seq::<Seq<Plan>>::empty();
        let upto0 = none.push(self.0.plan(terminal));
        lemma_flatten_push(none, self.0.plan(terminal));
        assert(upto0 =~= self.plans(terminal));
    }

    proof fn lemma_plans(&self, terminal: bool) {
        self.0.lemma_plan(terminal);
    }

    fn sizes(&self, terminal: bool) -> (sizes: Vec<Size>) {
        let mut sizes: Vec<Size> = Vec::new();
        sizes.push(self.0.size(terminal));
        assert(sizes@ =~= self.spec_sizes(terminal));
        sizes
    }

    fn measure_all(&self, tree: &mut LayoutTree, terminal: bool) -> (roots: Vec<NodeId>) {
        let ghost base = tree@;
        let ghost none = Seq::<Seq<Plan>>::empty();
        let ghost all = none.push(self.0.plan(terminal));
        proof {
            self.lemma_plans(terminal);
            assert(all =~= self.plans(terminal));
            assert(tree@ =~= base + planted(flatten(none), base.len() as int));
        }
        let mut roots: Vec<NodeId> = Vec::new();
        assert(roots@ =~= child_roots(none, base.len() as int));
        measure_next(&self.0, tree, &mut roots, terminal, Ghost(base), Ghost(none));
        roots
    }

    fn remeasure_all(&self, parent: NodeId, tree: &mut LayoutTree, terminal: bool) {
        let ghost first = tree@;
        let ghost plans = self.plans(terminal);
        proof {
            self.lemma_plans(terminal);
            assert(tree@ =~= children_remeasured(first, plans, parent.0 as int, 0));
        }
        remeasure_next(&self.0, 0, parent, tree, terminal, Ghost(first), Ghost(plans));
    }

    fn place_all(
        &self,
        parent: NodeId,
        positions: &Vec<Point>,
        canvas: Size,
        density: Density,
        tree: &mut LayoutTree,
        terminal: bool,
    ) {
        let ghost first = tree@;
        let ghost plans = self.plans(terminal);
        let ghost done0 = Seq::<Layout>::empty();
        proof {
            self.lemma_plans(terminal);
            assert(tree@ =~= laid_from(first, done0, parent.0 - flatten(plans).len()));
        }
        let position = positions[0];
        place_next(
            &self.0,
            0,
            parent,
            position,
            canvas,
            density,
            tree,
            terminal,
            Ghost(first),
            Ghost(plans),
            Ghost(done0),
        );
        proof {
            assert(done0 + self.0.spec_layouts(positions@[0], canvas, density, terminal)
                =~= self.spec_layouts_all(positions@, canvas, density, terminal));
        }
    }

    fn ev_all(&self, event: &Event, how: &RenderContext, out: &mut Vec<Action>) {
        let ghost plans = self.plans(how.is_terminal);
        proof {
            self.lemma_plans(how.is_terminal);
        }
        ev_next(&self.0, 0, event, how, out, Ghost(plans));
    }

    fn render_all(&self, how: &RenderContext, out: &mut Vec<DrawCommand>) {
        let ghost plans = self.plans(how.is_terminal);
        proof {
            self.lemma_plans(how.is_terminal);
        }
        render_next(&self.0, 0, how, out, Ghost(plans));
    }
}

impl<A: View, B: View> Views for (A, B) {
    open spec fn plans(&self, terminal: bool) -> Seq<Seq<Plan>> {
        seq![self.0.plan(terminal), self.1.plan(terminal)]
    }

    open spec fn spec_sizes(&self, terminal: bool) -> Seq<Size> {
        seq![self.0.spec_size(terminal), self.1.spec_size(terminal)]
    }

    open spec fn spec_ev_all(&self, event: Event, how: RenderContext) -> Seq<Action> {
        self.0.spec_ev(event, how.spec_child(0)) + self.1.spec_ev(event, how.spec_child(1))
    }

    open spec fn spec_render_all(&self, how: RenderContext) -> Seq<DrawCommand> {
        self.0.spec_render(how.spec_child(0)) + self.1.spec_render(how.spec_child(1))
    }

    open spec fn spec_layouts_all(
        &self,
        positions: Seq<Point>,
        canvas: Size,
        density: Density,
        terminal: bool,
    ) -> Seq<Layout> {
        self.0.spec_layouts(positions[0], canvas, density, terminal)
            + self.1.spec_layouts(positions[1], canvas, density, terminal)
    }

    proof fn lemma_layouts_all(
        &self,
        positions: Seq<Point>,
        canvas: Size,
        density: Density,
        terminal: bool,
    ) {
        self.0.lemma_layouts(positions[0], canvas, density, terminal);
        self.0.lemma_plan(terminal);
        self.1.lemma_layouts(positions[1], canvas, density, terminal);
        self.1.lemma_plan(terminal);
        let none = Seq::<Seq<Plan>>::empty();
        let upto0 = none.push(self.0.plan(terminal));
        let upto1 = upto0.push(self.1.plan(terminal));
        lemma_flatten_push(none, self.0.plan(terminal));
        lemma_flatten_push(upto0, self.1.plan(terminal));
        assert(upto1 =~= self.plans(terminal));
    }

    proof fn lemma_plans(&self, terminal: bool) {
        self.0.lemma_plan(terminal);
        self.1.lemma_plan(terminal);
    }

    fn sizes(&self, terminal: bool) -> (sizes: Vec<Size>) {
        let mut sizes: Vec<Size> = Vec::new();
        sizes.push(self.0.size(terminal));
        sizes.push(self.1.size(terminal));
        assert(sizes@ =~= self.spec_sizes(terminal));
        sizes
    }

    fn measure_all(&self, tree: &mut LayoutTree, terminal: bool) -> (roots: Vec<NodeId>) {
        let ghost base = tree@;
        let ghost none = Seq::<Seq<Plan>>::empty();
        let ghost one = none.push(self.0.plan(terminal));
        let ghost all = one.push(self.1.plan(terminal));
        proof {
            self.lemma_plans(terminal);
            assert(all =~= self.plans(terminal));
            assert(tree@ =~= base + planted(flatten(none), base.len() as int));
        }
        let mut roots: Vec<NodeId> = Vec::new();
        assert(roots@ =~= child_roots(none, base.len() as int));
        measure_next(&self.0, tree, &mut roots, terminal, Ghost(base), Ghost(none));
        measure_next(&self.1, tree, &mut roots, terminal, Ghost(base), Ghost(one));
        roots
    }

    fn remeasure_all(&self, parent: NodeId, tree: &mut LayoutTree, terminal: bool) {
        let ghost first = tree@;
        let ghost plans = self.plans(terminal);
        proof {
            self.lemma_plans(terminal);
            assert(tree@ =~= children_remeasured(first, plans, parent.0 as int, 0));
        }
        remeasure_next(&self.0, 0, parent, tree, terminal, Ghost(first), Ghost(plans));
        remeasure_next(&self.1, 1, parent, tree, terminal, Ghost(first), Ghost(plans));
    }

    fn place_all(
        &self,
        parent: NodeId,
        positions: &Vec<Point>,
        canvas: Size,
        density: Density,
        tree: &mut LayoutTree,
        terminal: bool,
    ) {
        let ghost first = tree@;
        let ghost plans = self.plans(terminal);
        let ghost done0 = Seq::<Layout>::empty();
        let ghost done1 = done0 + self.0.spec_layouts(positions@[0], canvas, density, terminal);
        proof {
            self.lemma_plans(terminal);
            assert(tree@ =~= laid_from(first, done0, parent.0 - flatten(plans).len()));
        }
        let position = positions[0];
        place_next(
            &self.0,
            0,
            parent,
            position,
            canvas,
            density,
            tree,
            terminal,
            Ghost(first),
            Ghost(plans),
            Ghost(done0),
        );
        let position = positions[1];
        place_next(
            &self.1,
            1,
            parent,
            position,
            canvas,
            density,
            tree,
            terminal,
            Ghost(first),
            Ghost(plans),
            Ghost(done1),
        );
        proof {
            assert(done1 + self.1.spec_layouts(positions@[1], canvas, density, terminal)
                =~= self.spec_layouts_all(positions@, canvas, density, terminal));
        }
    }

    fn ev_all(&self, event: &Event, how: &RenderContext, out: &mut Vec<Action>) {
        let ghost plans = self.plans(how.is_terminal);
        proof {
            self.lemma_plans(how.is_terminal);
        }
        ev_next(&self.0, 0, event, how, out, Ghost(plans));
        ev_next(&self.1, 1, event, how, out, Ghost(plans));
        assert(out@ =~= old(out)@ + self.spec_ev_all(*event, *how));
    }

    fn render_all(&self, how: &RenderContext, out: &mut Vec<DrawCommand>) {
        let ghost plans = self.plans(how.is_terminal);
        proof {
            self.lemma_plans(how.is_terminal);
        }
        render_next(&self.0, 0, how, out, Ghost(plans));
        render_next(&self.1, 1, how, out, Ghost(plans));
        assert(out@ =~= old(out)@ + self.spec_render_all(*how));
    }
}

impl<A: View, B: View, C: View> Views for (A, B, C) {
    open spec fn plans(&self, terminal: bool) -> Seq<Seq<Plan>> {
        seq![self.0.plan(terminal), self.1.plan(terminal), self.2.plan(terminal)]
    }

    open spec fn spec_sizes(&self, terminal: bool) -> Seq<Size> {
        seq![self.0.spec_size(terminal), self.1.spec_size(terminal), self.2.spec_size(terminal)]
    }

    open spec fn spec_ev_all(&self, event: Event, how: RenderContext) -> Seq<Action> {
        self.0.spec_ev(event, how.spec_child(0)) + self.1.spec_ev(event, how.spec_child(1))
            + self.2.spec_ev(event, how.spec_child(2))
    }

    open spec fn spec_render_all(&self, how: RenderContext) -> Seq<DrawCommand> {
        self.0.spec_render(how.spec_child(0)) + self.1.spec_render(how.spec_child(1))
            + self.2.spec_render(how.spec_child(2))
    }

    open spec fn spec_layouts_all(
        &self,
        positions: Seq<Point>,
        canvas: Size,
        density: Density,
        terminal: bool,
    ) -> Seq<Layout> {
        self.0.spec_layouts(positions[0], canvas, density, terminal)
            + self.1.spec_layouts(positions[1], canvas, density, terminal)
            + self.2.spec_layouts(positions[2], canvas, density, terminal)
    }

    proof fn lemma_layouts_all(
        &self,
        positions: Seq<Point>,
        canvas: Size,
        density: Density,
        terminal: bool,
    ) {
        self.0.lemma_layouts(positions[0], canvas, density, terminal);
        self.0.lemma_plan(terminal);
        self.1.lemma_layouts(positions[1], canvas, density, terminal);
        self.1.lemma_plan(terminal);
        self.2.lemma_layouts(positions[2], canvas, density, terminal);
        self.2.lemma_plan(terminal);
        let none = Seq::<Seq<Plan>>::empty();
        let upto0 = none.push(self.0.plan(terminal));
        let upto1 = upto0.push(self.1.plan(terminal));
        let upto2 = upto1.push(self.2.plan(terminal));
        lemma_flatten_push(none, self.0.plan(terminal));
        lemma_flatten_push(upto0, self.1.plan(terminal));
        lemma_flatten_push(upto1, self.2.plan(terminal));
        assert(upto2 =~= self.plans(terminal));
    }

    proof fn lemma_plans(&self, terminal: bool) {
        self.0.lemma_plan(terminal);
        self.1.lemma_plan(terminal);
        self.2.lemma_plan(terminal);
    }

    fn sizes(&self, terminal: bool) -> (sizes: Vec<Size>) {
        let mut sizes: Vec<Size> = Vec::new();
        sizes.push(self.0.size(terminal));
        sizes.push(self.1.size(terminal));
        sizes.push(self.2.size(terminal));
        assert(sizes@ =~= self.spec_sizes(terminal));
        sizes
    }

    fn measure_all(&self, tree: &mut LayoutTree, terminal: bool) -> (roots: Vec<NodeId>) {
        let ghost base = tree@;
        let ghost none = Seq::<Seq<Plan>>::empty();
        let ghost one = none.push(self.0.plan(terminal));
        let ghost two = one.push(self.1.plan(terminal));
        let ghost all = two.push(self.2.plan(terminal));
        proof {
            self.lemma_plans(terminal);
            assert(all =~= self.plans(terminal));
            assert(tree@ =~= base + planted(flatten(none), base.len() as int));
        }
        let mut roots: Vec<NodeId> = Vec::new();
        assert(roots@ =~= child_roots(none, base.len() as int));
        measure_next(&self.0, tree, &mut roots, terminal, Ghost(base), Ghost(none));
        measure_next(&self.1, tree, &mut roots, terminal, Ghost(base), Ghost(one));
        measure_next(&self.2, tree, &mut roots, terminal, Ghost(base), Ghost(two));
        roots
    }

    fn remeasure_all(&self, parent: NodeId, tree: &mut LayoutTree, terminal: bool) {
        let ghost first = tree@;
        let ghost plans = self.plans(terminal);
        proof {
            self.lemma_plans(terminal);
            assert(tree@ =~= children_remeasured(first, plans, parent.0 as int, 0));
        }
        remeasure_next(&self.0, 0, parent, tree, terminal, Ghost(first), Ghost(plans));
        remeasure_next(&self.1, 1, parent, tree, terminal, Ghost(first), Ghost(plans));
        remeasure_next(&self.2, 2, parent, tree, terminal, Ghost(first), Ghost(plans));
    }

    fn place_all(
        &self,
        parent: NodeId,
        positions: &Vec<Point>,
        canvas: Size,
        density: Density,
        tree: &mut LayoutTree,
        terminal: bool,
    ) {
        let ghost first = tree@;
        let ghost plans = self.plans(terminal);
        let ghost done0 = Seq::<Layout>::empty();
        let ghost done1 = done0 + self.0.spec_layouts(positions@[0], canvas, density, terminal);
        let ghost done2 = done1 + self.1.spec_layouts(positions@[1], canvas, density, terminal);
        proof {
            self.lemma_plans(terminal);
            assert(tree@ =~= laid_from(first, done0, parent.0 - flatten(plans).len()));
        }
        let position = positions[0];
        place_next(
            &self.0,
            0,
            parent,
            position,
            canvas,
            density,
            tree,
            terminal,
            Ghost(first),
            Ghost(plans),
            Ghost(done0),
        );
        let position = positions[1];
        place_next(
            &self.1,
            1,
            parent,
            position,
            canvas,
            density,
            tree,
            terminal,
            Ghost(first),
            Ghost(plans),
            Ghost(done1),
        );
        let position = positions[2];
        place_next(
            &self.2,
            2,
            parent,
            position,
            canvas,
            density,
            tree,
            terminal,
            Ghost(first),
            Ghost(plans),
            Ghost(done2),
        );
        proof {
            assert(done2 + self.2.spec_layouts(positions@[2], canvas, density, terminal)
                =~= self.spec_layouts_all(positions@, canvas, density, terminal));
        }
    }

    fn ev_all(&self, event: &Event, how: &RenderContext, out: &mut Vec<Action>) {
        let ghost plans = self.plans(how.is_terminal);
        proof {
            self.lemma_plans(how.is_terminal);
        }
        ev_next(&self.0, 0, event, how, out, Ghost(plans));
        ev_next(&self.1, 1, event, how, out, Ghost(plans));
        ev_next(&self.2, 2, event, how, out, Ghost(plans));
        assert(out@ =~= old(out)@ + self.spec_ev_all(*event, *how));
    }

    fn render_all(&self, how: &RenderContext, out: &mut Vec<DrawCommand>) {
        let ghost plans = self.plans(how.is_terminal);
        proof {
            self.lemma_plans(how.is_terminal);
        }
        render_next(&self.0, 0, how, out, Ghost(plans));
        render_next(&self.1, 1, how, out, Ghost(plans));
        render_next(&self.2, 2, how, out, Ghost(plans));
        assert(out@ =~= old(out)@ + self.spec_render_all(*how));
    }
}

impl<A: View, B: View, C: View, D: View> Views for (A, B, C, D) {
    open spec fn plans(&self, terminal: bool) -> Seq<Seq<Plan>> {
        seq![
            self.0.plan(terminal),
            self.1.plan(terminal),
            self.2.plan(terminal),
            self.3.plan(terminal),
        ]
    }

    open spec fn spec_sizes(&self, terminal: bool) -> Seq<Size> {
        seq![
            self.0.spec_size(terminal),
            self.1.spec_size(terminal),
            self.2.spec_size(terminal),
            self.3.spec_size(terminal),
        ]
    }

    open spec fn spec_ev_all(&self, event: Event, how: RenderContext) -> Seq<Action> {
        self.0.spec_ev(event, how.spec_child(0)) + self.1.spec_ev(event, how.spec_child(1))
            + self.2.spec_ev(event, how.spec_child(2)) + self.3.spec_ev(event, how.spec_child(3))
    }

    open spec fn spec_render_all(&self, how: RenderContext) -> Seq<DrawCommand> {
        self.0.spec_render(how.spec_child(0)) + self.1.spec_render(how.spec_child(1))
            + self.2.spec_render(how.spec_child(2)) + self.3.spec_render(how.spec_child(3))
    }

    open spec fn spec_layouts_all(
        &self,
        positions: Seq<Point>,
        canvas: Size,
        density: Density,
        terminal: bool,
    ) -> Seq<Layout> {
        self.0.spec_layouts(positions[0], canvas, density, terminal)
            + self.1.spec_layouts(positions[1], canvas, density, terminal)
            + self.2.spec_layouts(positions[2], canvas, density, terminal)
            + self.3.spec_layouts(positions[3], canvas, density, terminal)
    }

    proof fn lemma_layouts_all(
        &self,
        positions: Seq<Point>,
        canvas: Size,
        density: Density,
        terminal: bool,
    ) {
        self.0.lemma_layouts(positions[0], canvas, density, terminal);
        self.0.lemma_plan(terminal);
        self.1.lemma_layouts(positions[1], canvas, density, terminal);
        self.1.lemma_plan(terminal);
        self.2.lemma_layouts(positions[2], canvas, density, terminal);
        self.2.lemma_plan(terminal);
        self.3.lemma_layouts(positions[3], canvas, density, terminal);
        self.3.lemma_plan(terminal);
        let none = Seq::<Seq<Plan>>::empty();
        let upto0 = none.push(self.0.plan(terminal));
        let upto1 = upto0.push(self.1.plan(terminal));
        let upto2 = upto1.push(self.2.plan(terminal));
        let upto3 = upto2.push(self.3.plan(terminal));
        lemma_flatten_push(none, self.0.plan(terminal));
        lemma_flatten_push(upto0, self.1.plan(terminal));
        lemma_flatten_push(upto1, self.2.plan(terminal));
        lemma_flatten_push(upto2, self.3.plan(terminal));
        assert(upto3 =~= self.plans(terminal));
    }

    proof fn lemma_plans(&self, terminal: bool) {
        self.0.lemma_plan(terminal);
        self.1.lemma_plan(terminal);
        self.2.lemma_plan(terminal);
        self.3.lemma_plan(terminal);
    }

    fn sizes(&self, terminal: bool) -> (sizes: Vec<Size>) {
        let mut sizes: Vec<Size> = Vec::new();
        sizes.push(self.0.size(terminal));
        sizes.push(self.1.size(terminal));
        sizes.push(self.2.size(terminal));
        sizes.push(self.3.size(terminal));
        assert(sizes@ =~= self.spec_sizes(terminal));
        sizes
    }

    fn measure_all(&self, tree: &mut LayoutTree, terminal: bool) -> (roots: Vec<NodeId>) {
        let ghost base = tree@;
        let ghost none = Seq::<Seq<Plan>>::empty();
        let ghost one = none.push(self.0.plan(terminal));
        let ghost two = one.push(self.1.plan(terminal));
        let ghost three = two.push(self.2.plan(terminal));
        let ghost all = three.push(self.3.plan(terminal));
        proof {
            self.lemma_plans(terminal);
            assert(all =~= self.plans(terminal));
            assert(tree@ =~= base + planted(flatten(none), base.len() as int));
        }
        let mut roots: Vec<NodeId> = Vec::new();
        assert(roots@ =~= child_roots(none, base.len() as int));
        measure_next(&self.0, tree, &mut roots, terminal, Ghost(base), Ghost(none));
        measure_next(&self.1, tree, &mut roots, terminal, Ghost(base), Ghost(one));
        measure_next(&self.2, tree, &mut roots, terminal, Ghost(base), Ghost(two));
        measure_next(&self.3, tree, &mut roots, terminal, Ghost(base), Ghost(three));
        roots
    }

    fn remeasure_all(&self, parent: NodeId, tree: &mut LayoutTree, terminal: bool) {
        let ghost first = tree@;
        let ghost plans = self.plans(terminal);
        proof {
            self.lemma_plans(terminal);
            assert(tree@ =~= children_remeasured(first, plans, parent.0 as int, 0));
        }
        remeasure_next(&self.0, 0, parent, tree, terminal, Ghost(first), Ghost(plans));
        remeasure_next(&self.1, 1, parent, tree, terminal, Ghost(first), Ghost(plans));
        remeasure_next(&self.2, 2, parent, tree, terminal, Ghost(first), Ghost(plans));
        remeasure_next(&self.3, 3, parent, tree, terminal, Ghost(first), Ghost(plans));
    }

    fn place_all(
        &self,
        parent: NodeId,
        positions: &Vec<Point>,
        canvas: Size,
        density: Density,
        tree: &mut LayoutTree,
        terminal: bool,
    ) {
        let ghost first = tree@;
        let ghost plans = self.plans(terminal);
        let ghost done0 = Seq::<Layout>::empty();
        let ghost done1 = done0 + self.0.spec_layouts(positions@[0], canvas, density, terminal);
        let ghost done2 = done1 + self.1.spec_layouts(positions@[1], canvas, density, terminal);
        let ghost done3 = done2 + self.2.spec_layouts(positions@[2], canvas, density, terminal);
        proof {
            self.lemma_plans(terminal);
            assert(tree@ =~= laid_from(first, done0, parent.0 - flatten(plans).len()));
        }
        let position = positions[0];
        place_next(
            &self.0,
            0,
            parent,
            position,
            canvas,
            density,
            tree,
            terminal,
            Ghost(first),
            Ghost(plans),
            Ghost(done0),
        );
        let position = positions[1];
        place_next(
            &self.1,
            1,
            parent,
            position,
            canvas,
            density,
            tree,
            terminal,
            Ghost(first),
            Ghost(plans),
            Ghost(done1),
        );
        let position = positions[2];
        place_next(
            &self.2,
            2,
            parent,
            position,
            canvas,
            density,
            tree,
            terminal,
            Ghost(first),
            Ghost(plans),
            Ghost(done2),
        );
        let position = positions[3];
        place_next(
            &self.3,
            3,
            parent,
            position,
            canvas,
            density,
            tree,
            terminal,
            Ghost(first),
            Ghost(plans),
            Ghost(done3),
        );
        proof {
            assert(done3 + self.3.spec_layouts(positions@[3], canvas, density, terminal)
                =~= self.spec_layouts_all(positions@, canvas, density, terminal));
        }
    }

    fn ev_all(&self, event: &Event, how: &RenderContext, out: &mut Vec<Action>) {
        let ghost plans = self.plans(how.is_terminal);
        proof {
            self.lemma_plans(how.is_terminal);
        }
        ev_next(&self.0, 0, event, how, out, Ghost(plans));
        ev_next(&self.1, 1, event, how, out, Ghost(plans));
        ev_next(&self.2, 2, event, how, out, Ghost(plans));
        ev_next(&self.3, 3, event, how, out, Ghost(plans));
        assert(out@ =~= old(out)@ + self.spec_ev_all(*event, *how));
    }

    fn render_all(&self, how: &RenderContext, out: &mut Vec<DrawCommand>) {
        let ghost plans = self.plans(how.is_terminal);
        proof {
            self.lemma_plans(how.is_terminal);
        }
        render_next(&self.0, 0, how, out, Ghost(plans));
        render_next(&self.1, 1, how, out, Ghost(plans));
        render_next(&self.2, 2, how, out, Ghost(plans));
        render_next(&self.3, 3, how, out, Ghost(plans));
        assert(out@ =~= old(out)@ + self.spec_render_all(*how));
    }
}

/// The handlers that an event reaches in the first `n` of `views`, each in
/// the context of the child at its place.
pub open spec fn ev_upto<V: View>(views: Seq<V>, event: Event, how: RenderContext, n: int) -> Seq<
    Action,
>
    decreases n,
{
    if n <= 0 {
        Seq::empty()
    } else {
        ev_upto(views, event, how, n - 1) + views[n - 1].spec_ev(event, how.spec_child(n - 1))
    }
}

/// What the first `n` of `views` draw, each in the context of the child at
/// its place.
pub open spec fn render_upto<V: View>(views: Seq<V>, how: RenderContext, n: int) -> Seq<
    DrawCommand,
>
    decreases n,
{
    if n <= 0 {
        Seq::empty()
    } else {
        render_upto(views, how, n - 1) + views[n - 1].spec_render(how.spec_child(n - 1))
    }
}

/// The blocks of the first `m` children take up no more than the blocks of
/// all of them.
pub proof fn lemma_flatten_take(plans: Seq<Seq<Plan>>, m: int)
    requires
        0 <= m <= plans.len(),
    ensures
        flatten(plans.take(m)).len() <= flatten(plans).len(),
{
    lemma_flatten_len(plans);
    lemma_flatten_len(plans.take(m));
    lemma_ends_prefix(plans.take(m), plans, m - 1);
    lemma_ends_step(plans, m - 1, plans.len() - 1);
}

/// The geometry that the first `n` of `views` give the nodes of their
/// blocks, block after block, when each places itself at its position.
pub open spec fn layouts_upto<V: View>(
    views: Seq<V>,
    positions: Seq<Point>,
    canvas: Size,
    density: Density,
    terminal: bool,
    n: int,
) -> Seq<Layout>
    decreases n,
{
    if n <= 0 {
        Seq::empty()
    } else {
        layouts_upto(views, positions, canvas, density, terminal, n - 1) + views[n
            - 1].spec_layouts(positions[n - 1], canvas, density, terminal)
    }
}

/// The geometry of the first `n` views fills the blocks of the first `n`
/// plans.
pub proof fn lemma_layouts_upto<V: View>(
    views: Seq<V>,
    positions: Seq<Point>,
    canvas: Size,
    density: Density,
    terminal: bool,
    n: int,
)
    requires
        0 <= n <= views.len(),
    ensures
        layouts_upto(views, positions, canvas, density, terminal, n).len() == ends(
            Seq::new(views.len(), |i: int| views[i].plan(terminal)),
            n - 1,
        ),
    decreases n,
{
    if n > 0 {
        lemma_layouts_upto(views, positions, canvas, density, terminal, n - 1);
        views[n - 1].lemma_layouts(positions[n - 1], canvas, density, terminal);
    }
}

impl<V: View> Views for Vec<V> {
    open spec fn plans(&self, terminal: bool) -> Seq<Seq<Plan>> {
        Seq::new(self@.len(), |i: int| self@[i].plan(terminal))
    }

    open spec fn spec_sizes(&self, terminal: bool) -> Seq<Size> {
        Seq::new(self@.len(), |i: int| self@[i].spec_size(terminal))
    }

    open spec fn spec_ev_all(&self, event: Event, how: RenderContext) -> Seq<Action> {
        ev_upto(self@, event, how, self@.len() as int)
    }

    open spec fn spec_render_all(&self, how: RenderContext) -> Seq<DrawCommand> {
        render_upto(self@, how, self@.len() as int)
    }

    open spec fn spec_layouts_all(
        &self,
        positions: Seq<Point>,
        canvas: Size,
        density: Density,
        terminal: bool,
    ) -> Seq<Layout> {
        layouts_upto(self@, positions, canvas, density, terminal, self@.len() as int)
    }

    proof fn lemma_layouts_all(
        &self,
        positions: Seq<Point>,
        canvas: Size,
        density: Density,
        terminal: bool,
    ) {
        lemma_layouts_upto(self@, positions, canvas, density, terminal, self@.len() as int);
        lemma_flatten_len(self.plans(terminal));
    }

    proof fn lemma_plans(&self, terminal: bool) {
        assert forall|k: int| 0 <= k < self.plans(terminal).len() implies plan_wf(
            #[trigger] self.plans(terminal)[k],
        ) by {
            self@[k].lemma_plan(terminal);
        }
    }

    fn sizes(&self, terminal: bool) -> (sizes: Vec<Size>) {
        let mut sizes: Vec<Size> = Vec::with_capacity(self.len());
        let mut i: usize = 0;
        while i < self.len()
            invariant
                i <= self.len(),
                sizes.len() == i,
                forall|k: int| 0 <= k < i ==> sizes[k] == #[trigger] self@[k].spec_size(terminal),
            decreases self.len() - i,
        {
            sizes.push(self[i].size(terminal));
            i = i + 1;
        }
        assert(sizes@ =~= self.spec_sizes(terminal));
        sizes
    }

    fn measure_all(&self, tree: &mut LayoutTree, terminal: bool) -> (roots: Vec<NodeId>) {
        let ghost base = tree@;
        let ghost plans = self.plans(terminal);
        proof {
            self.lemma_plans(terminal);
            assert(plans.take(0) =~= Seq::<Seq<Plan>>::empty());
            assert(tree@ =~= base + planted(flatten(plans.take(0)), base.len() as int));
        }
        let mut roots: Vec<NodeId> = Vec::with_capacity(self.len());
        assert(roots@ =~= child_roots(plans.take(0), base.len() as int));
        let mut i: usize = 0;
        while i < self.len()
            invariant
                i <= self.len(),
                plans == self.plans(terminal),
                forall|k: int| 0 <= k < plans.len() ==> plan_wf(#[trigger] plans[k]),
                tree.wf(),
                tree@ == base + planted(flatten(plans.take(i as int)), base.len() as int),
                roots@ == child_roots(plans.take(i as int), base.len() as int),
            decreases self.len() - i,
        {
            proof {
                assert(plans.take(i as int).push(self@[i as int].plan(terminal)) =~= plans.take(
                    i + 1,
                ));
                lemma_flatten_take(plans, i + 1);
            }
            measure_next(
                &self[i],
                tree,
                &mut roots,
                terminal,
                Ghost(base),
                Ghost(plans.take(i as int)),
            );
            i = i + 1;
        }
        assert(plans.take(self.len() as int) =~= plans);
        roots
    }

    fn remeasure_all(&self, parent: NodeId, tree: &mut LayoutTree, terminal: bool) {
        let ghost first = tree@;
        let ghost plans = self.plans(terminal);
        proof {
            self.lemma_plans(terminal);
            assert(tree@ =~= children_remeasured(first, plans, parent.0 as int, 0));
        }
        let mut i: usize = 0;
        while i < self.len()
            invariant
                i <= self.len(),
                plans == self.plans(terminal),
                forall|k: int| 0 <= k < plans.len() ==> plan_wf(#[trigger] plans[k]),
                stacked(first, plans, parent.0 as int),
                forall|k: int|
                    0 <= k < first.len() && on_path(first, parent.0 as int, k) ==> first[k].dirty,
                tree.wf(),
                tree@ == children_remeasured(first, plans, parent.0 as int, i as int),
            decreases self.len() - i,
        {
            remeasure_next(&self[i], i, parent, tree, terminal, Ghost(first), Ghost(plans));
            i = i + 1;
        }
    }

    fn place_all(
        &self,
        parent: NodeId,
        positions: &Vec<Point>,
        canvas: Size,
        density: Density,
        tree: &mut LayoutTree,
        terminal: bool,
    ) {
        let ghost first = tree@;
        let ghost plans = self.plans(terminal);
        proof {
            self.lemma_plans(terminal);
            assert(tree@ =~= laid_from(
                first,
                layouts_upto(self@, positions@, canvas, density, terminal, 0),
                parent.0 - flatten(plans).len(),
            ));
        }
        let mut i: usize = 0;
        while i < self.len()
            invariant
                i <= self.len(),
                positions.len() == self.len(),
                plans == self.plans(terminal),
                forall|k: int| 0 <= k < plans.len() ==> plan_wf(#[trigger] plans[k]),
                stacked(first, plans, parent.0 as int),
                tree.wf(),
                tree@ == laid_from(
                    first,
                    layouts_upto(self@, positions@, canvas, density, terminal, i as int),
                    parent.0 - flatten(plans).len(),
                ),
            decreases self.len() - i,
        {
            proof {
                lemma_layouts_upto(self@, positions@, canvas, density, terminal, i as int);
            }
            let position = positions[i];
            place_next(
                &self[i],
                i,
                parent,
                position,
                canvas,
                density,
                tree,
                terminal,
                Ghost(first),
                Ghost(plans),
                Ghost(layouts_upto(self@, positions@, canvas, density, terminal, i as int)),
            );
            i = i + 1;
        }
    }

    fn ev_all(&self, event: &Event, how: &RenderContext, out: &mut Vec<Action>) {
        let ghost plans = self.plans(how.is_terminal);
        proof {
            self.lemma_plans(how.is_terminal);
        }
        let mut i: usize = 0;
        while i < self.len()
            invariant
                i <= self.len(),
                plans == self.plans(how.is_terminal),
                forall|k: int| 0 <= k < plans.len() ==> plan_wf(#[trigger] plans[k]),
                how.wf(),
                stacked(how.tree@, plans, how.this_node.0 as int),
                out@ == old(out)@ + ev_upto(self@, *event, *how, i as int),
            decreases self.len() - i,
        {
            ev_next(&self[i], i, event, how, out, Ghost(plans));
            assert(out@ =~= old(out)@ + ev_upto(self@, *event, *how, i + 1));
            i = i + 1;
        }
    }

    fn render_all(&self, how: &RenderContext, out: &mut Vec<DrawCommand>) {
        let ghost plans = self.plans(how.is_terminal);
        proof {
            self.lemma_plans(how.is_terminal);
        }
        let mut i: usize = 0;
        while i < self.len()
            invariant
                i <= self.len(),
                plans == self.plans(how.is_terminal),
                forall|k: int| 0 <= k < plans.len() ==> plan_wf(#[trigger] plans[k]),
                how.wf(),
                stacked(how.tree@, plans, how.this_node.0 as int),
                out@ == old(out)@ + render_upto(self@, *how, i as int),
            decreases self.len() - i,
        {
            render_next(&self[i], i, how, out, Ghost(plans));
            assert(out@ =~= old(out)@ + render_upto(self@, *how, i + 1));
            i = i + 1;
        }
    }
}

} // verus!
