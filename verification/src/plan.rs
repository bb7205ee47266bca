//! Plans: what a view is going to look like in the layout tree.
//!
//! A view of any depth is measured into one block of consecutive nodes, its
//! children first and its own node last. A plan describes such a block
//! without saying where it lies: every entry names its children and its
//! parent by their distance.

use vstd::prelude::*;
use crate::layout::{
    adopted, lemma_on_path_bounds, on_path, restyled, Layout, NodeData, NodeId,
};
use crate::style::Style;

verus! {

/// One node of a block: its style, how far below it each of its children
/// lies, and how far above it its parent lies.
pub struct Plan {
    pub style: Style,
    pub children: Seq<nat>,
    pub parent: Option<nat>,
}

impl Plan {
    /// The children of the entry when it stands at index `k` of a tree.
    pub open spec fn children_at(self, k: int) -> Seq<NodeId> {
        Seq::new(self.children.len(), |i: int| NodeId((k - self.children[i]) as usize))
    }

    /// The parent of the entry when it stands at index `k` of a tree.
    pub open spec fn parent_at(self, k: int) -> Option<NodeId> {
        match self.parent {
            Some(d) => Some(NodeId((k + d) as usize)),
            None => None,
        }
    }

    /// The node that a first measurement makes of the entry at index `k`: not
    /// placed yet, and dirty.
    pub open spec fn at(self, k: int) -> NodeData {
        NodeData {
            style: self.style,
            children: self.children_at(k),
            parent: self.parent_at(k),
            layout: Layout::spec_zero(),
            dirty: true,
        }
    }
}

/// A plan is a block: it has a last entry, children lie inside the block
/// below their parent, and parents inside the block above their child.
pub open spec fn plan_wf(plan: Seq<Plan>) -> bool {
    &&& plan.len() >= 1
    &&& forall|j: int, i: int|
        0 <= j < plan.len() && 0 <= i < plan[j].children.len() ==> 1 <= (
        #[trigger] plan[j].children[i]) <= j
    &&& forall|j: int|
        0 <= j < plan.len() ==> (#[trigger] plan[j].parent matches Some(d) ==> 1 <= d && j + d
            < plan.len())
}

/// The nodes that a first measurement makes of a plan whose first entry
/// comes to stand at index `base`.
pub open spec fn planted(plan: Seq<Plan>, base: int) -> Seq<NodeData> {
    Seq::new(plan.len(), |j: int| plan[j].at(base + j))
}

/// Whether the block of the tree that ends at `root` has the shape of the
/// plan: the same children everywhere, and the same parents below the root.
pub open spec fn holds(nodes: Seq<NodeData>, plan: Seq<Plan>, root: int) -> bool {
    let start = root + 1 - plan.len();
    &&& plan.len() >= 1
    &&& 0 <= start
    &&& root < nodes.len()
    &&& forall|j: int|
        0 <= j < plan.len() ==> (#[trigger] nodes[start + j]).children == plan[j].children_at(
            start + j,
        )
    &&& forall|j: int|
        0 <= j < plan.len() - 1 ==> (#[trigger] nodes[start + j]).parent == plan[j].parent_at(
            start + j,
        )
}

/// The tree after the block that ends at `root` was measured again: every
/// node of the block has the style of the plan, and the whole block and
/// every node above `root` are dirty. Nothing else changes.
pub open spec fn remeasured(nodes: Seq<NodeData>, plan: Seq<Plan>, root: int) -> Seq<NodeData> {
    let start = root + 1 - plan.len();
    Seq::new(
        nodes.len(),
        |k: int|
            if start <= k <= root {
                NodeData { style: plan[k - start].style, dirty: true, ..nodes[k] }
            } else {
                NodeData { dirty: nodes[k].dirty || on_path(nodes, root, k), ..nodes[k] }
            },
    )
}

/// The plan with another style for its last entry.
pub open spec fn with_root_style(plan: Seq<Plan>, style: Style) -> Seq<Plan> {
    plan.update(plan.len() - 1, Plan { style, ..plan.last() })
}

/// The plan of a view without children.
pub open spec fn leaf_plan(style: Style) -> Seq<Plan> {
    seq![Plan { style, children: Seq::empty(), parent: None }]
}

/// The plan of a leaf is a plan of one entry.
pub proof fn lemma_leaf_plan(style: Style)
    ensures
        plan_wf(leaf_plan(style)),
        leaf_plan(style).len() == 1,
        leaf_plan(style).last().style == style,
{
}

/// Paths depend on the parents alone.
pub proof fn lemma_on_path_same_parents(a: Seq<NodeData>, b: Seq<NodeData>, from: int, k: int)
    requires
        a.len() == b.len(),
        forall|i: int| 0 <= i < a.len() ==> (#[trigger] a[i]).parent == b[i].parent,
    ensures
        on_path(a, from, k) == on_path(b, from, k),
    decreases a.len() - from,
{
    if 0 <= from < a.len() {
        assert(a[from].parent == b[from].parent);
        match a[from].parent {
            Some(p) => {
                if from < p.0 < a.len() {
                    lemma_on_path_same_parents(a, b, p.0 as int, k);
                }
            },
            None => {},
        }
    }
}

/// A block that was just planted has the shape of its plan.
pub proof fn lemma_planted_holds(nodes: Seq<NodeData>, plan: Seq<Plan>)
    requires
        plan.len() >= 1,
    ensures
        holds(nodes + planted(plan, nodes.len() as int), plan, nodes.len() + plan.len() - 1),
{
    let after = nodes + planted(plan, nodes.len() as int);
    let start: int = nodes.len() as int;
    assert forall|j: int| 0 <= j < plan.len() implies (#[trigger] after[start + j]).children
        == plan[j].children_at(start + j) by {
        assert(after[start + j] == planted(plan, start)[j]);
    }
    assert forall|j: int| 0 <= j < plan.len() - 1 implies (#[trigger] after[start + j]).parent
        == plan[j].parent_at(start + j) by {
        assert(after[start + j] == planted(plan, start)[j]);
    }
}

/// Measuring a block again leaves its shape alone.
pub proof fn lemma_remeasured_holds(nodes: Seq<NodeData>, plan: Seq<Plan>, root: int)
    requires
        holds(nodes, plan, root),
    ensures
        holds(remeasured(nodes, plan, root), plan, root),
{
    let after = remeasured(nodes, plan, root);
    let start = root + 1 - plan.len();
    assert forall|j: int| 0 <= j < plan.len() implies (#[trigger] after[start + j]).children
        == plan[j].children_at(start + j) by {
        assert(nodes[start + j].children == plan[j].children_at(start + j));
    }
    assert forall|j: int| 0 <= j < plan.len() - 1 implies (#[trigger] after[start + j]).parent
        == plan[j].parent_at(start + j) by {
        assert(nodes[start + j].parent == plan[j].parent_at(start + j));
    }
}

/// Setting the style of a single node is measuring a leaf again.
pub proof fn lemma_restyled_leaf(nodes: Seq<NodeData>, node: int, style: Style)
    requires
        0 <= node < nodes.len(),
    ensures
        restyled(nodes, node, style) == remeasured(nodes, leaf_plan(style), node),
{
    let a = restyled(nodes, node, style);
    let b = remeasured(nodes, leaf_plan(style), node);
    assert(on_path(nodes, node, node));
    assert(a =~= b);
}

/// What a first measurement makes of a leaf.
pub proof fn lemma_planted_leaf(style: Style, base: int)
    ensures
        planted(leaf_plan(style), base) == seq![
            NodeData {
                style,
                children: Seq::empty(),
                parent: None,
                layout: Layout::spec_zero(),
                dirty: true,
            },
        ],
{
    let entry = leaf_plan(style)[0];
    assert(entry.children_at(base) =~= Seq::empty());
    assert(planted(leaf_plan(style), base) =~= seq![
        NodeData {
            style,
            children: Seq::empty(),
            parent: None,
            layout: Layout::spec_zero(),
            dirty: true,
        },
    ]);
}

/// Another style for the last entry leaves a plan a plan, of the same
/// length and shape.
pub proof fn lemma_with_root_style(plan: Seq<Plan>, style: Style)
    requires
        plan_wf(plan),
    ensures
        plan_wf(with_root_style(plan, style)),
        with_root_style(plan, style).len() == plan.len(),
        with_root_style(plan, style).last().style == style,
        forall|nodes: Seq<NodeData>, root: int|
            holds(nodes, plan, root) <==> #[trigger] holds(
                nodes,
                with_root_style(plan, style),
                root,
            ),
{
    let other = with_root_style(plan, style);
    assert forall|j: int, i: int|
        0 <= j < other.len() && 0 <= i < other[j].children.len() implies 1 <= (
    #[trigger] other[j].children[i]) <= j by {
        assert(other[j].children == plan[j].children);
        assert(1 <= plan[j].children[i] <= j);
    }
    assert forall|j: int| 0 <= j < other.len() implies (#[trigger] other[j].parent matches Some(
        d,
    ) ==> 1 <= d && j + d < other.len()) by {
        assert(other[j].parent == plan[j].parent);
    }
    assert forall|nodes: Seq<NodeData>, root: int|
        holds(nodes, plan, root) <==> #[trigger] holds(nodes, other, root) by {
        let start = root + 1 - plan.len();
        if holds(nodes, plan, root) {
            assert forall|j: int| 0 <= j < other.len() implies (
            #[trigger] nodes[start + j]).children == other[j].children_at(start + j) by {
                assert(other[j].children == plan[j].children);
                assert(nodes[start + j].children == plan[j].children_at(start + j));
            }
            assert forall|j: int| 0 <= j < other.len() - 1 implies (
            #[trigger] nodes[start + j]).parent == other[j].parent_at(start + j) by {
                assert(other[j].parent == plan[j].parent);
                assert(nodes[start + j].parent == plan[j].parent_at(start + j));
            }
        }
        if holds(nodes, other, root) {
            assert forall|j: int| 0 <= j < plan.len() implies (
            #[trigger] nodes[start + j]).children == plan[j].children_at(start + j) by {
                assert(other[j].children == plan[j].children);
                assert(nodes[start + j].children == other[j].children_at(start + j));
            }
            assert forall|j: int| 0 <= j < plan.len() - 1 implies (
            #[trigger] nodes[start + j]).parent == plan[j].parent_at(start + j) by {
                assert(other[j].parent == plan[j].parent);
                assert(nodes[start + j].parent == other[j].parent_at(start + j));
            }
        }
    }
}

/// Setting the style of the node that a block was just planted under gives
/// the block of the plan with that style for its last entry.
pub proof fn lemma_restyle_planted(nodes: Seq<NodeData>, plan: Seq<Plan>, style: Style)
    requires
        plan_wf(plan),
    ensures
        restyled(
            nodes + planted(plan, nodes.len() as int),
            nodes.len() + plan.len() - 1,
            style,
        ) == nodes + planted(with_root_style(plan, style), nodes.len() as int),
{
    let base: int = nodes.len() as int;
    let root: int = base + plan.len() - 1;
    let grown = nodes + planted(plan, base);
    let a = restyled(grown, root, style);
    let b = nodes + planted(with_root_style(plan, style), base);
    assert(plan.last().parent is None);
    assert(grown[root] == planted(plan, base)[plan.len() - 1]);
    assert(grown[root].parent is None);
    assert forall|k: int| 0 <= k < a.len() implies a[k] == b[k] by {
        if on_path(grown, root, k) {
            lemma_on_path_bounds(grown, root, k);
            assert(k == root);
        }
        if k >= base {
            assert(grown[k] == planted(plan, base)[k - base]);
            assert(b[k] == planted(with_root_style(plan, style), base)[k - base]);
        }
    }
    assert(a =~= b);
}

/// Setting the style of the node that a block was just measured again under
/// is measuring the block again with that style for its last entry.
pub proof fn lemma_restyle_remeasured(
    nodes: Seq<NodeData>,
    plan: Seq<Plan>,
    root: int,
    style: Style,
)
    requires
        holds(nodes, plan, root),
    ensures
        restyled(remeasured(nodes, plan, root), root, style) == remeasured(
            nodes,
            with_root_style(plan, style),
            root,
        ),
{
    let once = remeasured(nodes, plan, root);
    let a = restyled(once, root, style);
    let b = remeasured(nodes, with_root_style(plan, style), root);
    assert forall|k: int| 0 <= k < a.len() implies a[k] == b[k] by {
        lemma_on_path_same_parents(once, nodes, root, k);
    }
    assert(a =~= b);
}

/// Measuring again creates no node, moves none, and is the same done twice.
pub proof fn lemma_remeasured_stable(nodes: Seq<NodeData>, plan: Seq<Plan>, root: int)
    requires
        holds(nodes, plan, root),
    ensures
        remeasured(nodes, plan, root).len() == nodes.len(),
        forall|k: int|
            0 <= k < nodes.len() ==> (#[trigger] remeasured(nodes, plan, root)[k]).children
                == nodes[k].children && remeasured(nodes, plan, root)[k].parent == nodes[k].parent
                && remeasured(nodes, plan, root)[k].layout == nodes[k].layout,
        remeasured(remeasured(nodes, plan, root), plan, root) == remeasured(nodes, plan, root),
{
    let once = remeasured(nodes, plan, root);
    let twice = remeasured(once, plan, root);
    assert forall|k: int| 0 <= k < once.len() implies twice[k] == once[k] by {
        lemma_on_path_same_parents(once, nodes, root, k);
    }
    assert(twice =~= once);
}

/// Where the block of child `i` ends among the blocks of its siblings: the
/// number of entries of the children up to and including `i`.
pub open spec fn ends(plans: Seq<Seq<Plan>>, i: int) -> int
    decreases i + 1,
{
    if i < 0 {
        0
    } else {
        ends(plans, i - 1) + plans[i].len()
    }
}

/// The blocks of the children, one after the other.
pub open spec fn flatten(plans: Seq<Seq<Plan>>) -> Seq<Plan>
    decreases plans.len(),
{
    if plans.len() == 0 {
        Seq::empty()
    } else {
        flatten(plans.drop_last()) + plans.last()
    }
}

/// Whether entry `j` of the flattened blocks is the last entry of a block.
pub open spec fn is_child_root(plans: Seq<Seq<Plan>>, j: int) -> bool {
    exists|i: int| 0 <= i < plans.len() && j == #[trigger] ends(plans, i) - 1
}

/// The plan of a container: the blocks of its children in order, each last
/// entry with the container as its parent, and then the container's own
/// entry with one child per block.
pub open spec fn stack_plan(style: Style, plans: Seq<Seq<Plan>>) -> Seq<Plan> {
    let body = flatten(plans);
    let total = body.len() as int;
    Seq::new(
        (total + 1) as nat,
        |j: int|
            if j == total {
                Plan {
                    style,
                    children: Seq::new(
                        plans.len(),
                        |i: int| (total - (ends(plans, i) - 1)) as nat,
                    ),
                    parent: None,
                }
            } else if is_child_root(plans, j) {
                Plan { parent: Some((total - j) as nat), ..body[j] }
            } else {
                body[j]
            },
    )
}

/// The nodes of the children of a container whose first block starts at
/// `base`.
pub open spec fn child_roots(plans: Seq<Seq<Plan>>, base: int) -> Seq<NodeId> {
    Seq::new(plans.len(), |i: int| NodeId((base + ends(plans, i) - 1) as usize))
}

/// Whether `root` is a container over blocks of the given plans: its
/// children are the last nodes of the blocks, which lie directly before it,
/// each block has the shape of its plan, and each child knows its parent.
pub open spec fn stacked(nodes: Seq<NodeData>, plans: Seq<Seq<Plan>>, root: int) -> bool {
    let base = root - flatten(plans).len();
    &&& 0 <= base
    &&& root < nodes.len()
    &&& nodes[root].children == child_roots(plans, base)
    &&& forall|i: int|
        0 <= i < plans.len() ==> #[trigger] holds(nodes, plans[i], base + ends(plans, i) - 1)
    &&& forall|i: int|
        0 <= i < plans.len() ==> nodes[base + #[trigger] ends(plans, i) - 1].parent == Some(
            NodeId(root as usize),
        )
}

/// The tree after the first `m` children of the container `root` were
/// measured again: their blocks have the styles of their plans and are
/// dirty. Nothing else changes.
pub open spec fn children_remeasured(
    nodes: Seq<NodeData>,
    plans: Seq<Seq<Plan>>,
    root: int,
    m: int,
) -> Seq<NodeData> {
    let base = root - flatten(plans).len();
    Seq::new(
        nodes.len(),
        |k: int|
            if base <= k < base + ends(plans, m - 1) {
                NodeData { style: flatten(plans)[k - base].style, dirty: true, ..nodes[k] }
            } else {
                nodes[k]
            },
    )
}

/// Where a block ends depends on the blocks up to it alone.
pub proof fn lemma_ends_prefix(a: Seq<Seq<Plan>>, b: Seq<Seq<Plan>>, i: int)
    requires
        i < a.len(),
        i < b.len(),
        forall|k: int| 0 <= k <= i ==> a[k] == b[k],
    ensures
        ends(a, i) == ends(b, i),
    decreases i + 1,
{
    if i >= 0 {
        lemma_ends_prefix(a, b, i - 1);
    }
}

/// Every block has an entry, so every block ends after the one before.
pub proof fn lemma_ends_monotone(plans: Seq<Seq<Plan>>, i: int, j: int)
    requires
        forall|k: int| 0 <= k < plans.len() ==> (#[trigger] plans[k]).len() >= 1,
        -1 <= i <= j < plans.len(),
    ensures
        ends(plans, i) + (j - i) <= ends(plans, j),
        ends(plans, i) >= i + 1,
    decreases j + 1,
{
    if i < j {
        lemma_ends_monotone(plans, i, j - 1);
    } else if i >= 0 {
        lemma_ends_monotone(plans, i - 1, j - 1);
    }
}

/// The blocks together are as long as the end of the last of them.
pub proof fn lemma_flatten_len(plans: Seq<Seq<Plan>>)
    ensures
        flatten(plans).len() == ends(plans, plans.len() - 1),
    decreases plans.len(),
{
    if plans.len() > 0 {
        lemma_flatten_len(plans.drop_last());
        lemma_ends_prefix(plans.drop_last(), plans, plans.len() - 2);
    }
}

/// Entry `j` of block `i` is entry `ends(i - 1) + j` of the flattened blocks.
pub proof fn lemma_flatten_index(plans: Seq<Seq<Plan>>, i: int, j: int)
    requires
        0 <= i < plans.len(),
        0 <= j < plans[i].len(),
    ensures
        0 <= ends(plans, i - 1) + j < flatten(plans).len(),
        flatten(plans)[ends(plans, i - 1) + j] == plans[i][j],
    decreases plans.len(),
{
    let front = plans.drop_last();
    lemma_flatten_len(front);
    lemma_flatten_len(plans);
    lemma_ends_prefix(front, plans, plans.len() - 2);
    lemma_ends_nonnegative(plans, i - 1);
    if i < plans.len() - 1 {
        lemma_flatten_index(front, i, j);
        lemma_ends_prefix(front, plans, i - 1);
        lemma_ends_prefix(front, plans, i);
        lemma_ends_step(front, i, plans.len() - 2);
    }
}

/// No block ends before the first entry.
pub proof fn lemma_ends_nonnegative(plans: Seq<Seq<Plan>>, i: int)
    requires
        i < plans.len(),
    ensures
        ends(plans, i) >= 0,
    decreases i + 1,
{
    if i >= 0 {
        lemma_ends_nonnegative(plans, i - 1);
    }
}

/// No block ends before an earlier one.
pub proof fn lemma_ends_step(plans: Seq<Seq<Plan>>, i: int, j: int)
    requires
        -1 <= i <= j < plans.len(),
    ensures
        ends(plans, i) <= ends(plans, j),
    decreases j + 1,
{
    if i < j {
        lemma_ends_step(plans, i, j - 1);
    }
}

/// One more block at the end.
pub proof fn lemma_flatten_push(plans: Seq<Seq<Plan>>, plan: Seq<Plan>)
    ensures
        flatten(plans.push(plan)) == flatten(plans) + plan,
        ends(plans.push(plan), plans.len() as int) == flatten(plans).len() + plan.len(),
        forall|i: int| -1 <= i < plans.len() ==> ends(plans.push(plan), i) == ends(plans, i),
{
    let more = plans.push(plan);
    assert(more.drop_last() =~= plans);
    lemma_flatten_len(plans);
    lemma_ends_prefix(plans, more, plans.len() - 1);
    assert forall|i: int| -1 <= i < plans.len() implies ends(more, i) == ends(plans, i) by {
        lemma_ends_prefix(plans, more, i);
    }
}

/// Blocks planted one after the other are the planting of their
/// concatenation.
pub proof fn lemma_planted_concat(a: Seq<Plan>, b: Seq<Plan>, base: int)
    ensures
        planted(a + b, base) == planted(a, base) + planted(b, base + a.len()),
{
    assert(planted(a + b, base) =~= planted(a, base) + planted(b, base + a.len()));
}

/// In which block an entry of the flattened blocks lies.
pub proof fn lemma_block_of(plans: Seq<Seq<Plan>>, j: int) -> (i: int)
    requires
        0 <= j < flatten(plans).len(),
    ensures
        0 <= i < plans.len(),
        ends(plans, i - 1) <= j < ends(plans, i),
    decreases plans.len(),
{
    lemma_flatten_len(plans);
    let last = plans.len() - 1;
    if j >= ends(plans, last - 1) {
        last
    } else {
        let front = plans.drop_last();
        lemma_flatten_len(front);
        lemma_ends_prefix(front, plans, last - 1);
        let i = lemma_block_of(front, j);
        lemma_ends_prefix(front, plans, i);
        lemma_ends_prefix(front, plans, i - 1);
        i
    }
}

/// The last entries of the blocks are the entries `ends(i) - 1`, and no
/// others.
pub proof fn lemma_child_root_unique(plans: Seq<Seq<Plan>>, i: int, j: int)
    requires
        forall|k: int| 0 <= k < plans.len() ==> (#[trigger] plans[k]).len() >= 1,
        0 <= i < plans.len(),
        ends(plans, i - 1) <= j < ends(plans, i),
    ensures
        is_child_root(plans, j) <==> j == ends(plans, i) - 1,
{
    if is_child_root(plans, j) {
        let k = choose|k: int| 0 <= k < plans.len() && j == #[trigger] ends(plans, k) - 1;
        if k < i {
            lemma_ends_step(plans, k, i - 1);
        } else if k > i {
            lemma_ends_monotone(plans, i, k);
        }
    }
}

/// What is known of entry `j` of a container's plan below its last entry:
/// it is the entry of a child's plan, but for the parent of a child's last
/// entry.
pub proof fn lemma_stack_plan_entry(style: Style, plans: Seq<Seq<Plan>>, j: int) -> (i: int)
    requires
        forall|k: int| 0 <= k < plans.len() ==> plan_wf(#[trigger] plans[k]),
        0 <= j < flatten(plans).len(),
    ensures
        0 <= i < plans.len(),
        ends(plans, i - 1) <= j < ends(plans, i),
        ends(plans, i) <= flatten(plans).len(),
        0 <= ends(plans, i - 1),
        flatten(plans)[j] == plans[i][j - ends(plans, i - 1)],
        stack_plan(style, plans)[j].style == plans[i][j - ends(plans, i - 1)].style,
        stack_plan(style, plans)[j].children == plans[i][j - ends(plans, i - 1)].children,
        is_child_root(plans, j) <==> j == ends(plans, i) - 1,
        stack_plan(style, plans)[j].parent == if j == ends(plans, i) - 1 {
            Some((flatten(plans).len() - j) as nat)
        } else {
            plans[i][j - ends(plans, i - 1)].parent
        },
{
    let i = lemma_block_of(plans, j);
    lemma_flatten_index(plans, i, j - ends(plans, i - 1));
    lemma_child_root_unique(plans, i, j);
    lemma_flatten_len(plans);
    lemma_ends_step(plans, i, plans.len() - 1);
    lemma_ends_nonnegative(plans, i - 1);
    i
}

/// The plan of a container over plans is a plan.
pub proof fn lemma_stack_plan_wf(style: Style, plans: Seq<Seq<Plan>>)
    requires
        forall|k: int| 0 <= k < plans.len() ==> plan_wf(#[trigger] plans[k]),
    ensures
        plan_wf(stack_plan(style, plans)),
        stack_plan(style, plans).len() == flatten(plans).len() + 1,
        stack_plan(style, plans).last().style == style,
{
    let plan = stack_plan(style, plans);
    let total = flatten(plans).len() as int;
    lemma_flatten_len(plans);
    assert forall|j: int, c: int|
        0 <= j < plan.len() && 0 <= c < plan[j].children.len() implies 1 <= (
    #[trigger] plan[j].children[c]) <= j by {
        if j == total {
            lemma_ends_monotone(plans, c, c);
            lemma_ends_step(plans, c, plans.len() - 1);
        } else {
            let i = lemma_stack_plan_entry(style, plans, j);
            let inner = plans[i][j - ends(plans, i - 1)];
            assert(1 <= inner.children[c] <= j - ends(plans, i - 1));
        }
    }
    assert forall|j: int| 0 <= j < plan.len() implies (#[trigger] plan[j].parent matches Some(
        d,
    ) ==> 1 <= d && j + d < plan.len()) by {
        if j < total {
            let i = lemma_stack_plan_entry(style, plans, j);
            let inner = plans[i][j - ends(plans, i - 1)];
            assert(inner.parent matches Some(d) ==> 1 <= d && j - ends(plans, i - 1) + d
                < plans[i].len());
        }
    }
}

/// Measuring the children of a container one after the other and then
/// adding the container above them plants the container's plan.
pub proof fn lemma_stack_planted(nodes: Seq<NodeData>, style: Style, plans: Seq<Seq<Plan>>)
    requires
        forall|k: int| 0 <= k < plans.len() ==> plan_wf(#[trigger] plans[k]),
        nodes.len() + flatten(plans).len() <= usize::MAX,
    ensures
        adopted(
            nodes + planted(flatten(plans), nodes.len() as int),
            child_roots(plans, nodes.len() as int),
            NodeId((nodes.len() + flatten(plans).len()) as usize),
        ).push(
            NodeData {
                style,
                children: child_roots(plans, nodes.len() as int),
                parent: None,
                layout: Layout::spec_zero(),
                dirty: true,
            },
        ) == nodes + planted(stack_plan(style, plans), nodes.len() as int),
{
    let base: int = nodes.len() as int;
    let total: int = flatten(plans).len() as int;
    let roots = child_roots(plans, base);
    let grown = nodes + planted(flatten(plans), base);
    let top = NodeId((base + total) as usize);
    let a = adopted(grown, roots, top).push(
        NodeData {
            style,
            children: roots,
            parent: None,
            layout: Layout::spec_zero(),
            dirty: true,
        },
    );
    let plan = stack_plan(style, plans);
    let b = nodes + planted(plan, base);
    lemma_flatten_len(plans);
    assert forall|i: int| 0 <= i < plans.len() implies 1 <= #[trigger] ends(plans, i) <= total by {
        lemma_ends_monotone(plans, i, i);
        lemma_ends_step(plans, i, plans.len() - 1);
    }
    assert forall|i: int| 0 <= i < roots.len() implies (#[trigger] roots[i]).0 == base + ends(
        plans,
        i,
    ) - 1 by {
        assert(1 <= ends(plans, i) <= total);
    }
    assert(a.len() == b.len());
    assert forall|k: int| 0 <= k < a.len() implies a[k] == b[k] by {
        if k < base {
            if exists|i: int| 0 <= i < roots.len() && #[trigger] roots[i].0 == k {
                let i = choose|i: int| 0 <= i < roots.len() && #[trigger] roots[i].0 == k;
                assert(roots[i].0 == base + ends(plans, i) - 1);
                assert(1 <= ends(plans, i) <= total);
            }
        } else if k < base + total {
            let j = k - base;
            let i = lemma_stack_plan_entry(style, plans, j);
            assert(grown[k] == planted(flatten(plans), base)[j]);
            assert(b[k] == planted(plan, base)[j]);
            if j == ends(plans, i) - 1 {
                assert(roots[i].0 == k);
            } else {
                if exists|c: int| 0 <= c < roots.len() && #[trigger] roots[c].0 == k {
                    let c = choose|c: int| 0 <= c < roots.len() && #[trigger] roots[c].0 == k;
                    assert(roots[c].0 == base + ends(plans, c) - 1);
                    assert(j == ends(plans, c) - 1);
                    assert(is_child_root(plans, j));
                }
            }
        } else {
            assert(b[k] == planted(plan, base)[total]);
            assert(plan[total].children_at(k) =~= roots);
        }
    }
    assert(a =~= b);
}

/// A block with the shape of a container's plan is a container over blocks
/// with the shapes of the children's plans.
pub proof fn lemma_stack_holds(
    nodes: Seq<NodeData>,
    style: Style,
    plans: Seq<Seq<Plan>>,
    root: int,
)
    requires
        forall|k: int| 0 <= k < plans.len() ==> plan_wf(#[trigger] plans[k]),
        holds(nodes, stack_plan(style, plans), root),
        root <= usize::MAX,
    ensures
        stacked(nodes, plans, root),
{
    let plan = stack_plan(style, plans);
    let total: int = flatten(plans).len() as int;
    let base: int = root - total;
    lemma_flatten_len(plans);
    assert(nodes[base + total].children == plan[total].children_at(base + total));
    assert forall|i: int| 0 <= i < plans.len() implies 1 <= #[trigger] ends(plans, i) <= total by {
        lemma_ends_monotone(plans, i, i);
        lemma_ends_step(plans, i, plans.len() - 1);
    }
    assert(plan[total].children_at(root) =~= child_roots(plans, base));
    assert forall|i: int| 0 <= i < plans.len() implies #[trigger] holds(
        nodes,
        plans[i],
        base + ends(plans, i) - 1,
    ) by {
        let first = base + ends(plans, i - 1);
        lemma_ends_nonnegative(plans, i - 1);
        assert(1 <= ends(plans, i) <= total);
        assert forall|j: int| 0 <= j < plans[i].len() implies (
        #[trigger] nodes[first + j]).children == plans[i][j].children_at(first + j) by {
            let at = ends(plans, i - 1) + j;
            let found = lemma_stack_plan_entry(style, plans, at);
            if found < i {
                lemma_ends_step(plans, found, i - 1);
            } else if found > i {
                lemma_ends_step(plans, i, found - 1);
            }
            assert(nodes[base + at].children == plan[at].children_at(base + at));
        }
        assert forall|j: int| 0 <= j < plans[i].len() - 1 implies (
        #[trigger] nodes[first + j]).parent == plans[i][j].parent_at(first + j) by {
            let at = ends(plans, i - 1) + j;
            let found = lemma_stack_plan_entry(style, plans, at);
            if found < i {
                lemma_ends_step(plans, found, i - 1);
            } else if found > i {
                lemma_ends_step(plans, i, found - 1);
            }
            assert(nodes[base + at].parent == plan[at].parent_at(base + at));
        }
    }
    assert forall|i: int| 0 <= i < plans.len() implies nodes[base + #[trigger] ends(plans, i)
        - 1].parent == Some(NodeId(root as usize)) by {
        assert(1 <= ends(plans, i) <= total);
        let at = ends(plans, i) - 1;
        let found = lemma_stack_plan_entry(style, plans, at);
        if found < i {
            lemma_ends_step(plans, found, i - 1);
        } else if found > i {
            lemma_ends_step(plans, i, found - 1);
            lemma_ends_monotone(plans, i, found - 1);
        }
        lemma_ends_monotone(plans, i - 1, i);
        assert(nodes[base + at].parent == plan[at].parent_at(base + at));
    }
}

/// Being a container over blocks depends on children and parents alone.
pub proof fn lemma_stacked_same_shape(
    a: Seq<NodeData>,
    b: Seq<NodeData>,
    plans: Seq<Seq<Plan>>,
    root: int,
)
    requires
        stacked(a, plans, root),
        a.len() == b.len(),
        forall|k: int|
            0 <= k < a.len() ==> (#[trigger] a[k]).children == b[k].children && a[k].parent
                == b[k].parent,
    ensures
        stacked(b, plans, root),
{
    let base = root - flatten(plans).len();
    assert(a[root].children == b[root].children);
    assert forall|i: int| 0 <= i < plans.len() implies #[trigger] holds(
        b,
        plans[i],
        base + ends(plans, i) - 1,
    ) by {
        let at = base + ends(plans, i) - 1;
        assert(holds(a, plans[i], at));
        let start = at + 1 - plans[i].len();
        assert forall|j: int| 0 <= j < plans[i].len() implies (
        #[trigger] b[start + j]).children == plans[i][j].children_at(start + j) by {
            assert(a[start + j].children == b[start + j].children);
        }
        assert forall|j: int| 0 <= j < plans[i].len() - 1 implies (
        #[trigger] b[start + j]).parent == plans[i][j].parent_at(start + j) by {
            assert(a[start + j].parent == b[start + j].parent);
        }
    }
    assert forall|i: int| 0 <= i < plans.len() implies b[base + #[trigger] ends(plans, i)
        - 1].parent == Some(NodeId(root as usize)) by {
        let at = base + ends(plans, i) - 1;
        assert(holds(a, plans[i], at));
        assert(a[at].parent == b[at].parent);
    }
}

/// Measuring child `m` of a container again, after the children before it,
/// brings the tree from one stage of [`children_remeasured`] to the next.
pub proof fn lemma_children_remeasured_step(
    nodes: Seq<NodeData>,
    plans: Seq<Seq<Plan>>,
    root: int,
    m: int,
)
    requires
        forall|k: int| 0 <= k < plans.len() ==> plan_wf(#[trigger] plans[k]),
        stacked(nodes, plans, root),
        root <= usize::MAX,
        forall|k: int| 0 <= k < nodes.len() && on_path(nodes, root, k) ==> nodes[k].dirty,
        0 <= m < plans.len(),
    ensures
        0 <= root - flatten(plans).len() + ends(plans, m) - 1 < root,
        stacked(children_remeasured(nodes, plans, root, m), plans, root),
        holds(
            children_remeasured(nodes, plans, root, m),
            plans[m],
            root - flatten(plans).len() + ends(plans, m) - 1,
        ),
        children_remeasured(nodes, plans, root, m)[root].children[m] == NodeId(
            (root - flatten(plans).len() + ends(plans, m) - 1) as usize,
        ),
        remeasured(
            children_remeasured(nodes, plans, root, m),
            plans[m],
            root - flatten(plans).len() + ends(plans, m) - 1,
        ) == children_remeasured(nodes, plans, root, m + 1),
{
    let base: int = root - flatten(plans).len();
    let before = children_remeasured(nodes, plans, root, m);
    let after = children_remeasured(nodes, plans, root, m + 1);
    let at: int = base + ends(plans, m) - 1;
    let first: int = base + ends(plans, m - 1);
    lemma_flatten_len(plans);
    lemma_ends_step(plans, m, plans.len() - 1);
    lemma_ends_monotone(plans, m, m);
    lemma_ends_nonnegative(plans, m - 1);
    lemma_stacked_same_shape(nodes, before, plans, root);
    assert(holds(before, plans[m], at));
    assert(before[root].children == child_roots(plans, base));
    let again = remeasured(before, plans[m], at);
    assert(nodes[base + ends(plans, m) - 1].parent == Some(NodeId(root as usize)));
    assert(again.len() == after.len());
    assert forall|k: int| 0 <= k < again.len() implies again[k] == after[k] by {
        if first <= k <= at {
            lemma_flatten_index(plans, m, k - first);
        } else {
            lemma_on_path_same_parents(before, nodes, at, k);
            if on_path(nodes, at, k) {
                lemma_on_path_bounds(nodes, at, k);
                assert(on_path(nodes, root, k));
                lemma_on_path_bounds(nodes, root, k);
            }
        }
    }
    assert(again =~= after);
}

/// Setting the style of a container and then measuring its children again,
/// one after the other, is measuring the container's plan again.
pub proof fn lemma_stack_remeasured(
    nodes: Seq<NodeData>,
    style: Style,
    plans: Seq<Seq<Plan>>,
    root: int,
)
    requires
        forall|k: int| 0 <= k < plans.len() ==> plan_wf(#[trigger] plans[k]),
        holds(nodes, stack_plan(style, plans), root),
        root <= usize::MAX,
    ensures
        stacked(restyled(nodes, root, style), plans, root),
        forall|k: int|
            0 <= k < nodes.len() && on_path(restyled(nodes, root, style), root, k) ==> restyled(
                nodes,
                root,
                style,
            )[k].dirty,
        children_remeasured(restyled(nodes, root, style), plans, root, plans.len() as int)
            == remeasured(nodes, stack_plan(style, plans), root),
{
    let first = restyled(nodes, root, style);
    let plan = stack_plan(style, plans);
    let total: int = flatten(plans).len() as int;
    let base: int = root - total;
    lemma_stack_holds(nodes, style, plans, root);
    lemma_stacked_same_shape(nodes, first, plans, root);
    lemma_flatten_len(plans);
    assert forall|k: int|
        0 <= k < nodes.len() && on_path(first, root, k) implies first[k].dirty by {
        lemma_on_path_same_parents(first, nodes, root, k);
    }
    let a = children_remeasured(first, plans, root, plans.len() as int);
    let b = remeasured(nodes, plan, root);
    assert(on_path(nodes, root, root));
    assert forall|k: int| 0 <= k < a.len() implies a[k] == b[k] by {
        if base <= k < root {
            let i = lemma_stack_plan_entry(style, plans, k - base);
            lemma_on_path_bounds_not(nodes, root, k);
        }
    }
    assert(a =~= b);
}

/// No path from `from` reaches a node before `from`.
pub proof fn lemma_on_path_bounds_not(nodes: Seq<NodeData>, from: int, k: int)
    requires
        k < from,
    ensures
        !on_path(nodes, from, k),
{
    if on_path(nodes, from, k) {
        lemma_on_path_bounds(nodes, from, k);
    }
}

/// The tree after the nodes from `base` on were given the geometry
/// `layouts`, one each and in order: they have it, and are no longer dirty.
pub open spec fn laid_from(nodes: Seq<NodeData>, layouts: Seq<Layout>, base: int) -> Seq<
    NodeData,
> {
    Seq::new(
        nodes.len(),
        |k: int|
            if base <= k < base + layouts.len() {
                NodeData { layout: layouts[k - base], dirty: false, ..nodes[k] }
            } else {
                nodes[k]
            },
    )
}

/// The tree after the block that ends at `root` was given the geometry
/// `layouts`.
pub open spec fn laid_out(nodes: Seq<NodeData>, layouts: Seq<Layout>, root: int) -> Seq<NodeData> {
    laid_from(nodes, layouts, root + 1 - layouts.len())
}

/// Geometry given block after block is geometry given to the blocks
/// together.
pub proof fn lemma_laid_from_concat(
    nodes: Seq<NodeData>,
    a: Seq<Layout>,
    b: Seq<Layout>,
    base: int,
)
    requires
        0 <= base,
    ensures
        laid_from(laid_from(nodes, a, base), b, base + a.len()) == laid_from(nodes, a + b, base),
{
    assert(laid_from(laid_from(nodes, a, base), b, base + a.len()) =~= laid_from(
        nodes,
        a + b,
        base,
    ));
}

/// The shape of a block depends on children and parents alone.
pub proof fn lemma_holds_same_shape(a: Seq<NodeData>, b: Seq<NodeData>, plan: Seq<Plan>, root: int)
    requires
        holds(a, plan, root),
        a.len() == b.len(),
        forall|k: int|
            0 <= k < a.len() ==> (#[trigger] a[k]).children == b[k].children && a[k].parent
                == b[k].parent,
    ensures
        holds(b, plan, root),
{
    let start = root + 1 - plan.len();
    assert forall|j: int| 0 <= j < plan.len() implies (#[trigger] b[start + j]).children
        == plan[j].children_at(start + j) by {
        assert(a[start + j].children == b[start + j].children);
    }
    assert forall|j: int| 0 <= j < plan.len() - 1 implies (#[trigger] b[start + j]).parent
        == plan[j].parent_at(start + j) by {
        assert(a[start + j].parent == b[start + j].parent);
    }
}

/// Storing the geometry of a single node is laying out a block of one.
pub proof fn lemma_laid_out_leaf(nodes: Seq<NodeData>, node: int, layout: Layout)
    requires
        0 <= node < nodes.len(),
    ensures
        nodes.update(node, NodeData { layout, dirty: false, ..nodes[node] }) == laid_out(
            nodes,
            seq![layout],
            node,
        ),
{
    assert(nodes.update(node, NodeData { layout, dirty: false, ..nodes[node] }) =~= laid_out(
        nodes,
        seq![layout],
        node,
    ));
}

} // verus!
