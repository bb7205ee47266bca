//! The layout tree: the arena of nodes that views are measured into and that
//! a layout solver resolves into positions and sizes.
//!
//! Nodes are created once and then changed in place; a node's identity is its
//! place in the arena. Children are always created before their parent.

use vstd::prelude::*;
use crate::style::Style;
use crate::unit::{Point, Size};

verus! {

/// The identity of a node of a [`LayoutTree`].
#[derive(Clone, Copy, Debug, PartialEq, Eq)]
pub struct NodeId(pub usize);

/// The resolved geometry of a node.
#[derive(Clone, Copy, Debug, PartialEq, Eq)]
pub struct Layout {
    pub size: Size,
    pub location: Point,
}

impl Layout {
    /// The layout of a node that no solver has placed yet.
    pub open spec fn spec_zero() -> Layout {
        Layout { size: Size { width: 0, height: 0 }, location: Point { x: 0, y: 0 } }
    }

    /// The layout of a node that no solver has placed yet.
    pub fn zero() -> (layout: Layout)
        ensures
            layout == Layout::spec_zero(),
    {
        Layout { size: Size { width: 0, height: 0 }, location: Point { x: 0, y: 0 } }
    }
}

/// What the tree holds of one node.
pub struct NodeData {
    pub style: Style,
    pub children: Seq<NodeId>,
    pub parent: Option<NodeId>,
    pub layout: Layout,
    /// Whether the layout is older than the style of the node or of a node
    /// below it.
    pub dirty: bool,
}

/// The nodes are in order: children come before their parent, and a parent
/// link points to a later node of the tree.
pub open spec fn ordered(nodes: Seq<NodeData>) -> bool {
    &&& forall|k: int, i: int|
        0 <= k < nodes.len() && 0 <= i < nodes[k].children.len() ==> (
        #[trigger] nodes[k].children[i]).0 < k
    &&& forall|k: int|
        0 <= k < nodes.len() ==> (#[trigger] nodes[k].parent matches Some(p) ==> k < p.0
            < nodes.len())
}

/// Whether `k` is `from` or one of the nodes above it.
pub open spec fn on_path(nodes: Seq<NodeData>, from: int, k: int) -> bool
    decreases nodes.len() - from,
{
    if 0 <= from < nodes.len() {
        k == from || match nodes[from].parent {
            Some(p) => from < p.0 < nodes.len() && on_path(nodes, p.0 as int, k),
            None => false,
        }
    } else {
        false
    }
}

/// The nodes with `node` and every node above it marked as dirty.
pub open spec fn marked(nodes: Seq<NodeData>, node: int) -> Seq<NodeData> {
    Seq::new(
        nodes.len(),
        |k: int|
            if on_path(nodes, node, k) {
                NodeData { dirty: true, ..nodes[k] }
            } else {
                nodes[k]
            },
    )
}

/// The nodes with each of `children` handed to the parent `parent`.
pub open spec fn adopted(nodes: Seq<NodeData>, children: Seq<NodeId>, parent: NodeId) -> Seq<
    NodeData,
> {
    Seq::new(
        nodes.len(),
        |k: int|
            if exists|i: int| 0 <= i < children.len() && #[trigger] children[i].0 == k {
                NodeData { parent: Some(parent), ..nodes[k] }
            } else {
                nodes[k]
            },
    )
}

/// The nodes after the style of `node` was set: it has the style, and it and
/// every node above it are dirty.
pub open spec fn restyled(nodes: Seq<NodeData>, node: int, style: Style) -> Seq<NodeData> {
    Seq::new(
        nodes.len(),
        |k: int|
            NodeData {
                style: if k == node {
                    style
                } else {
                    nodes[k].style
                },
                dirty: nodes[k].dirty || on_path(nodes, node, k),
                ..nodes[k]
            },
    )
}

/// A path leads upwards: every node on it lies at or after its start.
pub proof fn lemma_on_path_bounds(nodes: Seq<NodeData>, from: int, k: int)
    requires
        on_path(nodes, from, k),
    ensures
        0 <= from <= k < nodes.len(),
    decreases nodes.len() - from,
{
    if k != from {
        let above: NodeId = nodes[from].parent.unwrap();
        lemma_on_path_bounds(nodes, above.0 as int, k);
    }
}

/// A path through `mid` is the part before `mid` and the path from `mid`.
pub proof fn lemma_on_path_split(nodes: Seq<NodeData>, from: int, mid: int, k: int)
    requires
        on_path(nodes, from, mid),
    ensures
        on_path(nodes, from, k) <==> on_path(nodes, mid, k) || (on_path(nodes, from, k) && k
            < mid),
    decreases nodes.len() - from,
{
    if from != mid {
        let above: NodeId = nodes[from].parent.unwrap();
        let p: int = above.0 as int;
        lemma_on_path_split(nodes, p, mid, k);
        lemma_on_path_bounds(nodes, p, mid);
        if on_path(nodes, mid, k) {
            lemma_on_path_bounds(nodes, mid, k);
        }
    } else if on_path(nodes, mid, k) {
        lemma_on_path_bounds(nodes, mid, k);
    }
}

/// An arena of layout nodes.
pub struct LayoutTree {
    styles: Vec<Style>,
    children: Vec<Vec<NodeId>>,
    parents: Vec<Option<NodeId>>,
    layouts: Vec<Layout>,
    dirty: Vec<bool>,
}

impl View for LayoutTree {
    type V = Seq<NodeData>;

    closed spec fn view(&self) -> Seq<NodeData> {
        Seq::new(
            self.styles@.len(),
            |k: int|
                NodeData {
                    style: self.styles@[k],
                    children: self.children@[k]@,
                    parent: self.parents@[k],
                    layout: self.layouts@[k],
                    dirty: self.dirty@[k],
                },
        )
    }
}

impl LayoutTree {
    /// The invariant of the arena: its nodes are [`ordered`].
    pub closed spec fn wf(&self) -> bool {
        &&& self.children@.len() == self.styles@.len()
        &&& self.parents@.len() == self.styles@.len()
        &&& self.layouts@.len() == self.styles@.len()
        &&& self.dirty@.len() == self.styles@.len()
        &&& ordered(self@)
    }

    /// Whether `node` names a node of this tree.
    pub open spec fn has(&self, node: NodeId) -> bool {
        node.0 < self@.len()
    }

    /// What the invariant says of the nodes.
    pub proof fn lemma_ordered(&self)
        requires
            self.wf(),
        ensures
            ordered(self@),
    {
    }

    /// A tree without nodes.
    pub fn new() -> (tree: LayoutTree)
        ensures
            tree@ == Seq::<NodeData>::empty(),
            tree.wf(),
    {
        let tree = LayoutTree {
            styles: Vec::new(),
            children: Vec::new(),
            parents: Vec::new(),
            layouts: Vec::new(),
            dirty: Vec::new(),
        };
        assert(tree@ =~= Seq::<NodeData>::empty());
        tree
    }

    /// The number of nodes ever created.
    pub fn total_node_count(&self) -> (count: usize)
        ensures
            count == self@.len(),
    {
        self.styles.len()
    }

    /// Adds a node without children.
    pub fn new_leaf(&mut self, style: Style) -> (node: NodeId)
        requires
            old(self).wf(),
        ensures
            final(self).wf(),
            node.0 == old(self)@.len(),
            final(self)@ == old(self)@.push(
                NodeData {
                    style,
                    children: Seq::empty(),
                    parent: None,
                    layout: Layout::spec_zero(),
                    dirty: true,
                },
            ),
    {
        let node = NodeId(self.styles.len());
        self.styles.push(style);
        self.children.push(Vec::new());
        self.parents.push(None);
        self.layouts.push(Layout::zero());
        self.dirty.push(true);
        assert(self@ =~= old(self)@.push(
            NodeData {
                style,
                children: Seq::empty(),
                parent: None,
                layout: Layout::spec_zero(),
                dirty: true,
            },
        ));
        node
    }

    /// Adds a node above `children`, which become its children in the order
    /// given.
    pub fn new_with_children(&mut self, style: Style, children: &Vec<NodeId>) -> (node: NodeId)
        requires
            old(self).wf(),
            forall|i: int| 0 <= i < children.len() ==> old(self).has(#[trigger] children[i]),
        ensures
            final(self).wf(),
            node.0 == old(self)@.len(),
            final(self)@ == adopted(old(self)@, children@, node).push(
                NodeData {
                    style,
                    children: children@,
                    parent: None,
                    layout: Layout::spec_zero(),
                    dirty: true,
                },
            ),
    {
        let node = NodeId(self.styles.len());
        let mut i: usize = 0;
        while i < children.len()
            invariant
                i <= children.len(),
                node.0 == old(self)@.len(),
                forall|j: int| 0 <= j < children.len() ==> old(self).has(#[trigger] children[j]),
                self.styles == old(self).styles,
                self.children == old(self).children,
                self.layouts == old(self).layouts,
                self.dirty == old(self).dirty,
                self.parents@.len() == old(self).parents@.len(),
                old(self).wf(),
                forall|k: int|
                    0 <= k < self.parents@.len() ==> #[trigger] self.parents@[k] == if exists|
                        j: int,
                    |
                        0 <= j < i && #[trigger] children[j].0 == k {
                        Some(node)
                    } else {
                        old(self).parents@[k]
                    },
            decreases children.len() - i,
        {
            let child = children[i];
            self.parents.set(child.0, Some(node));
            i = i + 1;
        }
        let mut own: Vec<NodeId> = Vec::with_capacity(children.len());
        let mut c: usize = 0;
        while c < children.len()
            invariant
                c <= children.len(),
                own@ == children@.subrange(0, c as int),
            decreases children.len() - c,
        {
            own.push(children[c]);
            assert(own@ =~= children@.subrange(0, c + 1));
            c = c + 1;
        }
        assert(own@ =~= children@);
        self.styles.push(style);
        self.children.push(own);
        self.parents.push(None);
        self.layouts.push(Layout::zero());
        self.dirty.push(true);
        assert(self@ =~= adopted(old(self)@, children@, node).push(
            NodeData {
                style,
                children: children@,
                parent: None,
                layout: Layout::spec_zero(),
                dirty: true,
            },
        ));
        node
    }

    /// Sets the style of `node` and marks it, and every node above it, as
    /// dirty.
    pub fn set_style(&mut self, node: NodeId, style: Style)
        requires
            old(self).wf(),
            old(self).has(node),
        ensures
            final(self).wf(),
            final(self)@ == restyled(old(self)@, node.0 as int, style),
    {
        self.styles.set(node.0, style);
        let ghost nodes = old(self)@;
        let mut at: usize = node.0;
        proof {
            assert forall|k: int| 0 <= k < nodes.len() implies !(on_path(nodes, node.0 as int, k)
                && k < at) by {
                if on_path(nodes, node.0 as int, k) {
                    lemma_on_path_bounds(nodes, node.0 as int, k);
                }
            }
        }
        loop
            invariant_except_break
                on_path(nodes, node.0 as int, at as int),
                forall|k: int|
                    0 <= k < nodes.len() ==> #[trigger] self.dirty@[k] == (nodes[k].dirty || (
                    on_path(nodes, node.0 as int, k) && k < at)),
            invariant
                at < nodes.len(),
                nodes == old(self)@,
                old(self).wf(),
                self.styles@ == old(self).styles@.update(node.0 as int, style),
                self.children == old(self).children,
                self.parents == old(self).parents,
                self.layouts == old(self).layouts,
                self.dirty@.len() == nodes.len(),
            ensures
                forall|k: int|
                    0 <= k < nodes.len() ==> #[trigger] self.dirty@[k] == (nodes[k].dirty
                        || on_path(nodes, node.0 as int, k)),
            decreases nodes.len() - at,
        {
            let ghost before = self.dirty@;
            self.dirty.set(at, true);
            let above = self.parents[at];
            assert(nodes[at as int].parent == above);
            match above {
                Some(p) => {
                    proof {
                        assert(at < p.0 < nodes.len());
                        assert(on_path(nodes, p.0 as int, p.0 as int));
                        assert(on_path(nodes, at as int, p.0 as int));
                        lemma_on_path_split(nodes, node.0 as int, at as int, p.0 as int);
                        assert forall|k: int| 0 <= k < nodes.len() implies #[trigger] self.dirty@[k]
                            == (nodes[k].dirty || (on_path(nodes, node.0 as int, k) && k
                            < p.0)) by {
                            assert(before[k] == (nodes[k].dirty || (on_path(
                                nodes,
                                node.0 as int,
                                k,
                            ) && k < at)));
                            lemma_on_path_split(nodes, node.0 as int, at as int, k);
                            if on_path(nodes, p.0 as int, k) {
                                lemma_on_path_bounds(nodes, p.0 as int, k);
                            }
                        }
                    }
                    at = p.0;
                },
                None => {
                    proof {
                        assert forall|k: int| 0 <= k < nodes.len() implies #[trigger] self.dirty@[k]
                            == (nodes[k].dirty || on_path(nodes, node.0 as int, k)) by {
                            assert(before[k] == (nodes[k].dirty || (on_path(
                                nodes,
                                node.0 as int,
                                k,
                            ) && k < at)));
                            lemma_on_path_split(nodes, node.0 as int, at as int, k);
                        }
                    }
                    break ;
                },
            }
        }
        proof {
            let after = restyled(old(self)@, node.0 as int, style);
            assert(self@ =~= after);
            assert(ordered(after)) by {
                assert forall|k: int, i: int|
                    0 <= k < after.len() && 0 <= i < after[k].children.len() implies (
                #[trigger] after[k].children[i]).0 < k by {
                    assert(nodes[k].children[i].0 < k);
                }
                assert forall|k: int| 0 <= k < after.len() implies (
                #[trigger] after[k].parent matches Some(p) ==> k < p.0 < after.len()) by {
                    assert(nodes[k].parent matches Some(p) ==> k < p.0 < nodes.len());
                }
            }
        }
    }

    /// Stores the geometry that a solver has resolved for `node`; the node is
    /// no longer dirty.
    pub fn set_layout(&mut self, node: NodeId, layout: Layout)
        requires
            old(self).wf(),
            old(self).has(node),
        ensures
            final(self).wf(),
            final(self)@ == old(self)@.update(
                node.0 as int,
                NodeData { layout, dirty: false, ..old(self)@[node.0 as int] },
            ),
    {
        self.layouts.set(node.0, layout);
        self.dirty.set(node.0, false);
        assert(self@ =~= old(self)@.update(
            node.0 as int,
            NodeData { layout, dirty: false, ..old(self)@[node.0 as int] },
        ));
    }

    /// The style of `node`.
    pub fn style(&self, node: NodeId) -> (style: Style)
        requires
            self.wf(),
            self.has(node),
        ensures
            style == self@[node.0 as int].style,
    {
        self.styles[node.0]
    }

    /// The resolved geometry of `node`.
    pub fn layout(&self, node: NodeId) -> (layout: Layout)
        requires
            self.wf(),
            self.has(node),
        ensures
            layout == self@[node.0 as int].layout,
    {
        self.layouts[node.0]
    }

    /// Whether the layout of `node` is older than the styles at and below it.
    pub fn dirty(&self, node: NodeId) -> (dirty: bool)
        requires
            self.wf(),
            self.has(node),
        ensures
            dirty == self@[node.0 as int].dirty,
    {
        self.dirty[node.0]
    }

    /// The parent of `node`, if it has been given one.
    pub fn parent(&self, node: NodeId) -> (parent: Option<NodeId>)
        requires
            self.wf(),
            self.has(node),
        ensures
            parent == self@[node.0 as int].parent,
    {
        self.parents[node.0]
    }

    /// The number of children of `node`.
    pub fn child_count(&self, node: NodeId) -> (count: usize)
        requires
            self.wf(),
            self.has(node),
        ensures
            count == self@[node.0 as int].children.len(),
    {
        self.children[node.0].len()
    }

    /// The child of `node` at `index`.
    pub fn child(&self, node: NodeId, index: usize) -> (child: NodeId)
        requires
            self.wf(),
            self.has(node),
            index < self@[node.0 as int].children.len(),
        ensures
            child == self@[node.0 as int].children[index as int],
    {
        self.children[node.0][index]
    }
}

} // verus!
