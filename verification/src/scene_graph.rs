use std::collections::hash_map::Entry;
use std::collections::HashMap;
use vstd::prelude::*;

verus! {

broadcast use vstd::std_specs::hash::group_hash_axioms;

/// The id of a scene graph node: a universally unique identifier, which never
/// changes.
#[derive(Debug, Clone, Copy, PartialEq, Eq, Hash, Structural)]
pub struct NodeId {
    pub uuid: u128,
}

/// Why a node cannot be added to a scene graph.
#[derive(Debug, Clone, Copy, PartialEq, Eq, Structural)]
pub enum NodeBuilderError {
    /// The graph already holds a node with this UUID.
    UuidNotUnique(u128),
    /// The parent is not a node of the graph.
    ParentNodeNotFound(NodeId),
}

/// A node is not in the scene graph.
#[derive(Debug, Clone, Copy, PartialEq, Eq, Structural)]
pub struct NodeNotFoundError(pub NodeId);

/// A node of a scene graph: its name, its place in the hierarchy, and the
/// transformation data `T` that its parent's transformation affects.
pub struct Node<T> {
    /// Name of the node. Does not need to be unique.
    pub name: String,
    parent: Option<NodeId>,
    children: Vec<NodeId>,
    /// The node's transformations.
    pub transform: T,
}

/// A node as mathematical values.
pub struct NodeView<T> {
    pub name: Seq<char>,
    pub parent: Option<NodeId>,
    pub children: Seq<NodeId>,
    pub transform: T,
}

impl<T> View for Node<T> {
    type V = NodeView<T>;

    closed spec fn view(&self) -> NodeView<T> {
        NodeView {
            name: self.name@,
            parent: self.parent,
            children: self.children@,
            transform: self.transform,
        }
    }
}

impl<T> Node<T> {
    /// The parent's id, or `None` for a root node.
    pub fn parent(&self) -> (r: Option<NodeId>)
        ensures
            r == self@.parent,
    {
        self.parent
    }

    /// The ids of the node's children, in the order they were added.
    pub fn children(&self) -> (r: &[NodeId])
        ensures
            r@ == self@.children,
    {
        self.children.as_slice()
    }
}

/// A tree of nodes: each node has at most one parent, nodes without a parent are
/// the roots, and transformations applied to a parent affect its children.
pub struct SceneGraph<T> {
    nodes: HashMap<u128, Node<T>>,
    root_nodes: Vec<NodeId>,
}

/// The nodes of `m` as views.
pub open spec fn node_views<T>(m: Map<u128, Node<T>>) -> Map<u128, NodeView<T>> {
    m.map_values(|n: Node<T>| n@)
}

/// Every link of `n` names a node of `m`.
pub open spec fn links_resolve<T>(m: Map<u128, NodeView<T>>, n: NodeView<T>) -> bool {
    &&& n.parent matches Some(p) ==> m.contains_key(p.uuid)
    &&& forall|j: int| 0 <= j < n.children.len() ==> m.contains_key(#[trigger] n.children[j].uuid)
}

/// `n` with `child` appended to its children.
pub open spec fn with_child<T>(n: NodeView<T>, child: NodeId) -> NodeView<T> {
    NodeView { children: n.children.push(child), ..n }
}

/// Every parent, child and root named is one of the nodes of `m`.
pub open spec fn graph_wf<T>(m: Map<u128, NodeView<T>>, roots: Seq<NodeId>) -> bool {
    &&& forall|k: u128| #[trigger] m.contains_key(k) ==> links_resolve(m, m[k])
    &&& forall|i: int| 0 <= i < roots.len() ==> m.contains_key(#[trigger] roots[i].uuid)
}

/// The nodes after `id` is linked to `parent`, if it has one.
pub open spec fn linked<T>(m: Map<u128, NodeView<T>>, parent: Option<NodeId>, id: NodeId) -> Map<
    u128,
    NodeView<T>,
> {
    match parent {
        Some(p) => m.insert(p.uuid, with_child(m[p.uuid], id)),
        None => m,
    }
}

/// Proves that linking a node to an existing parent and adding it, when its id is
/// new, keeps every link resolving.
proof fn lemma_add_keeps_wf<T>(
    m: Map<u128, NodeView<T>>,
    roots: Seq<NodeId>,
    parent: Option<NodeId>,
    id: NodeId,
    node: NodeView<T>,
)
    requires
        graph_wf(m, roots),
        node.parent == parent,
        node.children.len() == 0,
        parent matches Some(p) ==> m.contains_key(p.uuid),
    ensures
        ({
            let l = linked(m, parent, id);
            let f = if m.contains_key(id.uuid) {
                l
            } else {
                l.insert(id.uuid, node)
            };
            let r = if parent is None {
                roots.push(id)
            } else {
                roots
            };
            graph_wf(f, r)
        }),
{
    let l = linked(m, parent, id);
    let f = if m.contains_key(id.uuid) {
        l
    } else {
        l.insert(id.uuid, node)
    };
    let r = if parent is None {
        roots.push(id)
    } else {
        roots
    };
    assert(f.contains_key(id.uuid));
    assert forall|k: u128| m.contains_key(k) implies f.contains_key(k) by {}
    assert forall|k: u128| #[trigger] f.contains_key(k) implies links_resolve(f, f[k]) by {
        if k == id.uuid && !m.contains_key(k) {
            assert(f[k] == node);
        } else if parent matches Some(p) && k == p.uuid {
            let n = m[k];
            assert(links_resolve(m, n));
            assert(f[k] == with_child(n, id));
            assert forall|j: int| 0 <= j < f[k].children.len() implies f.contains_key(
                #[trigger] f[k].children[j].uuid,
            ) by {
                if j < n.children.len() {
                    assert(f[k].children[j] == n.children[j]);
                    assert(m.contains_key(n.children[j].uuid));
                }
            }
        } else {
            assert(f[k] == m[k]);
            assert(links_resolve(m, m[k]));
            let n = m[k];
            assert forall|j: int| 0 <= j < n.children.len() implies f.contains_key(
                #[trigger] n.children[j].uuid,
            ) by {
                assert(m.contains_key(n.children[j].uuid));
            }
        }
    }
    assert forall|i: int| 0 <= i < r.len() implies f.contains_key(#[trigger] r[i].uuid) by {
        if i < roots.len() {
            assert(r[i] == roots[i]);
            assert(m.contains_key(roots[i].uuid));
        }
    }
}

/// Why the nodes under a node cannot be listed.
#[derive(Debug, Clone, Copy, PartialEq, Eq, Structural)]
pub enum TraversalError {
    /// A node on the way is not in the graph.
    NodeNotFound(NodeId),
    /// The nodes nest deeper than the depth allowed.
    TooDeep,
}

/// The nodes under `node` in the order their transformations are updated: the
/// node itself, then the nodes under each child in turn; at most `depth` levels
/// deep. The first node on the way that is not in the graph is the error.
pub open spec fn subtree_order<T>(nodes: Map<u128, NodeView<T>>, node: NodeId, depth: nat) -> Result<
    Seq<NodeId>,
    TraversalError,
>
    decreases depth, 0nat, 0nat,
{
    if depth == 0 {
        Err(TraversalError::TooDeep)
    } else if !nodes.contains_key(node.uuid) {
        Err(TraversalError::NodeNotFound(node))
    } else {
        match children_order(nodes, nodes[node.uuid].children, (depth - 1) as nat) {
            Ok(s) => Ok(seq![node] + s),
            Err(e) => Err(e),
        }
    }
}

/// The nodes under each of `children` in turn, at most `depth` levels deep.
pub open spec fn children_order<T>(
    nodes: Map<u128, NodeView<T>>,
    children: Seq<NodeId>,
    depth: nat,
) -> Result<Seq<NodeId>, TraversalError>
    decreases depth, 1nat, children.len(),
{
    if children.len() == 0 {
        Ok(Seq::empty())
    } else {
        match children_order(nodes, children.drop_last(), depth) {
            Err(e) => Err(e),
            Ok(a) => match subtree_order(nodes, children.last(), depth) {
                Err(e) => Err(e),
                Ok(b) => Ok(a + b),
            },
        }
    }
}

/// Proves that once the nodes under a prefix of the children cannot be listed,
/// the nodes under all of them cannot be, with the same error.
proof fn lemma_children_err_persists<T>(
    nodes: Map<u128, NodeView<T>>,
    cs: Seq<NodeId>,
    depth: nat,
    i: int,
)
    requires
        0 <= i <= cs.len(),
        children_order(nodes, cs.subrange(0, i), depth) is Err,
    ensures
        children_order(nodes, cs, depth) == children_order(nodes, cs.subrange(0, i), depth),
    decreases cs.len() - i,
{
    if i < cs.len() {
        let next = cs.subrange(0, i + 1);
        assert(next.drop_last() == cs.subrange(0, i));
        lemma_children_err_persists(nodes, cs, depth, i + 1);
    } else {
        assert(cs.subrange(0, i) == cs);
    }
}

impl<T> SceneGraph<T> {
    /// The nodes, by UUID.
    pub closed spec fn nodes(&self) -> Map<u128, NodeView<T>> {
        node_views(self.nodes@)
    }

    /// The root nodes, in the order they were added.
    pub closed spec fn roots(&self) -> Seq<NodeId> {
        self.root_nodes@
    }

    /// Every parent, child and root named in the graph is one of its nodes.
    pub open spec fn wf(&self) -> bool {
        graph_wf(self.nodes(), self.roots())
    }

    /// An empty graph.
    pub fn new() -> (r: Self)
        ensures
            r.wf(),
            r.nodes() == Map::<u128, NodeView<T>>::empty(),
            r.roots() == Seq::<NodeId>::empty(),
    {
        let r = SceneGraph { nodes: HashMap::new(), root_nodes: Vec::new() };
        assert(r.nodes() =~= Map::<u128, NodeView<T>>::empty());
        r
    }

    /// Whether the graph holds the node.
    pub fn contains(&self, node: NodeId) -> (r: bool)
        ensures
            r == self.nodes().contains_key(node.uuid),
    {
        self.nodes.contains_key(&node.uuid)
    }

    /// The node with this id, if the graph holds it.
    pub fn get(&self, node: NodeId) -> (r: Option<&Node<T>>)
        ensures
            match r {
                Some(n) => self.nodes().contains_key(node.uuid) && n@ == self.nodes()[node.uuid],
                None => !self.nodes().contains_key(node.uuid),
            },
    {
        self.nodes.get(&node.uuid)
    }

    /// The node with this id, for changing its name and transformation data.
    pub fn get_mut(&mut self, node: NodeId) -> (r: Option<&mut Node<T>>)
        ensures
            final(self).roots() == old(self).roots(),
            match r {
                Some(n) => {
                    &&& old(self).nodes().contains_key(node.uuid)
                    &&& n@ == old(self).nodes()[node.uuid]
                    &&& final(self).nodes() == old(self).nodes().insert(node.uuid, final(n)@)
                    &&& old(self).wf() && final(n)@.parent == n@.parent && final(n)@.children
                        == n@.children ==> final(self).wf()
                },
                None => {
                    &&& !old(self).nodes().contains_key(node.uuid)
                    &&& final(self).nodes() == old(self).nodes()
                    &&& old(self).wf() ==> final(self).wf()
                },
            },
    {
        match self.nodes.entry(node.uuid) {
            Entry::Occupied(e) => Some(e.into_mut()),
            Entry::Vacant(_) => None,
        }
    }

    /// Appends to `out` the nodes under `node` in the order their transformations
    /// are updated, at most `depth` levels deep.
    fn subtree_into(&self, node: NodeId, depth: usize, out: &mut Vec<NodeId>) -> (r: Result<
        (),
        TraversalError,
    >)
        ensures
            match subtree_order(self.nodes(), node, depth as nat) {
                Ok(s) => r is Ok && final(out)@ == old(out)@ + s,
                Err(e) => r == Err::<(), TraversalError>(e),
            },
        decreases depth,
    {
        if depth == 0 {
            return Err(TraversalError::TooDeep);
        }
        let n = match self.nodes.get(&node.uuid) {
            Some(n) => n,
            None => return Err(TraversalError::NodeNotFound(node)),
        };
        let ghost cs = n@.children;
        let ghost base = old(out)@;
        out.push(node);
        let children = n.children.as_slice();
        let mut i: usize = 0;
        while i < children.len()
            invariant
                children@ == cs,
                cs == self.nodes()[node.uuid].children,
                self.nodes().contains_key(node.uuid),
                depth > 0,
                i <= cs.len(),
                children_order(self.nodes(), cs.subrange(0, i as int), (depth - 1) as nat) matches Ok(a)
                    && out@ == base.push(node) + a,
            decreases cs.len() - i,
        {
            let ghost prefix = cs.subrange(0, i as int);
            let ghost next = cs.subrange(0, i + 1);
            assert(next.drop_last() == prefix);
            assert(next.last() == cs[i as int]);
            let ghost before = out@;
            match self.subtree_into(children[i], depth - 1, out) {
                Ok(()) => {
                    proof {
                        let a = children_order(self.nodes(), prefix, (depth - 1) as nat)->Ok_0;
                        let b = subtree_order(self.nodes(), cs[i as int], (depth - 1) as nat)->Ok_0;
                        assert(out@ == base.push(node) + (a + b));
                    }
                },
                Err(e) => {
                    proof {
                        lemma_children_err_persists(
                            self.nodes(),
                            cs,
                            (depth - 1) as nat,
                            i as int + 1,
                        );
                    }
                    return Err(e);
                },
            }
            i = i + 1;
        }
        proof {
            assert(cs.subrange(0, cs.len() as int) == cs);
            assert(base.push(node) + children_order(self.nodes(), cs, (depth - 1) as nat)->Ok_0
                == base + (seq![node] + children_order(self.nodes(), cs, (depth - 1) as nat)->Ok_0));
        }
        Ok(())
    }

    /// The nodes under `node` in the order their transformations are updated: the
    /// node itself, then the nodes under each child in turn, at most `depth`
    /// levels deep.
    pub fn update_order(&self, node: NodeId, depth: usize) -> (r: Result<Vec<NodeId>, TraversalError>)
        ensures
            match subtree_order(self.nodes(), node, depth as nat) {
                Ok(s) => r matches Ok(v) && v@ == s,
                Err(e) => r == Err::<Vec<NodeId>, TraversalError>(e),
            },
    {
        let mut out: Vec<NodeId> = Vec::new();
        match self.subtree_into(node, depth, &mut out) {
            Ok(()) => {
                proof {
                    assert(out@ == subtree_order(self.nodes(), node, depth as nat)->Ok_0);
                }
                Ok(out)
            },
            Err(e) => Err(e),
        }
    }

    /// The number of nodes.
    pub fn len(&self) -> (r: usize)
        ensures
            r == self.nodes().len(),
    {
        proof {
            assert(self.nodes().dom() =~= self.nodes@.dom());
        }
        self.nodes.len()
    }

    /// The ids of the root nodes, in the order they were added.
    pub fn root_nodes(&self) -> (r: &[NodeId])
        ensures
            r@ == self.roots(),
    {
        self.root_nodes.as_slice()
    }

    /// Adds a node with this UUID, name, parent and transformation data. A node
    /// without a parent becomes a root. The parent, which must be in the graph,
    /// gets the node appended to its children (or the roots get it) before the
    /// UUID is checked: a UUID already in the graph leaves its node as it was,
    /// the link having been made.
    pub fn add_node(&mut self, uuid: u128, name: String, parent: Option<NodeId>, transform: T) -> (r:
        Result<NodeId, NodeBuilderError>)
        requires
            old(self).wf(),
        ensures
            final(self).wf(),
            match parent {
                Some(p) => if !old(self).nodes().contains_key(p.uuid) {
                    &&& r == Err::<NodeId, NodeBuilderError>(NodeBuilderError::ParentNodeNotFound(p))
                    &&& final(self).nodes() == old(self).nodes()
                    &&& final(self).roots() == old(self).roots()
                } else {
                    let linked = old(self).nodes().insert(
                        p.uuid,
                        with_child(old(self).nodes()[p.uuid], NodeId { uuid }),
                    );
                    &&& final(self).roots() == old(self).roots()
                    &&& if old(self).nodes().contains_key(uuid) {
                        &&& r == Err::<NodeId, NodeBuilderError>(NodeBuilderError::UuidNotUnique(uuid))
                        &&& final(self).nodes() == linked
                    } else {
                        &&& r == Ok::<NodeId, NodeBuilderError>(NodeId { uuid })
                        &&& final(self).nodes() == linked.insert(
                            uuid,
                            NodeView { name: name@, parent, children: Seq::empty(), transform },
                        )
                    }
                },
                None => {
                    &&& final(self).roots() == old(self).roots().push(NodeId { uuid })
                    &&& if old(self).nodes().contains_key(uuid) {
                        &&& r == Err::<NodeId, NodeBuilderError>(NodeBuilderError::UuidNotUnique(uuid))
                        &&& final(self).nodes() == old(self).nodes()
                    } else {
                        &&& r == Ok::<NodeId, NodeBuilderError>(NodeId { uuid })
                        &&& final(self).nodes() == old(self).nodes().insert(
                            uuid,
                            NodeView { name: name@, parent, children: Seq::empty(), transform },
                        )
                    }
                },
            },
    {
        let id = NodeId { uuid };
        let ghost m0 = self.nodes@;
        let ghost r0 = self.root_nodes@;
        match parent {
            Some(p) => {
                match self.nodes.remove(&p.uuid) {
                    Some(mut parent_node) => {
                        parent_node.children.push(id);
                        self.nodes.insert(p.uuid, parent_node);
                        proof {
                            assert(node_views(self.nodes@) =~= node_views(m0).insert(
                                p.uuid,
                                with_child(node_views(m0)[p.uuid], id),
                            ));
                        }
                    },
                    None => {
                        proof {
                            assert(self.nodes@ =~= m0);
                        }
                        return Err(NodeBuilderError::ParentNodeNotFound(p));
                    },
                }
            },
            None => {
                self.root_nodes.push(id);
            },
        }
        let ghost m1 = self.nodes@;
        let node = Node { name, parent, children: Vec::new(), transform };
        match self.nodes.insert(uuid, node) {
            None => {
                proof {
                    assert(node_views(self.nodes@) =~= node_views(m1).insert(uuid, node@));
                    assert(node@.children =~= Seq::<NodeId>::empty());
                    lemma_add_keeps_wf(node_views(m0), r0, parent, id, node@);
                }
                Ok(id)
            },
            Some(previous) => {
                self.nodes.insert(uuid, previous);
                proof {
                    assert(self.nodes@ =~= m1);
                    lemma_add_keeps_wf(node_views(m0), r0, parent, id, node@);
                }
                Err(NodeBuilderError::UuidNotUnique(uuid))
            },
        }
    }
}

} // verus!
