use vstd::prelude::*;

verus! {

/// The kind of glTF object an index refers to.
#[derive(Debug, Clone, Copy, PartialEq, Eq, Structural)]
pub enum GltfEntity {
    Node,
    Scene,
    Skin,
}

impl GltfEntity {
    /// The name shown for the kind.
    pub fn name(&self) -> (r: &'static str)
        ensures
            r@ == match *self {
                GltfEntity::Node => "node"@,
                GltfEntity::Scene => "scene"@,
                GltfEntity::Skin => "skin"@,
            },
    {
        match self {
            GltfEntity::Node => "node",
            GltfEntity::Scene => "scene",
            GltfEntity::Skin => "skin",
        }
    }
}

/// What an accessor is used for.
#[derive(Debug, Clone, Copy, PartialEq, Eq, Structural)]
pub enum AccessorUsage {
    Indices,
}

impl AccessorUsage {
    /// The name shown for the usage.
    pub fn name(&self) -> (r: &'static str)
        ensures
            r@ == match *self {
                AccessorUsage::Indices => "Primitive indices"@,
            },
    {
        match self {
            AccessorUsage::Indices => "Primitive indices",
        }
    }
}

/// An index names no object of its kind, or one not loaded yet.
#[derive(Debug, Clone, Copy, PartialEq, Eq, Structural)]
pub struct InvalidIndexError {
    pub entity: GltfEntity,
    pub index: usize,
}

/// Checks that `index` names one of `len` objects of kind `entity`.
pub fn check_index(entity: GltfEntity, index: usize, len: usize) -> (r: Result<usize, InvalidIndexError>)
    ensures
        index < len ==> r == Ok::<usize, InvalidIndexError>(index),
        index >= len ==> r == Err::<usize, InvalidIndexError>(InvalidIndexError { entity, index }),
{
    if index < len {
        Ok(index)
    } else {
        Err(InvalidIndexError { entity, index })
    }
}

/// The handles of the joints of a skin: for each joint, the handle of the node it
/// names, which must exist and be loaded; or the first joint for which that fails.
pub open spec fn spec_resolve_joints<H>(joints: Seq<usize>, nodes: Seq<Option<H>>) -> Result<
    Seq<H>,
    InvalidIndexError,
>
    decreases joints.len(),
{
    if joints.len() == 0 {
        Ok(Seq::empty())
    } else {
        match spec_resolve_joints(joints.drop_last(), nodes) {
            Err(e) => Err(e),
            Ok(ids) => {
                let index = joints.last();
                if index < nodes.len() && nodes[index as int] is Some {
                    Ok(ids.push(nodes[index as int].unwrap()))
                } else {
                    Err(InvalidIndexError { entity: GltfEntity::Node, index })
                }
            },
        }
    }
}

/// Resolves the joints of a skin to the handles of the loaded nodes they name.
pub fn resolve_joints<H: Copy>(joints: &[usize], nodes: &[Option<H>]) -> (r: Result<
    Vec<H>,
    InvalidIndexError,
>)
    ensures
        match spec_resolve_joints(joints@, nodes@) {
            Ok(ids) => r matches Ok(v) && v@ == ids,
            Err(e) => r == Err::<Vec<H>, InvalidIndexError>(e),
        },
{
    let mut out: Vec<H> = Vec::with_capacity(joints.len());
    let mut i: usize = 0;
    while i < joints.len()
        invariant
            i <= joints@.len(),
            spec_resolve_joints(joints@.subrange(0, i as int), nodes@) matches Ok(ids) && out@ == ids,
        decreases joints@.len() - i,
    {
        let index = joints[i];
        proof {
            assert(joints@.subrange(0, i + 1).drop_last() == joints@.subrange(0, i as int));
        }
        if index < nodes.len() {
            match nodes[index] {
                Some(id) => {
                    out.push(id);
                },
                None => {
                    proof {
                        lemma_resolve_fails_after(joints@, nodes@, i as int);
                    }
                    return Err(InvalidIndexError { entity: GltfEntity::Node, index });
                },
            }
        } else {
            proof {
                lemma_resolve_fails_after(joints@, nodes@, i as int);
            }
            return Err(InvalidIndexError { entity: GltfEntity::Node, index });
        }
        i = i + 1;
    }
    proof {
        assert(joints@.subrange(0, joints@.len() as int) == joints@);
    }
    Ok(out)
}

/// Proves that once a prefix of the joints fails to resolve, every longer prefix
/// fails with the same error.
proof fn lemma_resolve_err_persists<H>(joints: Seq<usize>, nodes: Seq<Option<H>>, i: int, n: int)
    requires
        0 <= i <= n <= joints.len(),
        spec_resolve_joints(joints.subrange(0, i), nodes) is Err,
    ensures
        spec_resolve_joints(joints.subrange(0, n), nodes) == spec_resolve_joints(
            joints.subrange(0, i),
            nodes,
        ),
    decreases n - i,
{
    if n > i {
        lemma_resolve_err_persists(joints, nodes, i, n - 1);
        assert(joints.subrange(0, n).drop_last() == joints.subrange(0, n - 1));
    }
}

/// Proves that a joint that names no loaded node makes the whole resolution fail
/// with that joint's error, when the joints before it resolve.
proof fn lemma_resolve_fails_after<H>(joints: Seq<usize>, nodes: Seq<Option<H>>, i: int)
    requires
        0 <= i < joints.len(),
        spec_resolve_joints(joints.subrange(0, i), nodes) is Ok,
        !(joints[i] < nodes.len() && nodes[joints[i] as int] is Some),
    ensures
        spec_resolve_joints(joints, nodes) == Err::<Seq<H>, InvalidIndexError>(
            InvalidIndexError { entity: GltfEntity::Node, index: joints[i] },
        ),
{
    assert(joints.subrange(0, i + 1).drop_last() == joints.subrange(0, i));
    lemma_resolve_err_persists(joints, nodes, i + 1, joints.len() as int);
    assert(joints.subrange(0, joints.len() as int) == joints);
}

/// Why the nodes of a scene cannot all be visited.
#[derive(Debug, Clone, Copy, PartialEq, Eq, Structural)]
pub enum NodeOrderError {
    /// A node index names no node.
    InvalidIndex(InvalidIndexError),
    /// The nodes nest deeper than the depth allowed.
    TooDeep,
}

/// The children lists as sequences.
pub open spec fn children_view(children: Seq<Vec<usize>>) -> Seq<Seq<usize>> {
    children.map_values(|c: Vec<usize>| c@)
}

/// The nodes visited when loading node `index` under `parent`, each with the
/// node it was loaded under: the node, then the nodes under each of its children
/// in turn, at most `depth` levels deep; with the error that stopped the visit,
/// if one did.
pub open spec fn load_subtree(
    children: Seq<Seq<usize>>,
    index: usize,
    parent: Option<usize>,
    depth: nat,
) -> (Seq<(usize, Option<usize>)>, Option<NodeOrderError>)
    decreases depth, 0nat, 0nat,
{
    if depth == 0 {
        (Seq::empty(), Some(NodeOrderError::TooDeep))
    } else if index >= children.len() {
        (
            Seq::empty(),
            Some(NodeOrderError::InvalidIndex(InvalidIndexError { entity: GltfEntity::Node, index })),
        )
    } else {
        let (s, e) = load_children(children, children[index as int], Some(index), (depth - 1) as nat);
        (seq![(index, parent)] + s, e)
    }
}

/// The nodes visited when loading each of `nodes` in turn under `parent`, at
/// most `depth` levels deep, with the error that stopped the visit, if one did.
pub open spec fn load_children(
    children: Seq<Seq<usize>>,
    nodes: Seq<usize>,
    parent: Option<usize>,
    depth: nat,
) -> (Seq<(usize, Option<usize>)>, Option<NodeOrderError>)
    decreases depth, 1nat, nodes.len(),
{
    if nodes.len() == 0 {
        (Seq::empty(), None)
    } else {
        let (a, e) = load_children(children, nodes.drop_last(), parent, depth);
        if e is Some {
            (a, e)
        } else {
            let (b, e2) = load_subtree(children, nodes.last(), parent, depth);
            (a + b, e2)
        }
    }
}

/// Proves that once loading a prefix of the nodes stops at an error, loading
/// all of them visits the same nodes and stops at the same error.
proof fn lemma_load_stops(
    children: Seq<Seq<usize>>,
    nodes: Seq<usize>,
    parent: Option<usize>,
    depth: nat,
    i: int,
)
    requires
        0 <= i <= nodes.len(),
        load_children(children, nodes.subrange(0, i), parent, depth).1 is Some,
    ensures
        load_children(children, nodes, parent, depth) == load_children(
            children,
            nodes.subrange(0, i),
            parent,
            depth,
        ),
    decreases nodes.len() - i,
{
    if i < nodes.len() {
        assert(nodes.subrange(0, i + 1).drop_last() == nodes.subrange(0, i));
        lemma_load_stops(children, nodes, parent, depth, i + 1);
    } else {
        assert(nodes.subrange(0, i) == nodes);
    }
}

/// Appends the nodes visited when loading node `index` under `parent`.
fn load_into(
    children: &[Vec<usize>],
    index: usize,
    parent: Option<usize>,
    depth: usize,
    out: &mut Vec<(usize, Option<usize>)>,
) -> (r: Option<NodeOrderError>)
    ensures
        ({
            let (s, e) = load_subtree(children_view(children@), index, parent, depth as nat);
            final(out)@ == old(out)@ + s && r == e
        }),
    decreases depth,
{
    let ghost cv = children_view(children@);
    if depth == 0 {
        proof {
            assert(old(out)@ + Seq::<(usize, Option<usize>)>::empty() == old(out)@);
        }
        return Some(NodeOrderError::TooDeep);
    }
    if index >= children.len() {
        proof {
            assert(old(out)@ + Seq::<(usize, Option<usize>)>::empty() == old(out)@);
        }
        return Some(NodeOrderError::InvalidIndex(InvalidIndexError { entity: GltfEntity::Node, index }));
    }
    let ghost base = old(out)@;
    out.push((index, parent));
    let cs = children[index].as_slice();
    let ghost csv = cs@;
    assert(csv == cv[index as int]);
    let mut i: usize = 0;
    while i < cs.len()
        invariant
            cv == children_view(children@),
            base == old(out)@,
            csv == cs@,
            csv == cv[index as int],
            index < children@.len(),
            depth > 0,
            i <= csv.len(),
            load_children(cv, csv.subrange(0, i as int), Some(index), (depth - 1) as nat).1 is None,
            out@ == base.push((index, parent)) + load_children(
                cv,
                csv.subrange(0, i as int),
                Some(index),
                (depth - 1) as nat,
            ).0,
        decreases csv.len() - i,
    {
        let ghost prefix = csv.subrange(0, i as int);
        let ghost next = csv.subrange(0, i + 1);
        assert(next.drop_last() == prefix);
        assert(next.last() == csv[i as int]);
        let ghost a = load_children(cv, prefix, Some(index), (depth - 1) as nat).0;
        let e = load_into(children, cs[i], Some(index), depth - 1, out);
        proof {
            let b = load_subtree(cv, csv[i as int], Some(index), (depth - 1) as nat).0;
            assert(out@ == base.push((index, parent)) + (a + b));
        }
        if e.is_some() {
            proof {
                let b = load_subtree(cv, csv[i as int], Some(index), (depth - 1) as nat).0;
                assert(load_children(cv, next, Some(index), (depth - 1) as nat) == (a + b, e));
                lemma_load_stops(cv, csv, Some(index), (depth - 1) as nat, i + 1);
                assert(load_subtree(cv, index, parent, depth as nat) == (
                    seq![(index, parent)] + load_children(cv, csv, Some(index), (depth - 1) as nat).0,
                    load_children(cv, csv, Some(index), (depth - 1) as nat).1,
                ));
                assert(base.push((index, parent)) + load_children(cv, csv, Some(index), (depth - 1) as nat).0
                    == base + load_subtree(cv, index, parent, depth as nat).0);
            }
            return e;
        }
        i = i + 1;
    }
    proof {
        assert(csv.subrange(0, csv.len() as int) == csv);
        assert(base.push((index, parent)) + load_children(cv, csv, Some(index), (depth - 1) as nat).0
            == base + load_subtree(cv, index, parent, depth as nat).0);
    }
    None
}

/// The order in which the nodes of a scene are loaded from the scene's root
/// indices: each root, then the nodes under each of its children in turn, each
/// with the index of the node it is loaded under; at most `depth` levels deep.
/// Loading stops at the first index that names no node; the nodes visited
/// before are returned with that error.
pub fn node_load_order(children: &[Vec<usize>], roots: &[usize], depth: usize) -> (r: (
    Vec<(usize, Option<usize>)>,
    Option<NodeOrderError>,
))
    ensures
        r.0@ == load_children(children_view(children@), roots@, None, depth as nat).0,
        r.1 == load_children(children_view(children@), roots@, None, depth as nat).1,
{
    let ghost cv = children_view(children@);
    let mut out: Vec<(usize, Option<usize>)> = Vec::new();
    let mut i: usize = 0;
    while i < roots.len()
        invariant
            cv == children_view(children@),
            i <= roots@.len(),
            load_children(cv, roots@.subrange(0, i as int), None, depth as nat).1 is None,
            out@ == load_children(cv, roots@.subrange(0, i as int), None, depth as nat).0,
        decreases roots@.len() - i,
    {
        let ghost prefix = roots@.subrange(0, i as int);
        let ghost next = roots@.subrange(0, i + 1);
        assert(next.drop_last() == prefix);
        assert(next.last() == roots@[i as int]);
        let e = load_into(children, roots[i], None, depth, &mut out);
        if e.is_some() {
            proof {
                lemma_load_stops(cv, roots@, None, depth as nat, i + 1);
            }
            return (out, e);
        }
        i = i + 1;
    }
    proof {
        assert(roots@.subrange(0, roots@.len() as int) == roots@);
    }
    (out, None)
}

} // verus!
