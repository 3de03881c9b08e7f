//! Animation metadata shared between loaders and the renderer.

use vstd::prelude::*;

verus! {

/// Animation interpolation mode.
#[derive(Debug, Clone, Copy, PartialEq, Eq)]
pub enum Interpolation {
    /// Hold the previous keyframe until the next one.
    Step,
    /// Interpolate linearly between keyframes. Rotations use slerp.
    Linear,
}

/// Node property targeted by an animation channel.
#[derive(Debug, Clone, Copy, PartialEq, Eq)]
pub enum AnimatedProperty {
    /// Node translation.
    Translation,
    /// Node rotation.
    Rotation,
    /// Node scale.
    Scale,
}

/// Inclusive start plus length for vertices or normals owned by a scene node.
#[derive(Debug, Clone, Copy, PartialEq, Eq)]
pub struct MeshRange {
    /// First element in the mesh buffer.
    pub start: usize,
    /// Number of elements in the range.
    pub len: usize,
}

impl MeshRange {
    /// Create a range.
    pub fn new(start: usize, len: usize) -> (r: Self)
        ensures
            r.start == start,
            r.len == len,
    {
        Self { start, len }
    }
}

/// A scene node's place in the hierarchy: its document index and its parent's.
#[derive(Debug, Clone, Copy, PartialEq, Eq, Structural)]
pub struct NodeLink {
    /// Document index of the node.
    pub index: usize,
    /// Document index of its parent, when it has one.
    pub parent: Option<usize>,
}

/// Position `p` holds the first node with document index `idx`.
pub open spec fn is_first_node(nodes: Seq<NodeLink>, idx: usize, p: int) -> bool {
    &&& 0 <= p < nodes.len()
    &&& nodes[p].index == idx
    &&& forall|k: int| 0 <= k < p ==> nodes[k].index != idx
}

/// Position of the first node with document index `idx`.
pub open spec fn find_node(nodes: Seq<NodeLink>, idx: usize) -> Option<nat> {
    if exists|p: int| is_first_node(nodes, idx, p) {
        Some((choose|p: int| is_first_node(nodes, idx, p)) as nat)
    } else {
        None
    }
}

/// Positions of the nodes met walking from node `idx` to its parent, its
/// parent's parent and so on, starting `depth` steps up. The walk ends at the
/// root, at an index that names no node, or after `nodes.len() + 1` nodes.
pub open spec fn ancestors(nodes: Seq<NodeLink>, idx: usize, depth: nat) -> Seq<nat>
    decreases nodes.len() + 1 - depth,
{
    if depth > nodes.len() {
        seq![]
    } else {
        match find_node(nodes, idx) {
            None => seq![],
            Some(p) => seq![p] + match nodes[p as int].parent {
                Some(q) => ancestors(nodes, q, depth + 1),
                None => seq![],
            },
        }
    }
}

/// Position of the first node with document index `idx`.
fn find_node_position(nodes: &Vec<NodeLink>, idx: usize) -> (r: Option<usize>)
    ensures
        r == match find_node(nodes@, idx) {
            Some(p) => Some(p as usize),
            None => None::<usize>,
        },
        r matches Some(p) ==> p < nodes@.len() && nodes@[p as int].index == idx,
{
    let mut k: usize = 0;
    while k < nodes.len()
        invariant
            k <= nodes@.len(),
            forall|j: int| 0 <= j < k ==> nodes@[j].index != idx,
        decreases nodes.len() - k,
    {
        if nodes[k].index == idx {
            proof {
                assert(is_first_node(nodes@, idx, k as int));
                let p = choose|p: int| is_first_node(nodes@, idx, p);
                assert(p == k);
            }
            return Some(k);
        }
        k += 1;
    }
    proof {
        assert(!exists|p: int| is_first_node(nodes@, idx, p));
    }
    None
}

/// The nodes whose local transforms compose, outermost last, into the global
/// transform of node `node_index`: the node, its parent, and so on up to the
/// root. A missing node ends the walk, and so does a hierarchy deeper than
/// the node list, which keeps a cyclic parent chain finite.
pub fn ancestor_chain(node_index: usize, nodes: &Vec<NodeLink>) -> (chain: Vec<usize>)
    ensures
        chain@.len() == ancestors(nodes@, node_index, 0).len(),
        forall|i: int|
            0 <= i < chain@.len() ==> chain@[i] as nat == ancestors(nodes@, node_index, 0)[i],
{
    let ghost target = ancestors(nodes@, node_index, 0);
    let mut chain: Vec<usize> = Vec::new();
    let mut cur: Option<usize> = Some(node_index);
    let mut depth: u128 = 0;
    let n = nodes.len();
    let mut done = false;
    while !done && depth <= n as u128
        invariant
            n == nodes@.len(),
            depth <= n + 1,
            chain@.len() == depth,
            done ==> cur is None,
            target == ancestors(nodes@, node_index, 0),
            forall|i: int| 0 <= i < chain@.len() ==> chain@[i] as nat == target[i],
            target.len() == chain@.len() + match cur {
                Some(i) => ancestors(nodes@, i, depth as nat).len(),
                None => 0,
            },
            cur matches Some(i) ==> forall|j: int|
                0 <= j < ancestors(nodes@, i, depth as nat).len() ==> target[chain@.len() + j]
                    == ancestors(nodes@, i, depth as nat)[j],
        decreases n + 1 - depth, if done { 0int } else { 1int },
    {
        match cur {
            None => {
                done = true;
            },
            Some(idx) => {
                match find_node_position(nodes, idx) {
                    None => {
                        cur = None;
                        done = true;
                    },
                    Some(pos) => {
                        let ghost rest = ancestors(nodes@, idx, depth as nat);
                        chain.push(pos);
                        cur = nodes[pos].parent;
                        proof {
                            assert(rest[0] == pos as nat);
                            match cur {
                                Some(q) => {
                                    let up = ancestors(nodes@, q, (depth + 1) as nat);
                                    assert(rest == seq![pos as nat] + up);
                                    assert forall|j: int| 0 <= j < up.len() implies target[chain@.len()
                                        + j] == up[j] by {
                                        assert(rest[j + 1] == up[j]);
                                    }
                                },
                                None => {
                                    assert(rest =~= seq![pos as nat]);
                                },
                            }
                        }
                        depth += 1;
                    },
                }
            },
        }
    }
    proof {
        if let Some(i) = cur {
            if depth > n {
                assert(ancestors(nodes@, i, depth as nat) =~= Seq::<nat>::empty());
            }
        }
    }
    chain
}

proof fn lemma_ancestors_shape(nodes: Seq<NodeLink>, idx: usize, depth: nat)
    requires
        depth <= nodes.len() + 1,
    ensures
        ancestors(nodes, idx, depth).len() <= nodes.len() + 1 - depth,
        forall|i: int|
            0 <= i < ancestors(nodes, idx, depth).len() ==> #[trigger] ancestors(nodes, idx, depth)[i]
                < nodes.len(),
        ancestors(nodes, idx, depth).len() > 0 ==> nodes[ancestors(nodes, idx, depth)[0] as int].index
            == idx,
        forall|i: int|
            0 <= i < ancestors(nodes, idx, depth).len() - 1 ==> nodes[ancestors(nodes, idx, depth)[i] as int].parent
                == Some(nodes[ancestors(nodes, idx, depth)[i + 1] as int].index),
    decreases nodes.len() + 1 - depth,
{
    if depth <= nodes.len() {
        if let Some(p) = find_node(nodes, idx) {
            let pp = choose|p: int| is_first_node(nodes, idx, p);
            assert(is_first_node(nodes, idx, pp));
            let a = ancestors(nodes, idx, depth);
            if let Some(q) = nodes[p as int].parent {
                lemma_ancestors_shape(nodes, q, depth + 1);
                let up = ancestors(nodes, q, depth + 1);
                assert(a == seq![p] + up);
                assert forall|i: int| 0 <= i < a.len() implies #[trigger] a[i] < nodes.len() by {
                    if i > 0 {
                        assert(a[i] == up[i - 1]);
                    }
                }
                assert forall|i: int| 0 <= i < a.len() - 1 implies nodes[a[i] as int].parent == Some(
                    nodes[a[i + 1] as int].index,
                ) by {
                    if i > 0 {
                        assert(a[i] == up[i - 1]);
                        assert(a[i + 1] == up[i]);
                    } else {
                        assert(a[1] == up[0]);
                    }
                }
            } else {
                assert(a =~= seq![p]);
            }
        }
    }
}

/// Walking up a node hierarchy ends: it visits at most one node more than the
/// list holds, even when parent links form a cycle. It starts at the node
/// itself, and each step goes to the parent of the node before.
pub proof fn law_ancestor_walk_is_bounded(nodes: Seq<NodeLink>, idx: usize)
    ensures
        ancestors(nodes, idx, 0).len() <= nodes.len() + 1,
        forall|i: int|
            0 <= i < ancestors(nodes, idx, 0).len() ==> #[trigger] ancestors(nodes, idx, 0)[i]
                < nodes.len(),
        ancestors(nodes, idx, 0).len() > 0 ==> nodes[ancestors(nodes, idx, 0)[0] as int].index
            == idx,
        forall|i: int|
            0 <= i < ancestors(nodes, idx, 0).len() - 1 ==> nodes[ancestors(nodes, idx, 0)[i] as int].parent
                == Some(nodes[ancestors(nodes, idx, 0)[i + 1] as int].index),
{
    lemma_ancestors_shape(nodes, idx, 0);
}

/// Some node of the list has document index `idx`.
pub open spec fn names_node(nodes: Seq<NodeLink>, idx: usize) -> bool {
    exists|k: int| 0 <= k < nodes.len() && #[trigger] nodes[k].index == idx
}

proof fn lemma_named_node_is_found(nodes: Seq<NodeLink>, idx: usize, k: int)
    requires
        0 <= k < nodes.len(),
        nodes[k].index == idx,
    ensures
        find_node(nodes, idx) is Some,
    decreases k,
{
    if exists|j: int| 0 <= j < k && #[trigger] nodes[j].index == idx {
        let j = choose|j: int| 0 <= j < k && #[trigger] nodes[j].index == idx;
        lemma_named_node_is_found(nodes, idx, j);
    } else {
        assert(is_first_node(nodes, idx, k));
    }
}

proof fn lemma_walk_ends(nodes: Seq<NodeLink>, idx: usize, depth: nat)
    requires
        depth <= nodes.len() + 1,
    ensures
        depth <= nodes.len() && names_node(nodes, idx) ==> ancestors(nodes, idx, depth).len() > 0,
        ancestors(nodes, idx, depth).len() > 0 ==> (nodes[ancestors(nodes, idx, depth).last() as int].parent
            matches Some(q) && names_node(nodes, q) ==> ancestors(nodes, idx, depth).len() == nodes.len() + 1
            - depth),
    decreases nodes.len() + 1 - depth,
{
    lemma_ancestors_shape(nodes, idx, depth);
    if depth <= nodes.len() && names_node(nodes, idx) {
        let k = choose|k: int| 0 <= k < nodes.len() && #[trigger] nodes[k].index == idx;
        lemma_named_node_is_found(nodes, idx, k);
    }
    if depth <= nodes.len() {
        if let Some(p) = find_node(nodes, idx) {
            let a = ancestors(nodes, idx, depth);
            if let Some(q) = nodes[p as int].parent {
                lemma_walk_ends(nodes, q, depth + 1);
                let up = ancestors(nodes, q, depth + 1);
                assert(a == seq![p] + up);
                if up.len() == 0 {
                    assert(a =~= seq![p]);
                    if depth + 1 <= nodes.len() && names_node(nodes, q) {
                        assert(false);
                    }
                } else {
                    assert(a.last() == up.last());
                }
            } else {
                assert(a =~= seq![p]);
            }
        }
    }
}

/// Walking up a node hierarchy stops only at the root, at a parent index that
/// names no node, or after `nodes.len() + 1` nodes: a node that exists starts
/// a non-empty walk, and when the last node of the walk has a parent that
/// exists, the walk was cut at its bound.
pub proof fn law_ancestor_walk_reaches_root(nodes: Seq<NodeLink>, idx: usize)
    ensures
        names_node(nodes, idx) <==> ancestors(nodes, idx, 0).len() > 0,
        ancestors(nodes, idx, 0).len() > 0 ==> (nodes[ancestors(nodes, idx, 0).last() as int].parent
            matches Some(q) && names_node(nodes, q) ==> ancestors(nodes, idx, 0).len() == nodes.len() + 1),
{
    lemma_walk_ends(nodes, idx, 0);
    lemma_ancestors_shape(nodes, idx, 0);
    if ancestors(nodes, idx, 0).len() > 0 {
        let p = ancestors(nodes, idx, 0)[0];
        assert(nodes[p as int].index == idx);
    }
}

} // verus!
