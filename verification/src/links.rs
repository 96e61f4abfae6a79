//! Edge endpoints as node indices: the discrete part of the graph model.
//!
//! An edge joins two nodes, referenced by their positions in the node
//! sequence, and carries a floating-point weight.  The weight stays with
//! the host's edge record; what the discrete logic reads — which nodes an
//! edge touches, whether its indices are in range, which edges are incident
//! on a node — works on the [`Link`] at the same position in the edge
//! sequence.

use vstd::prelude::*;

verus! {

/// The endpoints of one edge, as indices into the node sequence.
#[derive(Debug, Clone, Copy, PartialEq, Eq, Structural)]
pub struct Link {
    pub node1_idx: usize,
    pub node2_idx: usize,
}

impl Link {
    /// Whether the link touches the node at `node_idx`.
    pub open spec fn spec_has_node(self, node_idx: int) -> bool {
        self.node1_idx == node_idx || self.node2_idx == node_idx
    }

    /// Whether both endpoints are valid indices into a node sequence of
    /// length `n`.
    pub open spec fn spec_valid(self, n: int) -> bool {
        self.node1_idx < n && self.node2_idx < n
    }

    pub fn new(node1_idx: usize, node2_idx: usize) -> (r: Link)
        ensures
            r.node1_idx == node1_idx,
            r.node2_idx == node2_idx,
    {
        Link { node1_idx, node2_idx }
    }

    pub fn has_node(&self, node_idx: usize) -> (r: bool)
        ensures
            r == self.spec_has_node(node_idx as int),
    {
        self.node1_idx == node_idx || self.node2_idx == node_idx
    }
}

/// Whether every link references only existing nodes: the index half of
/// graph validation.  A graph with any out-of-range endpoint is rejected
/// whole; the host checks the positive-weight half on its own records.
pub fn links_valid(links: &Vec<Link>, n_nodes: usize) -> (r: bool)
    ensures
        r == forall|k: int| 0 <= k < links@.len() ==> (#[trigger] links@[k]).spec_valid(
            n_nodes as int,
        ),
{
    let mut k: usize = 0;
    while k < links.len()
        invariant
            k <= links@.len(),
            forall|q: int| 0 <= q < k ==> (#[trigger] links@[q]).spec_valid(n_nodes as int),
        decreases links@.len() - k,
    {
        if links[k].node1_idx >= n_nodes || links[k].node2_idx >= n_nodes {
            return false;
        }
        k = k + 1;
    }
    true
}

/// Positions of the links incident on one node, in order.  The derived mass
/// of a node is the sum of the weights of exactly these edges.
pub fn links_of_node(links: &Vec<Link>, node_idx: usize) -> (r: Vec<usize>)
    ensures
        forall|p1: int, p2: int| 0 <= p1 < p2 < r@.len() ==> r@[p1] < r@[p2],
        forall|k: usize| #[trigger]
            r@.contains(k) <==> (k < links@.len() && links@[k as int].spec_has_node(
                node_idx as int,
            )),
{
    let mut r: Vec<usize> = Vec::new();
    let mut k: usize = 0;
    while k < links.len()
        invariant
            k <= links@.len(),
            forall|p: int| 0 <= p < r@.len() ==> (#[trigger] r@[p]) < k,
            forall|p1: int, p2: int| 0 <= p1 < p2 < r@.len() ==> r@[p1] < r@[p2],
            forall|q: usize| #[trigger]
                r@.contains(q) <==> (q < k && links@[q as int].spec_has_node(node_idx as int)),
        decreases links@.len() - k,
    {
        let ghost prev = r@;
        if links[k].has_node(node_idx) {
            r.push(k);
        }
        proof {
            assert forall|q: usize|
                r@.contains(q) <==> (q < k + 1 && links@[q as int].spec_has_node(
                    node_idx as int,
                )) by {
                if r@.contains(q) {
                    let p = choose|p: int| 0 <= p < r@.len() && r@[p] == q;
                    if p < prev.len() {
                        assert(prev[p] == q);
                        assert(prev.contains(q));
                    } else {
                        assert(q == k);
                    }
                }
                if q < k + 1 && links@[q as int].spec_has_node(node_idx as int) {
                    if q < k {
                        assert(prev.contains(q));
                        let p = choose|p: int| 0 <= p < prev.len() && prev[p] == q;
                        assert(r@[p] == q);
                    } else {
                        assert(r@[r@.len() - 1] == k);
                    }
                }
            }
        }
        k = k + 1;
    }
    r
}

/// Position of the first link joining the two nodes, if any.
pub fn link_connecting(links: &Vec<Link>, node1_idx: usize, node2_idx: usize) -> (r: Option<
    usize,
>)
    ensures
        match r {
            Some(k) => {
                &&& k < links@.len()
                &&& links@[k as int].spec_has_node(node1_idx as int)
                &&& links@[k as int].spec_has_node(node2_idx as int)
                &&& forall|q: int|
                    0 <= q < k ==> !((#[trigger] links@[q]).spec_has_node(node1_idx as int)
                        && links@[q].spec_has_node(node2_idx as int))
            },
            None => forall|q: int|
                0 <= q < links@.len() ==> !((#[trigger] links@[q]).spec_has_node(
                    node1_idx as int,
                ) && links@[q].spec_has_node(node2_idx as int)),
        },
{
    let mut k: usize = 0;
    while k < links.len()
        invariant
            k <= links@.len(),
            forall|q: int|
                0 <= q < k ==> !((#[trigger] links@[q]).spec_has_node(node1_idx as int)
                    && links@[q].spec_has_node(node2_idx as int)),
        decreases links@.len() - k,
    {
        if links[k].has_node(node1_idx) && links[k].has_node(node2_idx) {
            return Some(k);
        }
        k = k + 1;
    }
    None
}

} // verus!
