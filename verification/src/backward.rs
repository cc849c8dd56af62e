use vstd::prelude::*;

use crate::graph::{node_ok, Graph, NodeId};
use crate::shape::{numel, shape_numel};

verus! {

/// `order` is strictly decreasing.
pub open spec fn descending(order: Seq<usize>) -> bool {
    forall|a: int, b: int| 0 <= a < b < order.len() ==> order[a] > order[b]
}

/// Every parent of a node in `order` is in `order`.
pub open spec fn parent_closed(g: Graph, order: Seq<usize>) -> bool {
    forall|a: int, k: int|
        0 <= a < order.len() && 0 <= k < g.parents_of(order[a] as int).len() ==> order.contains(
            #[trigger] g.parents_of(order[a] as int)[k],
        )
}

/// Every node of `order` but the first is a parent of a node that comes
/// before it: each was reached from the first.
pub open spec fn each_reached(g: Graph, order: Seq<usize>) -> bool {
    forall|b: int| 0 < b < order.len() ==> #[trigger] reached_before(g, order, b)
}

/// Node `b` of `order` is a parent of a node that comes before it.
pub open spec fn reached_before(g: Graph, order: Seq<usize>, b: int) -> bool {
    exists|a: int| 0 <= a < b && #[trigger] g.parents_of(order[a] as int).contains(order[b])
}

/// The nodes that `root` was computed from, `root` included, in the order a
/// backward pass visits them: decreasing ids, so every node comes after all
/// the nodes computed from it.
pub fn backward_order(g: &Graph, root: NodeId) -> (order: Vec<NodeId>)
    requires
        g.wf(),
        g.has(root as int),
    ensures
        order@.len() >= 1,
        order@[0] == root,
        descending(order@),
        parent_closed(*g, order@),
        each_reached(*g, order@),
{
    let total = g.len();
    let mut marked: Vec<bool> = Vec::new();
    let mut j: usize = 0;
    while j <= root
        invariant
            j <= root + 1,
            root < g.size(),
            g.size() == total,
            marked@.len() == j,
            forall|t: int| 0 <= t < j ==> #[trigger] marked@[t] == (t == root),
        decreases root + 1 - j,
    {
        marked.push(j == root);
        j = j + 1;
    }
    let mut order: Vec<NodeId> = Vec::new();
    let mut k: usize = root + 1;
    while k > 0
        invariant
            0 <= k <= root + 1,
            g.wf(),
            root < g.size(),
            marked@.len() == root + 1,
            marked@[root as int],
            // what has been visited: the marked nodes above `k`, in decreasing order
            descending(order@),
            forall|a: int| 0 <= a < order@.len() ==> k <= #[trigger] order@[a] <= root,
            forall|t: int| k <= t <= root ==> (#[trigger] marked@[t] <==> order@.contains(t as usize)),
            k <= root ==> order@.len() >= 1 && order@[0] == root,
            k == root + 1 ==> order@.len() == 0,
            // parents of visited nodes are marked
            forall|a: int, p: int|
                0 <= a < order@.len() && 0 <= p < g.parents_of(order@[a] as int).len() ==> #[trigger] marked@[g.parents_of(order@[a] as int)[p] as int],
            // every marked node is the root or a parent of a visited node
            forall|t: int|
                0 <= t <= root && #[trigger] marked@[t] && t != root ==> exists|a: int|
                    0 <= a < order@.len() && #[trigger] g.parents_of(order@[a] as int).contains(t as usize),
        decreases k,
    {
        let i = k - 1;
        if marked[i] {
            let ghost before = order@;
            let ghost marked0 = marked@;
            proof {
                assert(node_ok(g.nodes_view(), i as int));
            }
            let parents = &g.node(i).parents;
            let mut p: usize = 0;
            while p < parents.len()
                invariant
                    p <= parents@.len(),
                    parents@ == g.parents_of(i as int),
                    forall|q: int| 0 <= q < parents@.len() ==> #[trigger] parents@[q] < i,
                    i <= root,
                    marked@.len() == root + 1,
                    marked0.len() == root + 1,
                    forall|t: int| 0 <= t <= root && t >= i ==> #[trigger] marked@[t] == marked0[t],
                    forall|t: int| 0 <= t <= root && marked0[t] ==> #[trigger] marked@[t],
                    forall|q: int| 0 <= q < p ==> #[trigger] marked@[parents@[q] as int],
                    forall|t: int|
                        0 <= t <= root && #[trigger] marked@[t] && !marked0[t] ==> parents@.subrange(0, p as int).contains(t as usize),
                decreases parents.len() - p,
            {
                let par = parents[p];
                marked.set(par, true);
                p = p + 1;
                proof {
                    assert forall|t: int|
                        0 <= t <= root && #[trigger] marked@[t] && !marked0[t] implies parents@.subrange(0, p as int).contains(t as usize) by {
                        if t == par {
                            assert(parents@.subrange(0, p as int)[p - 1] == par);
                        } else {
                            assert(parents@.subrange(0, p - 1).contains(t as usize));
                            let w = choose|w: int| 0 <= w < p - 1 && #[trigger] parents@.subrange(0, p - 1)[w] == t;
                            assert(parents@.subrange(0, p as int)[w] == t);
                        }
                    }
                }
            }
            order.push(i);
            proof {
                assert(parents@.subrange(0, parents@.len() as int) =~= parents@);
                let n = order@.len() - 1;
                assert(order@[n] == i);
                assert forall|a: int, b: int| 0 <= a < b < order@.len() implies order@[a] > order@[b] by {
                    if b < n {
                        assert(before[a] > before[b]);
                    } else {
                        assert(k <= before[a]);
                    }
                }
                assert forall|t: int| k - 1 <= t <= root implies (#[trigger] marked@[t] <==> order@.contains(t as usize)) by {
                    if t == i {
                        assert(order@[n] == i);
                    } else {
                        assert(marked@[t] == marked0[t]);
                        if before.contains(t as usize) {
                            let w = choose|w: int| 0 <= w < before.len() && #[trigger] before[w] == t;
                            assert(order@[w] == t);
                        }
                        if order@.contains(t as usize) {
                            let w = choose|w: int| 0 <= w < order@.len() && #[trigger] order@[w] == t;
                            if w < n {
                                assert(before[w] == t);
                            }
                        }
                    }
                }
                assert forall|a: int, p2: int|
                    0 <= a < order@.len() && 0 <= p2 < g.parents_of(order@[a] as int).len() implies #[trigger] marked@[g.parents_of(
                    order@[a] as int,
                )[p2] as int] by {
                    if a < n {
                        assert(order@[a] == before[a]);
                        let pp = g.parents_of(before[a] as int)[p2];
                        assert(node_ok(g.nodes_view(), before[a] as int));
                        assert(marked0[pp as int]);
                    }
                }
                assert forall|t: int|
                    0 <= t <= root && #[trigger] marked@[t] && t != root implies exists|a: int|
                        0 <= a < order@.len() && #[trigger] g.parents_of(order@[a] as int).contains(t as usize) by {
                    if marked0[t] {
                        let a = choose|a: int| 0 <= a < before.len() && #[trigger] g.parents_of(before[a] as int).contains(t as usize);
                        assert(order@[a] == before[a]);
                    } else {
                        assert(parents@.contains(t as usize));
                        assert(order@[n] == i);
                    }
                }
            }
        } else {
            proof {
                assert forall|t: int| k - 1 <= t <= root implies (#[trigger] marked@[t] <==> order@.contains(t as usize)) by {
                    if t == i {
                        if order@.contains(t as usize) {
                            let w = choose|w: int| 0 <= w < order@.len() && #[trigger] order@[w] == t;
                            assert(k <= order@[w]);
                        }
                    }
                }
            }
        }
        k = k - 1;
    }
    proof {
        assert forall|a: int, kk: int|
            0 <= a < order@.len() && 0 <= kk < g.parents_of(order@[a] as int).len() implies order@.contains(
            #[trigger] g.parents_of(order@[a] as int)[kk],
        ) by {
            let pp = g.parents_of(order@[a] as int)[kk];
            assert(marked@[pp as int]);
            assert(node_ok(g.nodes_view(), order@[a] as int));
        }
        assert forall|b: int| 0 < b < order@.len() implies #[trigger] reached_before(*g, order@, b) by {
            let t = order@[b];
            assert(order@.contains(t));
            assert(marked@[t as int]);
            assert(t != root) by {
                assert(order@[0] == root);
            }
            let a = choose|a: int| 0 <= a < order@.len() && #[trigger] g.parents_of(order@[a] as int).contains(t);
            let w = choose|w: int| 0 <= w < g.parents_of(order@[a] as int).len() && #[trigger] g.parents_of(order@[a] as int)[w] == t;
            assert(node_ok(g.nodes_view(), order@[a] as int));
            assert(t < order@[a]);
            if a >= b {
                if a > b {
                    assert(order@[b] > order@[a]);
                }
            }
            assert(0 <= a < b);
            assert(g.parents_of(order@[a] as int).contains(order@[b]));
        }
    }
    order
}

/// In a backward order every node comes before each of its parents: by the
/// time a node's gradient is passed on to a parent, every node that passes
/// gradient to that node has already done so.
pub proof fn lemma_consumers_first(g: Graph, order: Seq<usize>, a: int, k: int)
    requires
        g.wf(),
        descending(order),
        parent_closed(g, order),
        0 <= a < order.len(),
        g.has(order[a] as int),
        0 <= k < g.parents_of(order[a] as int).len(),
    ensures
        exists|b: int| a < b < order.len() && order[b] == #[trigger] g.parents_of(order[a] as int)[k],
{
    let p = g.parents_of(order[a] as int)[k];
    assert(order.contains(p));
    let b = choose|b: int| 0 <= b < order.len() && order[b] == p;
    assert(node_ok(g.nodes_view(), order[a] as int));
    assert(p < order[a]);
    if b <= a {
        if b < a {
            assert(order[b] > order[a]);
        }
    }
    assert(a < b < order.len() && order[b] == p);
}

/// The parents that node `id` passes gradient to in a backward pass: all of
/// them, in order (a leaf has none, and the running statistics of batch
/// normalization are not parents), each with the element count of the
/// gradient it receives (the size of that parent).
pub fn grad_targets(g: &Graph, id: NodeId) -> (r: Vec<(NodeId, usize)>)
    requires
        g.wf(),
        g.has(id as int),
    ensures
        r@.len() == g.parents_of(id as int).len(),
        forall|k: int| 0 <= k < r@.len() ==> (#[trigger] r@[k]).0 == g.parents_of(id as int)[k]
            && r@[k].1 == numel(g.shape_of(g.parents_of(id as int)[k] as int)),
{
    proof {
        assert(node_ok(g.nodes_view(), id as int));
    }
    let node = g.node(id);
    let count = node.parents.len();
    let mut r: Vec<(NodeId, usize)> = Vec::new();
    let mut k: usize = 0;
    while k < count
        invariant
            g.wf(),
            g.has(id as int),
            *node == g.nodes_view()[id as int],
            count == node.parents@.len(),
            k <= count,
            r@.len() == k,
            forall|j: int| 0 <= j < k ==> (#[trigger] r@[j]).0 == g.parents_of(id as int)[j]
                && r@[j].1 == numel(g.shape_of(g.parents_of(id as int)[j] as int)),
        decreases count - k,
    {
        let p = node.parents[k];
        proof {
            assert(node_ok(g.nodes_view(), id as int));
            assert(p < id);
            assert(node_ok(g.nodes_view(), p as int));
        }
        let len = shape_numel(&g.node(p).shape);
        r.push((p, len));
        k = k + 1;
    }
    r
}

} // verus!
