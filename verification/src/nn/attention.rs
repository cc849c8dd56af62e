use vstd::prelude::*;

use crate::graph::{bmm, last_dim, matmul, node_ok, scale, softmax, transpose, Graph, NodeId, Op, ScaleFactor};
use crate::shape::{lemma_fits_three, lemma_fits_two, numel};

verus! {

/// Nodes `s .. s + 5` compute `softmax(q @ kᵀ / sqrt(d)) @ v` for
/// `q [sq, d]`, `k [sk, d]` and `v [sk, dv]`.
pub open spec fn attention_nodes(g: Graph, s: int, q: NodeId, k: NodeId, v: NodeId, sq: usize, sk: usize, d: usize, dv: usize) -> bool {
    &&& g.node_is(s, Op::Transpose { batch: 1, rows: sk, cols: d }, seq![k], seq![d, sk])
    &&& g.node_is(s + 1, Op::MatMul { m: sq, k: d, n: sk }, seq![q, s as usize], seq![sq, sk])
    &&& g.node_is(s + 2, Op::Scale(ScaleFactor::InvSqrt(d)), seq![(s + 1) as usize], seq![sq, sk])
    &&& g.node_is(s + 3, Op::Softmax { rows: sq, width: sk }, seq![(s + 2) as usize], seq![sq, sk])
    &&& g.node_is(s + 4, Op::MatMul { m: sq, k: sk, n: dv }, seq![(s + 3) as usize, v], seq![sq, dv])
}

/// Nodes `s .. s + 5` compute batched attention for `q [b, sq, d]`,
/// `k [b, sk, d]` and `v [b, sk, dv]`.
pub open spec fn attention_batch_nodes(
    g: Graph,
    s: int,
    q: NodeId,
    k: NodeId,
    v: NodeId,
    b: usize,
    sq: usize,
    sk: usize,
    d: usize,
    dv: usize,
) -> bool {
    &&& g.node_is(s, Op::Transpose { batch: b, rows: sk, cols: d }, seq![k], seq![b, d, sk])
    &&& g.node_is(s + 1, Op::Bmm { batch: b, m: sq, k: d, n: sk }, seq![q, s as usize], seq![b, sq, sk])
    &&& g.node_is(s + 2, Op::Scale(ScaleFactor::InvSqrt(d)), seq![(s + 1) as usize], seq![b, sq, sk])
    &&& g.node_is(s + 3, Op::Softmax { rows: (b * sq) as usize, width: sk }, seq![(s + 2) as usize], seq![b, sq, sk])
    &&& g.node_is(s + 4, Op::Bmm { batch: b, m: sq, k: sk, n: dv }, seq![(s + 3) as usize, v], seq![b, sq, dv])
}

/// Scaled dot-product attention `softmax(q @ kᵀ / sqrt(d)) @ v` over
/// resident `q [sq, d]`, `k [sk, d]` and `v [sk, dv]`; the result is
/// `[sq, dv]`.
pub fn attention(g: &mut Graph, q: NodeId, k: NodeId, v: NodeId) -> (c: NodeId)
    requires
        old(g).wf(),
        old(g).has(q as int) && old(g).has(k as int) && old(g).has(v as int),
        old(g).is_resident(q as int) && old(g).is_resident(k as int) && old(g).is_resident(v as int),
        old(g).shape_of(q as int).len() == 2,
        old(g).shape_of(k as int) == seq![old(g).shape_of(k as int)[0], old(g).shape_of(q as int)[1]],
        old(g).shape_of(v as int) == seq![old(g).shape_of(k as int)[0], old(g).shape_of(v as int)[1]],
        old(g).shape_of(k as int)[0] * old(g).shape_of(q as int)[1] > 0,
        old(g).shape_of(q as int)[0] * old(g).shape_of(k as int)[0] <= usize::MAX,
        old(g).shape_of(q as int)[0] * old(g).shape_of(v as int)[1] <= usize::MAX,
    ensures
        final(g).wf(),
        final(g).extends(*old(g)),
        final(g).size() == old(g).size() + 5,
        c == old(g).size() + 4,
        final(g).op_of(old(g).size() + 2) == Op::Scale(ScaleFactor::InvSqrt(old(g).shape_of(q as int)[1])),
        final(g).parents_of(old(g).size()) == seq![k],
        final(g).parents_of(old(g).size() + 1) == seq![q, old(g).size() as usize],
        final(g).parents_of(old(g).size() + 2) == seq![(old(g).size() + 1) as usize],
        final(g).op_of(old(g).size() + 3) is Softmax,
        final(g).parents_of(old(g).size() + 3) == seq![(old(g).size() + 2) as usize],
        final(g).parents_of(old(g).size() + 4) == seq![(old(g).size() + 3) as usize, v],
        attention_nodes(
            *final(g),
            old(g).size(),
            q,
            k,
            v,
            old(g).shape_of(q as int)[0],
            old(g).shape_of(k as int)[0],
            old(g).shape_of(q as int)[1],
            old(g).shape_of(v as int)[1],
        ),
{
    let ghost sq = g.shape_of(q as int)[0];
    let ghost sk = g.shape_of(k as int)[0];
    let ghost dv = g.shape_of(v as int)[1];
    let d = g.shape(q)[1];
    proof {
        assert(crate::graph::node_ok(g.nodes_view(), k as int));
        crate::shape::lemma_numel_two(sk, d);
        crate::shape::lemma_fits_total(g.shape_of(k as int));
        lemma_fits_two(sk, d);
        lemma_fits_two(sq, sk);
        vstd::arithmetic::div_mod::lemma_div_by_self((sk * d) as int);
        vstd::arithmetic::div_mod::lemma_div_multiples_vanish(sq as int, sk as int);
        vstd::arithmetic::mul::lemma_mul_is_commutative(sq as int, sk as int);
    }
    let k_t = transpose(g, k);
    proof {
        assert(g.shape_of(k_t as int) =~= seq![d, sk]);
    }
    let scores = matmul(g, q, k_t);
    let scaled = scale(g, scores, ScaleFactor::InvSqrt(d));
    let weights = softmax(g, scaled);
    matmul(g, weights, v)
}

/// Batched attention over resident `q [b, sq, d]`, `k [b, sk, d]` and
/// `v [b, sk, dv]` using batched matrix products; the result is
/// `[b, sq, dv]`.
pub fn attention_batch(g: &mut Graph, q: NodeId, k: NodeId, v: NodeId) -> (c: NodeId)
    requires
        old(g).wf(),
        old(g).has(q as int) && old(g).has(k as int) && old(g).has(v as int),
        old(g).is_resident(q as int) && old(g).is_resident(k as int) && old(g).is_resident(v as int),
        old(g).shape_of(q as int).len() == 3,
        old(g).shape_of(k as int) == seq![old(g).shape_of(q as int)[0], old(g).shape_of(k as int)[1], old(g).shape_of(q as int)[2]],
        old(g).shape_of(v as int) == seq![old(g).shape_of(q as int)[0], old(g).shape_of(k as int)[1], old(g).shape_of(v as int)[2]],
        old(g).shape_of(k as int)[1] * old(g).shape_of(q as int)[2] > 0,
        old(g).shape_of(k as int)[1] * old(g).shape_of(q as int)[2] <= usize::MAX,
        old(g).shape_of(q as int)[0] * old(g).shape_of(q as int)[1] <= usize::MAX,
        old(g).shape_of(q as int)[0] * old(g).shape_of(q as int)[1] * old(g).shape_of(k as int)[1] <= usize::MAX,
        old(g).shape_of(q as int)[0] * old(g).shape_of(q as int)[1] * old(g).shape_of(v as int)[2] <= usize::MAX,
    ensures
        final(g).wf(),
        final(g).extends(*old(g)),
        final(g).size() == old(g).size() + 5,
        c == old(g).size() + 4,
        final(g).op_of(old(g).size() + 2) == Op::Scale(ScaleFactor::InvSqrt(old(g).shape_of(q as int)[2])),
        final(g).parents_of(old(g).size()) == seq![k],
        final(g).parents_of(old(g).size() + 1) == seq![q, old(g).size() as usize],
        final(g).parents_of(old(g).size() + 2) == seq![(old(g).size() + 1) as usize],
        final(g).op_of(old(g).size() + 3) is Softmax,
        final(g).parents_of(old(g).size() + 3) == seq![(old(g).size() + 2) as usize],
        final(g).parents_of(old(g).size() + 4) == seq![(old(g).size() + 3) as usize, v],
        attention_batch_nodes(
            *final(g),
            old(g).size(),
            q,
            k,
            v,
            old(g).shape_of(q as int)[0],
            old(g).shape_of(q as int)[1],
            old(g).shape_of(k as int)[1],
            old(g).shape_of(q as int)[2],
            old(g).shape_of(v as int)[2],
        ),
{
    let ghost b = g.shape_of(q as int)[0];
    let ghost sq = g.shape_of(q as int)[1];
    let ghost sk = g.shape_of(k as int)[1];
    let ghost d = g.shape_of(q as int)[2];
    let ghost dv = g.shape_of(v as int)[2];
    proof {
        assert(crate::graph::node_ok(g.nodes_view(), k as int));
        crate::shape::lemma_numel_three(b, sk, d);
        crate::shape::lemma_numel_three(b, sq, sk);
        assert(b * sk * d == b * (sk * d)) by (nonlinear_arith);
        vstd::arithmetic::div_mod::lemma_div_multiples_vanish(b as int, (sk * d) as int);
        vstd::arithmetic::mul::lemma_mul_is_commutative(b as int, (sk * d) as int);
        assert(b * sq * sk == (b * sq) * sk) by (nonlinear_arith);
        vstd::arithmetic::div_mod::lemma_div_multiples_vanish((b * sq) as int, sk as int);
        vstd::arithmetic::mul::lemma_mul_is_commutative((b * sq) as int, sk as int);
        assert(seq![b, sq, sk].drop_last() =~= seq![b, sq]);
        lemma_fits_three(b, sq, sk);
    }
    let k_t = transpose(g, k);
    proof {
        assert(g.shape_of(k_t as int) =~= seq![b, d, sk]);
    }
    let scores = bmm(g, q, k_t);
    let scaled = scale(g, scores, ScaleFactor::InvSqrt(g.shape(q)[2]));
    let weights = softmax(g, scaled);
    bmm(g, weights, v)
}

/// In attention the scores `q @ kᵀ` are divided by the square root of the
/// query width (the last dimension of `q`, which the keys share), not by the
/// key sequence length; the scores come from `q` and the transposed `k`, and
/// the softmax weights multiply `v`.
pub proof fn lemma_attention_scaling(g: Graph, s: int, q: NodeId, k: NodeId, v: NodeId, sq: usize, sk: usize, d: usize, dv: usize)
    requires
        g.wf(),
        attention_nodes(g, s, q, k, v, sq, sk, d, dv),
    ensures
        g.op_of(s + 2) == Op::Scale(ScaleFactor::InvSqrt(last_dim(g.shape_of(q as int)))),
        last_dim(g.shape_of(k as int)) == last_dim(g.shape_of(q as int)),
        g.op_of(s) is Transpose && g.parents_of(s) == seq![k],
        g.op_of(s + 1) is MatMul && g.parents_of(s + 1) == seq![q, s as usize],
        g.parents_of(s + 2) == seq![(s + 1) as usize],
        g.op_of(s + 3) is Softmax && g.parents_of(s + 3) == seq![(s + 2) as usize],
        g.op_of(s + 4) is MatMul && g.parents_of(s + 4) == seq![(s + 3) as usize, v],
{
    assert(node_ok(g.nodes_view(), s));
    assert(node_ok(g.nodes_view(), s + 1));
    assert(crate::graph::parent_shapes(g.nodes_view(), s + 1)[0] == g.shape_of(q as int));
    assert(crate::graph::parent_shapes(g.nodes_view(), s)[0] == g.shape_of(k as int));
}

/// Batched attention scales the scores by `1 / sqrt(d)` with `d` the last
/// dimension of `q` (shared by `k`), not by the key sequence length; the
/// scores come from `q` and the transposed `k`, and the weights multiply `v`.
pub proof fn lemma_attention_batch_scaling(
    g: Graph,
    s: int,
    q: NodeId,
    k: NodeId,
    v: NodeId,
    b: usize,
    sq: usize,
    sk: usize,
    d: usize,
    dv: usize,
)
    requires
        g.wf(),
        attention_batch_nodes(g, s, q, k, v, b, sq, sk, d, dv),
    ensures
        g.op_of(s + 2) == Op::Scale(ScaleFactor::InvSqrt(last_dim(g.shape_of(q as int)))),
        last_dim(g.shape_of(k as int)) == last_dim(g.shape_of(q as int)),
        g.op_of(s) is Transpose && g.parents_of(s) == seq![k],
        g.op_of(s + 1) is Bmm && g.parents_of(s + 1) == seq![q, s as usize],
        g.parents_of(s + 2) == seq![(s + 1) as usize],
        g.op_of(s + 3) is Softmax && g.parents_of(s + 3) == seq![(s + 2) as usize],
        g.op_of(s + 4) is Bmm && g.parents_of(s + 4) == seq![(s + 3) as usize, v],
{
    assert(node_ok(g.nodes_view(), s));
    assert(node_ok(g.nodes_view(), s + 1));
    assert(crate::graph::parent_shapes(g.nodes_view(), s + 1)[0] == g.shape_of(q as int));
    assert(crate::graph::parent_shapes(g.nodes_view(), s)[0] == g.shape_of(k as int));
}

} // verus!
