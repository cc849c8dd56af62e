use vstd::prelude::*;

use crate::graph::{
    concat_cols, last_dim, matmul, reshape, rows_of, shapes_of, slice_cols, sum_last, with_last, Graph, NodeId,
    Op,
};
use crate::nn::attention::{attention, attention_batch, attention_batch_nodes, attention_nodes};
use crate::shape::{lemma_fits_three, lemma_fits_two, lemma_numel_three, lemma_numel_two, numel};

verus! {

/// First node of head `h`: each head adds eight nodes after `s0`.
pub open spec fn head_base(s0: int, h: int) -> int {
    s0 + 8 * h
}

/// Head `h` of a single-sequence multi-head attention: three column slices
/// `[h * d_head, (h + 1) * d_head)` of `q`, `k`, `v` (`[sq, d_model]`), then
/// attention over them.
pub open spec fn mha_head_at(g: Graph, s0: int, h: int, q: NodeId, k: NodeId, v: NodeId, sq: usize, d_model: usize, d_head: usize) -> bool {
    let b = head_base(s0, h);
    let start = (h * d_head) as usize;
    let end = (h * d_head + d_head) as usize;
    let sl = Op::SliceCols { rows: sq, total_cols: d_model, start, end };
    &&& g.node_is(b, sl, seq![q], seq![sq, d_head])
    &&& g.node_is(b + 1, sl, seq![k], seq![sq, d_head])
    &&& g.node_is(b + 2, sl, seq![v], seq![sq, d_head])
    &&& attention_nodes(g, b + 3, b as usize, (b + 1) as usize, (b + 2) as usize, sq, sq, d_head, d_head)
}

/// Head `h` of a batched multi-head attention: three column slices of `q`,
/// `k`, `v` (`[batch, seq, d_model]`), then batched attention over them.
pub open spec fn mha_batch_head_at(
    g: Graph,
    s0: int,
    h: int,
    q: NodeId,
    k: NodeId,
    v: NodeId,
    batch: usize,
    seq_len: usize,
    d_model: usize,
    d_head: usize,
) -> bool {
    let b = head_base(s0, h);
    let start = (h * d_head) as usize;
    let end = (h * d_head + d_head) as usize;
    let sl = Op::SliceCols { rows: (batch * seq_len) as usize, total_cols: d_model, start, end };
    &&& g.node_is(b, sl, seq![q], seq![batch, seq_len, d_head])
    &&& g.node_is(b + 1, sl, seq![k], seq![batch, seq_len, d_head])
    &&& g.node_is(b + 2, sl, seq![v], seq![batch, seq_len, d_head])
    &&& attention_batch_nodes(g, b + 3, b as usize, (b + 1) as usize, (b + 2) as usize, batch, seq_len, seq_len, d_head, d_head)
}

/// The ids of the head outputs: the last node of each head.
pub open spec fn head_outputs(s0: int, num_heads: int) -> Seq<usize> {
    Seq::new(num_heads as nat, |h: int| (head_base(s0, h) + 7) as usize)
}

proof fn lemma_sum_last_const(ps: Seq<Seq<usize>>, w: usize)
    requires
        forall|j: int| 0 <= j < ps.len() ==> (#[trigger] ps[j]).len() >= 1 && last_dim(ps[j]) == w,
    ensures
        sum_last(ps) == ps.len() * w,
    decreases ps.len(),
{
    if ps.len() > 0 {
        lemma_sum_last_const(ps.drop_last(), w);
        assert(ps.last() == ps[ps.len() - 1]);
        assert((ps.len() - 1) * w + w == ps.len() * w) by (nonlinear_arith);
    }
}

proof fn lemma_head_range(h: int, num_heads: int, d_head: int)
    requires
        0 <= h < num_heads,
        d_head >= 0,
    ensures
        0 <= h * d_head,
        h * d_head + d_head <= num_heads * d_head,
{
    assert(h * d_head + d_head == (h + 1) * d_head) by (nonlinear_arith);
    assert((h + 1) * d_head <= num_heads * d_head) by (nonlinear_arith)
        requires
            h + 1 <= num_heads,
            d_head >= 0,
    ;
    assert(0 <= h * d_head) by (nonlinear_arith)
        requires
            h >= 0,
            d_head >= 0,
    ;
}

/// Multi-head self-attention over resident weights `w_q`, `w_k`, `w_v`,
/// `w_o`, each `[d_model, d_model]`; `d_model` is a multiple of `num_heads`.
pub struct MultiHeadAttention {
    pub w_q: NodeId,
    pub w_k: NodeId,
    pub w_v: NodeId,
    pub w_o: NodeId,
    pub d_model: usize,
    pub num_heads: usize,
}

impl MultiHeadAttention {
    pub fn new(w_q: NodeId, w_k: NodeId, w_v: NodeId, w_o: NodeId, d_model: usize, num_heads: usize) -> (m: MultiHeadAttention)
        ensures
            m == (MultiHeadAttention { w_q, w_k, w_v, w_o, d_model, num_heads }),
    {
        MultiHeadAttention { w_q, w_k, w_v, w_o, d_model, num_heads }
    }

    /// The weights are resident `[d_model, d_model]` nodes, and the model
    /// dimension splits evenly into a positive number of nonempty heads.
    pub open spec fn shaped(&self, g: Graph) -> bool {
        &&& g.has(self.w_q as int) && g.has(self.w_k as int) && g.has(self.w_v as int) && g.has(self.w_o as int)
        &&& g.is_resident(self.w_q as int) && g.is_resident(self.w_k as int)
        &&& g.is_resident(self.w_v as int) && g.is_resident(self.w_o as int)
        &&& g.shape_of(self.w_q as int) == seq![self.d_model, self.d_model]
        &&& g.shape_of(self.w_k as int) == seq![self.d_model, self.d_model]
        &&& g.shape_of(self.w_v as int) == seq![self.d_model, self.d_model]
        &&& g.shape_of(self.w_o as int) == seq![self.d_model, self.d_model]
        &&& self.num_heads > 0
        &&& self.d_model % self.num_heads == 0
        &&& self.d_model > 0
    }

    /// Width of each head.
    pub open spec fn d_head(&self) -> usize {
        (self.d_model / self.num_heads) as usize
    }

    /// Single sequence: `x [seq, d_model] -> [seq, d_model]`. Projects `x`
    /// to queries, keys and values, runs attention per head on its columns,
    /// concatenates the heads and projects out.
    pub fn forward(&self, g: &mut Graph, x: NodeId) -> (c: NodeId)
        requires
            old(g).wf(),
            self.shaped(*old(g)),
            old(g).has(x as int),
            old(g).is_resident(x as int),
            old(g).shape_of(x as int) == seq![old(g).shape_of(x as int)[0], self.d_model],
            old(g).shape_of(x as int)[0] > 0,
            old(g).shape_of(x as int)[0] * old(g).shape_of(x as int)[0] <= usize::MAX,
        ensures
            final(g).wf(),
            final(g).extends(*old(g)),
            ({
                let s = old(g).size();
                let sq = old(g).shape_of(x as int)[0];
                let dm = self.d_model;
                let s0 = s + 3;
                let cat = head_base(s0, self.num_heads as int);
                let mm = Op::MatMul { m: sq, k: dm, n: dm };
                &&& final(g).size() == cat + 2
                &&& c == cat + 1
                &&& final(g).node_is(s, mm, seq![x, self.w_q], seq![sq, dm])
                &&& final(g).node_is(s + 1, mm, seq![x, self.w_k], seq![sq, dm])
                &&& final(g).node_is(s + 2, mm, seq![x, self.w_v], seq![sq, dm])
                &&& forall|h: int| 0 <= h < self.num_heads ==> #[trigger] mha_head_at(
                    *final(g), s0, h, s as usize, (s + 1) as usize, (s + 2) as usize, sq, dm, self.d_head())
                &&& forall|h: int| #![trigger head_base(s0, h)] 0 <= h < self.num_heads ==> ({
                    let hb = head_base(s0, h);
                    &&& final(g).op_of(hb) == (Op::SliceCols { rows: sq, total_cols: dm, start: (h * self.d_head()) as usize, end: ((h + 1) * self.d_head()) as usize })
                    &&& final(g).op_of(hb + 1) == final(g).op_of(hb) && final(g).op_of(hb + 2) == final(g).op_of(hb)
                    &&& final(g).parents_of(hb) == seq![s as usize]
                    &&& final(g).parents_of(hb + 1) == seq![(s + 1) as usize]
                    &&& final(g).parents_of(hb + 2) == seq![(s + 2) as usize]
                    &&& final(g).op_of(hb + 3) is Transpose && final(g).parents_of(hb + 3) == seq![(hb + 1) as usize]
                    &&& final(g).op_of(hb + 4) is MatMul && final(g).parents_of(hb + 4) == seq![hb as usize, (hb + 3) as usize]
                    &&& final(g).op_of(hb + 7) is MatMul && final(g).parents_of(hb + 7) == seq![(hb + 6) as usize, (hb + 2) as usize]
                })
                &&& final(g).node_is(cat, Op::ConcatCols { rows: sq, total_cols: dm }, head_outputs(s0, self.num_heads as int), seq![sq, dm])
                &&& final(g).node_is(cat + 1, mm, seq![cat as usize, self.w_o], seq![sq, dm])
            }),
    {
        let ghost g0 = *g;
        let ghost sq = g.shape_of(x as int)[0];
        let dm = self.d_model;
        proof {
            assert(crate::graph::node_ok(g.nodes_view(), x as int));
            lemma_numel_two(sq, dm);
            crate::shape::lemma_fits_total(g.shape_of(x as int));
        }
        let q = matmul(g, x, self.w_q);
        let k = matmul(g, x, self.w_k);
        let v = matmul(g, x, self.w_v);
        let ghost g1 = *g;
        let ghost s0 = g1.size();
        let d_head = self.d_model / self.num_heads;
        proof {
            vstd::arithmetic::div_mod::lemma_fundamental_div_mod(dm as int, self.num_heads as int);
            assert(d_head > 0) by (nonlinear_arith)
                requires
                    dm == self.num_heads * d_head,
                    dm > 0,
                    self.num_heads > 0,
            ;
            assert(sq * d_head <= sq * dm) by (nonlinear_arith)
                requires
                    dm == self.num_heads * d_head,
                    self.num_heads >= 1,
                    d_head >= 0,
            ;
            vstd::arithmetic::div_mod::lemma_div_multiples_vanish(sq as int, dm as int);
            vstd::arithmetic::mul::lemma_mul_is_commutative(sq as int, dm as int);
        }
        let mut heads: Vec<NodeId> = Vec::new();
        let mut h: usize = 0;
        while h < self.num_heads
            invariant
                g.wf(),
                g.extends(g1),
                g1.extends(g0),
                0 <= h <= self.num_heads,
                g.size() == head_base(s0, h as int),
                heads@ == head_outputs(s0, h as int),
                forall|j: int| 0 <= j < h ==> #[trigger] heads@[j] == head_base(s0, j) + 7,
                self.shaped(g0),
                g1.node_is(q as int, Op::MatMul { m: sq, k: dm, n: dm }, seq![x, self.w_q], seq![sq, dm]),
                g1.node_is(k as int, Op::MatMul { m: sq, k: dm, n: dm }, seq![x, self.w_k], seq![sq, dm]),
                g1.node_is(v as int, Op::MatMul { m: sq, k: dm, n: dm }, seq![x, self.w_v], seq![sq, dm]),
                q == s0 - 3 && k == s0 - 2 && v == s0 - 1,
                s0 == g1.size(),
                dm == self.d_model,
                d_head == self.d_head(),
                dm == self.num_heads * d_head,
                d_head > 0,
                sq > 0,
                sq * sq <= usize::MAX,
                sq * d_head <= usize::MAX,
                numel(seq![sq, dm]) / (dm as int) == sq,
                forall|j: int| 0 <= j < h ==> #[trigger] mha_head_at(*g, s0, j, q, k, v, sq, dm, d_head),
            decreases self.num_heads - h,
        {
            proof {
                lemma_head_range(h as int, self.num_heads as int, d_head as int);
            }
            let start = h * d_head;
            let end = start + d_head;
            let ghost gb = *g;
            let q_h = slice_cols(g, q, start, end);
            let k_h = slice_cols(g, k, start, end);
            let v_h = slice_cols(g, v, start, end);
            proof {
                assert(g.shape_of(q_h as int) =~= seq![sq, d_head]);
                assert(g.shape_of(k_h as int) =~= seq![sq, d_head]);
                assert(g.shape_of(v_h as int) =~= seq![sq, d_head]);
                assert(sq * d_head > 0) by (nonlinear_arith)
                    requires
                        sq > 0,
                        d_head > 0,
                ;
            }
            let out = attention(g, q_h, k_h, v_h);
            let ghost old_heads = heads@;
            heads.push(out);
            proof {
                assert(mha_head_at(*g, s0, h as int, q, k, v, sq, dm, d_head));
                assert forall|j: int| 0 <= j < h + 1 implies #[trigger] mha_head_at(*g, s0, j, q, k, v, sq, dm, d_head) by {
                    if j < h {
                        assert(mha_head_at(gb, s0, j, q, k, v, sq, dm, d_head));
                        lemma_head_kept(gb, *g, s0, j, q, k, v, sq, dm, d_head);
                    }
                }
                assert(heads@ =~= head_outputs(s0, h + 1));
                assert forall|j: int| 0 <= j < h + 1 implies #[trigger] heads@[j] == head_base(s0, j) + 7 by {
                    if j < h {
                        assert(heads@[j] == old_heads[j]);
                    }
                }
            }
            h = h + 1;
        }
        let ghost g2 = *g;
        proof {
            let ps = shapes_of(g2, heads@);
            assert forall|j: int| 0 <= j < ps.len() implies (#[trigger] ps[j]).len() >= 1 && last_dim(ps[j]) == d_head by {
                assert(mha_head_at(g2, s0, j, q, k, v, sq, dm, d_head));
                assert(heads@[j] == head_base(s0, j) + 7);
                assert(ps[j] == g2.shape_of(heads@[j] as int));
            }
            lemma_sum_last_const(ps, d_head);
            assert(mha_head_at(g2, s0, 0, q, k, v, sq, dm, d_head));
            lemma_numel_two(sq, d_head);
            vstd::arithmetic::div_mod::lemma_div_multiples_vanish(sq as int, d_head as int);
            vstd::arithmetic::mul::lemma_mul_is_commutative(sq as int, d_head as int);
            assert forall|j: int| 0 <= j < heads@.len() implies g2.has(#[trigger] heads@[j] as int)
                && g2.is_resident(heads@[j] as int) && g2.shape_of(heads@[j] as int) == seq![sq, d_head] by {
                assert(mha_head_at(g2, s0, j, q, k, v, sq, dm, d_head));
                assert(heads@[j] == head_base(s0, j) + 7);
            }
            assert(rows_of(g2.shape_of(heads@[0] as int)) == sq);
        }
        let cat = concat_cols(g, &heads);
        proof {
            assert(with_last(seq![sq, d_head], dm) =~= seq![sq, dm]);
        }
        let out = matmul(g, cat, self.w_o);
        proof {
            assert forall|j: int| 0 <= j < self.num_heads implies #[trigger] mha_head_at(*g, s0, j, q, k, v, sq, dm, d_head) by {
                assert(mha_head_at(g2, s0, j, q, k, v, sq, dm, d_head));
                lemma_head_kept(g2, *g, s0, j, q, k, v, sq, dm, d_head);
            }
            crate::graph::lemma_extends_trans(g0, g1, g2);
            crate::graph::lemma_extends_trans(g0, g2, *g);
            assert forall|j: int| 0 <= j < self.num_heads implies ({
                let hb = #[trigger] head_base(s0, j);
                &&& g.op_of(hb) == (Op::SliceCols { rows: sq, total_cols: dm, start: (j * d_head) as usize, end: ((j + 1) * d_head) as usize })
                &&& g.op_of(hb + 1) == g.op_of(hb) && g.op_of(hb + 2) == g.op_of(hb)
                &&& g.parents_of(hb) == seq![q]
                &&& g.parents_of(hb + 1) == seq![k]
                &&& g.parents_of(hb + 2) == seq![v]
                &&& g.op_of(hb + 3) is Transpose && g.parents_of(hb + 3) == seq![(hb + 1) as usize]
                &&& g.op_of(hb + 4) is MatMul && g.parents_of(hb + 4) == seq![hb as usize, (hb + 3) as usize]
                &&& g.op_of(hb + 7) is MatMul && g.parents_of(hb + 7) == seq![(hb + 6) as usize, (hb + 2) as usize]
            }) by {
                assert(mha_head_at(*g, s0, j, q, k, v, sq, dm, d_head));
                assert((j + 1) * d_head == j * d_head + d_head) by (nonlinear_arith);
            }
        }
        out
    }

    /// Number of nodes that [`Self::forward_batch`] appends.
    pub open spec fn batch_node_count(&self) -> int {
        head_base(9, self.num_heads as int) + 4
    }

    /// Nodes `s ..` hold the batched multi-head attention of `x
    /// [b, sq, d_model]`: three projections, the heads, their concatenation
    /// and the output projection.
    pub open spec fn batch_nodes_at(&self, g: Graph, s: int, x: NodeId, b: usize, sq: usize) -> bool {
        let dm = self.d_model;
        let rows = (b * sq) as usize;
        let s0 = s + 9;
        let cat = head_base(s0, self.num_heads as int);
        &&& projection_at(g, s, x, self.w_q, b, sq, dm)
        &&& projection_at(g, s + 3, x, self.w_k, b, sq, dm)
        &&& projection_at(g, s + 6, x, self.w_v, b, sq, dm)
        &&& forall|h: int| 0 <= h < self.num_heads ==> #[trigger] mha_batch_head_at(
            g, s0, h, (s + 2) as usize, (s + 5) as usize, (s + 8) as usize, b, sq, dm, self.d_head())
        &&& g.node_is(cat, Op::ConcatCols { rows, total_cols: dm }, head_outputs(s0, self.num_heads as int), seq![b, sq, dm])
        &&& projection_at(g, cat + 1, cat as usize, self.w_o, b, sq, dm)
    }

    /// Batched: `x [batch, seq, d_model] -> [batch, seq, d_model]`. Each
    /// projection flattens the positions, multiplies and restores the batch;
    /// the heads use batched attention.
    pub fn forward_batch(&self, g: &mut Graph, x: NodeId) -> (c: NodeId)
        requires
            old(g).wf(),
            self.shaped(*old(g)),
            old(g).has(x as int),
            old(g).is_resident(x as int),
            old(g).shape_of(x as int).len() == 3,
            old(g).shape_of(x as int)[2] == self.d_model,
            old(g).shape_of(x as int)[1] > 0,
            old(g).shape_of(x as int)[1] * self.d_model <= usize::MAX,
            old(g).shape_of(x as int)[0] * old(g).shape_of(x as int)[1] * old(g).shape_of(x as int)[1] <= usize::MAX,
        ensures
            final(g).wf(),
            final(g).extends(*old(g)),
            final(g).size() == old(g).size() + self.batch_node_count(),
            c == old(g).size() + self.batch_node_count() - 1,
            self.batch_nodes_at(*final(g), old(g).size(), x, old(g).shape_of(x as int)[0], old(g).shape_of(x as int)[1]),
            final(g).parents_of(old(g).size()) == seq![x],
            final(g).parents_of(old(g).size() + 1) == seq![old(g).size() as usize, self.w_q],
            final(g).parents_of(old(g).size() + 3) == seq![x],
            final(g).parents_of(old(g).size() + 4) == seq![(old(g).size() + 3) as usize, self.w_k],
            final(g).parents_of(old(g).size() + 6) == seq![x],
            final(g).parents_of(old(g).size() + 7) == seq![(old(g).size() + 6) as usize, self.w_v],
            final(g).parents_of(c - 1) == seq![(c - 2) as usize, self.w_o],
            forall|h: int| #![trigger head_base(old(g).size() + 9, h)] 0 <= h < self.num_heads ==> ({
                let hb = head_base(old(g).size() + 9, h);
                &&& final(g).op_of(hb) == (Op::SliceCols { rows: (old(g).shape_of(x as int)[0] * old(g).shape_of(x as int)[1]) as usize, total_cols: self.d_model, start: (h * self.d_head()) as usize, end: ((h + 1) * self.d_head()) as usize })
                &&& final(g).op_of(hb + 1) == final(g).op_of(hb) && final(g).op_of(hb + 2) == final(g).op_of(hb)
                &&& final(g).parents_of(hb) == seq![(old(g).size() + 2) as usize]
                &&& final(g).parents_of(hb + 1) == seq![(old(g).size() + 5) as usize]
                &&& final(g).parents_of(hb + 2) == seq![(old(g).size() + 8) as usize]
                &&& final(g).op_of(hb + 3) is Transpose && final(g).parents_of(hb + 3) == seq![(hb + 1) as usize]
                &&& final(g).op_of(hb + 4) is Bmm && final(g).parents_of(hb + 4) == seq![hb as usize, (hb + 3) as usize]
                &&& final(g).op_of(hb + 7) is Bmm && final(g).parents_of(hb + 7) == seq![(hb + 6) as usize, (hb + 2) as usize]
            }),
    {
        let ghost g0 = *g;
        let batch = g.shape(x)[0];
        let seq_len = g.shape(x)[1];
        let dm = self.d_model;
        proof {
            let sx = g.shape_of(x as int);
            assert(crate::graph::node_ok(g.nodes_view(), x as int));
            assert(sx.take(2) =~= seq![batch, seq_len]);
            assert(sx.take(3) =~= sx);
            lemma_numel_two(batch, seq_len);
            lemma_numel_three(batch, seq_len, dm);
            assert(sx =~= seq![batch, seq_len, dm]);
        }
        let q = project(g, x, self.w_q, batch, seq_len, dm);
        let ghost gq = *g;
        let k = project(g, x, self.w_k, batch, seq_len, dm);
        let ghost gk = *g;
        let v = project(g, x, self.w_v, batch, seq_len, dm);
        let ghost g1 = *g;
        let ghost s0 = g1.size();
        let d_head = self.d_model / self.num_heads;
        proof {
            crate::graph::lemma_extends_trans(gq, gk, g1);
            assert(projection_at(g1, g0.size(), x, self.w_q, batch, seq_len, dm)) by {
                lemma_projection_kept(gq, g1, g0.size(), x, self.w_q, batch, seq_len, dm);
            }
            assert(projection_at(g1, g0.size() + 3, x, self.w_k, batch, seq_len, dm)) by {
                lemma_projection_kept(gk, g1, g0.size() + 3, x, self.w_k, batch, seq_len, dm);
            }
            vstd::arithmetic::div_mod::lemma_fundamental_div_mod(dm as int, self.num_heads as int);
            assert(d_head > 0) by (nonlinear_arith)
                requires
                    dm == self.num_heads * d_head,
                    dm > 0,
                    self.num_heads > 0,
            ;
            assert(batch * seq_len * d_head <= batch * seq_len * dm) by (nonlinear_arith)
                requires
                    dm == self.num_heads * d_head,
                    self.num_heads >= 1,
                    d_head >= 0,
            ;
            assert(seq_len * d_head <= seq_len * dm) by (nonlinear_arith)
                requires
                    dm == self.num_heads * d_head,
                    self.num_heads >= 1,
                    d_head >= 0,
            ;
            lemma_numel_three(batch, seq_len, dm);
            lemma_numel_three(batch, seq_len, d_head);
        }
        let mut heads: Vec<NodeId> = Vec::new();
        let mut h: usize = 0;
        while h < self.num_heads
            invariant
                g.wf(),
                g.extends(g1),
                g1.extends(g0),
                0 <= h <= self.num_heads,
                g.size() == head_base(s0, h as int),
                heads@ == head_outputs(s0, h as int),
                forall|j: int| 0 <= j < h ==> #[trigger] heads@[j] == head_base(s0, j) + 7,
                self.shaped(g0),
                g1.node_is(q as int, Op::Reshape, seq![(q - 1) as usize], seq![batch, seq_len, dm]),
                g1.node_is(k as int, Op::Reshape, seq![(k - 1) as usize], seq![batch, seq_len, dm]),
                g1.node_is(v as int, Op::Reshape, seq![(v - 1) as usize], seq![batch, seq_len, dm]),
                q == s0 - 7 && k == s0 - 4 && v == s0 - 1,
                s0 == g1.size(),
                dm == self.d_model,
                d_head == self.d_head(),
                dm == self.num_heads * d_head,
                d_head > 0,
                seq_len > 0,
                batch * seq_len <= usize::MAX,
                batch * seq_len * seq_len <= usize::MAX,
                batch * seq_len * dm <= usize::MAX,
                batch * seq_len * d_head <= usize::MAX,
                seq_len * d_head <= usize::MAX,
                numel(seq![batch, seq_len, dm]) == batch * seq_len * dm,
                numel(seq![batch, seq_len, d_head]) == batch * seq_len * d_head,
                forall|j: int| 0 <= j < h ==> #[trigger] mha_batch_head_at(*g, s0, j, q, k, v, batch, seq_len, dm, d_head),
            decreases self.num_heads - h,
        {
            proof {
                lemma_head_range(h as int, self.num_heads as int, d_head as int);
            }
            let start = h * d_head;
            let end = start + d_head;
            let ghost gb = *g;
            let q_h = slice_cols(g, q, start, end);
            let k_h = slice_cols(g, k, start, end);
            let v_h = slice_cols(g, v, start, end);
            proof {
                assert(g.shape_of(q_h as int) =~= seq![batch, seq_len, d_head]);
                assert(g.shape_of(k_h as int) =~= seq![batch, seq_len, d_head]);
                assert(g.shape_of(v_h as int) =~= seq![batch, seq_len, d_head]);
                assert(seq_len * d_head > 0) by (nonlinear_arith)
                    requires
                        seq_len > 0,
                        d_head > 0,
                ;
                lemma_rows_three(batch, seq_len, dm);
            }
            let out = attention_batch(g, q_h, k_h, v_h);
            let ghost old_heads = heads@;
            heads.push(out);
            proof {
                assert(mha_batch_head_at(*g, s0, h as int, q, k, v, batch, seq_len, dm, d_head));
                assert forall|j: int| 0 <= j < h + 1 implies #[trigger] mha_batch_head_at(*g, s0, j, q, k, v, batch, seq_len, dm, d_head) by {
                    if j < h {
                        assert(mha_batch_head_at(gb, s0, j, q, k, v, batch, seq_len, dm, d_head));
                        lemma_batch_head_kept(gb, *g, s0, j, q, k, v, batch, seq_len, dm, d_head);
                    }
                }
                assert(heads@ =~= head_outputs(s0, h + 1));
                assert forall|j: int| 0 <= j < h + 1 implies #[trigger] heads@[j] == head_base(s0, j) + 7 by {
                    if j < h {
                        assert(heads@[j] == old_heads[j]);
                    }
                }
            }
            h = h + 1;
        }
        let ghost g2 = *g;
        proof {
            let ps = shapes_of(g2, heads@);
            assert forall|j: int| 0 <= j < ps.len() implies (#[trigger] ps[j]).len() >= 1 && last_dim(ps[j]) == d_head by {
                assert(mha_batch_head_at(g2, s0, j, q, k, v, batch, seq_len, dm, d_head));
                assert(heads@[j] == head_base(s0, j) + 7);
                assert(ps[j] == g2.shape_of(heads@[j] as int));
            }
            lemma_sum_last_const(ps, d_head);
            assert(mha_batch_head_at(g2, s0, 0, q, k, v, batch, seq_len, dm, d_head));
            lemma_rows_three(batch, seq_len, d_head);
            assert forall|j: int| 0 <= j < heads@.len() implies g2.has(#[trigger] heads@[j] as int)
                && g2.is_resident(heads@[j] as int) && g2.shape_of(heads@[j] as int) == seq![batch, seq_len, d_head] by {
                assert(mha_batch_head_at(g2, s0, j, q, k, v, batch, seq_len, dm, d_head));
                assert(heads@[j] == head_base(s0, j) + 7);
            }
            assert(rows_of(g2.shape_of(heads@[0] as int)) == batch * seq_len);
            assert(batch * seq_len * dm == (batch * seq_len) * dm) by (nonlinear_arith);
        }
        let cat = concat_cols(g, &heads);
        let ghost g3 = *g;
        proof {
            assert(with_last(seq![batch, seq_len, d_head], dm) =~= seq![batch, seq_len, dm]);
        }
        let out = project_out(g, cat, self.w_o, batch, seq_len, dm);
        proof {
            assert forall|j: int| 0 <= j < self.num_heads implies #[trigger] mha_batch_head_at(*g, s0, j, q, k, v, batch, seq_len, dm, d_head) by {
                assert(mha_batch_head_at(g2, s0, j, q, k, v, batch, seq_len, dm, d_head));
                crate::graph::lemma_extends_trans(g2, g3, *g);
                lemma_batch_head_kept(g2, *g, s0, j, q, k, v, batch, seq_len, dm, d_head);
            }
            crate::graph::lemma_extends_trans(g0, g1, g2);
            crate::graph::lemma_extends_trans(g0, g2, g3);
            crate::graph::lemma_extends_trans(g0, g3, *g);
            crate::graph::lemma_extends_trans(g1, g2, g3);
            crate::graph::lemma_extends_trans(g1, g3, *g);
            lemma_projection_kept(g1, *g, g0.size(), x, self.w_q, batch, seq_len, dm);
            lemma_projection_kept(g1, *g, g0.size() + 3, x, self.w_k, batch, seq_len, dm);
            lemma_projection_kept(g1, *g, g0.size() + 6, x, self.w_v, batch, seq_len, dm);
            assert(g.nodes_view()[g3.size() - 1] == g3.nodes_view()[g3.size() - 1]);
            lemma_batch_roles(*g, s0, q, k, v, batch, seq_len, dm, d_head, self.num_heads as int);
        }
        out
    }
}

/// Nodes `s .. s + 3` project `x [batch, seq, d]` by `w [d, d]`: flatten
/// to `[batch * seq, d]`, multiply, restore `[batch, seq, d]`.
pub open spec fn projection_at(g: Graph, s: int, x: NodeId, w: NodeId, batch: usize, seq_len: usize, d: usize) -> bool {
    let rows = (batch * seq_len) as usize;
    &&& g.node_is(s, Op::Reshape, seq![x], seq![rows, d])
    &&& g.node_is(s + 1, Op::MatMul { m: rows, k: d, n: d }, seq![s as usize, w], seq![rows, d])
    &&& g.node_is(s + 2, Op::Reshape, seq![(s + 1) as usize], seq![batch, seq_len, d])
}

/// Applies the `[d, d]` weight `w` to every position of `x [batch, seq, d]`.
fn project(g: &mut Graph, x: NodeId, w: NodeId, batch: usize, seq_len: usize, d: usize) -> (c: NodeId)
    requires
        old(g).wf(),
        old(g).has(x as int) && old(g).has(w as int),
        old(g).is_resident(x as int) && old(g).is_resident(w as int),
        old(g).shape_of(x as int) == seq![batch, seq_len, d],
        old(g).shape_of(w as int) == seq![d, d],
        batch * seq_len <= usize::MAX,
        batch * seq_len * d <= usize::MAX,
    ensures
        final(g).wf(),
        final(g).extends(*old(g)),
        final(g).size() == old(g).size() + 3,
        c == old(g).size() + 2,
        projection_at(*final(g), old(g).size(), x, w, batch, seq_len, d),
{
    let rows = batch * seq_len;
    proof {
        lemma_fits_two(rows, d);
        lemma_fits_three(batch, seq_len, d);
    }
    let flat = reshape(g, x, vec![rows, d]);
    let ghost ga = *g;
    let out = matmul(g, flat, w);
    let ghost gb = *g;
    let r = reshape(g, out, vec![batch, seq_len, d]);
    proof {
        assert(g.nodes_view()[flat as int] == ga.nodes_view()[flat as int]);
        assert(gb.nodes_view()[flat as int] == ga.nodes_view()[flat as int]);
        assert(g.nodes_view()[out as int] == gb.nodes_view()[out as int]);
        crate::graph::lemma_extends_trans(*old(g), ga, gb);
        crate::graph::lemma_extends_trans(*old(g), gb, *g);
    }
    r
}

/// Output side of the batched path: flattens `cat [batch, seq, d]`,
/// multiplies by `w [d, d]` and restores `[batch, seq, d]`.
fn project_out(g: &mut Graph, cat: NodeId, w: NodeId, batch: usize, seq_len: usize, d: usize) -> (c: NodeId)
    requires
        old(g).wf(),
        old(g).has(cat as int) && old(g).has(w as int),
        old(g).is_resident(cat as int) && old(g).is_resident(w as int),
        old(g).shape_of(cat as int) == seq![batch, seq_len, d],
        old(g).shape_of(w as int) == seq![d, d],
        batch * seq_len <= usize::MAX,
        batch * seq_len * d <= usize::MAX,
    ensures
        final(g).wf(),
        final(g).extends(*old(g)),
        final(g).size() == old(g).size() + 3,
        c == old(g).size() + 2,
        projection_at(*final(g), old(g).size(), cat, w, batch, seq_len, d),
{
    project(g, cat, w, batch, seq_len, d)
}

pub(crate) proof fn lemma_rows_three(a: usize, b: usize, c: usize)
    requires
        c > 0,
    ensures
        numel(seq![a, b, c]) / (c as int) == a * b,
        rows_of(seq![a, b, c]) == a * b,
{
    lemma_numel_three(a, b, c);
    assert(a * b * c == (a * b) * c) by (nonlinear_arith);
    vstd::arithmetic::div_mod::lemma_div_multiples_vanish((a * b) as int, c as int);
    vstd::arithmetic::mul::lemma_mul_is_commutative((a * b) as int, c as int);
}

proof fn lemma_projection_kept(a: Graph, b: Graph, s: int, x: NodeId, w: NodeId, batch: usize, seq_len: usize, d: usize)
    requires
        b.extends(a),
        projection_at(a, s, x, w, batch, seq_len, d),
    ensures
        projection_at(b, s, x, w, batch, seq_len, d),
{
    assert(b.nodes_view()[s] == a.nodes_view()[s]);
    assert(b.nodes_view()[s + 1] == a.nodes_view()[s + 1]);
    assert(b.nodes_view()[s + 2] == a.nodes_view()[s + 2]);
}

proof fn lemma_batch_head_kept(
    a: Graph,
    b: Graph,
    s0: int,
    j: int,
    q: NodeId,
    k: NodeId,
    v: NodeId,
    batch: usize,
    seq_len: usize,
    dm: usize,
    d_head: usize,
)
    requires
        b.extends(a),
        mha_batch_head_at(a, s0, j, q, k, v, batch, seq_len, dm, d_head),
    ensures
        mha_batch_head_at(b, s0, j, q, k, v, batch, seq_len, dm, d_head),
{
    let base = head_base(s0, j);
    assert forall|i: int| base <= i < base + 8 implies #[trigger] b.nodes_view()[i] == a.nodes_view()[i] by {}
}

/// What [`MultiHeadAttention::forward_batch`] built stays in place as the
/// graph grows.
pub proof fn lemma_batch_nodes_kept(m: MultiHeadAttention, a: Graph, b: Graph, s: int, x: NodeId, bt: usize, sq: usize)
    requires
        b.extends(a),
        m.batch_nodes_at(a, s, x, bt, sq),
    ensures
        m.batch_nodes_at(b, s, x, bt, sq),
{
    let s0 = s + 9;
    let cat = head_base(s0, m.num_heads as int);
    lemma_projection_kept(a, b, s, x, m.w_q, bt, sq, m.d_model);
    lemma_projection_kept(a, b, s + 3, x, m.w_k, bt, sq, m.d_model);
    lemma_projection_kept(a, b, s + 6, x, m.w_v, bt, sq, m.d_model);
    lemma_projection_kept(a, b, cat + 1, cat as usize, m.w_o, bt, sq, m.d_model);
    assert(b.nodes_view()[cat] == a.nodes_view()[cat]);
    assert forall|h: int| 0 <= h < m.num_heads implies #[trigger] mha_batch_head_at(
        b, s0, h, (s + 2) as usize, (s + 5) as usize, (s + 8) as usize, bt, sq, m.d_model, m.d_head()) by {
        lemma_batch_head_kept(a, b, s0, h, (s + 2) as usize, (s + 5) as usize, (s + 8) as usize, bt, sq, m.d_model, m.d_head());
    }
}

proof fn lemma_head_kept(a: Graph, b: Graph, s0: int, j: int, q: NodeId, k: NodeId, v: NodeId, sq: usize, dm: usize, d_head: usize)
    requires
        b.extends(a),
        mha_head_at(a, s0, j, q, k, v, sq, dm, d_head),
    ensures
        mha_head_at(b, s0, j, q, k, v, sq, dm, d_head),
{
    let base = head_base(s0, j);
    assert forall|i: int| base <= i < base + 8 implies #[trigger] b.nodes_view()[i] == a.nodes_view()[i] by {}
}

/// Every batched head of `mha_batch_head_at` reads its operands from the
/// slices of `q`, `k` and `v` in their roles.
proof fn lemma_batch_roles(
    g: Graph,
    s0: int,
    q: NodeId,
    k: NodeId,
    v: NodeId,
    batch: usize,
    seq_len: usize,
    dm: usize,
    d_head: usize,
    n: int,
)
    requires
        forall|h: int| 0 <= h < n ==> #[trigger] mha_batch_head_at(g, s0, h, q, k, v, batch, seq_len, dm, d_head),
    ensures
        forall|h: int| #![trigger head_base(s0, h)] 0 <= h < n ==> ({
            let hb = head_base(s0, h);
            &&& g.op_of(hb) == (Op::SliceCols { rows: (batch * seq_len) as usize, total_cols: dm, start: (h * d_head) as usize, end: ((h + 1) * d_head) as usize })
            &&& g.op_of(hb + 1) == g.op_of(hb) && g.op_of(hb + 2) == g.op_of(hb)
            &&& g.parents_of(hb) == seq![q]
            &&& g.parents_of(hb + 1) == seq![k]
            &&& g.parents_of(hb + 2) == seq![v]
            &&& g.op_of(hb + 3) is Transpose && g.parents_of(hb + 3) == seq![(hb + 1) as usize]
            &&& g.op_of(hb + 4) is Bmm && g.parents_of(hb + 4) == seq![hb as usize, (hb + 3) as usize]
            &&& g.op_of(hb + 7) is Bmm && g.parents_of(hb + 7) == seq![(hb + 6) as usize, (hb + 2) as usize]
        }),
{
    assert forall|j: int| #![trigger head_base(s0, j)] 0 <= j < n implies ({
        let hb = head_base(s0, j);
        &&& g.op_of(hb) == (Op::SliceCols { rows: (batch * seq_len) as usize, total_cols: dm, start: (j * d_head) as usize, end: ((j + 1) * d_head) as usize })
        &&& g.op_of(hb + 1) == g.op_of(hb) && g.op_of(hb + 2) == g.op_of(hb)
        &&& g.parents_of(hb) == seq![q]
        &&& g.parents_of(hb + 1) == seq![k]
        &&& g.parents_of(hb + 2) == seq![v]
        &&& g.op_of(hb + 3) is Transpose && g.parents_of(hb + 3) == seq![(hb + 1) as usize]
        &&& g.op_of(hb + 4) is Bmm && g.parents_of(hb + 4) == seq![hb as usize, (hb + 3) as usize]
        &&& g.op_of(hb + 7) is Bmm && g.parents_of(hb + 7) == seq![(hb + 6) as usize, (hb + 2) as usize]
    }) by {
        assert(mha_batch_head_at(g, s0, j, q, k, v, batch, seq_len, dm, d_head));
        assert((j + 1) * d_head == j * d_head + d_head) by (nonlinear_arith);
    }
}

/// In every head the queries, keys and values keep their roles: following
/// the edges back from the head output, the score product multiplies a
/// column slice of the query projection `q` by the transpose of a column
/// slice of the key projection `k`, and the softmax weights multiply a
/// column slice of the value projection `v`.
pub proof fn lemma_head_operands(g: Graph, s0: int, h: int, q: NodeId, k: NodeId, v: NodeId, sq: usize, d_model: usize, d_head: usize)
    requires
        mha_head_at(g, s0, h, q, k, v, sq, d_model, d_head),
    ensures
        ({
            let o = head_base(s0, h) + 7;
            let weights = g.parents_of(o)[0] as int;
            let scores = g.parents_of(g.parents_of(weights)[0] as int)[0] as int;
            let kt = g.parents_of(scores)[1] as int;
            &&& g.op_of(o) is MatMul
            &&& g.op_of(weights) is Softmax
            &&& g.op_of(scores) is MatMul
            &&& g.op_of(g.parents_of(scores)[0] as int) is SliceCols
            &&& g.parents_of(g.parents_of(scores)[0] as int) == seq![q]
            &&& g.op_of(kt) is Transpose
            &&& g.op_of(g.parents_of(kt)[0] as int) is SliceCols
            &&& g.parents_of(g.parents_of(kt)[0] as int) == seq![k]
            &&& g.op_of(g.parents_of(o)[1] as int) is SliceCols
            &&& g.parents_of(g.parents_of(o)[1] as int) == seq![v]
        }),
{
    crate::graph::lemma_size_fits(g);
}

/// Batched heads keep the roles too: the score product multiplies a slice
/// of `q` by the transpose of a slice of `k`, and the weights multiply a
/// slice of `v`.
pub proof fn lemma_batch_head_operands(
    g: Graph,
    s0: int,
    h: int,
    q: NodeId,
    k: NodeId,
    v: NodeId,
    batch: usize,
    seq_len: usize,
    d_model: usize,
    d_head: usize,
)
    requires
        mha_batch_head_at(g, s0, h, q, k, v, batch, seq_len, d_model, d_head),
    ensures
        ({
            let o = head_base(s0, h) + 7;
            let weights = g.parents_of(o)[0] as int;
            let scores = g.parents_of(g.parents_of(weights)[0] as int)[0] as int;
            let kt = g.parents_of(scores)[1] as int;
            &&& g.op_of(o) is Bmm
            &&& g.op_of(weights) is Softmax
            &&& g.op_of(scores) is Bmm
            &&& g.op_of(g.parents_of(scores)[0] as int) is SliceCols
            &&& g.parents_of(g.parents_of(scores)[0] as int) == seq![q]
            &&& g.op_of(kt) is Transpose
            &&& g.op_of(g.parents_of(kt)[0] as int) is SliceCols
            &&& g.parents_of(g.parents_of(kt)[0] as int) == seq![k]
            &&& g.op_of(g.parents_of(o)[1] as int) is SliceCols
            &&& g.parents_of(g.parents_of(o)[1] as int) == seq![v]
        }),
{
    crate::graph::lemma_size_fits(g);
}

} // verus!
