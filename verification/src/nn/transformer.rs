use vstd::prelude::*;

use crate::graph::{relu, reshape, Graph, NodeId, Op};
use crate::nn::linear::Linear;
use crate::nn::multihead::{lemma_batch_nodes_kept, MultiHeadAttention};
use crate::nn::normalization::LayerNorm;
use crate::shape::{lemma_fits_three, lemma_fits_two, lemma_numel_three};

verus! {

/// A Transformer encoder block over batched input `[batch, seq, d_model]`:
/// multi-head attention with a residual connection and layer norm, then a
/// position-wise feed-forward network (`d_model -> d_ff -> d_model`, ReLU
/// between) with a residual connection and layer norm.
pub struct TransformerBlock {
    pub mha: MultiHeadAttention,
    pub norm1: LayerNorm,
    pub norm2: LayerNorm,
    pub ff1: Linear,
    pub ff2: Linear,
    pub d_model: usize,
    pub d_ff: usize,
}

impl TransformerBlock {
    /// Every parameter node is resident with the shape its layer needs.
    pub open spec fn shaped(&self, g: Graph) -> bool {
        &&& self.mha.shaped(g)
        &&& self.mha.d_model == self.d_model
        &&& self.norm1.fits_features(g, self.d_model)
        &&& self.norm2.fits_features(g, self.d_model)
        &&& self.ff1.shaped(g, self.d_model, self.d_ff)
        &&& self.ff2.shaped(g, self.d_ff, self.d_model)
    }

    /// The input is a resident `[b, sq, d_model]` node with a nonempty
    /// sequence, and every intermediate tensor can be addressed.
    pub open spec fn accepts(&self, g: Graph, x: NodeId) -> bool {
        let s = g.shape_of(x as int);
        &&& g.has(x as int)
        &&& g.is_resident(x as int)
        &&& s.len() == 3
        &&& s[2] == self.d_model
        &&& s[1] > 0
        &&& s[1] * self.d_model <= usize::MAX
        &&& s[0] * s[1] * s[1] <= usize::MAX
        &&& s[0] * s[1] * self.d_ff <= usize::MAX
    }

    /// Nodes `m .. m + 10` finish the block after the attention output `a`:
    /// the residual sum with `x` and `norm1` give `x1`; the flattened `x1`
    /// goes through `ff1`, ReLU and `ff2`, is restored to `[b, sq, d_model]`
    /// and added to `x1`.
    pub open spec fn tail_at(&self, g: Graph, m: int, x: NodeId, a: NodeId, b: usize, sq: usize) -> bool {
        let dm = self.d_model;
        let rows = (b * sq) as usize;
        let x1 = (m + 1) as usize;
        &&& g.node_is(m, Op::Add, seq![x, a], seq![b, sq, dm])
        &&& g.node_is(m + 1, Op::LayerNorm { rows, features: dm, eps_bits: self.norm1.eps_bits },
            seq![m as usize, self.norm1.gamma, self.norm1.beta], seq![b, sq, dm])
        &&& g.node_is(m + 2, Op::Reshape, seq![x1], seq![rows, dm])
        &&& self.ff1.nodes_at(g, m + 3, (m + 2) as usize, rows, dm, self.d_ff)
        &&& g.node_is(m + 5, Op::Relu, seq![(m + 4) as usize], seq![rows, self.d_ff])
        &&& self.ff2.nodes_at(g, m + 6, (m + 5) as usize, rows, self.d_ff, dm)
        &&& g.node_is(m + 8, Op::Reshape, seq![(m + 7) as usize], seq![b, sq, dm])
        &&& g.node_is(m + 9, Op::Add, seq![x1, (m + 8) as usize], seq![b, sq, dm])
    }

    /// Nodes `s ..` hold the block applied to `x [b, sq, d_model]` up to the
    /// second residual sum, which is node `s + self.encoded_count() - 1`.
    pub open spec fn encoded_at(&self, g: Graph, s: int, x: NodeId, b: usize, sq: usize) -> bool {
        let m = s + self.mha.batch_node_count();
        &&& self.mha.batch_nodes_at(g, s, x, b, sq)
        &&& self.tail_at(g, m, x, (m - 1) as usize, b, sq)
    }

    /// Number of nodes up to the second residual sum.
    pub open spec fn encoded_count(&self) -> int {
        self.mha.batch_node_count() + 10
    }

    /// Full block, including the final layer norm:
    /// `x [batch, seq, d_model] -> [batch, seq, d_model]`.
    pub fn forward(&self, g: &mut Graph, x: NodeId) -> (c: NodeId)
        requires
            old(g).wf(),
            self.shaped(*old(g)),
            self.accepts(*old(g), x),
        ensures
            final(g).wf(),
            final(g).extends(*old(g)),
            final(g).size() == old(g).size() + self.encoded_count() + 1,
            c == old(g).size() + self.encoded_count(),
            ({
                let m = old(g).size() + self.mha.batch_node_count();
                let b = old(g).shape_of(x as int)[0];
                let sq = old(g).shape_of(x as int)[1];
                let x1 = (m + 1) as usize;
                &&& final(g).op_of(m) == Op::Add
                &&& final(g).parents_of(m) == seq![x, (m - 1) as usize]
                &&& final(g).op_of(m + 1) == (Op::LayerNorm { rows: (b * sq) as usize, features: self.d_model, eps_bits: self.norm1.eps_bits })
                &&& final(g).parents_of(m + 1) == seq![m as usize, self.norm1.gamma, self.norm1.beta]
                &&& final(g).op_of(m + 2) == Op::Reshape
                &&& final(g).parents_of(m + 2) == seq![x1]
                &&& final(g).parents_of(m + 3) == seq![(m + 2) as usize, self.ff1.weights]
                &&& final(g).op_of(m + 5) == Op::Relu
                &&& final(g).parents_of(m + 5) == seq![(m + 4) as usize]
                &&& final(g).parents_of(m + 6) == seq![(m + 5) as usize, self.ff2.weights]
                &&& final(g).parents_of(m + 9) == seq![x1, (m + 8) as usize]
            }),
            ({
                let s = old(g).size();
                let b = old(g).shape_of(x as int)[0];
                let sq = old(g).shape_of(x as int)[1];
                let x2 = s + self.encoded_count() - 1;
                &&& self.encoded_at(*final(g), s, x, b, sq)
                &&& final(g).node_is(
                    c as int,
                    Op::LayerNorm { rows: (b * sq) as usize, features: self.d_model, eps_bits: self.norm2.eps_bits },
                    seq![x2 as usize, self.norm2.gamma, self.norm2.beta],
                    seq![b, sq, self.d_model],
                )
            }),
    {
        let ghost g0 = *g;
        let x2 = self.encode(g, x);
        let ghost g1 = *g;
        proof {
            crate::shape::lemma_rows(g.shape_of(x2 as int));
            assert(crate::graph::rows_of(seq![g0.shape_of(x as int)[0], g0.shape_of(x as int)[1], self.d_model])
                == g0.shape_of(x as int)[0] * g0.shape_of(x as int)[1]) by {
                crate::nn::multihead::lemma_rows_three(g0.shape_of(x as int)[0], g0.shape_of(x as int)[1], self.d_model);
            }
        }
        let c = self.norm2.forward(g, x2);
        proof {
            crate::graph::lemma_extends_trans(g0, g1, *g);
            lemma_encoded_kept(*self, g1, *g, g0.size(), x, g0.shape_of(x as int)[0], g0.shape_of(x as int)[1]);
        }
        c
    }

    /// The block without the final layer norm: the result is the second
    /// residual sum.
    pub fn forward_no_final_norm(&self, g: &mut Graph, x: NodeId) -> (c: NodeId)
        requires
            old(g).wf(),
            self.shaped(*old(g)),
            self.accepts(*old(g), x),
        ensures
            final(g).wf(),
            final(g).extends(*old(g)),
            final(g).size() == old(g).size() + self.encoded_count(),
            c == old(g).size() + self.encoded_count() - 1,
            self.encoded_at(*final(g), old(g).size(), x, old(g).shape_of(x as int)[0], old(g).shape_of(x as int)[1]),
            ({
                let m = old(g).size() + self.mha.batch_node_count();
                let b = old(g).shape_of(x as int)[0];
                let sq = old(g).shape_of(x as int)[1];
                let x1 = (m + 1) as usize;
                &&& final(g).op_of(m) == Op::Add
                &&& final(g).parents_of(m) == seq![x, (m - 1) as usize]
                &&& final(g).op_of(m + 1) == (Op::LayerNorm { rows: (b * sq) as usize, features: self.d_model, eps_bits: self.norm1.eps_bits })
                &&& final(g).parents_of(m + 1) == seq![m as usize, self.norm1.gamma, self.norm1.beta]
                &&& final(g).op_of(m + 2) == Op::Reshape
                &&& final(g).parents_of(m + 2) == seq![x1]
                &&& final(g).parents_of(m + 3) == seq![(m + 2) as usize, self.ff1.weights]
                &&& final(g).op_of(m + 5) == Op::Relu
                &&& final(g).parents_of(m + 5) == seq![(m + 4) as usize]
                &&& final(g).parents_of(m + 6) == seq![(m + 5) as usize, self.ff2.weights]
                &&& final(g).parents_of(m + 9) == seq![x1, (m + 8) as usize]
            }),
    {
        self.encode(g, x)
    }

    /// Attention, residual and norm, then the feed-forward network and the
    /// second residual sum.
    fn encode(&self, g: &mut Graph, x: NodeId) -> (c: NodeId)
        requires
            old(g).wf(),
            self.shaped(*old(g)),
            self.accepts(*old(g), x),
        ensures
            final(g).wf(),
            final(g).extends(*old(g)),
            final(g).size() == old(g).size() + self.encoded_count(),
            c == old(g).size() + self.encoded_count() - 1,
            self.encoded_at(*final(g), old(g).size(), x, old(g).shape_of(x as int)[0], old(g).shape_of(x as int)[1]),
            ({
                let m = old(g).size() + self.mha.batch_node_count();
                let b = old(g).shape_of(x as int)[0];
                let sq = old(g).shape_of(x as int)[1];
                let x1 = (m + 1) as usize;
                &&& final(g).op_of(m) == Op::Add
                &&& final(g).parents_of(m) == seq![x, (m - 1) as usize]
                &&& final(g).op_of(m + 1) == (Op::LayerNorm { rows: (b * sq) as usize, features: self.d_model, eps_bits: self.norm1.eps_bits })
                &&& final(g).parents_of(m + 1) == seq![m as usize, self.norm1.gamma, self.norm1.beta]
                &&& final(g).op_of(m + 2) == Op::Reshape
                &&& final(g).parents_of(m + 2) == seq![x1]
                &&& final(g).parents_of(m + 3) == seq![(m + 2) as usize, self.ff1.weights]
                &&& final(g).op_of(m + 5) == Op::Relu
                &&& final(g).parents_of(m + 5) == seq![(m + 4) as usize]
                &&& final(g).parents_of(m + 6) == seq![(m + 5) as usize, self.ff2.weights]
                &&& final(g).parents_of(m + 9) == seq![x1, (m + 8) as usize]
            }),
            final(g).shape_of(c as int) == seq![old(g).shape_of(x as int)[0], old(g).shape_of(x as int)[1], self.d_model],
    {
        let ghost g0 = *g;
        let batch = g.shape(x)[0];
        let seq_len = g.shape(x)[1];
        let dm = self.d_model;
        let ghost sx = g.shape_of(x as int);
        proof {
            assert(crate::graph::node_ok(g.nodes_view(), x as int));
            assert(sx.take(2) =~= seq![batch, seq_len]);
            assert(sx.take(3) =~= sx);
            assert(sx =~= seq![batch, seq_len, dm]);
            crate::shape::lemma_numel_two(batch, seq_len);
            lemma_numel_three(batch, seq_len, dm);
        }
        let a = self.mha.forward_batch(g, x);
        let ghost g1 = *g;
        proof {
            lemma_numel_three(batch, seq_len, dm);
        }
        let x1a = crate::graph::add(g, x, a);
        let ghost g2 = *g;
        proof {
            crate::graph::lemma_extends_trans(g0, g1, g2);
            crate::nn::multihead::lemma_rows_three(batch, seq_len, dm);
            assert(crate::graph::last_dim(seq![batch, seq_len, dm]) == dm);
        }
        let x1 = self.norm1.forward(g, x1a);
        let ghost g3 = *g;
        let rows = batch * seq_len;
        proof {
            crate::graph::lemma_extends_trans(g0, g2, g3);
            lemma_fits_two(rows, dm);
            assert(batch * seq_len * dm == rows * dm) by (nonlinear_arith)
                requires
                    rows == batch * seq_len,
            ;
        }
        let flat = reshape(g, x1, vec![rows, dm]);
        let ghost g4 = *g;
        proof {
            crate::graph::lemma_extends_trans(g0, g3, g4);
            assert(batch * seq_len * self.d_ff == rows * self.d_ff) by (nonlinear_arith)
                requires
                    rows == batch * seq_len,
            ;
        }
        let h1 = self.ff1.forward(g, flat);
        let ghost g5 = *g;
        proof {
            crate::graph::lemma_extends_trans(g0, g4, g5);
        }
        let h2 = relu(g, h1);
        let ghost g6 = *g;
        proof {
            crate::graph::lemma_extends_trans(g0, g5, g6);
        }
        let f = self.ff2.forward(g, h2);
        let ghost g7 = *g;
        proof {
            crate::graph::lemma_extends_trans(g0, g6, g7);
            lemma_fits_three(batch, seq_len, dm);
            crate::shape::lemma_numel_two(rows, dm);
        }
        let ff_out = reshape(g, f, vec![batch, seq_len, dm]);
        let ghost g8 = *g;
        proof {
            crate::graph::lemma_extends_trans(g0, g7, g8);
        }
        let c = crate::graph::add(g, x1, ff_out);
        proof {
            let gf = *g;
            crate::graph::lemma_extends_trans(g0, g8, gf);
            crate::graph::lemma_extends_trans(g7, g8, gf);
            crate::graph::lemma_extends_trans(g6, g7, gf);
            crate::graph::lemma_extends_trans(g5, g6, gf);
            crate::graph::lemma_extends_trans(g4, g5, gf);
            crate::graph::lemma_extends_trans(g3, g4, gf);
            crate::graph::lemma_extends_trans(g2, g3, gf);
            crate::graph::lemma_extends_trans(g1, g2, gf);
            lemma_batch_nodes_kept(self.mha, g1, gf, g0.size(), x, batch, seq_len);
            assert(gf.nodes_view()[x1a as int] == g2.nodes_view()[x1a as int]);
            assert(gf.nodes_view()[x1 as int] == g3.nodes_view()[x1 as int]);
            assert(gf.nodes_view()[flat as int] == g4.nodes_view()[flat as int]);
            assert(gf.nodes_view()[h1 - 1] == g5.nodes_view()[h1 - 1]);
            assert(gf.nodes_view()[h1 as int] == g5.nodes_view()[h1 as int]);
            assert(gf.nodes_view()[h2 as int] == g6.nodes_view()[h2 as int]);
            assert(gf.nodes_view()[f - 1] == g7.nodes_view()[f - 1]);
            assert(gf.nodes_view()[f as int] == g7.nodes_view()[f as int]);
            assert(gf.nodes_view()[ff_out as int] == g8.nodes_view()[ff_out as int]);
        }
        c
    }
}

/// What the block built stays in place as the graph grows.
pub proof fn lemma_encoded_kept(t: TransformerBlock, a: Graph, b: Graph, s: int, x: NodeId, bt: usize, sq: usize)
    requires
        b.extends(a),
        t.encoded_at(a, s, x, bt, sq),
    ensures
        t.encoded_at(b, s, x, bt, sq),
{
    let m = s + t.mha.batch_node_count();
    lemma_batch_nodes_kept(t.mha, a, b, s, x, bt, sq);
    assert forall|i: int| m <= i < m + 10 implies #[trigger] b.nodes_view()[i] == a.nodes_view()[i] by {}
}

/// In the block the feed-forward network reads `x1 = norm1(x + a)`: the
/// node that is flattened and fed to `ff1` is the first layer norm, whose
/// input is the residual sum of `x` and the attention output `a`, and the
/// same `x1` is added back in the second residual sum.
pub proof fn lemma_ffn_reads_norm1(t: TransformerBlock, g: Graph, m: int, x: NodeId, a: NodeId, b: usize, sq: usize)
    requires
        t.tail_at(g, m, x, a, b, sq),
    ensures
        ({
            let x1 = g.parents_of(m + 9)[0] as int;
            let sum = g.parents_of(x1)[0] as int;
            &&& g.op_of(x1) == (Op::LayerNorm { rows: (b * sq) as usize, features: t.d_model, eps_bits: t.norm1.eps_bits })
            &&& g.parents_of(x1).subrange(1, 3) == seq![t.norm1.gamma, t.norm1.beta]
            &&& g.op_of(sum) == Op::Add
            &&& g.parents_of(sum) == seq![x, a]
            &&& g.op_of(m + 2) == Op::Reshape
            &&& g.parents_of(m + 2) == seq![x1 as usize]
            &&& g.op_of(m + 3) is MatMul
            &&& g.parents_of(m + 3) == seq![(m + 2) as usize, t.ff1.weights]
            &&& g.op_of(m + 9) == Op::Add
        }),
{
    crate::graph::lemma_size_fits(g);
    assert(g.parents_of(m + 1).subrange(1, 3) =~= seq![t.norm1.gamma, t.norm1.beta]);
}

} // verus!
