use vstd::prelude::*;

use crate::graph::{matmul, Graph, NodeId, Op, ScaleFactor};
use crate::nn::attention::{attention, attention_nodes};

verus! {

/// Single-head self-attention over resident projection weights
/// `w_q`, `w_k`, `w_v`, each `[d_model, d_k]`.
pub struct SelfAttention {
    pub w_q: NodeId,
    pub w_k: NodeId,
    pub w_v: NodeId,
    pub d_model: usize,
    pub d_k: usize,
}

impl SelfAttention {
    pub fn new(w_q: NodeId, w_k: NodeId, w_v: NodeId, d_model: usize, d_k: usize) -> (s: SelfAttention)
        ensures
            s == (SelfAttention { w_q, w_k, w_v, d_model, d_k }),
    {
        SelfAttention { w_q, w_k, w_v, d_model, d_k }
    }

    /// The projection weights are resident and `[d_model, d_k]`.
    pub open spec fn shaped(&self, g: Graph) -> bool {
        &&& g.has(self.w_q as int) && g.has(self.w_k as int) && g.has(self.w_v as int)
        &&& g.is_resident(self.w_q as int) && g.is_resident(self.w_k as int) && g.is_resident(self.w_v as int)
        &&& g.shape_of(self.w_q as int) == seq![self.d_model, self.d_k]
        &&& g.shape_of(self.w_k as int) == seq![self.d_model, self.d_k]
        &&& g.shape_of(self.w_v as int) == seq![self.d_model, self.d_k]
    }

    /// `x [seq, d_model] -> [seq, d_k]`: projects `x` to queries, keys and
    /// values, then attends.
    pub fn forward(&self, g: &mut Graph, x: NodeId) -> (c: NodeId)
        requires
            old(g).wf(),
            self.shaped(*old(g)),
            old(g).has(x as int),
            old(g).is_resident(x as int),
            old(g).shape_of(x as int) == seq![old(g).shape_of(x as int)[0], self.d_model],
            old(g).shape_of(x as int)[0] * self.d_k > 0,
            old(g).shape_of(x as int)[0] * self.d_k <= usize::MAX,
            old(g).shape_of(x as int)[0] * old(g).shape_of(x as int)[0] <= usize::MAX,
        ensures
            final(g).wf(),
            final(g).extends(*old(g)),
            final(g).size() == old(g).size() + 8,
            c == old(g).size() + 7,
            ({
                let s = old(g).size();
                let sq = old(g).shape_of(x as int)[0];
                let mm = Op::MatMul { m: sq, k: self.d_model, n: self.d_k };
                &&& final(g).node_is(s, mm, seq![x, self.w_q], seq![sq, self.d_k])
                &&& final(g).node_is(s + 1, mm, seq![x, self.w_k], seq![sq, self.d_k])
                &&& final(g).node_is(s + 2, mm, seq![x, self.w_v], seq![sq, self.d_k])
                &&& final(g).parents_of(s + 3) == seq![(s + 1) as usize]
                &&& final(g).parents_of(s + 4) == seq![s as usize, (s + 3) as usize]
                &&& final(g).op_of(s + 5) == Op::Scale(ScaleFactor::InvSqrt(self.d_k))
                &&& final(g).parents_of(s + 7) == seq![(s + 6) as usize, (s + 2) as usize]
                &&& attention_nodes(*final(g), s + 3, s as usize, (s + 1) as usize, (s + 2) as usize, sq, sq, self.d_k, self.d_k)
            }),
    {
        let q = matmul(g, x, self.w_q);
        let k = matmul(g, x, self.w_k);
        let v = matmul(g, x, self.w_v);
        attention(g, q, k, v)
    }
}

} // verus!
