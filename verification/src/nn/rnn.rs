use vstd::prelude::*;

use crate::graph::{matmul, tanh, Graph, NodeId, Op};

verus! {

/// A vanilla RNN cell over resident weights `w_xh [input, hidden]`,
/// `w_hh [hidden, hidden]` and `bias [hidden]`.
pub struct RNNCell {
    pub w_xh: NodeId,
    pub w_hh: NodeId,
    pub bias: NodeId,
    pub input_size: usize,
    pub hidden_size: usize,
}

impl RNNCell {
    pub fn new(w_xh: NodeId, w_hh: NodeId, bias: NodeId, input_size: usize, hidden_size: usize) -> (r: RNNCell)
        ensures
            r == (RNNCell { w_xh, w_hh, bias, input_size, hidden_size }),
    {
        RNNCell { w_xh, w_hh, bias, input_size, hidden_size }
    }

    /// The weights are resident and shaped as documented.
    pub open spec fn shaped(&self, g: Graph) -> bool {
        &&& g.has(self.w_xh as int)
        &&& g.has(self.w_hh as int)
        &&& g.has(self.bias as int)
        &&& g.is_resident(self.w_xh as int)
        &&& g.is_resident(self.w_hh as int)
        &&& g.is_resident(self.bias as int)
        &&& g.shape_of(self.w_xh as int) == seq![self.input_size, self.hidden_size]
        &&& g.shape_of(self.w_hh as int) == seq![self.hidden_size, self.hidden_size]
        &&& g.shape_of(self.bias as int) == seq![self.hidden_size]
    }

    /// One timestep: `h_new = tanh(x @ w_xh + h_prev @ w_hh + bias)` for
    /// `x [batch, input]` and `h_prev [batch, hidden]`; `h_new` is
    /// `[batch, hidden]`.
    pub fn step(&self, g: &mut Graph, x: NodeId, h_prev: NodeId) -> (h: NodeId)
        requires
            old(g).wf(),
            self.shaped(*old(g)),
            old(g).has(x as int),
            old(g).has(h_prev as int),
            old(g).is_resident(x as int),
            old(g).is_resident(h_prev as int),
            old(g).shape_of(x as int) == seq![old(g).shape_of(x as int)[0], self.input_size],
            old(g).shape_of(h_prev as int) == seq![old(g).shape_of(x as int)[0], self.hidden_size],
            old(g).shape_of(x as int)[0] * self.hidden_size <= usize::MAX,
        ensures
            final(g).wf(),
            final(g).extends(*old(g)),
            final(g).size() == old(g).size() + 5,
            h == old(g).size() + 4,
            ({
                let s = old(g).size();
                let batch = old(g).shape_of(x as int)[0];
                let hid = self.hidden_size;
                &&& final(g).node_is(s, Op::MatMul { m: batch, k: self.input_size, n: hid }, seq![x, self.w_xh], seq![batch, hid])
                &&& final(g).node_is(s + 1, Op::MatMul { m: batch, k: hid, n: hid }, seq![h_prev, self.w_hh], seq![batch, hid])
                &&& final(g).node_is(s + 2, Op::Add, seq![s as usize, (s + 1) as usize], seq![batch, hid])
                &&& final(g).node_is(s + 3, Op::AddBias { rows: batch, cols: hid }, seq![(s + 2) as usize, self.bias], seq![batch, hid])
                &&& final(g).node_is(s + 4, Op::Tanh, seq![(s + 3) as usize], seq![batch, hid])
            }),
    {
        let xh = matmul(g, x, self.w_xh);
        let hh = matmul(g, h_prev, self.w_hh);
        let sum = crate::graph::add(g, xh, hh);
        let with_bias = crate::graph::add(g, sum, self.bias);
        tanh(g, with_bias)
    }
}

} // verus!
