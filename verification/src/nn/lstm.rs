use vstd::prelude::*;

use crate::graph::{matmul, sigmoid, tanh, Graph, NodeId, Op};

verus! {

/// The four nodes from `s` hold a gate's input sum `x @ w + h @ u + b`
/// for `x [batch, input]` and `h [batch, hidden]`.
pub open spec fn gate_nodes(
    g: Graph,
    s: int,
    x: NodeId,
    h: NodeId,
    w: NodeId,
    u: NodeId,
    b: NodeId,
    batch: usize,
    input: usize,
    hid: usize,
) -> bool {
    &&& g.node_is(s, Op::MatMul { m: batch, k: input, n: hid }, seq![x, w], seq![batch, hid])
    &&& g.node_is(s + 1, Op::MatMul { m: batch, k: hid, n: hid }, seq![h, u], seq![batch, hid])
    &&& g.node_is(s + 2, Op::Add, seq![s as usize, (s + 1) as usize], seq![batch, hid])
    &&& g.node_is(s + 3, Op::AddBias { rows: batch, cols: hid }, seq![(s + 2) as usize, b], seq![batch, hid])
}

/// An LSTM cell over resident weights: four gates (forget `f`, input `i`,
/// output `o`, candidate `g`), each with input weights `w_* [input, hidden]`,
/// recurrent weights `u_* [hidden, hidden]` and bias `b_* [hidden]`.
pub struct LSTMCell {
    pub w_f: NodeId,
    pub u_f: NodeId,
    pub b_f: NodeId,
    pub w_i: NodeId,
    pub u_i: NodeId,
    pub b_i: NodeId,
    pub w_o: NodeId,
    pub u_o: NodeId,
    pub b_o: NodeId,
    pub w_g: NodeId,
    pub u_g: NodeId,
    pub b_g: NodeId,
    pub input_size: usize,
    pub hidden_size: usize,
}

/// The weights of one gate are resident and shaped as documented.
pub open spec fn gate_shaped(g: Graph, w: NodeId, u: NodeId, b: NodeId, input: usize, hid: usize) -> bool {
    &&& g.has(w as int) && g.has(u as int) && g.has(b as int)
    &&& g.is_resident(w as int) && g.is_resident(u as int) && g.is_resident(b as int)
    &&& g.shape_of(w as int) == seq![input, hid]
    &&& g.shape_of(u as int) == seq![hid, hid]
    &&& g.shape_of(b as int) == seq![hid]
}

/// Builds `x @ w + h @ u + b`.
fn gate(g: &mut Graph, x: NodeId, h: NodeId, w: NodeId, u: NodeId, b: NodeId, Ghost(batch): Ghost<usize>, Ghost(input): Ghost<usize>, Ghost(hid): Ghost<usize>) -> (c: NodeId)
    requires
        old(g).wf(),
        gate_shaped(*old(g), w, u, b, input, hid),
        old(g).has(x as int) && old(g).has(h as int),
        old(g).is_resident(x as int) && old(g).is_resident(h as int),
        old(g).shape_of(x as int) == seq![batch, input],
        old(g).shape_of(h as int) == seq![batch, hid],
        batch * hid <= usize::MAX,
    ensures
        final(g).wf(),
        final(g).extends(*old(g)),
        final(g).size() == old(g).size() + 4,
        c == old(g).size() + 3,
        final(g).op_of(old(g).size() + 2) == Op::Add,
        final(g).parents_of(old(g).size() + 2) == seq![old(g).size() as usize, (old(g).size() + 1) as usize],
        final(g).parents_of(old(g).size()) == seq![x, w],
        final(g).parents_of(old(g).size() + 1) == seq![h, u],
        gate_nodes(*final(g), old(g).size(), x, h, w, u, b, batch, input, hid),
{
    let xw = matmul(g, x, w);
    let hu = matmul(g, h, u);
    let s = crate::graph::add(g, xw, hu);
    crate::graph::add(g, s, b)
}

impl LSTMCell {
    /// All gate weights are resident and shaped as documented.
    pub open spec fn shaped(&self, g: Graph) -> bool {
        &&& gate_shaped(g, self.w_f, self.u_f, self.b_f, self.input_size, self.hidden_size)
        &&& gate_shaped(g, self.w_i, self.u_i, self.b_i, self.input_size, self.hidden_size)
        &&& gate_shaped(g, self.w_o, self.u_o, self.b_o, self.input_size, self.hidden_size)
        &&& gate_shaped(g, self.w_g, self.u_g, self.b_g, self.input_size, self.hidden_size)
    }

    /// One timestep over `x [batch, input]`, previous hidden state `h_prev`
    /// and cell state `c_prev` (both `[batch, hidden]`):
    /// `c_new = sigmoid(f) * c_prev + sigmoid(i) * tanh(g)` and
    /// `h_new = sigmoid(o) * tanh(c_new)`, both `[batch, hidden]`.
    pub fn step(&self, g: &mut Graph, x: NodeId, h_prev: NodeId, c_prev: NodeId) -> (hc: (NodeId, NodeId))
        requires
            old(g).wf(),
            self.shaped(*old(g)),
            old(g).has(x as int) && old(g).has(h_prev as int) && old(g).has(c_prev as int),
            old(g).is_resident(x as int) && old(g).is_resident(h_prev as int) && old(g).is_resident(c_prev as int),
            old(g).shape_of(x as int) == seq![old(g).shape_of(x as int)[0], self.input_size],
            old(g).shape_of(h_prev as int) == seq![old(g).shape_of(x as int)[0], self.hidden_size],
            old(g).shape_of(c_prev as int) == seq![old(g).shape_of(x as int)[0], self.hidden_size],
            old(g).shape_of(x as int)[0] * self.hidden_size <= usize::MAX,
        ensures
            final(g).wf(),
            final(g).extends(*old(g)),
            final(g).size() == old(g).size() + 25,
            ({
                let s = old(g).size();
                let batch = old(g).shape_of(x as int)[0];
                let inp = self.input_size;
                let hid = self.hidden_size;
                let shp = seq![batch, hid];
                &&& final(g).op_of(s + 2) == Op::Add && final(g).parents_of(s + 2) == seq![s as usize, (s + 1) as usize]
                &&& final(g).op_of(s + 7) == Op::Add && final(g).parents_of(s + 7) == seq![(s + 5) as usize, (s + 6) as usize]
                &&& final(g).op_of(s + 12) == Op::Add && final(g).parents_of(s + 12) == seq![(s + 10) as usize, (s + 11) as usize]
                &&& final(g).op_of(s + 17) == Op::Add && final(g).parents_of(s + 17) == seq![(s + 15) as usize, (s + 16) as usize]
                &&& final(g).parents_of(s) == seq![x, self.w_f] && final(g).parents_of(s + 1) == seq![h_prev, self.u_f]
                &&& final(g).parents_of(s + 5) == seq![x, self.w_i] && final(g).parents_of(s + 6) == seq![h_prev, self.u_i]
                &&& final(g).parents_of(s + 10) == seq![x, self.w_o] && final(g).parents_of(s + 11) == seq![h_prev, self.u_o]
                &&& final(g).parents_of(s + 15) == seq![x, self.w_g] && final(g).parents_of(s + 16) == seq![h_prev, self.u_g]
                &&& gate_nodes(*final(g), s, x, h_prev, self.w_f, self.u_f, self.b_f, batch, inp, hid)
                &&& final(g).node_is(s + 4, Op::Sigmoid, seq![(s + 3) as usize], shp)
                &&& gate_nodes(*final(g), s + 5, x, h_prev, self.w_i, self.u_i, self.b_i, batch, inp, hid)
                &&& final(g).node_is(s + 9, Op::Sigmoid, seq![(s + 8) as usize], shp)
                &&& gate_nodes(*final(g), s + 10, x, h_prev, self.w_o, self.u_o, self.b_o, batch, inp, hid)
                &&& final(g).node_is(s + 14, Op::Sigmoid, seq![(s + 13) as usize], shp)
                &&& gate_nodes(*final(g), s + 15, x, h_prev, self.w_g, self.u_g, self.b_g, batch, inp, hid)
                &&& final(g).node_is(s + 19, Op::Tanh, seq![(s + 18) as usize], shp)
                &&& final(g).node_is(s + 20, Op::Mul, seq![(s + 4) as usize, c_prev], shp)
                &&& final(g).node_is(s + 21, Op::Mul, seq![(s + 9) as usize, (s + 19) as usize], shp)
                &&& final(g).node_is(s + 22, Op::Add, seq![(s + 20) as usize, (s + 21) as usize], shp)
                &&& final(g).node_is(s + 23, Op::Tanh, seq![(s + 22) as usize], shp)
                &&& final(g).node_is(s + 24, Op::Mul, seq![(s + 14) as usize, (s + 23) as usize], shp)
                &&& hc == ((s + 24) as usize, (s + 22) as usize)
            }),
    {
        let ghost g0 = *g;
        let ghost batch = g.shape_of(x as int)[0];
        let ghost inp = self.input_size;
        let ghost hid = self.hidden_size;
        let gf = gate(g, x, h_prev, self.w_f, self.u_f, self.b_f, Ghost(batch), Ghost(inp), Ghost(hid));
        let f = sigmoid(g, gf);
        let ghost g1 = *g;
        let gi = gate(g, x, h_prev, self.w_i, self.u_i, self.b_i, Ghost(batch), Ghost(inp), Ghost(hid));
        let i = sigmoid(g, gi);
        let ghost g2 = *g;
        let go = gate(g, x, h_prev, self.w_o, self.u_o, self.b_o, Ghost(batch), Ghost(inp), Ghost(hid));
        let o = sigmoid(g, go);
        let ghost g3 = *g;
        let gg = gate(g, x, h_prev, self.w_g, self.u_g, self.b_g, Ghost(batch), Ghost(inp), Ghost(hid));
        let cand = tanh(g, gg);
        let ghost g4 = *g;
        let fc = crate::graph::mul(g, f, c_prev);
        let ig = crate::graph::mul(g, i, cand);
        let c_new = crate::graph::add(g, fc, ig);
        let c_tanh = tanh(g, c_new);
        let h_new = crate::graph::mul(g, o, c_tanh);
        proof {
            let s = g0.size();
            assert(gate_nodes(*g, s, x, h_prev, self.w_f, self.u_f, self.b_f, batch, inp, hid));
            assert(gate_nodes(*g, s + 5, x, h_prev, self.w_i, self.u_i, self.b_i, batch, inp, hid));
            assert(gate_nodes(*g, s + 10, x, h_prev, self.w_o, self.u_o, self.b_o, batch, inp, hid));
            assert(gate_nodes(*g, s + 15, x, h_prev, self.w_g, self.u_g, self.b_g, batch, inp, hid));
        }
        (h_new, c_new)
    }
}

/// A gate's input sum adds the two products: the node that the bias is
/// added to is the element-wise sum (not difference) of `x @ w` and
/// `h @ u`, so the recurrent term enters with a plus sign.
pub proof fn lemma_gate_sum(
    g: Graph,
    s: int,
    x: NodeId,
    h: NodeId,
    w: NodeId,
    u: NodeId,
    b: NodeId,
    batch: usize,
    input: usize,
    hid: usize,
)
    requires
        gate_nodes(g, s, x, h, w, u, b, batch, input, hid),
    ensures
        ({
            let o = s + 3;
            let sum = g.parents_of(o)[0] as int;
            &&& g.op_of(o) is AddBias
            &&& g.parents_of(o)[1] == b
            &&& g.op_of(sum) == Op::Add
            &&& g.op_of(g.parents_of(sum)[0] as int) is MatMul
            &&& g.parents_of(g.parents_of(sum)[0] as int) == seq![x, w]
            &&& g.op_of(g.parents_of(sum)[1] as int) is MatMul
            &&& g.parents_of(g.parents_of(sum)[1] as int) == seq![h, u]
        }),
{
    crate::graph::lemma_size_fits(g);
}

} // verus!
