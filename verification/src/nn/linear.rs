use vstd::prelude::*;

use crate::graph::{matmul, Graph, NodeId, Op};

verus! {

/// A fully connected layer over resident weight `[in, out]` and bias `[out]`
/// nodes: `output = input @ weights + bias`.
pub struct Linear {
    pub weights: NodeId,
    pub bias: NodeId,
}

impl Linear {
    pub fn new(weights: NodeId, bias: NodeId) -> (l: Linear)
        ensures
            l.weights == weights,
            l.bias == bias,
    {
        Linear { weights, bias }
    }

    /// The weights are `[input_size, output_size]` and the bias
    /// `[output_size]`, both resident.
    pub open spec fn shaped(&self, g: Graph, input_size: usize, output_size: usize) -> bool {
        &&& g.has(self.weights as int)
        &&& g.has(self.bias as int)
        &&& g.is_resident(self.weights as int)
        &&& g.is_resident(self.bias as int)
        &&& g.shape_of(self.weights as int) == seq![input_size, output_size]
        &&& g.shape_of(self.bias as int) == seq![output_size]
    }

    /// Nodes `s` and `s + 1` apply this layer to `input [rows, k]`: the
    /// product with the `[k, out]` weights, then the bias added to every row.
    pub open spec fn nodes_at(&self, g: Graph, s: int, input: NodeId, rows: usize, k: usize, out: usize) -> bool {
        &&& g.node_is(s, Op::MatMul { m: rows, k, n: out }, seq![input, self.weights], seq![rows, out])
        &&& g.node_is(s + 1, Op::AddBias { rows, cols: out }, seq![s as usize, self.bias], seq![rows, out])
    }

    /// `input [batch, in] -> [batch, out]`: a matrix product with the
    /// weights, then the bias broadcast over the batch.
    pub fn forward(&self, g: &mut Graph, input: NodeId) -> (c: NodeId)
        requires
            old(g).wf(),
            old(g).has(input as int),
            old(g).is_resident(input as int),
            old(g).shape_of(input as int).len() == 2,
            self.shaped(*old(g), old(g).shape_of(input as int)[1], old(g).shape_of(self.weights as int)[1]),
            old(g).shape_of(input as int)[0] * old(g).shape_of(self.weights as int)[1] <= usize::MAX,
        ensures
            final(g).wf(),
            final(g).size() == old(g).size() + 2,
            final(g).extends(*old(g)),
            c == old(g).size() + 1,
            final(g).op_of(c as int) is AddBias,
            final(g).parents_of(c as int) == seq![(c - 1) as usize, self.bias],
            final(g).op_of(c - 1) is MatMul,
            final(g).parents_of(c - 1) == seq![input, self.weights],
            self.nodes_at(
                *final(g),
                old(g).size(),
                input,
                old(g).shape_of(input as int)[0],
                old(g).shape_of(input as int)[1],
                old(g).shape_of(self.weights as int)[1],
            ),
    {
        let a = matmul(g, input, self.weights);
        let ghost g1 = *g;
        let c = crate::graph::add(g, a, self.bias);
        proof {
            assert(g.nodes_view()[a as int] == g1.nodes_view()[a as int]);
            crate::graph::lemma_extends_trans(*old(g), g1, *g);
        }
        c
    }
}

} // verus!
