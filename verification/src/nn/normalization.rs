use vstd::prelude::*;

use crate::graph::{copy_shape, last_dim, node_ok, parent_shapes, push_node, rows_of, Graph, Node, NodeId, Op};
use crate::shape::{fits, lemma_fits_take, lemma_fits_total, lemma_rows, numel, shape_numel};

verus! {

/// Layer normalization of a resident input over its last dimension
/// (`features`, nonzero), with resident `gamma` and `beta` of shape
/// `[features]`; `eps` is given by its bit pattern. The result has the
/// input's shape.
pub fn layernorm(g: &mut Graph, input: NodeId, gamma: NodeId, beta: NodeId, eps_bits: u32) -> (c: NodeId)
    requires
        old(g).wf(),
        old(g).has(input as int),
        old(g).has(gamma as int),
        old(g).has(beta as int),
        old(g).is_resident(input as int),
        old(g).is_resident(gamma as int),
        old(g).is_resident(beta as int),
        old(g).shape_of(input as int).len() >= 1,
        last_dim(old(g).shape_of(input as int)) > 0,
        old(g).shape_of(gamma as int) == seq![last_dim(old(g).shape_of(input as int))],
        old(g).shape_of(beta as int) == seq![last_dim(old(g).shape_of(input as int))],
    ensures
        final(g).wf(),
        c == old(g).size(),
        final(g).appended(*old(g), old(g).shape_of(input as int), seq![input, gamma, beta]),
        final(g).op_of(c as int) == (Op::LayerNorm {
            rows: rows_of(old(g).shape_of(input as int)) as usize,
            features: last_dim(old(g).shape_of(input as int)),
            eps_bits,
        }),
{
    let ghost sa = g.shape_of(input as int);
    proof {
        assert(node_ok(g.nodes_view(), input as int));
        lemma_rows(sa);
    }
    let s = g.shape(input);
    let features = s[s.len() - 1];
    let total = shape_numel(s);
    let rows = total / features;
    let shape = copy_shape(s);
    let op = Op::LayerNorm { rows, features, eps_bits };
    let parents = vec![input, gamma, beta];
    proof {
        let nodes = g.nodes_view().push(Node { shape, op, parents, resident: true });
        assert(parent_shapes(nodes, g.size()) =~= seq![sa, g.shape_of(gamma as int), g.shape_of(beta as int)]);
    }
    push_node(g, shape, op, parents)
}

/// Layer normalization with its resident parameters.
pub struct LayerNorm {
    pub gamma: NodeId,
    pub beta: NodeId,
    pub eps_bits: u32,
}

impl LayerNorm {
    /// The parameters are resident vectors matching the last dimension of a
    /// `features`-wide input.
    pub open spec fn fits_features(&self, g: Graph, features: usize) -> bool {
        &&& g.has(self.gamma as int)
        &&& g.has(self.beta as int)
        &&& g.is_resident(self.gamma as int)
        &&& g.is_resident(self.beta as int)
        &&& g.shape_of(self.gamma as int) == seq![features]
        &&& g.shape_of(self.beta as int) == seq![features]
    }

    /// [`layernorm`] of `x` with this layer's parameters.
    pub fn forward(&self, g: &mut Graph, x: NodeId) -> (c: NodeId)
        requires
            old(g).wf(),
            old(g).has(x as int),
            old(g).is_resident(x as int),
            old(g).shape_of(x as int).len() >= 1,
            last_dim(old(g).shape_of(x as int)) > 0,
            self.fits_features(*old(g), last_dim(old(g).shape_of(x as int))),
        ensures
            final(g).wf(),
            c == old(g).size(),
            final(g).appended(*old(g), old(g).shape_of(x as int), seq![x, self.gamma, self.beta]),
            final(g).op_of(c as int) == (Op::LayerNorm {
                rows: rows_of(old(g).shape_of(x as int)) as usize,
                features: last_dim(old(g).shape_of(x as int)),
                eps_bits: self.eps_bits,
            }),
    {
        layernorm(g, x, self.gamma, self.beta, self.eps_bits)
    }
}

/// Batch normalization of a resident `[batch, channels, h, w]` input per
/// channel, with resident `gamma`, `beta` and running statistics, all
/// `[channels]`. The parents are the input, `gamma` and `beta`; the running
/// statistics are recorded in the operation, and in training the executor
/// updates them in place.
pub fn batchnorm2d(
    g: &mut Graph,
    input: NodeId,
    gamma: NodeId,
    beta: NodeId,
    running_mean: NodeId,
    running_var: NodeId,
    momentum_bits: u32,
    eps_bits: u32,
    training: bool,
) -> (c: NodeId)
    requires
        old(g).wf(),
        old(g).has(input as int),
        old(g).has(gamma as int),
        old(g).has(beta as int),
        old(g).has(running_mean as int),
        old(g).has(running_var as int),
        old(g).is_resident(input as int),
        old(g).is_resident(gamma as int),
        old(g).is_resident(beta as int),
        old(g).is_resident(running_mean as int),
        old(g).is_resident(running_var as int),
        old(g).shape_of(input as int).len() == 4,
        old(g).shape_of(input as int)[2] * old(g).shape_of(input as int)[3] <= usize::MAX,
        old(g).shape_of(gamma as int) == seq![old(g).shape_of(input as int)[1]],
        old(g).shape_of(beta as int) == seq![old(g).shape_of(input as int)[1]],
        old(g).shape_of(running_mean as int) == seq![old(g).shape_of(input as int)[1]],
        old(g).shape_of(running_var as int) == seq![old(g).shape_of(input as int)[1]],
    ensures
        final(g).wf(),
        c == old(g).size(),
        final(g).appended(*old(g), old(g).shape_of(input as int), seq![input, gamma, beta]),
        final(g).op_of(c as int) == (Op::BatchNorm2d {
            batch: old(g).shape_of(input as int)[0],
            channels: old(g).shape_of(input as int)[1],
            hw: (old(g).shape_of(input as int)[2] * old(g).shape_of(input as int)[3]) as usize,
            momentum_bits,
            eps_bits,
            training,
            running_mean,
            running_var,
        }),
{
    let s = g.shape(input);
    let batch = s[0];
    let channels = s[1];
    let hw = s[2] * s[3];
    let shape = copy_shape(s);
    let op = Op::BatchNorm2d { batch, channels, hw, momentum_bits, eps_bits, training, running_mean, running_var };
    let parents = vec![input, gamma, beta];
    proof {
        let nodes = g.nodes_view().push(Node { shape, op, parents, resident: true });
        assert(parent_shapes(nodes, g.size()) =~= seq![g.shape_of(input as int), g.shape_of(gamma as int), g.shape_of(beta as int)]);
        assert(node_ok(g.nodes_view(), input as int));
    }
    push_node(g, shape, op, parents)
}

} // verus!
