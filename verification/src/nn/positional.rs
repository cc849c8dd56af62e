use vstd::prelude::*;

use crate::graph::{leaf, to_cuda, Graph, NodeId, Op};
use crate::shape::{lemma_fits_two, numel};

verus! {

/// Sinusoidal positional encoding for sequences of up to `max_len`
/// positions of width `d_model`. The encoding table itself (`max_len`
/// rows of `d_model` values) is computed by the caller.
pub struct PositionalEncoding {
    pub d_model: usize,
    pub max_len: usize,
}

impl PositionalEncoding {
    pub fn new(d_model: usize, max_len: usize) -> (p: PositionalEncoding)
        ensures
            p == (PositionalEncoding { d_model, max_len }),
    {
        PositionalEncoding { d_model, max_len }
    }

    /// Adds the encoding of the first `seq` positions to a resident input
    /// whose first dimension is `seq` and which holds `seq * d_model`
    /// elements. Returns the new resident leaf `[seq, d_model]`, which the
    /// caller fills with the first `seq` rows of the table, and the sum,
    /// shaped like the input.
    pub fn forward(&self, g: &mut Graph, x: NodeId) -> (r: (NodeId, NodeId))
        requires
            old(g).wf(),
            old(g).has(x as int),
            old(g).is_resident(x as int),
            old(g).shape_of(x as int).len() >= 1,
            old(g).shape_of(x as int)[0] <= self.max_len,
            numel(old(g).shape_of(x as int)) == old(g).shape_of(x as int)[0] * self.d_model,
        ensures
            final(g).wf(),
            final(g).extends(*old(g)),
            final(g).size() == old(g).size() + 2,
            r.0 == old(g).size(),
            r.1 == old(g).size() + 1,
            final(g).node_is(r.0 as int, Op::Leaf, Seq::<usize>::empty(), seq![old(g).shape_of(x as int)[0], self.d_model]),
            final(g).node_is(r.1 as int, Op::Add, seq![x, r.0], old(g).shape_of(x as int)),
    {
        let seq_len = g.shape(x)[0];
        proof {
            assert(crate::graph::node_ok(g.nodes_view(), x as int));
            crate::shape::lemma_fits_total(g.shape_of(x as int));
            lemma_fits_two(seq_len, self.d_model);
        }
        let pe = leaf(g, vec![seq_len, self.d_model]);
        let ghost g1 = *g;
        to_cuda(g, pe);
        let ghost g2 = *g;
        proof {
            assert forall|i: int| 0 <= i < g1.size() - 1 implies #[trigger] g2.nodes_view()[i] == old(g).nodes_view()[i] by {
                assert(g1.nodes_view()[i] == old(g).nodes_view()[i]);
            }
            assert(g2.nodes_view()[pe as int].op == Op::Leaf);
        }
        let out = crate::graph::add(g, x, pe);
        proof {
            assert(g.nodes_view()[pe as int] == g2.nodes_view()[pe as int]);
            assert(g.nodes_view()[x as int] == old(g).nodes_view()[x as int]);
        }
        (pe, out)
    }
}

} // verus!
