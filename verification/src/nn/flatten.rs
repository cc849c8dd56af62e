use vstd::prelude::*;

use crate::graph::{reshape, Graph, NodeId, Op};
use crate::shape::{fits, lemma_fits_total, lemma_fits_two, lemma_numel_first, numel, shape_numel};

verus! {

/// Flattens `[n, ...]` to `[n, rest]`: keeps the batch dimension and
/// collapses the others (a reshape).
pub fn flatten(g: &mut Graph, x: NodeId) -> (c: NodeId)
    requires
        old(g).wf(),
        old(g).has(x as int),
        old(g).is_resident(x as int),
        old(g).shape_of(x as int).len() >= 1,
        fits(old(g).shape_of(x as int).skip(1)),
    ensures
        final(g).wf(),
        c == old(g).size(),
        final(g).appended(
            *old(g),
            seq![old(g).shape_of(x as int)[0], numel(old(g).shape_of(x as int).skip(1)) as usize],
            seq![x],
        ),
        final(g).op_of(c as int) is Reshape,
{
    let ghost sx = g.shape_of(x as int);
    let s = g.shape(x);
    let n = s[0];
    let mut rest_dims: Vec<usize> = Vec::new();
    let mut i: usize = 1;
    while i < s.len()
        invariant
            1 <= i <= s@.len(),
            s@ == sx,
            rest_dims@ == sx.skip(1).take(i - 1),
        decreases s.len() - i,
    {
        rest_dims.push(s[i]);
        i = i + 1;
        assert(rest_dims@ =~= sx.skip(1).take(i - 1));
    }
    assert(rest_dims@ =~= sx.skip(1));
    let rest = shape_numel(&rest_dims);
    proof {
        assert(crate::graph::node_ok(g.nodes_view(), x as int));
        lemma_numel_first(sx);
        lemma_fits_total(sx);
        lemma_fits_two(n, rest);
    }
    reshape(g, x, vec![n, rest])
}

} // verus!
