use vstd::prelude::*;

use crate::graph::{copy_shape, node_ok, parent_shapes, push_node, Graph, Node, NodeId, Op};
use crate::shape::{numel, shape_numel};

verus! {

/// Copies a mask.
fn copy_mask(m: &Vec<bool>) -> (r: Vec<bool>)
    ensures
        r@ == m@,
{
    let mut r: Vec<bool> = Vec::new();
    let mut i: usize = 0;
    while i < m.len()
        invariant
            i <= m.len(),
            r@ == m@.take(i as int),
        decreases m.len() - i,
    {
        r.push(m[i]);
        i = i + 1;
        assert(r@ =~= m@.take(i as int));
    }
    assert(m@.take(m.len() as int) =~= m@);
    r
}

/// Inverted dropout of a resident input. In training, element `i` survives
/// (scaled by `1 / (1 - p)`, `p` given by the bit pattern `p_bits`) exactly
/// when `keep[i]`, and a new node is recorded; the mask is drawn by the
/// caller, one entry per element. In evaluation the input itself is returned
/// and the graph is unchanged.
pub fn dropout(g: &mut Graph, input: NodeId, keep: &Vec<bool>, p_bits: u32, training: bool) -> (c: NodeId)
    requires
        old(g).wf(),
        old(g).has(input as int),
        training ==> old(g).is_resident(input as int),
        training ==> keep@.len() == numel(old(g).shape_of(input as int)),
    ensures
        final(g).wf(),
        !training ==> c == input && *final(g) == *old(g),
        training ==> c == old(g).size() && final(g).appended(*old(g), old(g).shape_of(input as int), seq![input]),
        training ==> final(g).op_of(c as int) is Dropout && final(g).op_of(c as int)->Dropout_keep@ == keep@
            && final(g).op_of(c as int)->Dropout_p_bits == p_bits,
{
    if !training {
        return input;
    }
    let shape = copy_shape(g.shape(input));
    let op = Op::Dropout { keep: copy_mask(keep), p_bits };
    let parents = vec![input];
    proof {
        let nodes = g.nodes_view().push(Node { shape, op, parents, resident: true });
        assert(parents@ =~= seq![input]);
        assert(parent_shapes(nodes, g.size()) =~= seq![g.shape_of(input as int)]);
        assert(node_ok(g.nodes_view(), input as int));
    }
    push_node(g, shape, op, parents)
}

/// Spatial dropout of a resident input `[batch, channels, h, w]`. In
/// training, the plane of sample/channel `i` survives (scaled by
/// `1 / (1 - p)`) exactly when `keep[i]`; the mask has one entry per
/// (sample, channel) and is drawn by the caller. In evaluation the input
/// itself is returned and the graph is unchanged.
pub fn dropout2d(g: &mut Graph, input: NodeId, keep: &Vec<bool>, p_bits: u32, training: bool) -> (c: NodeId)
    requires
        old(g).wf(),
        old(g).has(input as int),
        training ==> old(g).is_resident(input as int),
        training ==> old(g).shape_of(input as int).len() == 4,
        training ==> keep@.len() == old(g).shape_of(input as int)[0] * old(g).shape_of(input as int)[1],
        training ==> old(g).shape_of(input as int)[2] * old(g).shape_of(input as int)[3] <= usize::MAX,
    ensures
        final(g).wf(),
        !training ==> c == input && *final(g) == *old(g),
        training ==> c == old(g).size() && final(g).appended(*old(g), old(g).shape_of(input as int), seq![input]),
        training ==> final(g).op_of(c as int) is Dropout2d && final(g).op_of(c as int)->Dropout2d_keep@ == keep@
            && final(g).op_of(c as int)->Dropout2d_hw == old(g).shape_of(input as int)[2] * old(g).shape_of(input as int)[3]
            && final(g).op_of(c as int)->Dropout2d_p_bits == p_bits,
{
    if !training {
        return input;
    }
    let s = g.shape(input);
    let hw = s[2] * s[3];
    let shape = copy_shape(s);
    let op = Op::Dropout2d { keep: copy_mask(keep), hw, p_bits };
    let parents = vec![input];
    proof {
        let nodes = g.nodes_view().push(Node { shape, op, parents, resident: true });
        assert(parents@ =~= seq![input]);
        assert(parent_shapes(nodes, g.size()) =~= seq![g.shape_of(input as int)]);
        assert(node_ok(g.nodes_view(), input as int));
    }
    push_node(g, shape, op, parents)
}

} // verus!
