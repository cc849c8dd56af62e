use vstd::prelude::*;

use crate::graph::{node_ok, parent_shapes, push_node, Graph, Node, NodeId, Op, PoolDims, pool_dims_ok, sweep_out};
use crate::shape::lemma_fits_four_shrink;

verus! {

/// The pooling dimensions for an input `[n, c, in_h, in_w]`, square windows
/// of side `kernel` and a step `stride`, no padding:
/// `out = (in - kernel) / stride + 1` on each spatial axis.
pub open spec fn pool_dims_of(x: Seq<usize>, kernel: usize, stride: usize) -> PoolDims {
    PoolDims {
        n: x[0],
        c: x[1],
        in_h: x[2],
        in_w: x[3],
        kernel,
        stride,
        out_h: sweep_out(x[2] as int, kernel as int, stride as int) as usize,
        out_w: sweep_out(x[3] as int, kernel as int, stride as int) as usize,
    }
}

/// The output side is at most the input side when windows are nonempty.
proof fn lemma_sweep_le(input: int, kernel: int, stride: int)
    requires
        0 < kernel <= input,
        stride > 0,
    ensures
        1 <= sweep_out(input, kernel, stride) <= input,
{
    vstd::arithmetic::div_mod::lemma_div_pos_is_pos(input - kernel, stride);
    vstd::arithmetic::div_mod::lemma_div_nonincreasing(input - kernel, stride);
}

/// Builds a pooling node; `is_max` selects max over average pooling.
fn pool2d(g: &mut Graph, input: NodeId, kernel: usize, stride: usize, is_max: bool) -> (c: NodeId)
    requires
        old(g).wf(),
        old(g).has(input as int),
        old(g).is_resident(input as int),
        old(g).shape_of(input as int).len() == 4,
        0 < kernel <= old(g).shape_of(input as int)[2],
        kernel <= old(g).shape_of(input as int)[3],
        stride > 0,
    ensures
        final(g).wf(),
        c == old(g).size(),
        ({
            let d = pool_dims_of(old(g).shape_of(input as int), kernel, stride);
            &&& final(g).appended(*old(g), seq![d.n, d.c, d.out_h, d.out_w], seq![input])
            &&& final(g).op_of(c as int) == (if is_max { Op::MaxPool2d(d) } else { Op::AvgPool2d(d) })
        }),
{
    let ghost xs0 = g.shape_of(input as int);
    let xs = g.shape(input);
    let n = xs[0];
    let ch = xs[1];
    let in_h = xs[2];
    let in_w = xs[3];
    proof {
        lemma_sweep_le(in_h as int, kernel as int, stride as int);
        lemma_sweep_le(in_w as int, kernel as int, stride as int);
    }
    let out_h = (in_h - kernel) / stride + 1;
    let out_w = (in_w - kernel) / stride + 1;
    let d = PoolDims { n, c: ch, in_h, in_w, kernel, stride, out_h, out_w };
    let shape = vec![n, ch, out_h, out_w];
    let op = if is_max { Op::MaxPool2d(d) } else { Op::AvgPool2d(d) };
    let parents = vec![input];
    proof {
        let nodes = g.nodes_view().push(Node { shape, op, parents, resident: true });
        let ps = parent_shapes(nodes, g.size());
        assert(parents@ =~= seq![input]);
        assert(ps =~= seq![xs0]);
        assert(xs0 =~= seq![n, ch, in_h, in_w]);
        assert(shape@ =~= seq![n, ch, out_h, out_w]);
        assert(node_ok(g.nodes_view(), input as int));
        lemma_fits_four_shrink(n, ch, in_h, in_w, out_h, out_w);
    }
    push_node(g, shape, op, parents)
}

/// 2-D max pooling of a resident input `[n, c, in_h, in_w]` over
/// `kernel x kernel` windows stepped by `stride`, no padding; the output is
/// `[n, c, out_h, out_w]`.
pub fn maxpool2d(g: &mut Graph, input: NodeId, kernel: usize, stride: usize) -> (c: NodeId)
    requires
        old(g).wf(),
        old(g).has(input as int),
        old(g).is_resident(input as int),
        old(g).shape_of(input as int).len() == 4,
        0 < kernel <= old(g).shape_of(input as int)[2],
        kernel <= old(g).shape_of(input as int)[3],
        stride > 0,
    ensures
        final(g).wf(),
        c == old(g).size(),
        ({
            let d = pool_dims_of(old(g).shape_of(input as int), kernel, stride);
            &&& final(g).appended(*old(g), seq![d.n, d.c, d.out_h, d.out_w], seq![input])
            &&& final(g).op_of(c as int) == Op::MaxPool2d(d)
        }),
{
    pool2d(g, input, kernel, stride, true)
}

/// 2-D average pooling of a resident input `[n, c, in_h, in_w]` over
/// `kernel x kernel` windows stepped by `stride`, no padding; the output is
/// `[n, c, out_h, out_w]`.
pub fn avgpool2d(g: &mut Graph, input: NodeId, kernel: usize, stride: usize) -> (c: NodeId)
    requires
        old(g).wf(),
        old(g).has(input as int),
        old(g).is_resident(input as int),
        old(g).shape_of(input as int).len() == 4,
        0 < kernel <= old(g).shape_of(input as int)[2],
        kernel <= old(g).shape_of(input as int)[3],
        stride > 0,
    ensures
        final(g).wf(),
        c == old(g).size(),
        ({
            let d = pool_dims_of(old(g).shape_of(input as int), kernel, stride);
            &&& final(g).appended(*old(g), seq![d.n, d.c, d.out_h, d.out_w], seq![input])
            &&& final(g).op_of(c as int) == Op::AvgPool2d(d)
        }),
{
    pool2d(g, input, kernel, stride, false)
}

} // verus!
