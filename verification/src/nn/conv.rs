use vstd::prelude::*;

use crate::graph::{copy_shape, node_ok, parent_shapes, push_node, ConvDims, Graph, Node, NodeId, Op, conv_dims_ok, sweep_out};
use crate::shape::{lemma_fits_four_bounds, numel};

verus! {

/// The convolution dimensions for an input `[n, c_in, in_h, in_w]`, a weight
/// `[c_out, c_in, kh, kw]`, a stride and a zero padding:
/// `out = (in + 2 * pad - k) / stride + 1` on each spatial axis.
pub open spec fn conv_dims_of(x: Seq<usize>, w: Seq<usize>, stride: usize, pad: usize) -> ConvDims {
    ConvDims {
        n: x[0],
        c_in: x[1],
        in_h: x[2],
        in_w: x[3],
        c_out: w[0],
        kh: w[2],
        kw: w[3],
        stride,
        pad,
        out_h: sweep_out(x[2] + 2 * pad, w[2] as int, stride as int) as usize,
        out_w: sweep_out(x[3] + 2 * pad, w[3] as int, stride as int) as usize,
    }
}

/// 2-D convolution of a resident input `[n, c_in, in_h, in_w]` with a
/// resident weight `[c_out, c_in, kh, kw]` and bias `[c_out]`, zero padding
/// `pad` and step `stride`; the output is `[n, c_out, out_h, out_w]`.
pub fn conv2d(g: &mut Graph, input: NodeId, weight: NodeId, bias: NodeId, stride: usize, pad: usize) -> (c: NodeId)
    requires
        old(g).wf(),
        old(g).has(input as int),
        old(g).has(weight as int),
        old(g).has(bias as int),
        old(g).is_resident(input as int),
        old(g).is_resident(weight as int),
        old(g).is_resident(bias as int),
        old(g).shape_of(input as int).len() == 4,
        old(g).shape_of(weight as int).len() == 4,
        old(g).shape_of(weight as int)[1] == old(g).shape_of(input as int)[1],
        old(g).shape_of(bias as int) == seq![old(g).shape_of(weight as int)[0]],
        conv_dims_ok(conv_dims_of(old(g).shape_of(input as int), old(g).shape_of(weight as int), stride, pad)),
    ensures
        final(g).wf(),
        c == old(g).size(),
        ({
            let d = conv_dims_of(old(g).shape_of(input as int), old(g).shape_of(weight as int), stride, pad);
            &&& final(g).appended(*old(g), seq![d.n, d.c_out, d.out_h, d.out_w], seq![input, weight, bias])
            &&& final(g).op_of(c as int) == Op::Conv2d(d)
        }),
{
    let ghost d0 = conv_dims_of(g.shape_of(input as int), g.shape_of(weight as int), stride, pad);
    let xs = g.shape(input);
    let ws = g.shape(weight);
    let n = xs[0];
    let c_in = xs[1];
    let in_h = xs[2];
    let in_w = xs[3];
    let c_out = ws[0];
    let kh = ws[2];
    let kw = ws[3];
    let out_h = (in_h + 2 * pad - kh) / stride + 1;
    let out_w = (in_w + 2 * pad - kw) / stride + 1;
    let d = ConvDims { n, c_in, in_h, in_w, c_out, kh, kw, stride, pad, out_h, out_w };
    assert(d == d0);
    let shape = vec![n, c_out, out_h, out_w];
    let op = Op::Conv2d(d);
    let parents = vec![input, weight, bias];
    proof {
        let nodes = g.nodes_view().push(Node { shape, op, parents, resident: true });
        let ps = parent_shapes(nodes, g.size());
        assert(ps =~= seq![g.shape_of(input as int), g.shape_of(weight as int), g.shape_of(bias as int)]);
        assert(ps[0] =~= seq![n, c_in, in_h, in_w]);
        assert(ps[1] =~= seq![c_out, c_in, kh, kw]);
        assert(shape@ =~= seq![n, c_out, out_h, out_w]);
    }
    push_node(g, shape, op, parents)
}

} // verus!
