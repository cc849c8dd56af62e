use vstd::prelude::*;

use crate::shape::{
    fits, lemma_fits_four, lemma_fits_shrink_last, lemma_fits_take, lemma_fits_three, lemma_fits_total,
    lemma_fits_two, lemma_fits_push, lemma_numel_push, lemma_numel_nonneg, numel, shape_numel,
    lemma_swap_last_two, lemma_rows,
};

verus! {

/// Index of a node in a [`Graph`].
pub type NodeId = usize;

/// A scalar factor applied by a `Scale` node. The factor is either given by
/// the bit pattern of a 32-bit float, or as `1 / sqrt(d)` for an integer `d`
/// (the attention scaling), which the executor evaluates.
#[derive(Clone, Copy, Debug, PartialEq, Eq, Structural)]
pub enum ScaleFactor {
    Bits(u32),
    InvSqrt(usize),
}

/// Dimensions of a 2-D convolution: input `[n, c_in, in_h, in_w]`, weight
/// `[c_out, c_in, kh, kw]`, output `[n, c_out, out_h, out_w]`.
#[derive(Clone, Copy, Debug, PartialEq, Eq, Structural)]
pub struct ConvDims {
    pub n: usize,
    pub c_in: usize,
    pub in_h: usize,
    pub in_w: usize,
    pub c_out: usize,
    pub kh: usize,
    pub kw: usize,
    pub stride: usize,
    pub pad: usize,
    pub out_h: usize,
    pub out_w: usize,
}

/// Dimensions of a 2-D pooling: input `[n, c, in_h, in_w]`, square windows
/// of side `kernel` stepped by `stride`, output `[n, c, out_h, out_w]`.
#[derive(Clone, Copy, Debug, PartialEq, Eq, Structural)]
pub struct PoolDims {
    pub n: usize,
    pub c: usize,
    pub in_h: usize,
    pub in_w: usize,
    pub kernel: usize,
    pub stride: usize,
    pub out_h: usize,
    pub out_w: usize,
}

/// The operation that produced a node, with every integer dimension its
/// kernels need. Floating-point hyperparameters are carried as the bit
/// patterns of 32-bit floats.
#[derive(Debug)]
pub enum Op {
    /// Data supplied by the caller.
    Leaf,
    /// Element-wise sum of two operands with the same element count.
    Add,
    /// `[rows, cols] + [cols]`, the bias broadcast over the rows.
    AddBias { rows: usize, cols: usize },
    Sub,
    Mul,
    Div,
    MatMul { m: usize, k: usize, n: usize },
    Bmm { batch: usize, m: usize, k: usize, n: usize },
    /// Swaps the last two dimensions, batched over the leading ones.
    Transpose { batch: usize, rows: usize, cols: usize },
    Reshape,
    /// Columns `[start, end)` of the last dimension.
    SliceCols { rows: usize, total_cols: usize, start: usize, end: usize },
    /// Parents laid side by side along the last dimension.
    ConcatCols { rows: usize, total_cols: usize },
    Scale(ScaleFactor),
    /// Softmax over the last dimension.
    Softmax { rows: usize, width: usize },
    Relu,
    Gelu,
    Silu,
    Sigmoid,
    Tanh,
    /// Parents: input, weight, bias.
    Conv2d(ConvDims),
    MaxPool2d(PoolDims),
    AvgPool2d(PoolDims),
    /// Inverted dropout: element `i` survives (scaled by `1/(1-p)`) iff `keep[i]`.
    Dropout { keep: Vec<bool>, p_bits: u32 },
    /// Spatial dropout: plane `i / hw` survives iff `keep[i / hw]`.
    Dropout2d { keep: Vec<bool>, hw: usize, p_bits: u32 },
    /// Rows `indices` of the `[vocab, dim]` weight parent.
    Embedding { indices: Vec<usize>, vocab: usize, dim: usize },
    /// Parents: input, gamma, beta. Normalizes each row of the last dimension.
    LayerNorm { rows: usize, features: usize, eps_bits: u32 },
    /// Parents: input, gamma, beta. The running statistics are the nodes
    /// `running_mean` and `running_var`, which are not parents: the executor
    /// updates them in place in training, and they receive no gradient.
    BatchNorm {
        batch: usize,
        features: usize,
        momentum_bits: u32,
        eps_bits: u32,
        training: bool,
        running_mean: NodeId,
        running_var: NodeId,
    },
    /// As `BatchNorm`, per channel of a `[batch, channels, h, w]` input.
    BatchNorm2d {
        batch: usize,
        channels: usize,
        hw: usize,
        momentum_bits: u32,
        eps_bits: u32,
        training: bool,
        running_mean: NodeId,
        running_var: NodeId,
    },
}

/// One node of the graph: its shape, the operation that produced it, the
/// nodes it was computed from, and whether its data is resident on the device.
#[derive(Debug)]
pub struct Node {
    pub shape: Vec<usize>,
    pub op: Op,
    pub parents: Vec<NodeId>,
    pub resident: bool,
}

/// An autograd graph, kept in creation order: every node's parents come
/// before it, so the node order is a topological order.
pub struct Graph {
    nodes: Vec<Node>,
}

/// The last element of a non-empty shape.
pub open spec fn last_dim(s: Seq<usize>) -> usize {
    s[s.len() - 1]
}

/// `s` with its last dimension replaced by `w`.
pub open spec fn with_last(s: Seq<usize>, w: usize) -> Seq<usize> {
    s.update(s.len() - 1, w)
}

/// `s` with its last two dimensions swapped.
pub open spec fn swap_last_two(s: Seq<usize>) -> Seq<usize> {
    s.update(s.len() - 2, s[s.len() - 1]).update(s.len() - 1, s[s.len() - 2])
}

/// Sum of the last dimensions of the given shapes.
pub open spec fn sum_last(ps: Seq<Seq<usize>>) -> int
    decreases ps.len(),
{
    if ps.len() == 0 {
        0
    } else {
        sum_last(ps.drop_last()) + last_dim(ps.last())
    }
}

/// Output side of a convolution or pooling window sweep.
pub open spec fn sweep_out(input: int, kernel: int, stride: int) -> int {
    (input - kernel) / stride + 1
}

/// Sweeping windows of side `kernel` with step `stride` over `input` cells
/// places `sweep_out` windows: at least one, the last one ends inside the
/// input, and one more would not fit.
pub proof fn lemma_sweep_out_windows(input: int, kernel: int, stride: int)
    requires
        0 < kernel <= input,
        stride > 0,
    ensures
        sweep_out(input, kernel, stride) >= 1,
        (sweep_out(input, kernel, stride) - 1) * stride + kernel <= input,
        input < sweep_out(input, kernel, stride) * stride + kernel,
{
    let q = (input - kernel) / stride;
    let r = (input - kernel) % stride;
    vstd::arithmetic::div_mod::lemma_fundamental_div_mod(input - kernel, stride);
    vstd::arithmetic::div_mod::lemma_div_pos_is_pos(input - kernel, stride);
    assert(0 <= r < stride) by {
        vstd::arithmetic::div_mod::lemma_mod_pos_bound(input - kernel, stride);
    }
    assert((q + 1) * stride == q * stride + stride) by (nonlinear_arith);
}

/// The dimensions of a convolution are consistent and its im2col workspace
/// `[c_in * kh * kw, n * out_h * out_w]` can be addressed.
pub open spec fn conv_dims_ok(d: ConvDims) -> bool {
    &&& d.stride > 0
    &&& d.kh <= d.in_h + 2 * d.pad
    &&& d.kw <= d.in_w + 2 * d.pad
    &&& d.out_h == sweep_out(d.in_h + 2 * d.pad, d.kh as int, d.stride as int)
    &&& d.out_w == sweep_out(d.in_w + 2 * d.pad, d.kw as int, d.stride as int)
    &&& d.in_h + 2 * d.pad <= usize::MAX
    &&& d.in_w + 2 * d.pad <= usize::MAX
    &&& fits(seq![d.c_in, d.kh, d.kw, d.n, d.out_h, d.out_w])
    &&& fits(seq![d.n, d.c_out, d.out_h, d.out_w])
}

/// The dimensions of a pooling are consistent.
pub open spec fn pool_dims_ok(d: PoolDims) -> bool {
    &&& d.stride > 0
    &&& d.kernel > 0
    &&& d.kernel <= d.in_h
    &&& d.kernel <= d.in_w
    &&& d.out_h == sweep_out(d.in_h as int, d.kernel as int, d.stride as int)
    &&& d.out_w == sweep_out(d.in_w as int, d.kernel as int, d.stride as int)
    &&& fits(seq![d.n, d.c, d.out_h, d.out_w])
}

/// Whether an operation with output shape `out` is consistent with the
/// shapes `ps` of its parents.
pub open spec fn op_typed(op: Op, out: Seq<usize>, ps: Seq<Seq<usize>>) -> bool {
    match op {
        Op::Leaf => ps.len() == 0,
        Op::Add | Op::Sub | Op::Mul | Op::Div => {
            &&& ps.len() == 2
            &&& out == ps[0]
            &&& numel(ps[1]) == numel(ps[0])
        },
        Op::AddBias { rows, cols } => {
            &&& ps.len() == 2
            &&& ps[0] == seq![rows, cols]
            &&& ps[1] == seq![cols]
            &&& out == ps[0]
        },
        Op::MatMul { m, k, n } => {
            &&& ps.len() == 2
            &&& ps[0] == seq![m, k]
            &&& ps[1] == seq![k, n]
            &&& out == seq![m, n]
        },
        Op::Bmm { batch, m, k, n } => {
            &&& ps.len() == 2
            &&& ps[0] == seq![batch, m, k]
            &&& ps[1] == seq![batch, k, n]
            &&& out == seq![batch, m, n]
        },
        Op::Transpose { batch, rows, cols } => {
            &&& ps.len() == 1
            &&& ps[0].len() >= 2
            &&& rows == ps[0][ps[0].len() - 2]
            &&& cols == ps[0][ps[0].len() - 1]
            &&& rows * cols > 0
            &&& batch * (rows * cols) == numel(ps[0])
            &&& out == swap_last_two(ps[0])
        },
        Op::Reshape => {
            &&& ps.len() == 1
            &&& numel(out) == numel(ps[0])
        },
        Op::SliceCols { rows, total_cols, start, end } => {
            &&& ps.len() == 1
            &&& ps[0].len() >= 1
            &&& total_cols == last_dim(ps[0])
            &&& total_cols > 0
            &&& rows * total_cols == numel(ps[0])
            &&& start <= end <= total_cols
            &&& out == with_last(ps[0], (end - start) as usize)
        },
        Op::ConcatCols { rows, total_cols } => {
            &&& ps.len() >= 1
            &&& forall|j: int| 0 <= j < ps.len() ==> (#[trigger] ps[j]).len() >= 1
            &&& forall|j: int| 0 <= j < ps.len() ==> numel(#[trigger] ps[j]) == rows * last_dim(ps[j])
            &&& last_dim(ps[0]) > 0
            &&& total_cols == sum_last(ps)
            &&& out == with_last(ps[0], total_cols)
        },
        Op::Scale(_) | Op::Relu | Op::Gelu | Op::Silu | Op::Sigmoid | Op::Tanh => {
            &&& ps.len() == 1
            &&& out == ps[0]
        },
        Op::Softmax { rows, width } => {
            &&& ps.len() == 1
            &&& ps[0].len() >= 1
            &&& width == last_dim(ps[0])
            &&& width > 0
            &&& rows * width == numel(ps[0])
            &&& out == ps[0]
        },
        Op::Conv2d(d) => {
            &&& ps.len() == 3
            &&& ps[0] == seq![d.n, d.c_in, d.in_h, d.in_w]
            &&& ps[1] == seq![d.c_out, d.c_in, d.kh, d.kw]
            &&& ps[2] == seq![d.c_out]
            &&& conv_dims_ok(d)
            &&& out == seq![d.n, d.c_out, d.out_h, d.out_w]
        },
        Op::MaxPool2d(d) | Op::AvgPool2d(d) => {
            &&& ps.len() == 1
            &&& ps[0] == seq![d.n, d.c, d.in_h, d.in_w]
            &&& pool_dims_ok(d)
            &&& out == seq![d.n, d.c, d.out_h, d.out_w]
        },
        Op::Dropout { keep, p_bits } => {
            &&& ps.len() == 1
            &&& keep@.len() == numel(ps[0])
            &&& out == ps[0]
        },
        Op::Dropout2d { keep, hw, p_bits } => {
            &&& ps.len() == 1
            &&& ps[0].len() == 4
            &&& hw == ps[0][2] * ps[0][3]
            &&& keep@.len() == ps[0][0] * ps[0][1]
            &&& out == ps[0]
        },
        Op::Embedding { indices, vocab, dim } => {
            &&& ps.len() == 1
            &&& ps[0] == seq![vocab, dim]
            &&& forall|j: int| 0 <= j < indices@.len() ==> #[trigger] indices@[j] < vocab
            &&& out == seq![indices@.len() as usize, dim]
        },
        Op::LayerNorm { rows, features, eps_bits } => {
            &&& ps.len() == 3
            &&& ps[0].len() >= 1
            &&& features == last_dim(ps[0])
            &&& features > 0
            &&& rows * features == numel(ps[0])
            &&& ps[1] == seq![features]
            &&& ps[2] == seq![features]
            &&& out == ps[0]
        },
        Op::BatchNorm { batch, features, .. } => {
            &&& ps.len() == 3
            &&& ps[0] == seq![batch, features]
            &&& ps[1] == seq![features]
            &&& ps[2] == seq![features]
            &&& out == ps[0]
        },
        Op::BatchNorm2d { batch, channels, hw, .. } => {
            &&& ps.len() == 3
            &&& ps[0].len() == 4
            &&& ps[0][0] == batch
            &&& ps[0][1] == channels
            &&& hw == ps[0][2] * ps[0][3]
            &&& ps[1] == seq![channels]
            &&& ps[2] == seq![channels]
            &&& out == ps[0]
        },
    }
}

/// Shapes of the parents of node `i`.
pub open spec fn parent_shapes(nodes: Seq<Node>, i: int) -> Seq<Seq<usize>> {
    nodes[i].parents@.map_values(|p: usize| nodes[p as int].shape@)
}

/// Node `s` is a resident running statistic of `n` values created before
/// node `i`.
pub open spec fn stat_ok(nodes: Seq<Node>, i: int, s: NodeId, n: usize) -> bool {
    &&& s < i
    &&& nodes[s as int].shape@ == seq![n]
    &&& nodes[s as int].resident
}

/// The running statistics that a batch-normalization node `i` refers to are
/// well formed.
pub open spec fn stats_ok(nodes: Seq<Node>, i: int) -> bool {
    match nodes[i].op {
        Op::BatchNorm { features, running_mean, running_var, .. } => {
            stat_ok(nodes, i, running_mean, features) && stat_ok(nodes, i, running_var, features)
        },
        Op::BatchNorm2d { channels, running_mean, running_var, .. } => {
            stat_ok(nodes, i, running_mean, channels) && stat_ok(nodes, i, running_var, channels)
        },
        _ => true,
    }
}

/// Node `i` is well formed: its element count can be computed, its parents
/// come before it, its shape agrees with its operation, and the running
/// statistics it refers to are well formed.
pub open spec fn node_ok(nodes: Seq<Node>, i: int) -> bool {
    &&& fits(nodes[i].shape@)
    &&& forall|j: int| 0 <= j < nodes[i].parents@.len() ==> #[trigger] nodes[i].parents@[j] < i
    &&& op_typed(nodes[i].op, nodes[i].shape@, parent_shapes(nodes, i))
    &&& stats_ok(nodes, i)
    &&& !(nodes[i].op is Leaf) ==> nodes[i].resident
}

impl Graph {
    /// The nodes, in creation order.
    pub closed spec fn nodes_view(&self) -> Seq<Node> {
        self.nodes@
    }

    pub open spec fn size(&self) -> int {
        self.nodes_view().len() as int
    }

    pub open spec fn has(&self, i: int) -> bool {
        0 <= i < self.size()
    }

    pub open spec fn shape_of(&self, i: int) -> Seq<usize> {
        self.nodes_view()[i].shape@
    }

    pub open spec fn parents_of(&self, i: int) -> Seq<usize> {
        self.nodes_view()[i].parents@
    }

    pub open spec fn op_of(&self, i: int) -> Op {
        self.nodes_view()[i].op
    }

    pub open spec fn is_resident(&self, i: int) -> bool {
        self.nodes_view()[i].resident
    }

    /// Every node is well formed.
    pub open spec fn wf(&self) -> bool {
        forall|i: int| 0 <= i < self.size() ==> #[trigger] node_ok(self.nodes_view(), i)
    }

    /// `self` holds every node of `old`, unchanged, possibly followed by more.
    pub open spec fn extends(&self, old: Graph) -> bool {
        &&& self.size() >= old.size()
        &&& forall|i: int| 0 <= i < old.size() ==> #[trigger] self.nodes_view()[i] == old.nodes_view()[i]
    }

    /// `self` is `old` with one resident node appended, of the given shape
    /// and parents.
    pub open spec fn appended(&self, old: Graph, shape: Seq<usize>, parents: Seq<usize>) -> bool {
        &&& self.size() == old.size() + 1
        &&& self.extends(old)
        &&& self.shape_of(old.size()) == shape
        &&& self.parents_of(old.size()) == parents
        &&& self.is_resident(old.size())
    }

    /// An empty graph.
    pub fn new() -> (g: Graph)
        ensures
            g.wf(),
            g.size() == 0,
    {
        Graph { nodes: Vec::new() }
    }

    /// Number of nodes.
    pub fn len(&self) -> (n: usize)
        ensures
            n == self.size(),
    {
        self.nodes.len()
    }

    /// The node with the given id.
    pub fn node(&self, id: NodeId) -> (n: &Node)
        requires
            self.has(id as int),
        ensures
            *n == self.nodes_view()[id as int],
    {
        &self.nodes[id]
    }

    /// The shape of the node with the given id.
    pub fn shape(&self, id: NodeId) -> (s: &Vec<usize>)
        requires
            self.has(id as int),
        ensures
            s@ == self.shape_of(id as int),
    {
        &self.nodes[id].shape
    }
}

proof fn lemma_push_keeps_wf(nodes: Seq<Node>, x: Node)
    requires
        forall|i: int| 0 <= i < nodes.len() ==> #[trigger] node_ok(nodes, i),
        node_ok(nodes.push(x), nodes.len() as int),
    ensures
        forall|i: int| 0 <= i < nodes.len() + 1 ==> #[trigger] node_ok(nodes.push(x), i),
{
    let new = nodes.push(x);
    assert forall|i: int| 0 <= i < nodes.len() + 1 implies #[trigger] node_ok(new, i) by {
        if i < nodes.len() {
            assert(node_ok(nodes, i));
            assert(new[i] == nodes[i]);
            assert forall|j: int| 0 <= j < nodes[i].parents@.len() implies #[trigger] new[nodes[i].parents@[j] as int] == nodes[nodes[i].parents@[j] as int] by {
                assert(nodes[i].parents@[j] < i);
            }
            assert(parent_shapes(new, i) =~= parent_shapes(nodes, i));
        }
    }
}

/// Copies a shape.
pub fn copy_shape(s: &Vec<usize>) -> (r: Vec<usize>)
    ensures
        r@ == s@,
{
    let mut r: Vec<usize> = Vec::new();
    let mut i: usize = 0;
    while i < s.len()
        invariant
            i <= s.len(),
            r@ == s@.take(i as int),
        decreases s.len() - i,
    {
        r.push(s[i]);
        i = i + 1;
        assert(r@ =~= s@.take(i as int));
    }
    assert(s@.take(s.len() as int) =~= s@);
    r
}

/// Appends a resident node. The caller shows that the node is well formed.
pub(crate) fn push_node(g: &mut Graph, shape: Vec<usize>, op: Op, parents: Vec<NodeId>) -> (id: NodeId)
    requires
        old(g).wf(),
        node_ok(old(g).nodes_view().push(Node { shape, op, parents, resident: true }), old(g).size()),
    ensures
        final(g).wf(),
        id == old(g).size(),
        final(g).nodes_view() == old(g).nodes_view().push(Node { shape, op, parents, resident: true }),
        final(g).appended(*old(g), shape@, parents@),
{
    let id = g.nodes.len();
    proof {
        lemma_push_keeps_wf(g.nodes_view(), Node { shape, op, parents, resident: true });
    }
    g.nodes.push(Node { shape, op, parents, resident: true });
    id
}

/// Creates a leaf node of the given shape; its data is supplied by the
/// caller, on the host, until [`to_cuda`] moves it to the device.
pub fn leaf(g: &mut Graph, shape: Vec<usize>) -> (id: NodeId)
    requires
        old(g).wf(),
        fits(shape@),
    ensures
        final(g).wf(),
        id == old(g).size(),
        final(g).size() == old(g).size() + 1,
        final(g).extends(*old(g)),
        final(g).shape_of(id as int) == shape@,
        final(g).parents_of(id as int) == Seq::<usize>::empty(),
        final(g).op_of(id as int) is Leaf,
        !final(g).is_resident(id as int),
{
    let id = g.nodes.len();
    let node = Node { shape, op: Op::Leaf, parents: Vec::new(), resident: false };
    proof {
        assert(parent_shapes(g.nodes_view().push(node), id as int) =~= Seq::<Seq<usize>>::empty());
        lemma_push_keeps_wf(g.nodes_view(), node);
    }
    g.nodes.push(node);
    id
}

/// Moves a leaf's data onto the device: afterwards the node is resident.
/// Its shape and everything else in the graph are unchanged.
pub fn to_cuda(g: &mut Graph, id: NodeId)
    requires
        old(g).wf(),
        old(g).has(id as int),
        old(g).op_of(id as int) is Leaf,
    ensures
        final(g).wf(),
        final(g).size() == old(g).size(),
        final(g).nodes_view() == old(g).nodes_view().update(id as int, Node { resident: true, ..old(g).nodes_view()[id as int] }),
        final(g).is_resident(id as int),
        final(g).shape_of(id as int) == old(g).shape_of(id as int),
{
    g.nodes[id].resident = true;
    proof {
        assert forall|i: int| 0 <= i < g.size() implies #[trigger] node_ok(g.nodes_view(), i) by {
            assert(node_ok(old(g).nodes_view(), i));
            assert(parent_shapes(g.nodes_view(), i) =~= parent_shapes(old(g).nodes_view(), i));
        }
    }
}

/// Whether `add` broadcasts: a 1-D `[features]` operand added to a 2-D
/// `[batch, features]` one.
pub open spec fn is_bias_broadcast(a: Seq<usize>, b: Seq<usize>) -> bool {
    a.len() == 2 && b.len() == 1 && a[1] == b[0]
}

/// Element-wise `a + b` of two resident nodes; the result has `a`'s shape.
/// A 1-D bias `[features]` added to a 2-D `[batch, features]` input is
/// broadcast over the batch; otherwise both operands hold the same number of
/// elements.
pub fn add(g: &mut Graph, a: NodeId, b: NodeId) -> (c: NodeId)
    requires
        old(g).wf(),
        old(g).has(a as int),
        old(g).has(b as int),
        old(g).is_resident(a as int),
        old(g).is_resident(b as int),
        is_bias_broadcast(old(g).shape_of(a as int), old(g).shape_of(b as int))
            || numel(old(g).shape_of(a as int)) == numel(old(g).shape_of(b as int)),
    ensures
        final(g).wf(),
        c == old(g).size(),
        final(g).appended(*old(g), old(g).shape_of(a as int), seq![a, b]),
        is_bias_broadcast(old(g).shape_of(a as int), old(g).shape_of(b as int)) ==> final(g).op_of(c as int) == (Op::AddBias {
            rows: old(g).shape_of(a as int)[0],
            cols: old(g).shape_of(a as int)[1],
        }),
        !is_bias_broadcast(old(g).shape_of(a as int), old(g).shape_of(b as int)) ==> final(g).op_of(c as int) is Add,
{
    let sa = g.shape(a);
    let sb = g.shape(b);
    let broadcast = sa.len() == 2 && sb.len() == 1 && sa[1] == sb[0];
    let shape = copy_shape(sa);
    let op = if broadcast {
        Op::AddBias { rows: sa[0], cols: sa[1] }
    } else {
        Op::Add
    };
    let parents = vec![a, b];
    proof {
        let x = Node { shape, op, parents, resident: true };
        let nodes = g.nodes_view().push(x);
        assert(parent_shapes(nodes, g.size()) =~= seq![g.shape_of(a as int), g.shape_of(b as int)]);
        assert(node_ok(g.nodes_view(), a as int));
        if broadcast {
            assert(g.shape_of(a as int) =~= seq![sa@[0], sa@[1]]);
            assert(g.shape_of(b as int) =~= seq![sa@[1]]);
        }
    }
    push_node(g, shape, op, parents)
}

/// Matrix product `[m, k] @ [k, n] -> [m, n]` of two resident nodes.
pub fn matmul(g: &mut Graph, a: NodeId, b: NodeId) -> (c: NodeId)
    requires
        old(g).wf(),
        old(g).has(a as int),
        old(g).has(b as int),
        old(g).is_resident(a as int),
        old(g).is_resident(b as int),
        old(g).shape_of(a as int).len() == 2,
        old(g).shape_of(b as int).len() == 2,
        old(g).shape_of(b as int)[0] == old(g).shape_of(a as int)[1],
        old(g).shape_of(a as int)[0] * old(g).shape_of(b as int)[1] <= usize::MAX,
    ensures
        final(g).wf(),
        c == old(g).size(),
        final(g).appended(*old(g), seq![old(g).shape_of(a as int)[0], old(g).shape_of(b as int)[1]], seq![a, b]),
        final(g).op_of(c as int) == (Op::MatMul {
            m: old(g).shape_of(a as int)[0],
            k: old(g).shape_of(a as int)[1],
            n: old(g).shape_of(b as int)[1],
        }),
{
    let m = g.shape(a)[0];
    let k = g.shape(a)[1];
    let n = g.shape(b)[1];
    let shape = vec![m, n];
    let op = Op::MatMul { m, k, n };
    let parents = vec![a, b];
    proof {
        let x = Node { shape, op, parents, resident: true };
        let nodes = g.nodes_view().push(x);
        assert(parent_shapes(nodes, g.size()) =~= seq![g.shape_of(a as int), g.shape_of(b as int)]);
        assert(g.shape_of(a as int) =~= seq![m, k]);
        assert(g.shape_of(b as int) =~= seq![k, n]);
        lemma_fits_two(m, n);
    }
    push_node(g, shape, op, parents)
}

/// Builds an element-wise node over two operands with the same element
/// count; the result has `a`'s shape.
fn elementwise(g: &mut Graph, a: NodeId, b: NodeId, op: Op) -> (c: NodeId)
    requires
        old(g).wf(),
        old(g).has(a as int),
        old(g).has(b as int),
        old(g).is_resident(a as int),
        old(g).is_resident(b as int),
        numel(old(g).shape_of(a as int)) == numel(old(g).shape_of(b as int)),
        op is Add || op is Sub || op is Mul || op is Div,
    ensures
        final(g).wf(),
        c == old(g).size(),
        final(g).appended(*old(g), old(g).shape_of(a as int), seq![a, b]),
        final(g).op_of(c as int) == op,
{
    let shape = copy_shape(g.shape(a));
    let parents = vec![a, b];
    proof {
        let nodes = g.nodes_view().push(Node { shape, op, parents, resident: true });
        assert(parent_shapes(nodes, g.size()) =~= seq![g.shape_of(a as int), g.shape_of(b as int)]);
        assert(node_ok(g.nodes_view(), a as int));
    }
    push_node(g, shape, op, parents)
}

/// Element-wise `a - b` of two resident nodes with the same element count.
pub fn sub(g: &mut Graph, a: NodeId, b: NodeId) -> (c: NodeId)
    requires
        old(g).wf(),
        old(g).has(a as int),
        old(g).has(b as int),
        old(g).is_resident(a as int),
        old(g).is_resident(b as int),
        numel(old(g).shape_of(a as int)) == numel(old(g).shape_of(b as int)),
    ensures
        final(g).wf(),
        c == old(g).size(),
        final(g).appended(*old(g), old(g).shape_of(a as int), seq![a, b]),
        final(g).op_of(c as int) is Sub,
{
    elementwise(g, a, b, Op::Sub)
}

/// Element-wise product `a * b` of two resident nodes with the same element count.
pub fn mul(g: &mut Graph, a: NodeId, b: NodeId) -> (c: NodeId)
    requires
        old(g).wf(),
        old(g).has(a as int),
        old(g).has(b as int),
        old(g).is_resident(a as int),
        old(g).is_resident(b as int),
        numel(old(g).shape_of(a as int)) == numel(old(g).shape_of(b as int)),
    ensures
        final(g).wf(),
        c == old(g).size(),
        final(g).appended(*old(g), old(g).shape_of(a as int), seq![a, b]),
        final(g).op_of(c as int) is Mul,
{
    elementwise(g, a, b, Op::Mul)
}

/// Element-wise quotient `a / b` of two resident nodes with the same element count.
pub fn div(g: &mut Graph, a: NodeId, b: NodeId) -> (c: NodeId)
    requires
        old(g).wf(),
        old(g).has(a as int),
        old(g).has(b as int),
        old(g).is_resident(a as int),
        old(g).is_resident(b as int),
        numel(old(g).shape_of(a as int)) == numel(old(g).shape_of(b as int)),
    ensures
        final(g).wf(),
        c == old(g).size(),
        final(g).appended(*old(g), old(g).shape_of(a as int), seq![a, b]),
        final(g).op_of(c as int) is Div,
{
    elementwise(g, a, b, Op::Div)
}

/// Builds a shape-preserving node over one operand.
fn unary(g: &mut Graph, a: NodeId, op: Op) -> (c: NodeId)
    requires
        old(g).wf(),
        old(g).has(a as int),
        old(g).is_resident(a as int),
        op is Scale || op is Relu || op is Gelu || op is Silu || op is Sigmoid || op is Tanh,
    ensures
        final(g).wf(),
        c == old(g).size(),
        final(g).appended(*old(g), old(g).shape_of(a as int), seq![a]),
        final(g).op_of(c as int) == op,
{
    let shape = copy_shape(g.shape(a));
    let parents = vec![a];
    proof {
        let nodes = g.nodes_view().push(Node { shape, op, parents, resident: true });
        assert(parents@ =~= seq![a]);
        assert(parent_shapes(nodes, g.size()) =~= seq![g.shape_of(a as int)]);
        assert(node_ok(g.nodes_view(), a as int));
    }
    push_node(g, shape, op, parents)
}

/// `a` multiplied by a scalar factor.
pub fn scale(g: &mut Graph, a: NodeId, s: ScaleFactor) -> (c: NodeId)
    requires
        old(g).wf(),
        old(g).has(a as int),
        old(g).is_resident(a as int),
    ensures
        final(g).wf(),
        c == old(g).size(),
        final(g).appended(*old(g), old(g).shape_of(a as int), seq![a]),
        final(g).op_of(c as int) == Op::Scale(s),
{
    unary(g, a, Op::Scale(s))
}

/// `max(0, x)` element-wise.
pub fn relu(g: &mut Graph, a: NodeId) -> (c: NodeId)
    requires
        old(g).wf(),
        old(g).has(a as int),
        old(g).is_resident(a as int),
    ensures
        final(g).wf(),
        c == old(g).size(),
        final(g).appended(*old(g), old(g).shape_of(a as int), seq![a]),
        final(g).op_of(c as int) is Relu,
{
    unary(g, a, Op::Relu)
}

/// GELU (tanh approximation) element-wise.
pub fn gelu(g: &mut Graph, a: NodeId) -> (c: NodeId)
    requires
        old(g).wf(),
        old(g).has(a as int),
        old(g).is_resident(a as int),
    ensures
        final(g).wf(),
        c == old(g).size(),
        final(g).appended(*old(g), old(g).shape_of(a as int), seq![a]),
        final(g).op_of(c as int) is Gelu,
{
    unary(g, a, Op::Gelu)
}

/// SiLU `x * sigmoid(x)` element-wise.
pub fn silu(g: &mut Graph, a: NodeId) -> (c: NodeId)
    requires
        old(g).wf(),
        old(g).has(a as int),
        old(g).is_resident(a as int),
    ensures
        final(g).wf(),
        c == old(g).size(),
        final(g).appended(*old(g), old(g).shape_of(a as int), seq![a]),
        final(g).op_of(c as int) is Silu,
{
    unary(g, a, Op::Silu)
}

/// Logistic sigmoid element-wise.
pub fn sigmoid(g: &mut Graph, a: NodeId) -> (c: NodeId)
    requires
        old(g).wf(),
        old(g).has(a as int),
        old(g).is_resident(a as int),
    ensures
        final(g).wf(),
        c == old(g).size(),
        final(g).appended(*old(g), old(g).shape_of(a as int), seq![a]),
        final(g).op_of(c as int) is Sigmoid,
{
    unary(g, a, Op::Sigmoid)
}

/// Hyperbolic tangent element-wise.
pub fn tanh(g: &mut Graph, a: NodeId) -> (c: NodeId)
    requires
        old(g).wf(),
        old(g).has(a as int),
        old(g).is_resident(a as int),
    ensures
        final(g).wf(),
        c == old(g).size(),
        final(g).appended(*old(g), old(g).shape_of(a as int), seq![a]),
        final(g).op_of(c as int) is Tanh,
{
    unary(g, a, Op::Tanh)
}

/// Batched matrix product `[batch, m, k] x [batch, k, n] -> [batch, m, n]`.
pub fn bmm(g: &mut Graph, a: NodeId, b: NodeId) -> (c: NodeId)
    requires
        old(g).wf(),
        old(g).has(a as int),
        old(g).has(b as int),
        old(g).is_resident(a as int),
        old(g).is_resident(b as int),
        old(g).shape_of(a as int).len() == 3,
        old(g).shape_of(b as int).len() == 3,
        old(g).shape_of(b as int)[0] == old(g).shape_of(a as int)[0],
        old(g).shape_of(b as int)[1] == old(g).shape_of(a as int)[2],
        old(g).shape_of(a as int)[0] * old(g).shape_of(a as int)[1] <= usize::MAX,
        old(g).shape_of(a as int)[0] * old(g).shape_of(a as int)[1] * old(g).shape_of(b as int)[2] <= usize::MAX,
    ensures
        final(g).wf(),
        c == old(g).size(),
        final(g).appended(
            *old(g),
            seq![old(g).shape_of(a as int)[0], old(g).shape_of(a as int)[1], old(g).shape_of(b as int)[2]],
            seq![a, b],
        ),
        final(g).op_of(c as int) == (Op::Bmm {
            batch: old(g).shape_of(a as int)[0],
            m: old(g).shape_of(a as int)[1],
            k: old(g).shape_of(a as int)[2],
            n: old(g).shape_of(b as int)[2],
        }),
{
    let batch = g.shape(a)[0];
    let m = g.shape(a)[1];
    let k = g.shape(a)[2];
    let n = g.shape(b)[2];
    let shape = vec![batch, m, n];
    let op = Op::Bmm { batch, m, k, n };
    let parents = vec![a, b];
    proof {
        let nodes = g.nodes_view().push(Node { shape, op, parents, resident: true });
        assert(parent_shapes(nodes, g.size()) =~= seq![g.shape_of(a as int), g.shape_of(b as int)]);
        assert(g.shape_of(a as int) =~= seq![batch, m, k]);
        assert(g.shape_of(b as int) =~= seq![batch, k, n]);
        lemma_fits_three(batch, m, n);
    }
    push_node(g, shape, op, parents)
}

/// Transposes the last two dimensions of a resident node, batched over the
/// leading ones: `[..., rows, cols] -> [..., cols, rows]`.
pub fn transpose(g: &mut Graph, a: NodeId) -> (c: NodeId)
    requires
        old(g).wf(),
        old(g).has(a as int),
        old(g).is_resident(a as int),
        old(g).shape_of(a as int).len() >= 2,
        0 < last_two_product(old(g).shape_of(a as int)) <= usize::MAX,
    ensures
        final(g).wf(),
        c == old(g).size(),
        final(g).appended(*old(g), swap_last_two(old(g).shape_of(a as int)), seq![a]),
        final(g).op_of(c as int) == (Op::Transpose {
            batch: (numel(old(g).shape_of(a as int)) / last_two_product(old(g).shape_of(a as int))) as usize,
            rows: old(g).shape_of(a as int)[old(g).shape_of(a as int).len() - 2],
            cols: old(g).shape_of(a as int)[old(g).shape_of(a as int).len() - 1],
        }),
{
    let ghost sa = g.shape_of(a as int);
    proof {
        assert(node_ok(g.nodes_view(), a as int));
        lemma_swap_last_two(sa);
    }
    let s = g.shape(a);
    let nd = s.len();
    let rows = s[nd - 2];
    let cols = s[nd - 1];
    let len = shape_numel(s);
    let batch = len / (rows * cols);
    let mut shape = copy_shape(s);
    shape.set(nd - 2, cols);
    shape.set(nd - 1, rows);
    let op = Op::Transpose { batch, rows, cols };
    let parents = vec![a];
    proof {
        let nodes = g.nodes_view().push(Node { shape, op, parents, resident: true });
        assert(parents@ =~= seq![a]);
        assert(parent_shapes(nodes, g.size()) =~= seq![sa]);
        assert(shape@ =~= swap_last_two(sa));
        let q = numel(sa.take(nd - 2));
        lemma_numel_nonneg(sa.take(nd - 2));
        vstd::arithmetic::div_mod::lemma_div_multiples_vanish(q, (rows * cols) as int);
        vstd::arithmetic::mul::lemma_mul_is_commutative(q, (rows * cols) as int);
    }
    push_node(g, shape, op, parents)
}

/// Product of the last two dimensions.
pub open spec fn last_two_product(s: Seq<usize>) -> int {
    s[s.len() - 2] * s[s.len() - 1]
}

/// Reinterprets a resident node under `new_shape`, which holds the same
/// number of elements.
pub fn reshape(g: &mut Graph, a: NodeId, new_shape: Vec<usize>) -> (c: NodeId)
    requires
        old(g).wf(),
        old(g).has(a as int),
        old(g).is_resident(a as int),
        fits(new_shape@),
        numel(new_shape@) == numel(old(g).shape_of(a as int)),
    ensures
        final(g).wf(),
        c == old(g).size(),
        final(g).appended(*old(g), new_shape@, seq![a]),
        final(g).op_of(c as int) is Reshape,
{
    let op = Op::Reshape;
    let parents = vec![a];
    proof {
        let nodes = g.nodes_view().push(Node { shape: new_shape, op, parents, resident: true });
        assert(parents@ =~= seq![a]);
        assert(parent_shapes(nodes, g.size()) =~= seq![g.shape_of(a as int)]);
    }
    push_node(g, new_shape, op, parents)
}

/// Columns `[col_start, col_end)` of the last dimension of a resident node,
/// all rows: the last dimension becomes `col_end - col_start`.
pub fn slice_cols(g: &mut Graph, a: NodeId, col_start: usize, col_end: usize) -> (c: NodeId)
    requires
        old(g).wf(),
        old(g).has(a as int),
        old(g).is_resident(a as int),
        old(g).shape_of(a as int).len() >= 1,
        last_dim(old(g).shape_of(a as int)) > 0,
        col_start <= col_end <= last_dim(old(g).shape_of(a as int)),
    ensures
        final(g).wf(),
        c == old(g).size(),
        final(g).appended(*old(g), with_last(old(g).shape_of(a as int), (col_end - col_start) as usize), seq![a]),
        final(g).op_of(c as int) == (Op::SliceCols {
            rows: (numel(old(g).shape_of(a as int)) / last_dim(old(g).shape_of(a as int)) as int) as usize,
            total_cols: last_dim(old(g).shape_of(a as int)),
            start: col_start,
            end: col_end,
        }),
{
    let ghost sa = g.shape_of(a as int);
    proof {
        assert(node_ok(g.nodes_view(), a as int));
        lemma_fits_shrink_last(sa, (col_end - col_start) as usize);
        lemma_rows(sa);
    }
    let s = g.shape(a);
    let nd = s.len();
    let total_cols = s[nd - 1];
    let len = shape_numel(s);
    let rows = len / total_cols;
    let mut shape = copy_shape(s);
    shape.set(nd - 1, col_end - col_start);
    let op = Op::SliceCols { rows, total_cols, start: col_start, end: col_end };
    let parents = vec![a];
    proof {
        let nodes = g.nodes_view().push(Node { shape, op, parents, resident: true });
        assert(parents@ =~= seq![a]);
        assert(parent_shapes(nodes, g.size()) =~= seq![sa]);
    }
    push_node(g, shape, op, parents)
}

/// Softmax over the last dimension of a resident node.
pub fn softmax(g: &mut Graph, a: NodeId) -> (c: NodeId)
    requires
        old(g).wf(),
        old(g).has(a as int),
        old(g).is_resident(a as int),
        old(g).shape_of(a as int).len() >= 1,
        last_dim(old(g).shape_of(a as int)) > 0,
    ensures
        final(g).wf(),
        c == old(g).size(),
        final(g).appended(*old(g), old(g).shape_of(a as int), seq![a]),
        final(g).op_of(c as int) == (Op::Softmax {
            rows: (numel(old(g).shape_of(a as int)) / last_dim(old(g).shape_of(a as int)) as int) as usize,
            width: last_dim(old(g).shape_of(a as int)),
        }),
{
    let ghost sa = g.shape_of(a as int);
    proof {
        assert(node_ok(g.nodes_view(), a as int));
        lemma_rows(sa);
        lemma_fits_take(sa, sa.len() - 1);
        assert(sa.take(sa.len() - 1) =~= sa.drop_last());
        lemma_fits_total(sa.drop_last());
    }
    let s = g.shape(a);
    let width = s[s.len() - 1];
    let len = shape_numel(s);
    let rows = len / width;
    let shape = copy_shape(s);
    let op = Op::Softmax { rows, width };
    let parents = vec![a];
    proof {
        let nodes = g.nodes_view().push(Node { shape, op, parents, resident: true });
        assert(parents@ =~= seq![a]);
        assert(parent_shapes(nodes, g.size()) =~= seq![sa]);
    }
    push_node(g, shape, op, parents)
}

/// Shapes of the given nodes, in order.
pub open spec fn shapes_of(g: Graph, ids: Seq<usize>) -> Seq<Seq<usize>> {
    ids.map_values(|p: usize| g.shape_of(p as int))
}

/// Rows of a shape whose last dimension is nonzero: its element count
/// divided by the last dimension.
pub open spec fn rows_of(s: Seq<usize>) -> int {
    numel(s) / (last_dim(s) as int)
}

proof fn lemma_sum_last_prefix(ps: Seq<Seq<usize>>, k: int)
    requires
        0 <= k <= ps.len(),
        forall|j: int| 0 <= j < ps.len() ==> (#[trigger] ps[j]).len() >= 1,
    ensures
        0 <= sum_last(ps.take(k)) <= sum_last(ps),
    decreases ps.len(),
{
    if k == ps.len() {
        assert(ps.take(k) =~= ps);
        lemma_sum_last_nonneg(ps);
    } else {
        lemma_sum_last_prefix(ps.drop_last(), k);
        assert(ps.drop_last().take(k) =~= ps.take(k));
    }
}

proof fn lemma_sum_last_nonneg(ps: Seq<Seq<usize>>)
    ensures
        sum_last(ps) >= 0,
    decreases ps.len(),
{
    if ps.len() > 0 {
        lemma_sum_last_nonneg(ps.drop_last());
    }
}

/// Lays resident nodes side by side along their last dimension. All parts
/// share the number of rows of the first one, whose last dimension is
/// nonzero; the result has the first part's shape with the last dimension
/// replaced by the sum of the parts' last dimensions.
pub fn concat_cols(g: &mut Graph, parts: &Vec<NodeId>) -> (c: NodeId)
    requires
        old(g).wf(),
        parts@.len() >= 1,
        forall|j: int| 0 <= j < parts@.len() ==> old(g).has(#[trigger] parts@[j] as int),
        forall|j: int| 0 <= j < parts@.len() ==> old(g).is_resident(#[trigger] parts@[j] as int),
        forall|j: int| 0 <= j < parts@.len() ==> old(g).shape_of(#[trigger] parts@[j] as int).len() >= 1,
        last_dim(old(g).shape_of(parts@[0] as int)) > 0,
        forall|j: int| 0 <= j < parts@.len() ==> numel(old(g).shape_of(#[trigger] parts@[j] as int))
            == rows_of(old(g).shape_of(parts@[0] as int)) * last_dim(old(g).shape_of(parts@[j] as int)),
        sum_last(shapes_of(*old(g), parts@)) <= usize::MAX,
        rows_of(old(g).shape_of(parts@[0] as int)) * sum_last(shapes_of(*old(g), parts@)) <= usize::MAX,
    ensures
        final(g).wf(),
        c == old(g).size(),
        final(g).appended(
            *old(g),
            with_last(old(g).shape_of(parts@[0] as int), sum_last(shapes_of(*old(g), parts@)) as usize),
            parts@,
        ),
        final(g).op_of(c as int) == (Op::ConcatCols {
            rows: rows_of(old(g).shape_of(parts@[0] as int)) as usize,
            total_cols: sum_last(shapes_of(*old(g), parts@)) as usize,
        }),
{
    let ghost ps = shapes_of(*g, parts@);
    let ghost s0 = g.shape_of(parts@[0] as int);
    proof {
        assert forall|j: int| 0 <= j < ps.len() implies (#[trigger] ps[j]).len() >= 1 by {
            assert(ps[j] == g.shape_of(parts@[j] as int));
        }
    }
    let mut total: usize = 0;
    let mut j: usize = 0;
    while j < parts.len()
        invariant
            j <= parts@.len(),
            ps == shapes_of(*g, parts@),
            forall|i: int| 0 <= i < parts@.len() ==> g.has(#[trigger] parts@[i] as int),
            forall|i: int| 0 <= i < ps.len() ==> (#[trigger] ps[i]).len() >= 1,
            sum_last(ps) <= usize::MAX,
            total == sum_last(ps.take(j as int)),
        decreases parts.len() - j,
    {
        let s = g.shape(parts[j]);
        proof {
            assert(ps.take(j + 1).drop_last() =~= ps.take(j as int));
            assert(ps.take(j + 1).last() == ps[j as int]);
            lemma_sum_last_prefix(ps, j + 1);
        }
        total = total + s[s.len() - 1];
        j = j + 1;
    }
    proof {
        assert(ps.take(parts.len() as int) =~= ps);
    }
    let ghost g0 = *g;
    proof {
        assert(node_ok(g.nodes_view(), parts@[0] as int));
        lemma_rows(s0);
        lemma_fits_take(s0, s0.len() - 1);
        assert(s0.take(s0.len() - 1) =~= s0.drop_last());
        lemma_fits_total(s0.drop_last());
        lemma_fits_push(s0.drop_last(), total);
        assert(with_last(s0, total) =~= s0.drop_last().push(total));
    }
    let s = g.shape(parts[0]);
    let nd = s.len();
    let len = shape_numel(s);
    let rows = len / s[nd - 1];
    let mut shape = copy_shape(s);
    shape.set(nd - 1, total);
    let op = Op::ConcatCols { rows, total_cols: total };
    let parents = copy_shape(parts);
    proof {
        let nodes = g.nodes_view().push(Node { shape, op, parents, resident: true });
        assert(parent_shapes(nodes, g.size()) =~= ps);
        assert(shape@ =~= with_last(s0, total));
        assert forall|i: int| 0 <= i < parents@.len() implies #[trigger] parents@[i] < g.size() by {
            assert(g.has(parts@[i] as int));
        }
    }
    push_node(g, shape, op, parents)
}

/// Batch normalization of a resident `[batch, features]` input with resident
/// `gamma`, `beta` and running statistics, all `[features]`. The parents are
/// the input, `gamma` and `beta`; the running statistics are recorded in the
/// operation, and in training the executor updates them in place.
pub fn batchnorm(
    g: &mut Graph,
    input: NodeId,
    gamma: NodeId,
    beta: NodeId,
    running_mean: NodeId,
    running_var: NodeId,
    momentum_bits: u32,
    eps_bits: u32,
    training: bool,
) -> (c: NodeId)
    requires
        old(g).wf(),
        old(g).has(input as int),
        old(g).has(gamma as int),
        old(g).has(beta as int),
        old(g).has(running_mean as int),
        old(g).has(running_var as int),
        old(g).is_resident(input as int),
        old(g).is_resident(gamma as int),
        old(g).is_resident(beta as int),
        old(g).is_resident(running_mean as int),
        old(g).is_resident(running_var as int),
        old(g).shape_of(input as int).len() == 2,
        old(g).shape_of(gamma as int) == seq![old(g).shape_of(input as int)[1]],
        old(g).shape_of(beta as int) == seq![old(g).shape_of(input as int)[1]],
        old(g).shape_of(running_mean as int) == seq![old(g).shape_of(input as int)[1]],
        old(g).shape_of(running_var as int) == seq![old(g).shape_of(input as int)[1]],
    ensures
        final(g).wf(),
        c == old(g).size(),
        final(g).appended(*old(g), old(g).shape_of(input as int), seq![input, gamma, beta]),
        final(g).op_of(c as int) == (Op::BatchNorm {
            batch: old(g).shape_of(input as int)[0],
            features: old(g).shape_of(input as int)[1],
            momentum_bits,
            eps_bits,
            training,
            running_mean,
            running_var,
        }),
{
    let s = g.shape(input);
    let batch = s[0];
    let features = s[1];
    let shape = copy_shape(s);
    let op = Op::BatchNorm { batch, features, momentum_bits, eps_bits, training, running_mean, running_var };
    let parents = vec![input, gamma, beta];
    proof {
        let nodes = g.nodes_view().push(Node { shape, op, parents, resident: true });
        let ps = parent_shapes(nodes, g.size());
        assert(ps =~= seq![g.shape_of(input as int), g.shape_of(gamma as int), g.shape_of(beta as int)]);
        assert(ps[0] =~= seq![batch, features]);
        assert(node_ok(g.nodes_view(), input as int));
    }
    push_node(g, shape, op, parents)
}

impl Graph {
    /// Node `i` is a resident node produced by `op` from `parents`, with the
    /// given shape.
    pub open spec fn node_is(&self, i: int, op: Op, parents: Seq<usize>, shape: Seq<usize>) -> bool {
        &&& self.has(i)
        &&& self.op_of(i) == op
        &&& self.parents_of(i) == parents
        &&& self.shape_of(i) == shape
        &&& self.is_resident(i)
    }
}

/// A graph holds at most `usize::MAX` nodes, so every node index is a
/// `usize`.
pub proof fn lemma_size_fits(g: Graph)
    ensures
        g.size() <= usize::MAX,
{
    assert(g.nodes.len() == g.nodes@.len());
}

/// Extension is transitive.
pub proof fn lemma_extends_trans(a: Graph, b: Graph, c: Graph)
    requires
        b.extends(a),
        c.extends(b),
    ensures
        c.extends(a),
{
    assert forall|i: int| 0 <= i < a.size() implies #[trigger] c.nodes_view()[i] == a.nodes_view()[i] by {
        assert(c.nodes_view()[i] == b.nodes_view()[i]);
    }
}

/// The node order is a topological order: in a well-formed graph every
/// parent of a node was created before it.
pub proof fn lemma_parents_precede(g: Graph, i: int, k: int)
    requires
        g.wf(),
        g.has(i),
        0 <= k < g.parents_of(i).len(),
    ensures
        g.parents_of(i)[k] < i,
{
    assert(node_ok(g.nodes_view(), i));
}

/// Transposing twice gives back the original shape.
pub proof fn lemma_transpose_twice(s: Seq<usize>)
    requires
        s.len() >= 2,
    ensures
        swap_last_two(swap_last_two(s)) == s,
{
    assert(swap_last_two(swap_last_two(s)) =~= s);
}

/// The column at which each part of a concatenation starts: the sum of the
/// widths of the parts before it.
pub open spec fn part_offsets(ps: Seq<Seq<usize>>) -> Seq<int> {
    Seq::new(ps.len(), |i: int| sum_last(ps.take(i)))
}

/// The first output column of each part of the concatenation node `id`.
pub fn concat_offsets(g: &Graph, id: NodeId) -> (offsets: Vec<usize>)
    requires
        g.wf(),
        g.has(id as int),
        g.op_of(id as int) is ConcatCols,
    ensures
        offsets@.len() == g.parents_of(id as int).len(),
        forall|i: int| 0 <= i < offsets@.len() ==> #[trigger] offsets@[i] == part_offsets(
            parent_shapes(g.nodes_view(), id as int),
        )[i],
{
    let ghost ps = parent_shapes(g.nodes_view(), id as int);
    proof {
        assert(node_ok(g.nodes_view(), id as int));
    }
    let parents = &g.nodes[id].parents;
    let mut offsets: Vec<usize> = Vec::new();
    let mut acc: usize = 0;
    let mut i: usize = 0;
    while i < parents.len()
        invariant
            i <= parents@.len(),
            parents@ == g.parents_of(id as int),
            ps == parent_shapes(g.nodes_view(), id as int),
            ps.len() == parents@.len(),
            g.wf(),
            g.has(id as int),
            forall|j: int| 0 <= j < ps.len() ==> (#[trigger] ps[j]).len() >= 1,
            forall|j: int| 0 <= j < parents@.len() ==> #[trigger] parents@[j] < id,
            sum_last(ps) <= usize::MAX,
            acc == sum_last(ps.take(i as int)),
            offsets@.len() == i,
            forall|j: int| 0 <= j < i ==> #[trigger] offsets@[j] == sum_last(ps.take(j)),
        decreases parents.len() - i,
    {
        offsets.push(acc);
        let s = &g.nodes[parents[i]].shape;
        proof {
            assert(ps[i as int] == s@);
            assert(ps.take(i + 1).drop_last() =~= ps.take(i as int));
            assert(ps.take(i + 1).last() == ps[i as int]);
            lemma_sum_last_prefix(ps, i + 1);
        }
        acc = acc + s[s.len() - 1];
        i = i + 1;
    }
    offsets
}

/// The parts of a concatenation tile its columns: part `i` occupies the
/// columns from its offset up to the next part's offset, and the last part
/// ends at the total width.
pub proof fn lemma_concat_tiles(ps: Seq<Seq<usize>>, i: int)
    requires
        0 <= i < ps.len(),
        forall|j: int| 0 <= j < ps.len() ==> (#[trigger] ps[j]).len() >= 1,
    ensures
        part_offsets(ps)[i] + last_dim(ps[i]) == (if i + 1 < ps.len() {
            part_offsets(ps)[i + 1]
        } else {
            sum_last(ps)
        }),
        0 <= part_offsets(ps)[i],
{
    assert(ps.take(i + 1).drop_last() =~= ps.take(i));
    assert(ps.take(i + 1).last() == ps[i]);
    if i + 1 == ps.len() {
        assert(ps.take(i + 1) =~= ps);
    }
    lemma_sum_last_prefix(ps, i);
}

/// Slicing undoes concatenation: the columns of part `i` of a
/// concatenation (from its offset to its offset plus its width) lie inside
/// the concatenated width, and slicing them out gives back part `i`'s shape
/// whenever that part has the leading dimensions of the first part.
pub proof fn lemma_slice_of_concat(ps: Seq<Seq<usize>>, i: int)
    requires
        0 <= i < ps.len(),
        forall|j: int| 0 <= j < ps.len() ==> (#[trigger] ps[j]).len() >= 1,
        ps[i].drop_last() == ps[0].drop_last(),
    ensures
        0 <= part_offsets(ps)[i],
        part_offsets(ps)[i] + last_dim(ps[i]) <= sum_last(ps),
        with_last(with_last(ps[0], sum_last(ps) as usize), last_dim(ps[i])) == ps[i],
{
    lemma_concat_tiles(ps, i);
    if i + 1 < ps.len() {
        lemma_sum_last_prefix(ps, i + 1);
    }
    let n = ps[0].len();
    let a = ps[i];
    let b = ps[0];
    assert(a.len() >= 1 && b.len() >= 1);
    assert(a.drop_last().len() == a.len() - 1);
    assert(b.drop_last().len() == b.len() - 1);
    assert(a.len() == n);
    assert forall|k: int| 0 <= k < n - 1 implies a[k] == b[k] by {
        assert(a.drop_last()[k] == a[k]);
        assert(b.drop_last()[k] == b[k]);
    }
    assert(with_last(with_last(ps[0], sum_last(ps) as usize), last_dim(ps[i])) =~= ps[i]);
}

} // verus!
