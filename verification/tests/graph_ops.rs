use rstorch::backward::{backward_order, grad_targets};
use rstorch::graph::{
    add, batchnorm, bmm, concat_cols, concat_offsets, div, gelu, leaf, matmul, mul, relu, reshape, scale, sigmoid, silu, slice_cols,
    softmax, sub, tanh, to_cuda, transpose, Graph, NodeId, Op, ScaleFactor,
};
use rstorch::loss::batch_classes;

fn resident(g: &mut Graph, shape: Vec<usize>) -> NodeId {
    let id = leaf(g, shape);
    to_cuda(g, id);
    id
}

#[test]
fn new_graph_is_empty() {
    let g = Graph::new();
    assert_eq!(g.len(), 0);
}

#[test]
fn leaf_is_on_host_until_moved() {
    let mut g = Graph::new();
    let a = leaf(&mut g, vec![2, 3]);
    assert_eq!(a, 0);
    assert!(!g.node(a).resident);
    assert!(matches!(g.node(a).op, Op::Leaf));
    to_cuda(&mut g, a);
    assert!(g.node(a).resident);
    assert_eq!(g.shape(a), &vec![2, 3]);
    assert_eq!(g.len(), 1);
}

#[test]
fn matmul_shape_and_dims() {
    let mut g = Graph::new();
    let a = resident(&mut g, vec![2, 3]);
    let b = resident(&mut g, vec![3, 4]);
    let c = matmul(&mut g, a, b);
    assert_eq!(c, 2);
    assert_eq!(g.shape(c), &vec![2, 4]);
    assert!(matches!(g.node(c).op, Op::MatMul { m: 2, k: 3, n: 4 }));
    assert_eq!(g.node(c).parents, vec![a, b]);
    assert!(g.node(c).resident);
}

#[test]
fn add_broadcasts_a_bias_over_rows() {
    let mut g = Graph::new();
    let x = resident(&mut g, vec![5, 3]);
    let b = resident(&mut g, vec![3]);
    let c = add(&mut g, x, b);
    assert_eq!(g.shape(c), &vec![5, 3]);
    assert!(matches!(g.node(c).op, Op::AddBias { rows: 5, cols: 3 }));
}

#[test]
fn add_of_equal_counts_is_elementwise() {
    let mut g = Graph::new();
    let x = resident(&mut g, vec![2, 3]);
    let y = resident(&mut g, vec![3, 2]);
    let c = add(&mut g, x, y);
    assert_eq!(g.shape(c), &vec![2, 3]);
    assert!(matches!(g.node(c).op, Op::Add));
}

#[test]
fn elementwise_ops_keep_the_first_shape() {
    let mut g = Graph::new();
    let x = resident(&mut g, vec![4]);
    let y = resident(&mut g, vec![2, 2]);
    let s = sub(&mut g, x, y);
    let m = mul(&mut g, x, y);
    let d = div(&mut g, x, y);
    assert!(matches!(g.node(s).op, Op::Sub));
    assert!(matches!(g.node(m).op, Op::Mul));
    assert!(matches!(g.node(d).op, Op::Div));
    for id in [s, m, d] {
        assert_eq!(g.shape(id), &vec![4]);
        assert_eq!(g.node(id).parents, vec![x, y]);
    }
}

#[test]
fn unary_ops_keep_the_shape() {
    let mut g = Graph::new();
    let x = resident(&mut g, vec![3, 7]);
    let r = relu(&mut g, x);
    let ge = gelu(&mut g, x);
    let si = silu(&mut g, x);
    let sg = sigmoid(&mut g, x);
    let th = tanh(&mut g, x);
    let sc = scale(&mut g, x, ScaleFactor::Bits(0x3f000000));
    assert!(matches!(g.node(r).op, Op::Relu));
    assert!(matches!(g.node(ge).op, Op::Gelu));
    assert!(matches!(g.node(si).op, Op::Silu));
    assert!(matches!(g.node(sg).op, Op::Sigmoid));
    assert!(matches!(g.node(th).op, Op::Tanh));
    assert!(matches!(g.node(sc).op, Op::Scale(ScaleFactor::Bits(0x3f000000))));
    for id in [r, ge, si, sg, th, sc] {
        assert_eq!(g.shape(id), &vec![3, 7]);
    }
}

#[test]
fn transpose_twice_restores_the_shape() {
    let mut g = Graph::new();
    let x = resident(&mut g, vec![4, 2, 3]);
    let t = transpose(&mut g, x);
    assert_eq!(g.shape(t), &vec![4, 3, 2]);
    assert!(matches!(g.node(t).op, Op::Transpose { batch: 4, rows: 2, cols: 3 }));
    let tt = transpose(&mut g, t);
    assert_eq!(g.shape(tt), &vec![4, 2, 3]);
}

#[test]
fn bmm_multiplies_per_batch() {
    let mut g = Graph::new();
    let a = resident(&mut g, vec![2, 3, 4]);
    let b = resident(&mut g, vec![2, 4, 5]);
    let c = bmm(&mut g, a, b);
    assert_eq!(g.shape(c), &vec![2, 3, 5]);
    assert!(matches!(g.node(c).op, Op::Bmm { batch: 2, m: 3, k: 4, n: 5 }));
}

#[test]
fn reshape_keeps_the_element_count() {
    let mut g = Graph::new();
    let x = resident(&mut g, vec![2, 3, 4]);
    let r = reshape(&mut g, x, vec![6, 4]);
    assert_eq!(g.shape(r), &vec![6, 4]);
    assert!(matches!(g.node(r).op, Op::Reshape));
    let back = reshape(&mut g, r, vec![2, 3, 4]);
    assert_eq!(g.shape(back), g.shape(x));
}

#[test]
fn slices_concatenate_back_to_the_full_width() {
    let mut g = Graph::new();
    let x = resident(&mut g, vec![2, 3, 6]);
    let left = slice_cols(&mut g, x, 0, 2);
    let right = slice_cols(&mut g, x, 2, 6);
    assert_eq!(g.shape(left), &vec![2, 3, 2]);
    assert_eq!(g.shape(right), &vec![2, 3, 4]);
    assert!(matches!(g.node(right).op, Op::SliceCols { rows: 6, total_cols: 6, start: 2, end: 6 }));
    let cat = concat_cols(&mut g, &vec![left, right]);
    assert_eq!(g.shape(cat), &vec![2, 3, 6]);
    assert!(matches!(g.node(cat).op, Op::ConcatCols { rows: 6, total_cols: 6 }));
    assert_eq!(g.node(cat).parents, vec![left, right]);
}

#[test]
fn softmax_counts_rows_and_width() {
    let mut g = Graph::new();
    let x = resident(&mut g, vec![2, 5, 7]);
    let s = softmax(&mut g, x);
    assert_eq!(g.shape(s), &vec![2, 5, 7]);
    assert!(matches!(g.node(s).op, Op::Softmax { rows: 10, width: 7 }));
}

#[test]
fn batchnorm_records_running_statistics_as_parents() {
    let mut g = Graph::new();
    let x = resident(&mut g, vec![8, 4]);
    let gamma = resident(&mut g, vec![4]);
    let beta = resident(&mut g, vec![4]);
    let mean = resident(&mut g, vec![4]);
    let var = resident(&mut g, vec![4]);
    let c = batchnorm(&mut g, x, gamma, beta, mean, var, 0x3dcccccd, 0x3727c5ac, true);
    assert_eq!(g.shape(c), &vec![8, 4]);
    assert_eq!(g.node(c).parents, vec![x, gamma, beta]);
    match &g.node(c).op {
        Op::BatchNorm { batch, features, training, running_mean, running_var, .. } => {
            assert_eq!((*batch, *features, *training), (8, 4, true));
            assert_eq!((*running_mean, *running_var), (mean, var));
        },
        _ => panic!("expected batch normalization"),
    }
    let order = backward_order(&g, c);
    assert_eq!(order, vec![c, beta, gamma, x]);
}

#[test]
fn every_parent_precedes_its_node() {
    let mut g = Graph::new();
    let a = resident(&mut g, vec![2, 3]);
    let b = resident(&mut g, vec![3, 3]);
    let c = matmul(&mut g, a, b);
    let d = relu(&mut g, c);
    let e = add(&mut g, d, a);
    let _ = softmax(&mut g, e);
    for i in 0..g.len() {
        for &p in g.node(i).parents.iter() {
            assert!(p < i);
        }
    }
}

#[test]
fn backward_order_visits_dependencies_in_decreasing_order() {
    let mut g = Graph::new();
    let a = resident(&mut g, vec![2, 3]);
    let b = resident(&mut g, vec![3, 3]);
    let unused = resident(&mut g, vec![5]);
    let c = matmul(&mut g, a, b);
    let d = relu(&mut g, c);
    let e = add(&mut g, d, a);
    let order = backward_order(&g, e);
    assert_eq!(order, vec![e, d, c, b, a]);
    assert!(!order.contains(&unused));
}

#[test]
fn backward_order_of_a_leaf_is_the_leaf() {
    let mut g = Graph::new();
    let _ = resident(&mut g, vec![2]);
    let b = resident(&mut g, vec![2]);
    assert_eq!(backward_order(&g, b), vec![b]);
}

#[test]
fn batch_classes_reads_rows_or_a_single_row() {
    let mut g = Graph::new();
    let batched = resident(&mut g, vec![32, 10]);
    let single = resident(&mut g, vec![10]);
    assert_eq!(batch_classes(&g, batched), (32, 10));
    assert_eq!(batch_classes(&g, single), (1, 10));
}

#[test]
fn concat_offsets_are_running_widths() {
    let mut g = Graph::new();
    let a = resident(&mut g, vec![4, 2]);
    let b = resident(&mut g, vec![4, 3]);
    let c = resident(&mut g, vec![4, 1]);
    let cat = concat_cols(&mut g, &vec![a, b, c]);
    assert_eq!(g.shape(cat), &vec![4, 6]);
    assert_eq!(concat_offsets(&g, cat), vec![0, 2, 5]);
}

#[test]
fn slicing_a_concatenation_gives_back_its_parts() {
    let mut g = Graph::new();
    let a = resident(&mut g, vec![2, 3, 2]);
    let b = resident(&mut g, vec![2, 3, 4]);
    let cat = concat_cols(&mut g, &vec![a, b]);
    let offsets = concat_offsets(&g, cat);
    let sa = slice_cols(&mut g, cat, offsets[0], offsets[0] + 2);
    let sb = slice_cols(&mut g, cat, offsets[1], offsets[1] + 4);
    assert_eq!(g.shape(sa), g.shape(a));
    assert_eq!(g.shape(sb), g.shape(b));
}

#[test]
fn gradients_flow_to_every_parent_with_its_size() {
    let mut g = Graph::new();
    let x = resident(&mut g, vec![5, 3]);
    let bias = resident(&mut g, vec![3]);
    let c = add(&mut g, x, bias);
    assert_eq!(grad_targets(&g, c), vec![(x, 15), (bias, 3)]);
    assert_eq!(grad_targets(&g, x), vec![]);
}

#[test]
fn running_statistics_receive_no_gradient() {
    let mut g = Graph::new();
    let x = resident(&mut g, vec![8, 4]);
    let p: Vec<NodeId> = (0..4).map(|_| resident(&mut g, vec![4])).collect();
    let c = batchnorm(&mut g, x, p[0], p[1], p[2], p[3], 0x3dcccccd, 0x3727c5ac, true);
    assert_eq!(grad_targets(&g, c), vec![(x, 32), (p[0], 4), (p[1], 4)]);
}
