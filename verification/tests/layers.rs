use rstorch::graph::{leaf, to_cuda, Graph, NodeId, Op, ScaleFactor};
use rstorch::nn::attention::{attention, attention_batch};
use rstorch::nn::conv::conv2d;
use rstorch::nn::dropout::{dropout, dropout2d};
use rstorch::nn::embedding::Embedding;
use rstorch::nn::flatten::flatten;
use rstorch::nn::linear::Linear;
use rstorch::nn::lstm::LSTMCell;
use rstorch::nn::multihead::MultiHeadAttention;
use rstorch::nn::normalization::{batchnorm2d, layernorm, LayerNorm};
use rstorch::nn::pool::{avgpool2d, maxpool2d};
use rstorch::nn::positional::PositionalEncoding;
use rstorch::nn::rnn::RNNCell;
use rstorch::nn::self_attention::SelfAttention;
use rstorch::nn::transformer::TransformerBlock;

fn resident(g: &mut Graph, shape: Vec<usize>) -> NodeId {
    let id = leaf(g, shape);
    to_cuda(g, id);
    id
}

#[test]
fn conv2d_same_padding_keeps_the_spatial_size() {
    let mut g = Graph::new();
    let x = resident(&mut g, vec![1, 1, 5, 5]);
    let w = resident(&mut g, vec![2, 1, 3, 3]);
    let b = resident(&mut g, vec![2]);
    let c = conv2d(&mut g, x, w, b, 1, 1);
    assert_eq!(g.shape(c), &vec![1, 2, 5, 5]);
    match &g.node(c).op {
        Op::Conv2d(d) => {
            assert_eq!((d.n, d.c_in, d.in_h, d.in_w), (1, 1, 5, 5));
            assert_eq!((d.c_out, d.kh, d.kw, d.stride, d.pad), (2, 3, 3, 1, 1));
            assert_eq!((d.out_h, d.out_w), (5, 5));
        },
        _ => panic!("expected a convolution"),
    }
}

#[test]
fn conv2d_strided_output_size() {
    let mut g = Graph::new();
    let x = resident(&mut g, vec![4, 3, 7, 5]);
    let w = resident(&mut g, vec![8, 3, 3, 3]);
    let b = resident(&mut g, vec![8]);
    let c = conv2d(&mut g, x, w, b, 2, 0);
    assert_eq!(g.shape(c), &vec![4, 8, 3, 2]);
}

#[test]
fn pooling_output_sizes() {
    let mut g = Graph::new();
    let x = resident(&mut g, vec![2, 3, 8, 6]);
    let m = maxpool2d(&mut g, x, 2, 2);
    let a = avgpool2d(&mut g, x, 3, 1);
    assert_eq!(g.shape(m), &vec![2, 3, 4, 3]);
    assert_eq!(g.shape(a), &vec![2, 3, 6, 4]);
    assert!(matches!(g.node(m).op, Op::MaxPool2d(_)));
    assert!(matches!(g.node(a).op, Op::AvgPool2d(_)));
}

#[test]
fn dropout_in_evaluation_returns_the_input() {
    let mut g = Graph::new();
    let x = resident(&mut g, vec![2, 2]);
    let before = g.len();
    let y = dropout(&mut g, x, &vec![], 0x3f000000, false);
    assert_eq!(y, x);
    assert_eq!(g.len(), before);
    let z = dropout2d(&mut g, x, &vec![], 0x3f000000, false);
    assert_eq!(z, x);
    assert_eq!(g.len(), before);
}

#[test]
fn dropout_in_training_records_the_mask() {
    let mut g = Graph::new();
    let x = resident(&mut g, vec![2, 2]);
    let keep = vec![true, false, false, true];
    let y = dropout(&mut g, x, &keep, 0x3f000000, true);
    assert_eq!(g.shape(y), &vec![2, 2]);
    match &g.node(y).op {
        Op::Dropout { keep: k, p_bits } => {
            assert_eq!(k, &keep);
            assert_eq!(*p_bits, 0x3f000000);
        },
        _ => panic!("expected dropout"),
    }
}

#[test]
fn dropout2d_masks_whole_planes() {
    let mut g = Graph::new();
    let x = resident(&mut g, vec![2, 3, 4, 5]);
    let keep = vec![true, false, true, true, false, true];
    let y = dropout2d(&mut g, x, &keep, 0x3e800000, true);
    assert_eq!(g.shape(y), &vec![2, 3, 4, 5]);
    assert!(matches!(&g.node(y).op, Op::Dropout2d { hw: 20, .. }));
}

#[test]
fn embedding_looks_up_one_row_per_token() {
    let mut g = Graph::new();
    let w = resident(&mut g, vec![10, 4]);
    let emb = Embedding::new(w, 10, 4);
    let out = emb.forward(&mut g, &vec![3, 0, 9]);
    assert_eq!(g.shape(out), &vec![3, 4]);
    match &g.node(out).op {
        Op::Embedding { indices, vocab, dim } => {
            assert_eq!(indices, &vec![3, 0, 9]);
            assert_eq!((*vocab, *dim), (10, 4));
        },
        _ => panic!("expected an embedding"),
    }
}

#[test]
fn flatten_keeps_the_batch() {
    let mut g = Graph::new();
    let x = resident(&mut g, vec![4, 3, 2, 5]);
    let f = flatten(&mut g, x);
    assert_eq!(g.shape(f), &vec![4, 30]);
}

#[test]
fn layernorm_counts_rows() {
    let mut g = Graph::new();
    let x = resident(&mut g, vec![2, 3, 8]);
    let gamma = resident(&mut g, vec![8]);
    let beta = resident(&mut g, vec![8]);
    let y = layernorm(&mut g, x, gamma, beta, 0x3727c5ac);
    assert_eq!(g.shape(y), &vec![2, 3, 8]);
    assert!(matches!(g.node(y).op, Op::LayerNorm { rows: 6, features: 8, eps_bits: 0x3727c5ac }));
    let ln = LayerNorm { gamma, beta, eps_bits: 0x3727c5ac };
    let z = ln.forward(&mut g, x);
    assert_eq!(g.node(z).parents, vec![x, gamma, beta]);
}

#[test]
fn batchnorm2d_per_channel() {
    let mut g = Graph::new();
    let x = resident(&mut g, vec![2, 3, 4, 4]);
    let p: Vec<NodeId> = (0..4).map(|_| resident(&mut g, vec![3])).collect();
    let y = batchnorm2d(&mut g, x, p[0], p[1], p[2], p[3], 0x3dcccccd, 0x3727c5ac, false);
    assert_eq!(g.shape(y), &vec![2, 3, 4, 4]);
    assert!(matches!(g.node(y).op, Op::BatchNorm2d { batch: 2, channels: 3, hw: 16, training: false, .. }));
    assert_eq!(g.node(y).parents, vec![x, p[0], p[1]]);
}

#[test]
fn linear_multiplies_then_adds_the_bias() {
    let mut g = Graph::new();
    let x = resident(&mut g, vec![5, 3]);
    let w = resident(&mut g, vec![3, 2]);
    let b = resident(&mut g, vec![2]);
    let l = Linear::new(w, b);
    let y = l.forward(&mut g, x);
    assert_eq!(y, g.len() - 1);
    assert_eq!(g.shape(y), &vec![5, 2]);
    assert!(matches!(g.node(y - 1).op, Op::MatMul { m: 5, k: 3, n: 2 }));
    assert!(matches!(g.node(y).op, Op::AddBias { rows: 5, cols: 2 }));
    assert_eq!(g.node(y).parents, vec![y - 1, b]);
}

#[test]
fn rnn_step_produces_the_next_hidden_state() {
    let mut g = Graph::new();
    let x = resident(&mut g, vec![4, 3]);
    let h = resident(&mut g, vec![4, 5]);
    let w_xh = resident(&mut g, vec![3, 5]);
    let w_hh = resident(&mut g, vec![5, 5]);
    let bias = resident(&mut g, vec![5]);
    let cell = RNNCell::new(w_xh, w_hh, bias, 3, 5);
    let start = g.len();
    let h2 = cell.step(&mut g, x, h);
    assert_eq!(h2, start + 4);
    assert_eq!(g.shape(h2), &vec![4, 5]);
    assert!(matches!(g.node(h2).op, Op::Tanh));
}

#[test]
fn lstm_step_shapes() {
    let mut g = Graph::new();
    let (batch, inp, hid) = (2, 3, 4);
    let x = resident(&mut g, vec![batch, inp]);
    let h = resident(&mut g, vec![batch, hid]);
    let c = resident(&mut g, vec![batch, hid]);
    let mut ids = Vec::new();
    for _ in 0..4 {
        ids.push(resident(&mut g, vec![inp, hid]));
        ids.push(resident(&mut g, vec![hid, hid]));
        ids.push(resident(&mut g, vec![hid]));
    }
    let cell = LSTMCell {
        w_f: ids[0], u_f: ids[1], b_f: ids[2],
        w_i: ids[3], u_i: ids[4], b_i: ids[5],
        w_o: ids[6], u_o: ids[7], b_o: ids[8],
        w_g: ids[9], u_g: ids[10], b_g: ids[11],
        input_size: inp,
        hidden_size: hid,
    };
    let start = g.len();
    let (h2, c2) = cell.step(&mut g, x, h, c);
    assert_eq!(g.len(), start + 25);
    assert_eq!((h2, c2), (start + 24, start + 22));
    assert_eq!(g.shape(h2), &vec![batch, hid]);
    assert_eq!(g.shape(c2), &vec![batch, hid]);
    assert!(matches!(g.node(c2).op, Op::Add));
    assert!(matches!(g.node(h2).op, Op::Mul));
}

#[test]
fn attention_output_shape_and_scaling() {
    let mut g = Graph::new();
    let q = resident(&mut g, vec![3, 4]);
    let k = resident(&mut g, vec![5, 4]);
    let v = resident(&mut g, vec![5, 6]);
    let start = g.len();
    let out = attention(&mut g, q, k, v);
    assert_eq!(out, start + 4);
    assert_eq!(g.shape(out), &vec![3, 6]);
    assert_eq!(g.shape(start + 1), &vec![3, 5]);
    assert!(matches!(g.node(start + 2).op, Op::Scale(ScaleFactor::InvSqrt(4))));
    assert!(matches!(g.node(start + 3).op, Op::Softmax { rows: 3, width: 5 }));
}

#[test]
fn batched_attention_output_shape() {
    let mut g = Graph::new();
    let q = resident(&mut g, vec![2, 3, 4]);
    let k = resident(&mut g, vec![2, 5, 4]);
    let v = resident(&mut g, vec![2, 5, 6]);
    let out = attention_batch(&mut g, q, k, v);
    assert_eq!(g.shape(out), &vec![2, 3, 6]);
    assert!(matches!(g.node(out).op, Op::Bmm { batch: 2, m: 3, k: 5, n: 6 }));
}

#[test]
fn self_attention_projects_then_attends() {
    let mut g = Graph::new();
    let x = resident(&mut g, vec![5, 8]);
    let w_q = resident(&mut g, vec![8, 4]);
    let w_k = resident(&mut g, vec![8, 4]);
    let w_v = resident(&mut g, vec![8, 4]);
    let sa = SelfAttention::new(w_q, w_k, w_v, 8, 4);
    let start = g.len();
    let out = sa.forward(&mut g, x);
    assert_eq!(out, start + 7);
    assert_eq!(g.shape(out), &vec![5, 4]);
}

fn square(g: &mut Graph, d: usize) -> NodeId {
    resident(g, vec![d, d])
}

#[test]
fn multihead_forward_keeps_the_model_width() {
    let mut g = Graph::new();
    let x = resident(&mut g, vec![5, 8]);
    let (w_q, w_k, w_v, w_o) = (square(&mut g, 8), square(&mut g, 8), square(&mut g, 8), square(&mut g, 8));
    let mha = MultiHeadAttention::new(w_q, w_k, w_v, w_o, 8, 2);
    let start = g.len();
    let out = mha.forward(&mut g, x);
    assert_eq!(g.len(), start + 3 + 8 * 2 + 2);
    assert_eq!(out, g.len() - 1);
    assert_eq!(g.shape(out), &vec![5, 8]);
    let cat = out - 1;
    assert!(matches!(g.node(cat).op, Op::ConcatCols { rows: 5, total_cols: 8 }));
    assert_eq!(g.node(cat).parents, vec![start + 3 + 7, start + 3 + 8 + 7]);
    assert!(matches!(g.node(start + 3).op, Op::SliceCols { rows: 5, total_cols: 8, start: 0, end: 4 }));
    assert!(matches!(g.node(start + 3 + 8).op, Op::SliceCols { rows: 5, total_cols: 8, start: 4, end: 8 }));
}

#[test]
fn multihead_forward_batch_keeps_the_shape() {
    let mut g = Graph::new();
    let x = resident(&mut g, vec![2, 5, 8]);
    let (w_q, w_k, w_v, w_o) = (square(&mut g, 8), square(&mut g, 8), square(&mut g, 8), square(&mut g, 8));
    let mha = MultiHeadAttention::new(w_q, w_k, w_v, w_o, 8, 4);
    let start = g.len();
    let out = mha.forward_batch(&mut g, x);
    assert_eq!(g.len(), start + 9 + 8 * 4 + 4);
    assert_eq!(out, g.len() - 1);
    assert_eq!(g.shape(out), &vec![2, 5, 8]);
    assert_eq!(g.shape(start), &vec![10, 8]);
    assert!(matches!(g.node(start + 9).op, Op::SliceCols { rows: 10, total_cols: 8, start: 0, end: 2 }));
}

fn block(g: &mut Graph, d_model: usize, d_ff: usize, heads: usize) -> TransformerBlock {
    let (w_q, w_k, w_v, w_o) = (square(g, d_model), square(g, d_model), square(g, d_model), square(g, d_model));
    let norm1 = LayerNorm { gamma: resident(g, vec![d_model]), beta: resident(g, vec![d_model]), eps_bits: 0x3727c5ac };
    let norm2 = LayerNorm { gamma: resident(g, vec![d_model]), beta: resident(g, vec![d_model]), eps_bits: 0x3727c5ac };
    let ff1 = Linear::new(resident(g, vec![d_model, d_ff]), resident(g, vec![d_ff]));
    let ff2 = Linear::new(resident(g, vec![d_ff, d_model]), resident(g, vec![d_model]));
    TransformerBlock {
        mha: MultiHeadAttention::new(w_q, w_k, w_v, w_o, d_model, heads),
        norm1,
        norm2,
        ff1,
        ff2,
        d_model,
        d_ff,
    }
}

#[test]
fn transformer_block_preserves_the_input_shape() {
    let mut g = Graph::new();
    let x = resident(&mut g, vec![2, 3, 8]);
    let t = block(&mut g, 8, 16, 2);
    let start = g.len();
    let out = t.forward(&mut g, x);
    let mha_nodes = 9 + 8 * 2 + 4;
    assert_eq!(g.len(), start + mha_nodes + 11);
    assert_eq!(out, g.len() - 1);
    assert_eq!(g.shape(out), &vec![2, 3, 8]);
    assert!(matches!(g.node(out).op, Op::LayerNorm { rows: 6, features: 8, .. }));
    assert_eq!(g.shape(start + mha_nodes + 4), &vec![6, 16]);
    assert!(matches!(g.node(start + mha_nodes + 5).op, Op::Relu));
}

#[test]
fn transformer_block_without_final_norm_ends_with_the_residual() {
    let mut g = Graph::new();
    let x = resident(&mut g, vec![1, 4, 8]);
    let t = block(&mut g, 8, 12, 4);
    let start = g.len();
    let out = t.forward_no_final_norm(&mut g, x);
    let mha_nodes = 9 + 8 * 4 + 4;
    assert_eq!(g.len(), start + mha_nodes + 10);
    assert_eq!(g.shape(out), &vec![1, 4, 8]);
    assert!(matches!(g.node(out).op, Op::Add));
    let x1 = start + mha_nodes + 1;
    assert_eq!(g.node(out).parents, vec![x1, out - 1]);
}

#[test]
fn positional_encoding_adds_a_resident_table_slice() {
    let mut g = Graph::new();
    let x = resident(&mut g, vec![3, 4]);
    let pe = PositionalEncoding::new(4, 10);
    let (table, out) = pe.forward(&mut g, x);
    assert_eq!(g.shape(table), &vec![3, 4]);
    assert!(g.node(table).resident);
    assert!(matches!(g.node(table).op, Op::Leaf));
    assert_eq!(g.shape(out), &vec![3, 4]);
    assert_eq!(g.node(out).parents, vec![x, table]);
}
