use vstd::prelude::*;

use crate::graph::{copy_shape, parent_shapes, push_node, Graph, Node, NodeId, Op};
use crate::shape::lemma_fits_two;

verus! {

/// An embedding table over a resident weight node `[vocab_size, embedding_dim]`.
pub struct Embedding {
    pub weight: NodeId,
    pub vocab_size: usize,
    pub embedding_dim: usize,
}

impl Embedding {
    /// Wraps a weight node `[vocab_size, embedding_dim]` as an embedding table.
    pub fn new(weight: NodeId, vocab_size: usize, embedding_dim: usize) -> (e: Embedding)
        ensures
            e.weight == weight,
            e.vocab_size == vocab_size,
            e.embedding_dim == embedding_dim,
    {
        Embedding { weight, vocab_size, embedding_dim }
    }

    /// Looks up the rows `indices` (token ids, each below the vocabulary size)
    /// of the weight: the result is `[indices.len(), embedding_dim]`.
    pub fn forward(&self, g: &mut Graph, indices: &Vec<usize>) -> (c: NodeId)
        requires
            old(g).wf(),
            old(g).has(self.weight as int),
            old(g).is_resident(self.weight as int),
            old(g).shape_of(self.weight as int) == seq![self.vocab_size, self.embedding_dim],
            forall|j: int| 0 <= j < indices@.len() ==> #[trigger] indices@[j] < self.vocab_size,
            indices@.len() * self.embedding_dim <= usize::MAX,
        ensures
            final(g).wf(),
            c == old(g).size(),
            final(g).appended(*old(g), seq![indices@.len() as usize, self.embedding_dim], seq![self.weight]),
            final(g).op_of(c as int) is Embedding,
            final(g).op_of(c as int)->Embedding_indices@ == indices@,
            final(g).op_of(c as int)->Embedding_vocab == self.vocab_size,
            final(g).op_of(c as int)->Embedding_dim == self.embedding_dim,
    {
        let seq_len = indices.len();
        let dim = self.embedding_dim;
        let shape = vec![seq_len, dim];
        let op = Op::Embedding { indices: copy_shape(indices), vocab: self.vocab_size, dim };
        let parents = vec![self.weight];
        proof {
            let nodes = g.nodes_view().push(Node { shape, op, parents, resident: true });
            assert(parents@ =~= seq![self.weight]);
            assert(parent_shapes(nodes, g.size()) =~= seq![g.shape_of(self.weight as int)]);
            lemma_fits_two(seq_len, dim);
        }
        push_node(g, shape, op, parents)
    }
}

} // verus!
