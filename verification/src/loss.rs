use vstd::prelude::*;

use crate::graph::{Graph, NodeId};

verus! {

/// How a loss reads its prediction: a 2-D `[batch, classes]` node is a batch
/// of rows, any other is a single row whose first dimension is the class
/// count.
pub open spec fn batch_classes_of(s: Seq<usize>) -> (usize, usize) {
    if s.len() == 2 {
        (s[0], s[1])
    } else {
        (1, s[0])
    }
}

/// The batch size and class count of the prediction node `pred`.
pub fn batch_classes(g: &Graph, pred: NodeId) -> (r: (usize, usize))
    requires
        g.has(pred as int),
        g.shape_of(pred as int).len() >= 1,
    ensures
        r == batch_classes_of(g.shape_of(pred as int)),
{
    let s = g.shape(pred);
    if s.len() == 2 {
        (s[0], s[1])
    } else {
        (1, s[0])
    }
}

} // verus!
