use vstd::prelude::*;

verus! {

/// The one-hot row for class `label` of `classes`: `one` at the label,
/// `zero` elsewhere.
pub open spec fn one_hot_row<T>(label: int, classes: int, zero: T, one: T) -> Seq<T> {
    Seq::new(classes as nat, |i: int| if i == label { one } else { zero })
}

/// One-hot encoding of `label` among `classes` classes.
pub fn one_hot<T: Copy>(label: usize, classes: usize, zero: T, one: T) -> (r: Vec<T>)
    requires
        label < classes,
    ensures
        r@ == one_hot_row(label as int, classes as int, zero, one),
{
    let mut r: Vec<T> = Vec::new();
    let mut i: usize = 0;
    while i < classes
        invariant
            i <= classes,
            r@ == one_hot_row(label as int, i as int, zero, one),
        decreases classes - i,
    {
        if i == label {
            r.push(one);
        } else {
            r.push(zero);
        }
        i = i + 1;
        assert(r@ =~= one_hot_row(label as int, i as int, zero, one));
    }
    r
}

/// One-hot rows for every label, in order.
pub fn one_hot_all<T: Copy>(labels: &Vec<usize>, classes: usize, zero: T, one: T) -> (r: Vec<Vec<T>>)
    requires
        forall|i: int| 0 <= i < labels@.len() ==> #[trigger] labels@[i] < classes,
    ensures
        r@.len() == labels@.len(),
        forall|i: int| 0 <= i < labels@.len() ==> #[trigger] r@[i]@ == one_hot_row(labels@[i] as int, classes as int, zero, one),
{
    let mut r: Vec<Vec<T>> = Vec::new();
    let mut i: usize = 0;
    while i < labels.len()
        invariant
            i <= labels@.len(),
            forall|j: int| 0 <= j < labels@.len() ==> #[trigger] labels@[j] < classes,
            r@.len() == i,
            forall|j: int| 0 <= j < i ==> #[trigger] r@[j]@ == one_hot_row(labels@[j] as int, classes as int, zero, one),
        decreases labels.len() - i,
    {
        r.push(one_hot(labels[i], classes, zero, one));
        i = i + 1;
    }
    r
}

/// A one-hot row holds `one` exactly once, at the label, and `zero`
/// everywhere else; it has one entry per class.
pub proof fn lemma_one_hot_single(label: int, classes: int, zero: u8, one: u8, i: int)
    requires
        0 <= label < classes,
        0 <= i < classes,
        zero != one,
    ensures
        one_hot_row(label, classes, zero, one).len() == classes,
        (one_hot_row(label, classes, zero, one)[i] == one) <==> i == label,
{
}

} // verus!
