use vstd::prelude::*;

use rand::rngs::ThreadRng;
use rand::seq::SliceRandom;

verus! {

/// The thread-local random generator of `rand`, carried through opaquely.
#[verifier::external_type_specification]
#[verifier::external_body]
pub struct ExThreadRng(rand::rngs::ThreadRng);

/// `rand::thread_rng`: a handle to the lazily seeded thread-local generator.
/// Nothing is stated of it; seeding it from the operating system panics only
/// if that source of randomness fails.
#[verifier::external_body]
fn thread_rng() -> (r: ThreadRng) {
    rand::thread_rng()
}

/// `SliceRandom::shuffle`: a Fisher–Yates shuffle, which only swaps
/// elements, so the contents come out as a permutation of the input: the
/// same multiset of values. Which permutation comes out depends on the
/// generator's state and is not stated.
#[verifier::external_body]
fn shuffle_with(v: &mut Vec<usize>, rng: &mut ThreadRng)
    ensures
        final(v)@.to_multiset() == old(v)@.to_multiset(),
{
    v.shuffle(rng)
}

/// `order` visits each of `0 .. n` exactly once.
pub open spec fn is_order(order: Seq<usize>, n: int) -> bool {
    &&& order.len() == n
    &&& forall|i: int| 0 <= i < n ==> #[trigger] order[i] < n
    &&& order.no_duplicates()
}

/// The examples `start .. end` of `order`, each as the row of `data` that the
/// order names there.
pub open spec fn rows_in_order<T>(data: Seq<Vec<T>>, order: Seq<usize>, start: int, end: int) -> Seq<Seq<T>> {
    Seq::new((end - start) as nat, |i: int| data[order[start + i] as int]@)
}

/// First and one-past-last position (in the visiting order) of batch `b`.
pub open spec fn batch_bounds(n: int, batch_size: int, b: int) -> (int, int) {
    let start = b * batch_size;
    let end = if (b + 1) * batch_size < n { (b + 1) * batch_size } else { n };
    (start, end)
}

/// Mini-batches over a dataset of paired input and target rows, visited in
/// an order that [`DataLoader::shuffle`] permutes.
pub struct DataLoader<T> {
    pub inputs: Vec<Vec<T>>,
    pub targets: Vec<Vec<T>>,
    pub batch_size: usize,
    pub order: Vec<usize>,
}

impl<T: Copy> DataLoader<T> {
    /// As many targets as inputs, and the order visits every example once.
    pub open spec fn wf(&self) -> bool {
        &&& self.inputs@.len() == self.targets@.len()
        &&& is_order(self.order@, self.inputs@.len() as int)
    }

    /// A loader over paired inputs and targets, in their given order.
    pub fn new(inputs: Vec<Vec<T>>, targets: Vec<Vec<T>>, batch_size: usize) -> (d: DataLoader<T>)
        requires
            inputs@.len() == targets@.len(),
        ensures
            d.wf(),
            d.inputs@ == inputs@,
            d.targets@ == targets@,
            d.batch_size == batch_size,
            d.order@ == Seq::new(inputs@.len(), |i: int| i as usize),
    {
        let n = inputs.len();
        let mut order: Vec<usize> = Vec::new();
        let mut i: usize = 0;
        while i < n
            invariant
                i <= n,
                order@ == Seq::new(i as nat, |j: int| j as usize),
            decreases n - i,
        {
            order.push(i);
            i = i + 1;
            assert(order@ =~= Seq::new(i as nat, |j: int| j as usize));
        }
        DataLoader { inputs, targets, batch_size, order }
    }

    /// Number of examples.
    pub fn len(&self) -> (n: usize)
        ensures
            n == self.inputs@.len(),
    {
        self.inputs.len()
    }

    /// Number of batches, the last one possibly partial.
    pub fn num_batches(&self) -> (n: usize)
        requires
            self.batch_size > 0,
            self.inputs@.len() + self.batch_size - 1 <= usize::MAX,
        ensures
            n == (self.inputs@.len() + self.batch_size - 1) / (self.batch_size as int),
    {
        (self.inputs.len() + (self.batch_size - 1)) / self.batch_size
    }

    /// Draws a new visiting order, a random permutation of the current one;
    /// the data is untouched.
    pub fn shuffle(&mut self)
        requires
            old(self).wf(),
        ensures
            final(self).wf(),
            final(self).inputs == old(self).inputs,
            final(self).targets == old(self).targets,
            final(self).batch_size == old(self).batch_size,
            final(self).order@.to_multiset() == old(self).order@.to_multiset(),
    {
        let mut rng = thread_rng();
        let ghost before = self.order@;
        shuffle_with(&mut self.order, &mut rng);
        proof {
            lemma_order_permuted(before, self.order@, self.inputs@.len() as int);
        }
    }

    /// Batch `b`: the inputs and targets of the examples at positions
    /// `b * batch_size .. min((b + 1) * batch_size, len)` of the visiting
    /// order, each laid out row after row, and the number of examples.
    pub fn get_batch(&self, b: usize) -> (r: (Vec<T>, Vec<T>, usize))
        requires
            self.wf(),
            b * self.batch_size <= self.inputs@.len(),
            b < usize::MAX,
            (b + 1) * self.batch_size <= usize::MAX,
        ensures
            ({
                let (start, end) = batch_bounds(self.inputs@.len() as int, self.batch_size as int, b as int);
                &&& r.2 == end - start
                &&& r.0@ == rows_in_order(self.inputs@, self.order@, start, end).flatten()
                &&& r.1@ == rows_in_order(self.targets@, self.order@, start, end).flatten()
            }),
    {
        let n = self.inputs.len();
        let start = b * self.batch_size;
        let upper = (b + 1) * self.batch_size;
        proof {
            assert(upper >= start) by (nonlinear_arith)
                requires
                    upper == (b + 1) * self.batch_size,
                    start == b * self.batch_size,
            ;
        }
        let end = if upper < n {
            upper
        } else {
            n
        };
        let mut batch_in: Vec<T> = Vec::new();
        let mut batch_tgt: Vec<T> = Vec::new();
        let mut i: usize = start;
        proof {
            assert(rows_in_order(self.inputs@, self.order@, start as int, start as int) =~= Seq::<Seq<T>>::empty());
            assert(rows_in_order(self.targets@, self.order@, start as int, start as int) =~= Seq::<Seq<T>>::empty());
        }
        while i < end
            invariant
                self.wf(),
                start <= i <= end <= n,
                n == self.inputs@.len(),
                batch_in@ == rows_in_order(self.inputs@, self.order@, start as int, i as int).flatten(),
                batch_tgt@ == rows_in_order(self.targets@, self.order@, start as int, i as int).flatten(),
            decreases end - i,
        {
            let idx = self.order[i];
            append_row(&mut batch_in, &self.inputs[idx]);
            append_row(&mut batch_tgt, &self.targets[idx]);
            proof {
                let ri = rows_in_order(self.inputs@, self.order@, start as int, i as int);
                let rt = rows_in_order(self.targets@, self.order@, start as int, i as int);
                assert(rows_in_order(self.inputs@, self.order@, start as int, i + 1) =~= ri.push(self.inputs@[idx as int]@));
                assert(rows_in_order(self.targets@, self.order@, start as int, i + 1) =~= rt.push(self.targets@[idx as int]@));
                ri.lemma_flatten_push(self.inputs@[idx as int]@);
                rt.lemma_flatten_push(self.targets@[idx as int]@);
            }
            i = i + 1;
        }
        (batch_in, batch_tgt, end - start)
    }
}

/// Appends the elements of `row` to `out`.
fn append_row<T: Copy>(out: &mut Vec<T>, row: &Vec<T>)
    ensures
        final(out)@ == old(out)@ + row@,
{
    let ghost before = out@;
    let mut k: usize = 0;
    while k < row.len()
        invariant
            k <= row@.len(),
            out@ == before + row@.take(k as int),
        decreases row.len() - k,
    {
        out.push(row[k]);
        k = k + 1;
        assert(out@ =~= before + row@.take(k as int));
    }
    assert(row@.take(row@.len() as int) =~= row@);
}

/// A permutation of a visiting order is a visiting order.
proof fn lemma_order_permuted(a: Seq<usize>, b: Seq<usize>, n: int)
    requires
        is_order(a, n),
        b.to_multiset() == a.to_multiset(),
    ensures
        is_order(b, n),
{
    a.to_multiset_ensures();
    b.to_multiset_ensures();
    assert forall|i: int| 0 <= i < n implies #[trigger] b[i] < n by {
        assert(b.contains(b[i]));
        assert(a.to_multiset().count(b[i]) > 0);
        assert(a.contains(b[i]));
    }
    a.lemma_multiset_has_no_duplicates();
    b.lemma_multiset_has_no_duplicates_conv();
}

/// Every position of the visiting order falls in exactly one batch: batch
/// `i / batch_size`, which is one of the `ceil(n / batch_size)` batches.
pub proof fn lemma_batches_partition(n: int, batch_size: int, i: int)
    requires
        batch_size > 0,
        0 <= i < n,
    ensures
        0 <= i / batch_size < (n + batch_size - 1) / batch_size,
        ({
            let (start, end) = batch_bounds(n, batch_size, i / batch_size);
            start <= i < end
        }),
        forall|b: int|
            0 <= b && #[trigger] batch_bounds(n, batch_size, b).0 <= i < batch_bounds(n, batch_size, b).1
                ==> b == i / batch_size,
{
    let q = i / batch_size;
    vstd::arithmetic::div_mod::lemma_fundamental_div_mod(i, batch_size);
    assert(q * batch_size <= i < q * batch_size + batch_size) by (nonlinear_arith)
        requires
            i == batch_size * q + i % batch_size,
            0 <= i % batch_size < batch_size,
    ;
    assert(0 <= q) by (nonlinear_arith)
        requires
            i >= 0,
            batch_size >= 1,
            q == i / batch_size,
    ;
    assert((q + 1) * batch_size == q * batch_size + batch_size) by (nonlinear_arith);
    let m = n + batch_size - 1;
    vstd::arithmetic::div_mod::lemma_fundamental_div_mod(m, batch_size);
    assert(q < m / batch_size) by (nonlinear_arith)
        requires
            m == batch_size * (m / batch_size) + m % batch_size,
            0 <= m % batch_size < batch_size,
            q * batch_size <= i,
            i < n,
            m == n + batch_size - 1,
            batch_size >= 1,
    ;
    assert forall|b: int|
        0 <= b && #[trigger] batch_bounds(n, batch_size, b).0 <= i < batch_bounds(n, batch_size, b).1
            implies b == q by {
        assert(b * batch_size <= i < (b + 1) * batch_size);
        assert((b + 1) * batch_size == b * batch_size + batch_size) by (nonlinear_arith);
        if b < q {
            assert(b * batch_size + batch_size <= q * batch_size) by (nonlinear_arith)
                requires
                    b + 1 <= q,
                    batch_size >= 1,
            ;
        }
        if b > q {
            assert(q * batch_size + batch_size <= b * batch_size) by (nonlinear_arith)
                requires
                    q + 1 <= b,
                    batch_size >= 1,
            ;
        }
    }
}

} // verus!
