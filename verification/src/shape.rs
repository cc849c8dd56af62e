use vstd::prelude::*;

verus! {

/// Number of elements of a tensor with the given dimensions (the product of
/// the dimensions; 1 for a scalar shape).
pub open spec fn numel(s: Seq<usize>) -> int
    decreases s.len(),
{
    if s.len() == 0 {
        1
    } else {
        numel(s.drop_last()) * s.last()
    }
}

/// Every running product of the dimensions, taken left to right, fits in a
/// `usize`: computing the element count never overflows.
pub open spec fn fits(s: Seq<usize>) -> bool {
    forall|k: int| 0 <= k <= s.len() ==> #[trigger] numel(s.take(k)) <= usize::MAX
}

pub proof fn lemma_numel_nonneg(s: Seq<usize>)
    ensures
        numel(s) >= 0,
    decreases s.len(),
{
    if s.len() > 0 {
        lemma_numel_nonneg(s.drop_last());
        vstd::arithmetic::mul::lemma_mul_nonnegative(numel(s.drop_last()), s.last() as int);
    }
}

proof fn lemma_numel_take_step(s: Seq<usize>, k: int)
    requires
        0 <= k < s.len(),
    ensures
        numel(s.take(k + 1)) == numel(s.take(k)) * s[k],
{
    assert(s.take(k + 1).drop_last() =~= s.take(k));
}

/// Element count of a shape, computed as the product of its dimensions.
pub fn shape_numel(shape: &Vec<usize>) -> (n: usize)
    requires
        fits(shape@),
    ensures
        n == numel(shape@),
{
    let mut acc: usize = 1;
    let mut i: usize = 0;
    assert(shape@.take(0) =~= Seq::<usize>::empty());
    while i < shape.len()
        invariant
            i <= shape.len(),
            fits(shape@),
            acc == numel(shape@.take(i as int)),
        decreases shape.len() - i,
    {
        proof {
            lemma_numel_take_step(shape@, i as int);
            assert(numel(shape@.take(i + 1)) <= usize::MAX);
        }
        acc = acc * shape[i];
        i = i + 1;
    }
    assert(shape@.take(shape.len() as int) =~= shape@);
    acc
}

pub proof fn lemma_numel_push(s: Seq<usize>, x: usize)
    ensures
        numel(s.push(x)) == numel(s) * x,
{
    assert(s.push(x).drop_last() =~= s);
}

pub proof fn lemma_fits_empty()
    ensures
        fits(Seq::<usize>::empty()),
{
    assert forall|k: int| 0 <= k <= 0 implies #[trigger] numel(Seq::<usize>::empty().take(k)) <= usize::MAX by {
        assert(Seq::<usize>::empty().take(k) =~= Seq::<usize>::empty());
    }
}

pub proof fn lemma_fits_push(s: Seq<usize>, x: usize)
    requires
        fits(s),
        numel(s) * x <= usize::MAX,
    ensures
        fits(s.push(x)),
{
    let t = s.push(x);
    assert forall|k: int| 0 <= k <= t.len() implies #[trigger] numel(t.take(k)) <= usize::MAX by {
        if k <= s.len() {
            assert(t.take(k) =~= s.take(k));
        } else {
            assert(t.take(k) =~= t);
            assert(s.take(s.len() as int) =~= s);
            lemma_numel_push(s, x);
        }
    }
}

pub proof fn lemma_numel_one(a: usize)
    ensures
        numel(seq![a]) == a,
        fits(seq![a]),
{
    lemma_fits_empty();
    assert(Seq::<usize>::empty().push(a) =~= seq![a]);
    lemma_numel_push(Seq::<usize>::empty(), a);
    lemma_fits_push(Seq::<usize>::empty(), a);
}

pub proof fn lemma_numel_two(a: usize, b: usize)
    ensures
        numel(seq![a, b]) == a * b,
{
    lemma_numel_one(a);
    assert(seq![a].push(b) =~= seq![a, b]);
    lemma_numel_push(seq![a], b);
}

pub proof fn lemma_fits_two(a: usize, b: usize)
    requires
        a * b <= usize::MAX,
    ensures
        fits(seq![a, b]),
        numel(seq![a, b]) == a * b,
{
    lemma_numel_one(a);
    assert(seq![a].push(b) =~= seq![a, b]);
    lemma_numel_push(seq![a], b);
    lemma_fits_push(seq![a], b);
}

pub proof fn lemma_fits_take(s: Seq<usize>, k: int)
    requires
        fits(s),
        0 <= k <= s.len(),
    ensures
        fits(s.take(k)),
{
    assert forall|j: int| 0 <= j <= s.take(k).len() implies #[trigger] numel(s.take(k).take(j)) <= usize::MAX by {
        assert(s.take(k).take(j) =~= s.take(j));
    }
}

pub proof fn lemma_fits_total(s: Seq<usize>)
    requires
        fits(s),
    ensures
        numel(s) <= usize::MAX,
{
    assert(s.take(s.len() as int) =~= s);
}

/// Replacing the last dimension of a shape by one no larger keeps it
/// addressable.
pub proof fn lemma_fits_shrink_last(s: Seq<usize>, w: usize)
    requires
        fits(s),
        s.len() >= 1,
        w <= s[s.len() - 1],
    ensures
        fits(s.update(s.len() - 1, w)),
        numel(s.update(s.len() - 1, w)) == numel(s.drop_last()) * w,
{
    let p = s.drop_last();
    let last = s[s.len() - 1];
    assert(s =~= p.push(last));
    assert(s.update(s.len() - 1, w) =~= p.push(w));
    assert(s.take(s.len() - 1) =~= p);
    lemma_fits_take(s, s.len() - 1);
    lemma_fits_total(s);
    lemma_numel_push(p, last);
    lemma_numel_push(p, w);
    lemma_numel_nonneg(p);
    assert(numel(p) * w <= numel(p) * last) by (nonlinear_arith)
        requires
            w <= last,
            numel(p) >= 0,
    ;
    lemma_fits_push(p, w);
}

pub proof fn lemma_fits_three(a: usize, b: usize, c: usize)
    requires
        a * b <= usize::MAX,
        a * b * c <= usize::MAX,
    ensures
        fits(seq![a, b, c]),
        numel(seq![a, b, c]) == a * b * c,
{
    lemma_fits_two(a, b);
    assert(seq![a, b].push(c) =~= seq![a, b, c]);
    lemma_numel_push(seq![a, b], c);
    lemma_fits_push(seq![a, b], c);
}

pub proof fn lemma_fits_four(a: usize, b: usize, c: usize, d: usize)
    requires
        a * b <= usize::MAX,
        a * b * c <= usize::MAX,
        a * b * c * d <= usize::MAX,
    ensures
        fits(seq![a, b, c, d]),
        numel(seq![a, b, c, d]) == a * b * c * d,
{
    lemma_fits_three(a, b, c);
    assert(seq![a, b, c].push(d) =~= seq![a, b, c, d]);
    lemma_numel_push(seq![a, b, c], d);
    lemma_fits_push(seq![a, b, c], d);
}

pub proof fn lemma_numel_three(a: usize, b: usize, c: usize)
    ensures
        numel(seq![a, b, c]) == a * b * c,
{
    lemma_numel_one(a);
    assert(seq![a].push(b) =~= seq![a, b]);
    lemma_numel_push(seq![a], b);
    assert(seq![a, b].push(c) =~= seq![a, b, c]);
    lemma_numel_push(seq![a, b], c);
}

pub proof fn lemma_numel_four(a: usize, b: usize, c: usize, d: usize)
    ensures
        numel(seq![a, b, c, d]) == a * b * c * d,
{
    lemma_numel_three(a, b, c);
    assert(seq![a, b, c].push(d) =~= seq![a, b, c, d]);
    lemma_numel_push(seq![a, b, c], d);
}

/// With a nonzero last dimension, dividing the element count by it gives the
/// product of the leading dimensions (the number of rows).
pub proof fn lemma_rows(s: Seq<usize>)
    requires
        s.len() >= 1,
        s[s.len() - 1] > 0,
    ensures
        numel(s) / (s[s.len() - 1] as int) == numel(s.drop_last()),
        numel(s.drop_last()) * s[s.len() - 1] == numel(s),
{
    lemma_numel_nonneg(s.drop_last());
    vstd::arithmetic::div_mod::lemma_div_multiples_vanish(numel(s.drop_last()), s[s.len() - 1] as int);
    vstd::arithmetic::mul::lemma_mul_is_commutative(numel(s.drop_last()), s[s.len() - 1] as int);
}

/// Swapping the last two (nonzero) dimensions keeps a shape addressable and
/// keeps its element count; the leading dimensions count the batch.
pub proof fn lemma_swap_last_two(s: Seq<usize>)
    requires
        fits(s),
        s.len() >= 2,
        s[s.len() - 2] * s[s.len() - 1] > 0,
    ensures
        fits(s.update(s.len() - 2, s[s.len() - 1]).update(s.len() - 1, s[s.len() - 2])),
        numel(s.update(s.len() - 2, s[s.len() - 1]).update(s.len() - 1, s[s.len() - 2])) == numel(s),
        numel(s) == numel(s.take(s.len() - 2)) * (s[s.len() - 2] * s[s.len() - 1]),
{
    let n = s.len();
    let p = s.take(n - 2);
    let r = s[n - 2];
    let c = s[n - 1];
    let t = s.update(n - 2, c).update(n - 1, r);
    assert(s =~= p.push(r).push(c));
    assert(t =~= p.push(c).push(r));
    lemma_fits_take(s, n - 2);
    lemma_fits_total(s);
    lemma_numel_push(p, r);
    lemma_numel_push(p.push(r), c);
    lemma_numel_push(p, c);
    lemma_numel_push(p.push(c), r);
    lemma_numel_nonneg(p);
    let q = numel(p);
    assert(r >= 1 && c >= 1) by (nonlinear_arith)
        requires
            r * c > 0,
    ;
    assert(q * c <= q * r * c && q * c * r == q * r * c && q * r * c == q * (r * c)) by (nonlinear_arith)
        requires
            q >= 0,
            r >= 1,
            c >= 1,
    ;
    lemma_fits_push(p, c);
    lemma_fits_push(p.push(c), r);
}

/// The running products of an addressable four-dimensional shape.
pub proof fn lemma_fits_four_bounds(a: usize, b: usize, c: usize, d: usize)
    requires
        fits(seq![a, b, c, d]),
    ensures
        a * b <= usize::MAX,
        a * b * c <= usize::MAX,
        a * b * c * d <= usize::MAX,
{
    let s = seq![a, b, c, d];
    assert(s.take(2) =~= seq![a, b]);
    assert(s.take(3) =~= seq![a, b, c]);
    assert(s.take(4) =~= s);
    assert(numel(s.take(2)) <= usize::MAX);
    assert(numel(s.take(3)) <= usize::MAX);
    assert(numel(s.take(4)) <= usize::MAX);
    lemma_numel_one(a);
    assert(seq![a].push(b) =~= seq![a, b]);
    lemma_numel_push(seq![a], b);
    lemma_numel_three(a, b, c);
    lemma_numel_four(a, b, c, d);
}

/// Shrinking the last two dimensions of an addressable four-dimensional
/// shape keeps it addressable.
pub proof fn lemma_fits_four_shrink(a: usize, b: usize, c: usize, d: usize, c2: usize, d2: usize)
    requires
        fits(seq![a, b, c, d]),
        c2 <= c,
        d2 <= d,
    ensures
        fits(seq![a, b, c2, d2]),
{
    lemma_fits_four_bounds(a, b, c, d);
    let ab = a * b;
    assert(ab * c2 <= ab * c && ab * c2 * d2 <= ab * c * d) by (nonlinear_arith)
        requires
            c2 <= c,
            d2 <= d,
            ab >= 0,
    ;
    lemma_fits_four(a, b, c2, d2);
}

/// The element count is the first dimension times the count of the rest.
pub proof fn lemma_numel_first(s: Seq<usize>)
    requires
        s.len() >= 1,
    ensures
        numel(s) == s[0] * numel(s.skip(1)),
    decreases s.len(),
{
    if s.len() == 1 {
        assert(s.skip(1) =~= Seq::<usize>::empty());
        assert(s.drop_last() =~= Seq::<usize>::empty());
    } else {
        let p = s.drop_last();
        lemma_numel_first(p);
        assert(p.skip(1) =~= s.skip(1).drop_last());
        assert(s.skip(1).last() == s.last());
        let a = s[0] as int;
        let r = numel(p.skip(1));
        let l = s.last() as int;
        assert(a * r * l == a * (r * l)) by (nonlinear_arith);
    }
}

} // verus!
