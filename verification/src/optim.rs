use vstd::prelude::*;

verus! {

/// Bookkeeping of an optimizer's per-parameter state buffers (velocities,
/// moments, squared-gradient sums): the element count of each buffer, bound
/// to the parameters passed to the first step, and the number of steps
/// taken. The buffers themselves live on the device.
pub struct SlotState {
    pub lens: Vec<usize>,
    pub t: usize,
}

impl SlotState {
    /// No buffers yet, no steps taken.
    pub fn new() -> (s: SlotState)
        ensures
            s.lens@ == Seq::<usize>::empty(),
            s.t == 0,
    {
        SlotState { lens: Vec::new(), t: 0 }
    }

    /// Prepares a step over parameters holding `param_lens` elements each.
    /// Without buffers yet, binds one per parameter, sized to it, and returns
    /// `true` (the caller allocates them zeroed); afterwards the parameter
    /// count must stay the same.
    pub fn begin_step(&mut self, param_lens: &Vec<usize>) -> (bound: bool)
        requires
            old(self).lens@.len() == 0 || old(self).lens@.len() == param_lens@.len(),
        ensures
            bound == (old(self).lens@.len() == 0),
            final(self).lens@ == (if bound { param_lens@ } else { old(self).lens@ }),
            final(self).lens@.len() == param_lens@.len(),
            final(self).t == old(self).t,
    {
        if self.lens.len() == 0 {
            self.lens = copy_lens(param_lens);
            true
        } else {
            false
        }
    }

    /// Prepares a step of an optimizer that binds its buffers on its very
    /// first step (step counter 0), whatever that step's parameters are:
    /// then it binds one buffer per parameter and returns `true`; on later
    /// steps the parameter count must match the bound buffers.
    pub fn begin_counted_step(&mut self, param_lens: &Vec<usize>) -> (bound: bool)
        requires
            old(self).t == 0 ==> old(self).lens@.len() == 0,
            old(self).t != 0 ==> old(self).lens@.len() == param_lens@.len(),
        ensures
            bound == (old(self).t == 0),
            final(self).lens@ == (if bound { param_lens@ } else { old(self).lens@ }),
            final(self).lens@.len() == param_lens@.len(),
            final(self).t == old(self).t,
    {
        if self.t == 0 {
            self.lens = copy_lens(param_lens);
            true
        } else {
            false
        }
    }

    /// Records a finished step.
    pub fn end_step(&mut self)
        requires
            old(self).t < usize::MAX,
        ensures
            final(self).t == old(self).t + 1,
            final(self).lens@ == old(self).lens@,
    {
        self.t = self.t + 1;
    }

    /// Restores bookkeeping from a checkpoint holding `t` steps and the
    /// given buffer sizes.
    pub fn restore(&mut self, t: usize, lens: Vec<usize>)
        ensures
            final(self).t == t,
            final(self).lens@ == lens@,
    {
        self.t = t;
        self.lens = lens;
    }
}

/// A copy of the element counts.
fn copy_lens(param_lens: &Vec<usize>) -> (lens: Vec<usize>)
    ensures
        lens@ == param_lens@,
{
    let mut lens: Vec<usize> = Vec::new();
    let mut i: usize = 0;
    while i < param_lens.len()
        invariant
            i <= param_lens@.len(),
            lens@ == param_lens@.take(i as int),
        decreases param_lens.len() - i,
    {
        lens.push(param_lens[i]);
        i = i + 1;
        assert(lens@ =~= param_lens@.take(i as int));
    }
    assert(param_lens@.take(param_lens@.len() as int) =~= param_lens@);
    lens
}

/// The checkpoint layout of Adam-style moments: every first moment in
/// parameter order, then every second moment.
pub fn join_moments<T>(m: Vec<T>, v: Vec<T>) -> (out: Vec<T>)
    ensures
        out@ == m@ + v@,
{
    let mut out = m;
    let mut rest = v;
    out.append(&mut rest);
    out
}

/// Splits checkpointed moments into the first moments (first half) and the
/// second moments (second half); the count must be even.
pub fn split_moments<T>(moments: Vec<T>) -> (r: (Vec<T>, Vec<T>))
    requires
        moments@.len() % 2 == 0,
    ensures
        r.0@ == moments@.subrange(0, (moments@.len() / 2) as int),
        r.1@ == moments@.subrange((moments@.len() / 2) as int, moments@.len() as int),
{
    let mut first = moments;
    let half = first.len() / 2;
    let second = first.split_off(half);
    (first, second)
}

/// Splitting what [`join_moments`] laid out gives back both halves, when
/// there are as many first moments as second ones.
pub proof fn lemma_split_join<T>(m: Seq<T>, v: Seq<T>)
    requires
        m.len() == v.len(),
    ensures
        (m + v).len() % 2 == 0,
        (m + v).subrange(0, ((m + v).len() / 2) as int) == m,
        (m + v).subrange(((m + v).len() / 2) as int, (m + v).len() as int) == v,
{
    assert((m + v).subrange(0, m.len() as int) =~= m);
    assert((m + v).subrange(m.len() as int, (m + v).len() as int) =~= v);
}

/// Joining the halves that [`split_moments`] produced restores the
/// checkpoint.
pub proof fn lemma_join_split<T>(x: Seq<T>)
    requires
        x.len() % 2 == 0,
    ensures
        x.subrange(0, (x.len() / 2) as int) + x.subrange((x.len() / 2) as int, x.len() as int) == x,
{
    assert(x.subrange(0, (x.len() / 2) as int) + x.subrange((x.len() / 2) as int, x.len() as int) =~= x);
}

} // verus!
