//! The worker pool's admission policy: at most `capacity` live workers,
//! finished workers reclaimed only when a new connection arrives, and a
//! connection that finds the pool full dropped rather than queued.
//!
//! The pool holds worker handles of any type `H`; whether a worker has
//! finished is told to it by the caller, once per arriving connection.
use vstd::prelude::*;

verus! {

/// The handles of `s` whose worker has not finished, in their order.
/// `finished[i]` tells whether the worker of `s[i]` has finished.
pub open spec fn kept<H>(s: Seq<H>, finished: Seq<bool>) -> Seq<H>
    decreases s.len(),
{
    if s.len() == 0 || finished.len() == 0 {
        seq![]
    } else if finished.last() {
        kept(s.drop_last(), finished.drop_last())
    } else {
        kept(s.drop_last(), finished.drop_last()).push(s.last())
    }
}

/// Reclaiming never adds handles.
pub proof fn lemma_kept_len<H>(s: Seq<H>, finished: Seq<bool>)
    ensures
        kept(s, finished).len() <= s.len(),
    decreases s.len(),
{
    if s.len() > 0 && finished.len() > 0 {
        lemma_kept_len(s.drop_last(), finished.drop_last());
    }
}

/// Reclaiming keeps every worker while none has finished, so a pool holding
/// `capacity` busy workers turns each further connection away.
pub proof fn lemma_none_finished<H>(s: Seq<H>, finished: Seq<bool>)
    requires
        finished.len() == s.len(),
        forall|i: int| 0 <= i < finished.len() ==> !#[trigger] finished[i],
    ensures
        kept(s, finished) == s,
    decreases s.len(),
{
    if s.len() > 0 {
        lemma_none_finished(s.drop_last(), finished.drop_last());
        assert(kept(s.drop_last(), finished.drop_last()).push(s.last()) =~= s);
    }
}

/// Reclaiming frees every slot once all workers have finished.
pub proof fn lemma_all_finished<H>(s: Seq<H>, finished: Seq<bool>)
    requires
        finished.len() == s.len(),
        forall|i: int| 0 <= i < finished.len() ==> #[trigger] finished[i],
    ensures
        kept(s, finished).len() == 0,
    decreases s.len(),
{
    if s.len() > 0 {
        lemma_all_finished(s.drop_last(), finished.drop_last());
    }
}

/// A bounded registry of live workers.
pub struct ThreadPool<H> {
    maxi: usize,
    currents: Vec<H>,
}

impl<H> ThreadPool<H> {
    /// The most workers that may be live at once.
    pub closed spec fn capacity(&self) -> nat {
        self.maxi as nat
    }

    /// The handles of the workers started and not yet reclaimed, oldest first.
    pub closed spec fn live(&self) -> Seq<H> {
        self.currents@
    }

    /// No more workers are live than the capacity allows.
    pub open spec fn wf(&self) -> bool {
        self.live().len() <= self.capacity()
    }

    /// An empty pool that admits up to `maxi` workers at once.
    pub fn new(maxi: usize) -> (r: Self)
        ensures
            r.wf(),
            r.capacity() == maxi,
            r.live() == Seq::<H>::empty(),
    {
        ThreadPool { maxi, currents: Vec::new() }
    }

    /// The handles of the live workers, oldest first.
    pub fn workers(&self) -> (r: &Vec<H>)
        ensures
            r@ == self.live(),
    {
        &self.currents
    }

    /// Decides on one arriving connection. First the workers that
    /// `finished` marks as done (one flag per handle of [`Self::workers`],
    /// in the same order) are reclaimed. Then the connection is admitted
    /// exactly when fewer than `capacity` workers remain. Only an admitted
    /// connection gets a worker, recorded with [`Self::add_worker`]; a
    /// refused one is dropped without anything being started for it.
    pub fn execute(&mut self, finished: &Vec<bool>) -> (admitted: bool)
        requires
            old(self).wf(),
            finished@.len() == old(self).live().len(),
        ensures
            final(self).wf(),
            final(self).capacity() == old(self).capacity(),
            final(self).live() == kept(old(self).live(), finished@),
            admitted == (final(self).live().len() < final(self).capacity()),
    {
        let ghost l = self.currents@;
        let ghost f = finished@;
        let n = finished.len();
        let mut i: usize = 0;
        let mut k: usize = 0;
        assert(l.subrange(0, 0) =~= Seq::<H>::empty());
        assert(l.subrange(0, n as int) =~= l);
        assert(f.subrange(0, n as int) =~= f);
        while k < n
            invariant
                n == f.len() == l.len(),
                f == finished@,
                self.maxi == old(self).maxi,
                i <= k <= n,
                i == kept(l.subrange(0, k as int), f.subrange(0, k as int)).len(),
                self.currents@ == kept(l.subrange(0, k as int), f.subrange(0, k as int)) + l.subrange(
                    k as int,
                    n as int,
                ),
            decreases n - k,
        {
            let ghost before = kept(l.subrange(0, k as int), f.subrange(0, k as int));
            assert(l.subrange(0, k + 1).drop_last() =~= l.subrange(0, k as int));
            assert(f.subrange(0, k + 1).drop_last() =~= f.subrange(0, k as int));
            assert(self.currents@[i as int] == l[k as int]);
            if finished[k] {
                self.currents.remove(i);
                assert(self.currents@ =~= before + l.subrange(k + 1, n as int));
            } else {
                assert(kept(l.subrange(0, k + 1), f.subrange(0, k + 1)) == before.push(l[k as int]));
                assert(self.currents@ =~= before.push(l[k as int]) + l.subrange(k + 1, n as int));
                i = i + 1;
            }
            k = k + 1;
        }
        assert(self.currents@ =~= kept(l, f));
        proof {
            lemma_kept_len(l, f);
        }
        self.currents.len() < self.maxi
    }

    /// Records the worker started for a connection that [`Self::execute`]
    /// admitted.
    pub fn add_worker(&mut self, h: H)
        requires
            old(self).wf(),
            old(self).live().len() < old(self).capacity(),
        ensures
            final(self).wf(),
            final(self).capacity() == old(self).capacity(),
            final(self).live() == old(self).live().push(h),
    {
        self.currents.push(h);
    }
}

} // verus!
