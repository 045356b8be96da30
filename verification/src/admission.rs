//! Memory admission for the sort stage.
//!
//! The sort stage may not hold more reservable bytes than the host memory
//! measured at its start. A budget tracks the bytes still available; a sort
//! worker runs only after its estimated working set was reserved, and gives
//! the reservation back when it returns. The outstanding reservations are
//! carried as a ghost sequence so that the accounting itself is proved:
//! the available count never goes negative and always equals the capacity
//! minus what is outstanding.

use vstd::prelude::*;

verus! {

/// Sum of a sequence of reservations.
pub open spec fn sum_of(s: Seq<i64>) -> int
    decreases s.len(),
{
    if s.len() == 0 {
        0
    } else {
        s[0] + sum_of(s.drop_first())
    }
}

proof fn lemma_sum_push(s: Seq<i64>, v: i64)
    ensures
        sum_of(s.push(v)) == sum_of(s) + v,
    decreases s.len(),
{
    if s.len() == 0 {
        assert(s.push(v) =~= seq![v]);
        assert(sum_of(seq![v].drop_first()) == 0) by {
            assert(seq![v].drop_first() =~= Seq::<i64>::empty());
        }
    } else {
        assert(s.push(v).drop_first() =~= s.drop_first().push(v));
        lemma_sum_push(s.drop_first(), v);
    }
}

proof fn lemma_sum_remove(s: Seq<i64>, i: int)
    requires
        0 <= i < s.len(),
    ensures
        sum_of(s.remove(i)) == sum_of(s) - s[i],
    decreases s.len(),
{
    if i == 0 {
        assert(s.remove(0) =~= s.drop_first());
    } else {
        assert(s.remove(i).drop_first() =~= s.drop_first().remove(i - 1));
        lemma_sum_remove(s.drop_first(), i - 1);
    }
}

proof fn lemma_sum_bounds(s: Seq<i64>, lo: int)
    requires
        forall|i: int| 0 <= i < s.len() ==> s[i] >= lo,
        lo >= 0,
    ensures
        sum_of(s) >= s.len() * lo,
        forall|i: int| 0 <= i < s.len() ==> sum_of(s) >= s[i],
    decreases s.len(),
{
    if s.len() == 0 {
    } else {
        lemma_sum_bounds(s.drop_first(), lo);
        assert(sum_of(s) >= s.len() * lo) by (nonlinear_arith)
            requires
                sum_of(s) == s[0] + sum_of(s.drop_first()),
                sum_of(s.drop_first()) >= (s.len() - 1) * lo,
                s[0] >= lo,
                s.len() >= 1,
        ;
        assert forall|i: int| 0 <= i < s.len() implies sum_of(s) >= s[i] by {
            if i > 0 {
                assert(s.drop_first()[i - 1] == s[i]);
            }
        }
    }
}

/// The reservable-bytes budget of one sort stage.
pub struct MemoryBudget {
    /// The host memory available when the stage started.
    pub capacity: i64,
    /// Bytes not currently reserved.
    pub available: i64,
    /// The outstanding reservations, oldest first.
    pub outstanding: Ghost<Seq<i64>>,
}

impl MemoryBudget {
    /// Every reservation is positive and the available count is what is
    /// left of the capacity; in particular it is never negative.
    pub open spec fn wf(self) -> bool {
        &&& self.available == self.capacity - sum_of(self.outstanding@)
        &&& self.available >= 0
        &&& forall|i: int| 0 <= i < self.outstanding@.len() ==> self.outstanding@[i] >= 0
    }

    /// A fresh budget of `capacity` bytes, none reserved.
    pub fn new(capacity: i64) -> (r: MemoryBudget)
        requires
            capacity >= 0,
        ensures
            r.wf(),
            r.capacity == capacity,
            r.available == capacity,
            r.outstanding@ == Seq::<i64>::empty(),
    {
        MemoryBudget { capacity, available: capacity, outstanding: Ghost(Seq::empty()) }
    }

    /// Reserve `n` bytes if they are available. The caller retries (with
    /// backoff) until this returns true.
    pub fn try_reserve(&mut self, n: i64) -> (r: bool)
        requires
            old(self).wf(),
            n >= 0,
        ensures
            final(self).wf(),
            final(self).capacity == old(self).capacity,
            r == (old(self).available >= n),
            r ==> final(self).available == old(self).available - n && final(self).outstanding@
                == old(self).outstanding@.push(n),
            !r ==> *final(self) == *old(self),
    {
        if self.available >= n {
            self.available = self.available - n;
            proof {
                lemma_sum_push(self.outstanding@, n);
            }
            self.outstanding = Ghost(self.outstanding@.push(n));
            true
        } else {
            false
        }
    }

    /// Return a reservation of `n` bytes.
    pub fn release(&mut self, n: i64)
        requires
            old(self).wf(),
            old(self).outstanding@.contains(n),
        ensures
            final(self).wf(),
            final(self).capacity == old(self).capacity,
            final(self).available == old(self).available + n,
            final(self).outstanding@.to_multiset() == old(
                self,
            ).outstanding@.to_multiset().remove(n),
    {
        proof {
            let i = choose|i: int|
                0 <= i < self.outstanding@.len() && self.outstanding@[i] == n;
            lemma_sum_bounds(self.outstanding@, 0);
            lemma_sum_remove(self.outstanding@, i);
            vstd::seq_lib::to_multiset_remove(self.outstanding@, i);
            self.outstanding@ = self.outstanding@.remove(i);
        }
        self.available = self.available + n;
    }

    /// How many bytes are reservable right now.
    pub fn available_bytes(&self) -> (r: i64)
        ensures
            r == self.available,
    {
        self.available
    }

    /// Admission bound: while every outstanding reservation is at least `c`
    /// bytes, at most `capacity / c` sort workers hold one.
    pub proof fn lemma_admission_bound(self, c: int)
        requires
            self.wf(),
            c > 0,
            forall|i: int| 0 <= i < self.outstanding@.len() ==> self.outstanding@[i] >= c,
        ensures
            self.outstanding@.len() <= self.capacity as int / c,
    {
        lemma_sum_bounds(self.outstanding@, c);
        assert(self.outstanding@.len() * c <= self.capacity as int);
        assert(self.outstanding@.len() <= self.capacity as int / c) by (nonlinear_arith)
            requires
                self.outstanding@.len() * c <= self.capacity as int,
                c > 0,
        ;
    }
}

} // verus!
