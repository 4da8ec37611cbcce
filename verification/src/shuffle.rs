//! The shuffled sequence: a scaffold of borrowed references that a partial
//! Fisher–Yates shuffle consumes one element at a time.
//!
//! The scaffold starts as the full list of references into the source
//! slice, in original order.  Each production step draws one index `j`
//! uniformly from the remaining length, swaps the entry at `j` with the
//! last entry, and removes and emits the last entry.  Between steps, only
//! the length and the multiset of entries of the scaffold are meaningful;
//! its order is working state of the shuffle.

use vstd::prelude::*;
use vstd::multiset::Multiset;
use crate::rng::FixedRandom;
use crate::rng::ThreadRandom;
use crate::rng::UniformRandom;

verus! {

/// The element a production step emits when the index `j` is drawn: the
/// scaffold entry at position `j`.
pub open spec fn step_taken<A>(s: Seq<A>, j: int) -> A
    recommends
        0 <= j < s.len(),
{
    s[j]
}

/// The scaffold a production step leaves when the index `j` is drawn: the
/// last entry moves into position `j` and the sequence shrinks by one.
/// When `j` is the last position the move is immaterial and only the
/// shrink remains.
pub open spec fn step_rest<A>(s: Seq<A>, j: int) -> Seq<A>
    recommends
        0 <= j < s.len(),
{
    s.update(j, s.last()).drop_last()
}

/// A production step removes exactly one occurrence of the emitted element
/// from the pool and keeps every other entry: the emitted element together
/// with the remaining pool always restores the original multiset.  Applied
/// step by step, this is the permutation property: a full drain emits
/// exactly the elements the scaffold started with, no duplicates and no
/// omissions.
pub proof fn lemma_step_multiset<A>(s: Seq<A>, j: int)
    requires
        0 <= j < s.len(),
    ensures
        step_rest(s, j).len() == s.len() - 1,
        step_rest(s, j).to_multiset() == s.to_multiset().remove(step_taken(s, j)),
        step_rest(s, j).to_multiset().insert(step_taken(s, j)) == s.to_multiset(),
{
    broadcast use vstd::multiset::group_multiset_axioms;

    let n = s.len() as int;
    let u = s.update(j, s.last());
    vstd::seq_lib::to_multiset_update(s, j, s.last());
    assert(u.drop_last() =~= u.remove(n - 1));
    vstd::seq_lib::to_multiset_remove(u, n - 1);
    assert(u[n - 1] == s.last());
    vstd::seq_lib::to_multiset_contains(s, s[j]);
    assert(s.contains(s[j]));
    vstd::seq_lib::to_multiset_contains(s, s.last());
    assert(s.contains(s.last()));
    assert(step_rest(s, j).to_multiset()
        =~= s.to_multiset().remove(step_taken(s, j)));
    vstd::seq_lib::to_multiset_len(s);
    vstd::seq_lib::to_multiset_len(step_rest(s, j));
    assert(step_rest(s, j).to_multiset().insert(step_taken(s, j))
        =~= s.to_multiset());
}

/// Determinism: a production step is a function of the remaining pool and
/// the drawn index alone.  Two pools holding the same entries in the same
/// order that draw the same index emit the same element and leave the same
/// pool, so replaying a fixed list of draws replays the same emission
/// order.
pub proof fn lemma_step_deterministic<A>(s: Seq<A>, t: Seq<A>, j: int)
    requires
        s == t,
        0 <= j < s.len(),
    ensures
        step_taken(s, j) == step_taken(t, j),
        step_rest(s, j) == step_rest(t, j),
{
}

/// The emission order of a full drain: starting from the pool `s`, the
/// `i`-th production step uses the entry of `draws` at position `i`,
/// reduced modulo the remaining length as the replaying source reduces
/// its entries, and each step emits one element until the pool is empty.
/// A missing entry counts as a draw of `0`, as the replaying source
/// yields once its list is exhausted.
pub open spec fn emission<A>(s: Seq<A>, draws: Seq<usize>) -> Seq<A>
    decreases s.len(),
{
    if s.len() == 0 {
        Seq::empty()
    } else {
        let j = if draws.len() > 0 {
            (draws[0] as int) % (s.len() as int)
        } else {
            0
        };
        let rest = if draws.len() > 0 {
            draws.skip(1)
        } else {
            draws
        };
        seq![step_taken(s, j)] + emission(step_rest(s, j), rest)
    }
}

/// Exhaustion and the permutation property over a full drain: a pool of
/// `n` elements is emptied by exactly `n` production steps, and whatever
/// indices were drawn, the emitted elements form exactly the multiset the
/// pool started with — no duplicates, no omissions — for every length,
/// the empty pool included.
pub proof fn lemma_drain_permutation<A>(s: Seq<A>, draws: Seq<usize>)
    ensures
        emission(s, draws).len() == s.len(),
        emission(s, draws).to_multiset() == s.to_multiset(),
    decreases s.len(),
{
    broadcast use vstd::multiset::group_multiset_axioms;

    if s.len() == 0 {
        assert(emission(s, draws) =~= s);
    } else {
        let j = if draws.len() > 0 {
            (draws[0] as int) % (s.len() as int)
        } else {
            0
        };
        let later = if draws.len() > 0 {
            draws.skip(1)
        } else {
            draws
        };
        let head = seq![step_taken(s, j)];
        let rest = emission(step_rest(s, j), later);
        lemma_step_multiset(s, j);
        lemma_drain_permutation(step_rest(s, j), later);
        vstd::seq_lib::lemma_multiset_commutative(head, rest);
        assert(head == Seq::<A>::empty().push(step_taken(s, j)));
        vstd::seq_lib::to_multiset_build(Seq::<A>::empty(), step_taken(s, j));
        vstd::seq_lib::to_multiset_len(Seq::<A>::empty());
        vstd::multiset::lemma_multiset_empty_len(Seq::<A>::empty().to_multiset());
        assert(emission(s, draws).to_multiset() =~= s.to_multiset());
    }
}

/// A lazily shuffled sequence over a borrowed slice.
///
/// `state` is the scaffold: references to the elements not yet produced.
/// The view of the sequence is the scaffold itself; its length strictly
/// decreases by one on each successful production step, and no randomness
/// is consumed before a step is demanded.
pub struct ShuffledIter<'a, T, R: UniformRandom> {
    rng: R,
    state: Vec<&'a T>,
}

impl<'a, T, R: UniformRandom> View for ShuffledIter<'a, T, R> {
    type V = Seq<&'a T>;

    closed spec fn view(&self) -> Seq<&'a T> {
        self.state@
    }
}

impl<'a, T, R: UniformRandom> ShuffledIter<'a, T, R> {
    /// The randomness source the sequence owns.
    pub closed spec fn rand_source(&self) -> R {
        self.rng
    }

    /// One production step with the drawn index supplied: emit the scaffold
    /// entry at `j`, move the last entry into its place, and shrink the
    /// scaffold by one.  No randomness is consumed: the source is left
    /// untouched.
    pub fn produce_at(&mut self, j: usize) -> (r: &'a T)
        requires
            j < old(self)@.len(),
        ensures
            final(self).rand_source() == old(self).rand_source(),
            r == step_taken(old(self)@, j as int),
            final(self)@ == step_rest(old(self)@, j as int),
            final(self)@.len() == old(self)@.len() - 1,
            final(self)@.to_multiset() == old(self)@.to_multiset().remove(r),
            final(self)@.to_multiset().insert(r) == old(self)@.to_multiset(),
    {
        proof {
            lemma_step_multiset(self@, j as int);
        }
        self.state.swap_remove(j)
    }

    /// One production step: draw an index uniformly from the remaining
    /// length, emit that entry, and shrink the scaffold by one.  Returns
    /// `None` if and only if the scaffold is empty, and an empty scaffold
    /// stays empty: exhaustion is terminal.
    pub fn next(&mut self) -> (r: Option<&'a T>)
        ensures
            r is Some <==> old(self)@.len() > 0,
            r is None ==> final(self)@ == old(self)@,
            r matches Some(e) ==> exists|j: int|
                0 <= j < old(self)@.len() && e == step_taken(old(self)@, j)
                    && final(self)@ == step_rest(old(self)@, j),
            r matches Some(e) ==> final(self)@.len() == old(self)@.len() - 1
                && final(self)@.to_multiset() == old(self)@.to_multiset().remove(e)
                && final(self)@.to_multiset().insert(e) == old(self)@.to_multiset(),
    {
        let n = self.state.len();
        if n == 0 {
            return None;
        }
        let j = self.rng.next_below(n);
        let e = self.produce_at(j);
        proof {
            assert(0 <= (j as int) && (j as int) < old(self)@.len()
                && e == step_taken(old(self)@, j as int)
                && self@ == step_rest(old(self)@, j as int));
        }
        Some(e)
    }

    /// Exact size report: the number of elements still producible, with
    /// no side effect, as both the lower and the upper bound.
    pub fn size_hint(&self) -> (r: (usize, Option<usize>))
        ensures
            r.0 == self@.len(),
            r.1 == Some(r.0),
    {
        (self.state.len(), Some(self.state.len()))
    }

    /// Bulk termination: discard all remaining entries without drawing any
    /// randomness and report exactly how many were discarded.  Consumes the
    /// sequence, so nothing is producible afterwards.
    pub fn count(self) -> (r: usize)
        ensures
            r == self@.len(),
    {
        let mut this = self;
        let result = this.state.len();
        this.state.clear();
        result
    }

    /// Emit the final element of the shuffled order and terminate: one
    /// ordinary production step, then the bulk discard of `count` —
    /// whichever entry that step emits is the only one left to be called
    /// last once the rest are given up.  Returns `None` if and only if the
    /// sequence was already exhausted.
    pub fn last(self) -> (r: Option<&'a T>)
        ensures
            r is Some <==> self@.len() > 0,
            r matches Some(e) ==> exists|j: int|
                0 <= j < self@.len() && e == step_taken(self@, j),
    {
        let mut this = self;
        match this.next() {
            None => None,
            Some(result) => {
                this.state.clear();
                Some(result)
            },
        }
    }

    /// Produce the next `k` elements by repeated production steps.  When
    /// fewer than `k` remain, all of them are produced and the sequence is
    /// left exhausted.  The produced elements together with the remaining
    /// pool restore the pool this call started from.
    pub fn take(&mut self, k: usize) -> (r: Vec<&'a T>)
        ensures
            r@.len() == if k <= old(self)@.len() {
                k as int
            } else {
                old(self)@.len() as int
            },
            final(self)@.len() == old(self)@.len() - r@.len(),
            final(self)@.to_multiset().add(r@.to_multiset()) == old(self)@.to_multiset(),
    {
        broadcast use vstd::seq_lib::group_to_multiset_ensures;

        let mut out: Vec<&'a T> = Vec::new();
        let mut i: usize = 0;
        proof {
            assert(out@.to_multiset() =~= Multiset::<&'a T>::empty());
            assert(self@.to_multiset().add(out@.to_multiset()) =~= self@.to_multiset());
        }
        while i < k && self.state.len() > 0
            invariant
                i <= k,
                out@.len() == i,
                out@.len() + self@.len() == old(self)@.len(),
                self@.to_multiset().add(out@.to_multiset()) == old(self)@.to_multiset(),
            decreases k - i,
        {
            let n = self.state.len();
            let j = self.rng.next_below(n);
            let ghost prev = self@;
            let ghost prev_out = out@;
            let e = self.produce_at(j);
            out.push(e);
            i = i + 1;
            proof {
                assert(out@ == prev_out.push(e));
                vstd::seq_lib::to_multiset_build(prev_out, e);
                assert(out@.to_multiset() =~= prev_out.to_multiset().insert(e));
                assert(self@.to_multiset().add(out@.to_multiset())
                    =~= prev.to_multiset().add(prev_out.to_multiset()));
            }
        }
        out
    }
}

impl<'a, T> ShuffledIter<'a, T, FixedRandom> {
    /// The draws the replaying source will use, in order.
    pub open spec fn pending_draws(&self) -> Seq<usize> {
        self.rand_source().pending()
    }

    /// Determinism with a fixed list of draws: a full drain by repeated
    /// production steps emits exactly `emission` of the starting pool and
    /// the stored draws.  Two sequences built over equal pools with equal
    /// draw lists therefore produce identical emission orders.
    pub fn replay(&mut self) -> (r: Vec<&'a T>)
        ensures
            r@ == emission(old(self)@, old(self).pending_draws()),
            final(self)@.len() == 0,
    {
        let mut out: Vec<&'a T> = Vec::new();
        proof {
            assert(out@ + emission(self@, self.pending_draws())
                =~= emission(old(self)@, old(self).pending_draws()));
        }
        while self.state.len() > 0
            invariant
                out@ + emission(self@, self.pending_draws())
                    == emission(old(self)@, old(self).pending_draws()),
            decreases self@.len(),
        {
            let n = self.state.len();
            let ghost prev = self@;
            let ghost prev_draws = self.pending_draws();
            let ghost prev_out = out@;
            let j = self.rng.next_below(n);
            let e = self.produce_at(j);
            out.push(e);
            proof {
                if prev_draws.len() > 0 {
                    assert(j as int == (prev_draws[0] as int) % (prev.len() as int));
                    assert(self.pending_draws() =~= prev_draws.skip(1));
                } else {
                    assert(j == 0);
                    assert(self.pending_draws() == prev_draws);
                }
                assert(emission(prev, prev_draws)
                    =~= seq![e] + emission(self@, self.pending_draws()));
                assert(out@ =~= prev_out + seq![e]);
                assert(out@ + emission(self@, self.pending_draws())
                    =~= emission(old(self)@, old(self).pending_draws()));
            }
        }
        proof {
            assert(emission(self@, self.pending_draws()) =~= Seq::<&'a T>::empty());
            assert(out@ =~= emission(old(self)@, old(self).pending_draws()));
        }
        out
    }
}

/// Extension for producing the elements of a collection lazily in shuffled
/// order.
pub trait Shuffled<'a, T: 'a>: View<V = Seq<T>> {
    /// A shuffled sequence over `self` driven by the given randomness
    /// source.  The scaffold starts as the full element list in original
    /// order, and no randomness is consumed by construction itself: the
    /// source is handed over untouched.
    fn shuffled_by<R: UniformRandom>(&'a self, rng: R) -> (it: ShuffledIter<'a, T, R>)
        ensures
            it.rand_source() == rng,
            it@.len() == self@.len(),
            forall|i: int| 0 <= i < self@.len() ==> *(#[trigger] it@[i]) == self@[i],
    ;

    /// A shuffled sequence over `self` driven by the thread-local
    /// generator.
    fn shuffled(&'a self) -> (it: ShuffledIter<'a, T, ThreadRandom>)
        ensures
            it@.len() == self@.len(),
            forall|i: int| 0 <= i < self@.len() ==> *(#[trigger] it@[i]) == self@[i],
    {
        self.shuffled_by(ThreadRandom::new())
    }
}

impl<'a, T: 'a> Shuffled<'a, T> for [T] {
    fn shuffled_by<R: UniformRandom>(&'a self, rng: R) -> (it: ShuffledIter<'a, T, R>) {
        let mut state: Vec<&'a T> = Vec::new();
        let mut i: usize = 0;
        while i < self.len()
            invariant
                i <= self@.len(),
                state@.len() == i,
                forall|k: int| 0 <= k < i ==> *(#[trigger] state@[k]) == self@[k],
            decreases self@.len() - i,
        {
            let e: &'a T = vstd::slice::slice_index_get(self, i);
            state.push(e);
            i = i + 1;
        }
        ShuffledIter { rng, state }
    }
}

} // verus!
