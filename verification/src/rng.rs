//! Injectable randomness.
//!
//! Every algorithm in this crate that draws at random takes its source as
//! an argument, so a session can replay with a seeded generator and tests
//! run deterministically. The one contact with outside randomness is
//! `ThreadRngSource`.

use vstd::prelude::*;

verus! {

use vstd::multiset::Multiset;

/// A source of bounded random indices.
pub trait IndexRng {
    /// Picks an index below `bound`.
    fn pick(&mut self, bound: usize) -> (r: usize)
        requires
            bound > 0,
        ensures
            r < bound,
    ;
}

/// A small deterministic generator — one multiply-and-add step per draw —
/// for replayable pairing and for tests.
pub struct SeededRng {
    state: u64,
}

impl SeededRng {
    /// The state the generator holds.
    pub closed spec fn spec_state(&self) -> u64 {
        self.state
    }

    /// One step of the generator: a wrapping 64-bit multiply-and-add.
    pub open spec fn stepped(s: u64) -> u64 {
        s.wrapping_mul(6364136223846793005).wrapping_add(1442695040888963407)
    }

    pub fn new(seed: u64) -> (r: Self)
        ensures
            r.spec_state() == seed,
    {
        Self { state: seed }
    }
}

impl IndexRng for SeededRng {
    /// A draw is a function of the state alone: step the state, take the
    /// upper bits, reduce below the bound. Replaying from an equal seed
    /// replays the same draws.
    fn pick(&mut self, bound: usize) -> (r: usize)
        ensures
            final(self).spec_state() == Self::stepped(old(self).spec_state()),
            r as int == ((final(self).spec_state() >> 33) as usize as int) % (bound as int),
    {
        self.state = self.state.wrapping_mul(6364136223846793005).wrapping_add(
            1442695040888963407,
        );
        let s = self.state;
        let word = s >> 33;
        proof {
            assert((s >> 33) < 0x80000000u64) by (bit_vector);
        }
        (word as usize) % bound
    }
}

/// Randomness drawn from the process-wide generator of the `rand` crate.
pub struct ThreadRngSource;

impl ThreadRngSource {
    /// Relies on rand::Rng::gen_range: a sample drawn from the range
    /// `0..bound` is below `bound` (and the range is non-empty, so the
    /// call does not panic).
    #[verifier::external_body]
    fn sample_below(bound: usize) -> (r: usize)
        requires
            bound > 0,
        ensures
            r < bound,
    {
        rand::Rng::gen_range(&mut rand::thread_rng(), 0..bound)
    }
}

impl IndexRng for ThreadRngSource {
    fn pick(&mut self, bound: usize) -> (r: usize) {
        Self::sample_below(bound)
    }
}

/// A random permutation of `items`: each step draws one of the remaining
/// elements, so the result holds exactly the elements of `items`, counted
/// with multiplicity.
pub fn shuffled<T: Copy, R: IndexRng>(items: &Vec<T>, rng: &mut R) -> (r: Vec<T>)
    ensures
        r@.to_multiset() == items@.to_multiset(),
        r@.len() == items@.len(),
{
    broadcast use vstd::seq_lib::group_to_multiset_ensures;
    broadcast use vstd::multiset::group_multiset_axioms;

    let mut work: Vec<T> = Vec::new();
    let mut i: usize = 0;
    while i < items.len()
        invariant
            i <= items@.len(),
            work@ =~= items@.subrange(0, i as int),
        decreases items@.len() - i,
    {
        work.push(items[i]);
        i += 1;
    }
    proof {
        assert(work@ =~= items@);
    }
    let mut out: Vec<T> = Vec::new();
    while work.len() > 0
        invariant
            work@.to_multiset().add(out@.to_multiset()) =~= items@.to_multiset(),
            work@.len() + out@.len() == items@.len(),
        decreases work@.len(),
    {
        let ghost prev_work = work@;
        let ghost prev_out = out@;
        let j = rng.pick(work.len());
        let t = work.remove(j);
        out.push(t);
        proof {
            assert(prev_work[j as int] == t);
            assert(prev_work.contains(t));
            vstd::seq_lib::to_multiset_remove::<T>(prev_work, j as int);
            vstd::seq_lib::to_multiset_build::<T>(prev_out, t);
            assert(work@ == prev_work.remove(j as int));
            assert(out@ == prev_out.push(t));
            assert(work@.to_multiset() == prev_work.to_multiset().remove(t));
            assert(out@.to_multiset() == prev_out.to_multiset().insert(t));
            vstd::seq_lib::to_multiset_contains::<T>(prev_work, t);
            assert(prev_work.to_multiset().count(t) > 0);
            assert forall|x: T|
                work@.to_multiset().add(out@.to_multiset()).count(x) == prev_work.to_multiset().add(
                    prev_out.to_multiset(),
                ).count(x) by {
                if x == t {
                    assert(Multiset::singleton(t).count(x) == 1);
                } else {
                    assert(Multiset::singleton(t).count(x) == 0);
                }
            }
            assert(work@.to_multiset().add(out@.to_multiset()) =~= prev_work.to_multiset().add(
                prev_out.to_multiset(),
            ));
        }
    }
    proof {
        assert(work@ =~= Seq::<T>::empty());
        assert(work@.to_multiset() =~= Multiset::<T>::empty());
        assert(out@.to_multiset() =~= items@.to_multiset());
    }
    out
}

} // verus!
