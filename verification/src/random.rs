//! Where the engine gets its tie-breaks from.
//!
//! The engine breaks two kinds of tie: an object that can roll to either side,
//! and a blocked creature with several free turns. Both ask a [`PickSource`]
//! to pick one of `n`. The game uses [`ThreadRandom`]; [`FirstPick`] and
//! [`LastPick`] make every tick repeatable.
//!
//! A source may be bound: it may promise which pick it makes of each `n`. The
//! engine's contracts hand that promise on, so that a tick driven by a bound
//! source has one outcome only.

use vstd::prelude::*;
use rand::rngs::ThreadRng;
use rand::Rng;

verus! {

/// What a source is bound to pick: for each `n`, the pick it makes of `n`
/// every time it is asked, or `None` where its pick is free.
pub type Bound = spec_fn(nat) -> Option<nat>;

/// The bound of a source whose picks are all free.
pub open spec fn unbound() -> Bound {
    |n: nat| None::<nat>
}

/// A source of tie-breaks.
pub trait PickSource {
    /// What this source is bound to pick. Picking does not change it. A
    /// source that says nothing is free in all its picks.
    open spec fn bound(&self) -> Bound {
        unbound()
    }

    /// Picks one of `n` things, numbered from 0.
    fn pick(&mut self, n: usize) -> (k: usize)
        requires
            n > 0,
        ensures
            k < n,
            (old(self).bound())(n as nat) matches Some(b) ==> k == b,
            final(self).bound() == old(self).bound(),
    ;
}

#[verifier::external_type_specification]
#[verifier::external_body]
pub struct ExThreadRng(ThreadRng);

/// `rand::thread_rng`: a handle to the generator that `rand` keeps for each
/// thread and seeds from the system. Nothing is claimed of the handle. The
/// call panics where the system gives no seed.
pub assume_specification[ rand::thread_rng ]() -> (rng: ThreadRng);

/// `Rng::gen_range(0, n)` on the thread's generator: a number that is at
/// least 0 and less than `n`. Nothing else is claimed of it, so two calls may
/// differ. `gen_range` panics where the range is empty, which `n > 0` rules
/// out.
#[verifier::external_body]
fn gen_below(rng: &mut ThreadRng, n: usize) -> (k: usize)
    requires
        n > 0,
    ensures
        k < n,
{
    rng.gen_range(0, n)
}

/// Picks uniformly at random, from the thread's generator.
pub struct ThreadRandom {
    rng: ThreadRng,
}

impl ThreadRandom {
    /// A source on the generator of the calling thread.
    pub fn new() -> (source: Self)
        ensures
            source.bound() == unbound(),
    {
        ThreadRandom { rng: rand::thread_rng() }
    }
}

impl PickSource for ThreadRandom {
    fn pick(&mut self, n: usize) -> (k: usize) {
        gen_below(&mut self.rng, n)
    }
}

/// Always picks the first: an object rolls left, and a creature takes the
/// first of its free turns.
#[derive(Copy, Clone, Debug, Default)]
pub struct FirstPick;

/// Always picks the last: an object rolls right, and a creature takes the last
/// of its free turns.
#[derive(Copy, Clone, Debug, Default)]
pub struct LastPick;

/// The bound of [`FirstPick`].
pub open spec fn always_first() -> Bound {
    |n: nat| Some(0nat)
}

/// The bound of [`LastPick`].
pub open spec fn always_last() -> Bound {
    |n: nat| Some((n - 1) as nat)
}

impl PickSource for FirstPick {
    open spec fn bound(&self) -> Bound {
        always_first()
    }

    fn pick(&mut self, n: usize) -> (k: usize) {
        0
    }
}

impl PickSource for LastPick {
    open spec fn bound(&self) -> Bound {
        always_last()
    }

    fn pick(&mut self, n: usize) -> (k: usize) {
        n - 1
    }
}

} // verus!
