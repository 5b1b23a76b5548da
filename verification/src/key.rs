//! Sort keys and the counter that issues them.

use vstd::prelude::*;

verus! {

/// `portable_atomic::AtomicU64`, carried through without looking inside.
#[verifier::external_type_specification]
#[verifier::external_body]
pub struct ExAtomicU64(portable_atomic::AtomicU64);

/// The identity of a lock: a copyable token with a total order.
///
/// Keys are only ever made by [`SortKey::new`], which draws them from a
/// [`KeyGenerator`].
#[derive(Debug, Clone, Copy, PartialEq, Eq, PartialOrd, Ord, Hash, Structural)]
pub struct SortKey(u64);

impl View for SortKey {
    type V = u64;

    /// The number by which keys are ordered.
    closed spec fn view(&self) -> u64 {
        self.0
    }
}

/// A counter that hands out sort keys. It may be shared between threads;
/// drawing a key never blocks.
///
/// Every lock that may end up in one group must draw its key from the same
/// generator: keys of different generators can collide.
pub struct KeyGenerator {
    counter: portable_atomic::AtomicU64,
}

/// The number that an atomic cell was made with. This is a fact about how the
/// cell came to be: it stays the same whatever the cell holds later.
pub uninterp spec fn counter_start(counter: portable_atomic::AtomicU64) -> u64;

/// `portable_atomic::AtomicU64::new`: an atomic cell that was made with
/// `start`. Nothing is claimed of what the cell holds at any later time: that
/// is shared state.
#[verifier::external_body]
fn counter_from(start: u64) -> (counter: portable_atomic::AtomicU64)
    ensures
        counter_start(counter) == start,
{
    portable_atomic::AtomicU64::new(start)
}

/// `portable_atomic::AtomicU64::fetch_add` with relaxed ordering: adds `step`
/// to the cell, wrapping around, and returns the value it replaced. The result
/// depends on what other threads did to the cell, so nothing is claimed of it.
#[verifier::external_body]
fn fetch_add_relaxed(counter: &portable_atomic::AtomicU64, step: u64) -> u64 {
    counter.fetch_add(step, core::sync::atomic::Ordering::Relaxed)
}

impl KeyGenerator {
    /// The rank of the first key that this generator hands out: the number its
    /// counter was made with.
    pub closed spec fn first_rank(&self) -> u64 {
        counter_start(self.counter)
    }

    /// A generator whose first key has rank 0.
    pub fn new() -> (keys: KeyGenerator)
        ensures
            keys.first_rank() == 0,
    {
        KeyGenerator { counter: counter_from(0) }
    }
}

impl SortKey {
    /// Draws the next key from `keys`, advancing its counter by one.
    ///
    /// The counter is 64 bits wide and is treated as never wrapping around.
    pub fn new(keys: &KeyGenerator) -> SortKey {
        SortKey(fetch_add_relaxed(&keys.counter, 1))
    }

    /// The number by which this key is ordered.
    pub fn rank(&self) -> (r: u64)
        ensures
            r == self@,
    {
        self.0
    }

    /// Whether this key comes strictly before `other`.
    pub fn precedes(&self, other: &SortKey) -> (r: bool)
        ensures
            r == (self@ < other@),
    {
        self.0 < other.0
    }
}

/// Two keys are the same key exactly when their ranks agree.
pub proof fn key_eq_iff_rank_eq(a: SortKey, b: SortKey)
    ensures
        (a == b) == (a@ == b@),
{
}

} // verus!
