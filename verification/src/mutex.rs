//! A lock for exclusive access that can be locked in key order.

use vstd::prelude::*;
use crate::group::{tag_outcome, Held, Poisoned, SortableLock};
use crate::key::{KeyGenerator, SortKey};

verus! {

/// `std::sync::Mutex`, carried through without looking inside.
#[verifier::external_type_specification]
#[verifier::external_body]
#[verifier::reject_recursive_types(T)]
pub struct ExMutex<T: ?Sized>(std::sync::Mutex<T>);

/// `std::sync::MutexGuard`, carried through without looking inside.
#[verifier::external_type_specification]
#[verifier::external_body]
#[verifier::reject_recursive_types(T)]
pub struct ExMutexGuard<'a, T: ?Sized + 'a>(std::sync::MutexGuard<'a, T>);

/// `std::sync::PoisonError`, carried through without looking inside.
#[verifier::external_type_specification]
#[verifier::external_body]
#[verifier::reject_recursive_types(T)]
pub struct ExPoisonError<T>(std::sync::PoisonError<T>);

/// A value behind a lock for exclusive access, with a key that orders the lock
/// among all locks of its generator.
#[verifier::reject_recursive_types(T)]
pub struct SortMutex<T> {
    mutex: std::sync::Mutex<T>,
    key: SortKey,
}

/// A request to lock a [`SortMutex`]. It holds nothing until it is acquired.
#[verifier::reject_recursive_types(T)]
pub struct SortMutexGuard<'l, T> {
    lock: &'l SortMutex<T>,
}

/// `std::sync::Mutex::new`: a mutex, unlocked, around `value`.
#[verifier::external_body]
fn mutex_new<T>(value: T) -> std::sync::Mutex<T> {
    std::sync::Mutex::new(value)
}

/// `std::sync::Mutex::lock`: blocks until the mutex is held by this thread.
/// Whether the guard or a poison error comes back depends on what earlier
/// holders did, so nothing is claimed of the result. A thread that already
/// holds the mutex must not call this: the call then never returns, or panics.
#[verifier::external_body]
fn mutex_lock<'a, T>(mutex: &'a std::sync::Mutex<T>) -> Result<
    std::sync::MutexGuard<'a, T>,
    std::sync::PoisonError<std::sync::MutexGuard<'a, T>>,
> {
    mutex.lock()
}

impl<T> SortMutex<T> {
    /// The key that was drawn for this lock when it was made.
    pub closed spec fn key(&self) -> SortKey {
        self.key
    }

    /// Puts `value` behind a new lock, with a fresh key drawn from `keys`.
    pub fn new(value: T, keys: &KeyGenerator) -> SortMutex<T> {
        SortMutex { mutex: mutex_new(value), key: SortKey::new(keys) }
    }

    /// Requests this lock. Nothing is locked until the request is acquired
    /// with `lock_all`, alone or in a group.
    pub fn lock(&self) -> (request: SortMutexGuard<'_, T>)
        ensures
            request.target() == self,
    {
        SortMutexGuard { lock: self }
    }
}

impl<'l, T> SortMutexGuard<'l, T> {
    /// The lock that this request is for.
    pub closed spec fn target(&self) -> &SortMutex<T> {
        self.lock
    }
}

impl<'l, T> SortableLock for SortMutexGuard<'l, T> {
    type Guard = std::sync::MutexGuard<'l, T>;

    open spec fn key(&self) -> SortKey {
        self.target().key()
    }

    open spec fn can_be_poisoned(&self) -> bool {
        true
    }

    fn sort_key(&self) -> (k: SortKey) {
        self.lock.key
    }

    fn lock_presorted(&self) -> (r: Result<Held<std::sync::MutexGuard<'l, T>>, Poisoned>) {
        tag_outcome(self.lock.key, mutex_lock(&self.lock.mutex))
    }
}

} // verus!
