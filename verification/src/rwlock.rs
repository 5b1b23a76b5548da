//! A lock for shared reading or exclusive writing that can be locked in key
//! order. It waits by spinning and is never poisoned.

use vstd::prelude::*;
use crate::group::{Held, Poisoned, SortableLock};
use crate::key::{KeyGenerator, SortKey};

verus! {

/// `spin::relax::Spin`, the way in which a `spin::RwLock` waits.
#[verifier::external_type_specification]
#[verifier::external_body]
pub struct ExSpin(spin::relax::Spin);

/// `spin::rwlock::RwLock`, carried through without looking inside.
#[verifier::external_type_specification]
#[verifier::external_body]
#[verifier::reject_recursive_types(T)]
#[verifier::reject_recursive_types(R)]
pub struct ExRwLock<T: ?Sized, R>(spin::rwlock::RwLock<T, R>);

/// `spin::rwlock::RwLockReadGuard`, carried through without looking inside.
#[verifier::external_type_specification]
#[verifier::external_body]
#[verifier::reject_recursive_types(T)]
pub struct ExRwLockReadGuard<'a, T: ?Sized>(spin::rwlock::RwLockReadGuard<'a, T>);

/// `spin::rwlock::RwLockWriteGuard`, carried through without looking inside.
#[verifier::external_type_specification]
#[verifier::external_body]
#[verifier::reject_recursive_types(T)]
#[verifier::reject_recursive_types(R)]
pub struct ExRwLockWriteGuard<'a, T: ?Sized + 'a, R>(spin::rwlock::RwLockWriteGuard<'a, T, R>);

/// A value behind a lock for shared reading or exclusive writing, with a key
/// that orders the lock among all locks of its generator.
#[verifier::reject_recursive_types(T)]
pub struct SortRwLock<T> {
    rwlock: spin::RwLock<T>,
    key: SortKey,
}

/// A request to lock a [`SortRwLock`] for reading. It holds nothing until it is
/// acquired.
#[verifier::reject_recursive_types(T)]
pub struct SortReadGuard<'l, T> {
    lock: &'l SortRwLock<T>,
}

/// A request to lock a [`SortRwLock`] for writing. It holds nothing until it is
/// acquired.
#[verifier::reject_recursive_types(T)]
pub struct SortWriteGuard<'l, T> {
    lock: &'l SortRwLock<T>,
}

/// `spin::RwLock::new`: a lock, unlocked, around `value`.
#[verifier::external_body]
fn rwlock_new<T>(value: T) -> spin::RwLock<T> {
    spin::RwLock::new(value)
}

/// `spin::RwLock::read`: spins until no writer holds the lock, then returns a
/// guard for shared access. Nothing is claimed of the guard. A thread that
/// holds the lock for writing must not call this: the call then never returns.
#[verifier::external_body]
fn rwlock_read<'a, T>(lock: &'a spin::RwLock<T>) -> spin::RwLockReadGuard<'a, T> {
    lock.read()
}

/// `spin::RwLock::write`: spins until nobody holds the lock, then returns a
/// guard for exclusive access. Nothing is claimed of the guard. A thread that
/// already holds the lock must not call this: the call then never returns.
#[verifier::external_body]
fn rwlock_write<'a, T>(lock: &'a spin::RwLock<T>) -> spin::RwLockWriteGuard<'a, T> {
    lock.write()
}

impl<T> SortRwLock<T> {
    /// The key that was drawn for this lock when it was made.
    pub closed spec fn key(&self) -> SortKey {
        self.key
    }

    /// Puts `value` behind a new lock, with a fresh key drawn from `keys`.
    pub fn new(value: T, keys: &KeyGenerator) -> SortRwLock<T> {
        SortRwLock { rwlock: rwlock_new(value), key: SortKey::new(keys) }
    }

    /// Requests this lock for reading. Nothing is locked until the request is
    /// acquired with `lock_all`, alone or in a group.
    pub fn read(&self) -> (request: SortReadGuard<'_, T>)
        ensures
            request.target() == self,
    {
        SortReadGuard { lock: self }
    }

    /// Requests this lock for writing. Nothing is locked until the request is
    /// acquired with `lock_all`, alone or in a group.
    pub fn write(&self) -> (request: SortWriteGuard<'_, T>)
        ensures
            request.target() == self,
    {
        SortWriteGuard { lock: self }
    }
}

impl<'l, T> SortReadGuard<'l, T> {
    /// The lock that this request is for.
    pub closed spec fn target(&self) -> &SortRwLock<T> {
        self.lock
    }
}

impl<'l, T> SortWriteGuard<'l, T> {
    /// The lock that this request is for.
    pub closed spec fn target(&self) -> &SortRwLock<T> {
        self.lock
    }
}

impl<'l, T> SortableLock for SortReadGuard<'l, T> {
    type Guard = spin::RwLockReadGuard<'l, T>;

    open spec fn key(&self) -> SortKey {
        self.target().key()
    }

    open spec fn can_be_poisoned(&self) -> bool {
        false
    }

    fn sort_key(&self) -> (k: SortKey) {
        self.lock.key
    }

    fn lock_presorted(&self) -> (r: Result<Held<spin::RwLockReadGuard<'l, T>>, Poisoned>) {
        Ok(Held { key: self.lock.key, guard: rwlock_read(&self.lock.rwlock) })
    }
}

impl<'l, T> SortableLock for SortWriteGuard<'l, T> {
    type Guard = spin::RwLockWriteGuard<'l, T>;

    open spec fn key(&self) -> SortKey {
        self.target().key()
    }

    open spec fn can_be_poisoned(&self) -> bool {
        false
    }

    fn sort_key(&self) -> (k: SortKey) {
        self.lock.key
    }

    fn lock_presorted(&self) -> (r: Result<Held<spin::RwLockWriteGuard<'l, T>>, Poisoned>) {
        Ok(Held { key: self.lock.key, guard: rwlock_write(&self.lock.rwlock) })
    }
}

} // verus!
