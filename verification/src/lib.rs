//! Ordered locking: every lock carries a unique, totally ordered key, and a
//! group of lock requests is always acquired in ascending key order, whatever
//! the order in which the caller wrote the requests down. Two threads that lock
//! overlapping groups therefore never wait on each other in a cycle.
//!
//! Locks are made with [`SortMutex::new`] and [`SortRwLock::new`], which draw
//! their keys from a [`KeyGenerator`] that all locks of a program share. A lock
//! is requested with `lock`, `read` or `write`, which locks nothing yet. One
//! request, or a tuple of two to five requests, is then acquired with
//! [`LockGroup::lock_all`], which hands back one guard per request, in the
//! order of the requests.

pub mod group;
pub mod key;
pub mod mutex;
pub mod order;
pub mod rwlock;

pub use group::{Held, LockGroup, Poisoned, SortableLock};
pub use key::{KeyGenerator, SortKey};
pub use mutex::{SortMutex, SortMutexGuard};
pub use order::lock_order;
pub use rwlock::{SortReadGuard, SortRwLock, SortWriteGuard};
