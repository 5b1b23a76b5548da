//! Lock requests, and groups of them that are acquired in key order.

use vstd::prelude::*;
use crate::key::SortKey;
use crate::order::{is_lock_order, lock_order, visit_extends, visited, visited_within};

verus! {

/// A guard together with the key of the lock it was taken from. The lock is
/// released when the guard is dropped.
#[derive(Debug)]
pub struct Held<G> {
    /// The key of the lock that `guard` holds.
    pub key: SortKey,
    /// The guard that the underlying lock handed out.
    pub guard: G,
}

/// The lock with this key was found poisoned: a previous holder failed while
/// holding it. Nothing is repaired and nothing stays locked.
#[derive(Debug, Clone, Copy, PartialEq, Eq, Structural)]
pub struct Poisoned {
    /// The key of the poisoned lock.
    pub key: SortKey,
}

/// Says what an attempt to acquire the lock with key `key` amounts to: the
/// guard tagged with the key, or the report that this lock is poisoned.
pub fn tag_outcome<G, E>(key: SortKey, outcome: Result<G, E>) -> (r: Result<Held<G>, Poisoned>)
    ensures
        match outcome {
            Ok(guard) => r == Ok::<Held<G>, Poisoned>(Held { key, guard }),
            Err(_) => r == Err::<Held<G>, Poisoned>(Poisoned { key }),
        },
{
    match outcome {
        Ok(guard) => Ok(Held { key, guard }),
        Err(_) => Err(Poisoned { key }),
    }
}

/// A request to lock one resource. Making a request locks nothing; the lock is
/// taken when the request is acquired, alone or in a group.
pub trait SortableLock {
    /// What the underlying lock hands out once it is held.
    type Guard;

    /// The key of the lock that this request is for.
    spec fn key(&self) -> SortKey;

    /// Whether acquiring can report a poisoned lock.
    spec fn can_be_poisoned(&self) -> bool;

    /// The key of the lock that this request is for.
    fn sort_key(&self) -> (k: SortKey)
        ensures
            k == self.key(),
    ;

    /// Blocks until the lock is held, without regard to any other lock.
    ///
    /// To lock several locks use [`LockGroup::lock_all`], which puts them in
    /// order first.
    fn lock_presorted(&self) -> (r: Result<Held<Self::Guard>, Poisoned>)
        ensures
            r matches Ok(held) ==> held.key == self.key(),
            r matches Err(e) ==> e.key == self.key(),
            !self.can_be_poisoned() ==> r is Ok,
    ;
}

/// A fixed number of lock requests that are acquired together.
pub trait LockGroup: Sized {
    /// The guards of the group, one per request, in the order of the requests.
    type Locked;

    /// The keys of the requests, in the order in which the caller wrote them.
    spec fn keys(&self) -> Seq<SortKey>;

    /// The keys that the guards carry, in the order of the guards.
    spec fn held_keys(locked: &Self::Locked) -> Seq<SortKey>;

    /// Whether some request of the group can report a poisoned lock.
    spec fn any_can_be_poisoned(&self) -> bool;

    /// Acquires every lock of the group, one at a time in ascending key
    /// order, and returns the guards in the order of the requests. If a lock is
    /// found poisoned, the locks taken so far are released and the poisoned
    /// lock is reported.
    ///
    /// A group must not request one lock twice, unless both requests are for
    /// reading: the second acquisition would wait for the first for ever.
    /// This is not detected.
    fn lock_all(self) -> (r: Result<Self::Locked, Poisoned>)
        ensures
            r matches Ok(locked) ==> Self::held_keys(&locked) == self.keys(),
            r matches Err(e) ==> self.keys().contains(e.key),
            !self.any_can_be_poisoned() ==> r is Ok,
    ;
}

impl<T: SortableLock> LockGroup for T {
    type Locked = Held<T::Guard>;

    open spec fn keys(&self) -> Seq<SortKey> {
        seq![self.key()]
    }

    open spec fn held_keys(locked: &Held<T::Guard>) -> Seq<SortKey> {
        seq![locked.key]
    }

    open spec fn any_can_be_poisoned(&self) -> bool {
        self.can_be_poisoned()
    }

    fn lock_all(self) -> (r: Result<Held<T::Guard>, Poisoned>)
        ensures
            r matches Ok(held) ==> held.key == self.key(),
            r matches Err(e) ==> e.key == self.key(),
    {
        let r = self.lock_presorted();
        proof {
            assert(seq![self.key()][0] == self.key());
        }
        r
    }
}

/// A group of one request is the request itself: what `lock_all` promises of
/// it is what `lock_presorted` promises, no more and no less.
pub proof fn group_of_one_is_the_request<T: SortableLock>(
    request: T,
    held: Held<T::Guard>,
    e: Poisoned,
)
    ensures
        (<T as LockGroup>::held_keys(&held) == <T as LockGroup>::keys(&request))
            == (held.key == request.key()),
        <T as LockGroup>::keys(&request).contains(e.key) == (e.key == request.key()),
        <T as LockGroup>::any_can_be_poisoned(&request) == request.can_be_poisoned(),
{
    let keys = <T as LockGroup>::keys(&request);
    let held_keys = <T as LockGroup>::held_keys(&held);
    assert(keys[0] == request.key());
    assert(held_keys[0] == held.key);
    if held.key == request.key() {
        assert(held_keys =~= keys);
    }
}

impl<T1: SortableLock, T2: SortableLock> LockGroup for (T1, T2) {
    type Locked = (Held<T1::Guard>, Held<T2::Guard>);

    open spec fn keys(&self) -> Seq<SortKey> {
        seq![self.0.key(), self.1.key()]
    }

    open spec fn held_keys(locked: &Self::Locked) -> Seq<SortKey> {
        seq![locked.0.key, locked.1.key]
    }

    open spec fn any_can_be_poisoned(&self) -> bool {
        self.0.can_be_poisoned() || self.1.can_be_poisoned()
    }

    fn lock_all(self) -> (r: Result<Self::Locked, Poisoned>)
        ensures
            r matches Ok(locked) ==> {
                &&& locked.0.key == self.0.key()
                &&& locked.1.key == self.1.key()
            },
            r matches Err(e) ==> {
                ||| e.key == self.0.key()
                ||| e.key == self.1.key()
            },
    {
        let keys = vec![self.0.sort_key(), self.1.sort_key()];
        assert(keys@ =~= self.keys());
        let order = lock_order(&keys);
        let mut slot0: Option<Held<T1::Guard>> = None;
        let mut slot1: Option<Held<T2::Guard>> = None;
        let mut step: usize = 0;
        while step < 2
            invariant
                step <= 2,
                is_lock_order(self.keys(), order@),
                self.keys().len() == 2,
                self.keys()[0] == self.0.key(),
                self.keys()[1] == self.1.key(),
                (slot0 is Some) == visited_within(order@, 0, step as int),
                (slot1 is Some) == visited_within(order@, 1, step as int),
                slot0 matches Some(held) ==> held.key == self.0.key(),
                slot1 matches Some(held) ==> held.key == self.1.key(),
            decreases 2 - step,
        {
            let position: usize = order[step];
            if position == 0 {
                slot0 = Some(self.0.lock_presorted()?);
            } else {
                slot1 = Some(self.1.lock_presorted()?);
            }
            proof {
                visit_extends(order@, 0, step as int);
                visit_extends(order@, 1, step as int);
            }
            step += 1;
        }
        proof {
            assert(visited(order@, 0));
            assert(visited(order@, 1));
        }
        let locked = (slot0.unwrap(), slot1.unwrap());
        assert(Self::held_keys(&locked) =~= self.keys());
        Ok(locked)
    }
}

impl<T1: SortableLock, T2: SortableLock, T3: SortableLock> LockGroup for (T1, T2, T3) {
    type Locked = (Held<T1::Guard>, Held<T2::Guard>, Held<T3::Guard>);

    open spec fn keys(&self) -> Seq<SortKey> {
        seq![self.0.key(), self.1.key(), self.2.key()]
    }

    open spec fn held_keys(locked: &Self::Locked) -> Seq<SortKey> {
        seq![locked.0.key, locked.1.key, locked.2.key]
    }

    open spec fn any_can_be_poisoned(&self) -> bool {
        self.0.can_be_poisoned() || self.1.can_be_poisoned() || self.2.can_be_poisoned()
    }

    fn lock_all(self) -> (r: Result<Self::Locked, Poisoned>)
        ensures
            r matches Ok(locked) ==> {
                &&& locked.0.key == self.0.key()
                &&& locked.1.key == self.1.key()
                &&& locked.2.key == self.2.key()
            },
            r matches Err(e) ==> {
                ||| e.key == self.0.key()
                ||| e.key == self.1.key()
                ||| e.key == self.2.key()
            },
    {
        let keys = vec![self.0.sort_key(), self.1.sort_key(), self.2.sort_key()];
        assert(keys@ =~= self.keys());
        let order = lock_order(&keys);
        let mut slot0: Option<Held<T1::Guard>> = None;
        let mut slot1: Option<Held<T2::Guard>> = None;
        let mut slot2: Option<Held<T3::Guard>> = None;
        let mut step: usize = 0;
        while step < 3
            invariant
                step <= 3,
                is_lock_order(self.keys(), order@),
                self.keys().len() == 3,
                self.keys()[0] == self.0.key(),
                self.keys()[1] == self.1.key(),
                self.keys()[2] == self.2.key(),
                (slot0 is Some) == visited_within(order@, 0, step as int),
                (slot1 is Some) == visited_within(order@, 1, step as int),
                (slot2 is Some) == visited_within(order@, 2, step as int),
                slot0 matches Some(held) ==> held.key == self.0.key(),
                slot1 matches Some(held) ==> held.key == self.1.key(),
                slot2 matches Some(held) ==> held.key == self.2.key(),
            decreases 3 - step,
        {
            let position: usize = order[step];
            if position == 0 {
                slot0 = Some(self.0.lock_presorted()?);
            } else if position == 1 {
                slot1 = Some(self.1.lock_presorted()?);
            } else {
                slot2 = Some(self.2.lock_presorted()?);
            }
            proof {
                visit_extends(order@, 0, step as int);
                visit_extends(order@, 1, step as int);
                visit_extends(order@, 2, step as int);
            }
            step += 1;
        }
        proof {
            assert(visited(order@, 0));
            assert(visited(order@, 1));
            assert(visited(order@, 2));
        }
        let locked = (slot0.unwrap(), slot1.unwrap(), slot2.unwrap());
        assert(Self::held_keys(&locked) =~= self.keys());
        Ok(locked)
    }
}

impl<
    T1: SortableLock,
    T2: SortableLock,
    T3: SortableLock,
    T4: SortableLock,
> LockGroup for (T1, T2, T3, T4) {
    type Locked = (
        Held<T1::Guard>,
        Held<T2::Guard>,
        Held<T3::Guard>,
        Held<T4::Guard>,
    );

    open spec fn keys(&self) -> Seq<SortKey> {
        seq![self.0.key(), self.1.key(), self.2.key(), self.3.key()]
    }

    open spec fn held_keys(locked: &Self::Locked) -> Seq<SortKey> {
        seq![locked.0.key, locked.1.key, locked.2.key, locked.3.key]
    }

    open spec fn any_can_be_poisoned(&self) -> bool {
        self.0.can_be_poisoned()
            || self.1.can_be_poisoned()
            || self.2.can_be_poisoned()
            || self.3.can_be_poisoned()
    }

    fn lock_all(self) -> (r: Result<Self::Locked, Poisoned>)
        ensures
            r matches Ok(locked) ==> {
                &&& locked.0.key == self.0.key()
                &&& locked.1.key == self.1.key()
                &&& locked.2.key == self.2.key()
                &&& locked.3.key == self.3.key()
            },
            r matches Err(e) ==> {
                ||| e.key == self.0.key()
                ||| e.key == self.1.key()
                ||| e.key == self.2.key()
                ||| e.key == self.3.key()
            },
    {
        let keys = vec![
            self.0.sort_key(),
            self.1.sort_key(),
            self.2.sort_key(),
            self.3.sort_key(),
        ];
        assert(keys@ =~= self.keys());
        let order = lock_order(&keys);
        let mut slot0: Option<Held<T1::Guard>> = None;
        let mut slot1: Option<Held<T2::Guard>> = None;
        let mut slot2: Option<Held<T3::Guard>> = None;
        let mut slot3: Option<Held<T4::Guard>> = None;
        let mut step: usize = 0;
        while step < 4
            invariant
                step <= 4,
                is_lock_order(self.keys(), order@),
                self.keys().len() == 4,
                self.keys()[0] == self.0.key(),
                self.keys()[1] == self.1.key(),
                self.keys()[2] == self.2.key(),
                self.keys()[3] == self.3.key(),
                (slot0 is Some) == visited_within(order@, 0, step as int),
                (slot1 is Some) == visited_within(order@, 1, step as int),
                (slot2 is Some) == visited_within(order@, 2, step as int),
                (slot3 is Some) == visited_within(order@, 3, step as int),
                slot0 matches Some(held) ==> held.key == self.0.key(),
                slot1 matches Some(held) ==> held.key == self.1.key(),
                slot2 matches Some(held) ==> held.key == self.2.key(),
                slot3 matches Some(held) ==> held.key == self.3.key(),
            decreases 4 - step,
        {
            let position: usize = order[step];
            if position == 0 {
                slot0 = Some(self.0.lock_presorted()?);
            } else if position == 1 {
                slot1 = Some(self.1.lock_presorted()?);
            } else if position == 2 {
                slot2 = Some(self.2.lock_presorted()?);
            } else {
                slot3 = Some(self.3.lock_presorted()?);
            }
            proof {
                visit_extends(order@, 0, step as int);
                visit_extends(order@, 1, step as int);
                visit_extends(order@, 2, step as int);
                visit_extends(order@, 3, step as int);
            }
            step += 1;
        }
        proof {
            assert(visited(order@, 0));
            assert(visited(order@, 1));
            assert(visited(order@, 2));
            assert(visited(order@, 3));
        }
        let locked = (
            slot0.unwrap(),
            slot1.unwrap(),
            slot2.unwrap(),
            slot3.unwrap(),
        );
        assert(Self::held_keys(&locked) =~= self.keys());
        Ok(locked)
    }
}

impl<
    T1: SortableLock,
    T2: SortableLock,
    T3: SortableLock,
    T4: SortableLock,
    T5: SortableLock,
> LockGroup for (T1, T2, T3, T4, T5) {
    type Locked = (
        Held<T1::Guard>,
        Held<T2::Guard>,
        Held<T3::Guard>,
        Held<T4::Guard>,
        Held<T5::Guard>,
    );

    open spec fn keys(&self) -> Seq<SortKey> {
        seq![self.0.key(), self.1.key(), self.2.key(), self.3.key(), self.4.key()]
    }

    open spec fn held_keys(locked: &Self::Locked) -> Seq<SortKey> {
        seq![locked.0.key, locked.1.key, locked.2.key, locked.3.key, locked.4.key]
    }

    open spec fn any_can_be_poisoned(&self) -> bool {
        self.0.can_be_poisoned()
            || self.1.can_be_poisoned()
            || self.2.can_be_poisoned()
            || self.3.can_be_poisoned()
            || self.4.can_be_poisoned()
    }

    fn lock_all(self) -> (r: Result<Self::Locked, Poisoned>)
        ensures
            r matches Ok(locked) ==> {
                &&& locked.0.key == self.0.key()
                &&& locked.1.key == self.1.key()
                &&& locked.2.key == self.2.key()
                &&& locked.3.key == self.3.key()
                &&& locked.4.key == self.4.key()
            },
            r matches Err(e) ==> {
                ||| e.key == self.0.key()
                ||| e.key == self.1.key()
                ||| e.key == self.2.key()
                ||| e.key == self.3.key()
                ||| e.key == self.4.key()
            },
    {
        let keys = vec![
            self.0.sort_key(),
            self.1.sort_key(),
            self.2.sort_key(),
            self.3.sort_key(),
            self.4.sort_key(),
        ];
        assert(keys@ =~= self.keys());
        let order = lock_order(&keys);
        let mut slot0: Option<Held<T1::Guard>> = None;
        let mut slot1: Option<Held<T2::Guard>> = None;
        let mut slot2: Option<Held<T3::Guard>> = None;
        let mut slot3: Option<Held<T4::Guard>> = None;
        let mut slot4: Option<Held<T5::Guard>> = None;
        let mut step: usize = 0;
        while step < 5
            invariant
                step <= 5,
                is_lock_order(self.keys(), order@),
                self.keys().len() == 5,
                self.keys()[0] == self.0.key(),
                self.keys()[1] == self.1.key(),
                self.keys()[2] == self.2.key(),
                self.keys()[3] == self.3.key(),
                self.keys()[4] == self.4.key(),
                (slot0 is Some) == visited_within(order@, 0, step as int),
                (slot1 is Some) == visited_within(order@, 1, step as int),
                (slot2 is Some) == visited_within(order@, 2, step as int),
                (slot3 is Some) == visited_within(order@, 3, step as int),
                (slot4 is Some) == visited_within(order@, 4, step as int),
                slot0 matches Some(held) ==> held.key == self.0.key(),
                slot1 matches Some(held) ==> held.key == self.1.key(),
                slot2 matches Some(held) ==> held.key == self.2.key(),
                slot3 matches Some(held) ==> held.key == self.3.key(),
                slot4 matches Some(held) ==> held.key == self.4.key(),
            decreases 5 - step,
        {
            let position: usize = order[step];
            if position == 0 {
                slot0 = Some(self.0.lock_presorted()?);
            } else if position == 1 {
                slot1 = Some(self.1.lock_presorted()?);
            } else if position == 2 {
                slot2 = Some(self.2.lock_presorted()?);
            } else if position == 3 {
                slot3 = Some(self.3.lock_presorted()?);
            } else {
                slot4 = Some(self.4.lock_presorted()?);
            }
            proof {
                visit_extends(order@, 0, step as int);
                visit_extends(order@, 1, step as int);
                visit_extends(order@, 2, step as int);
                visit_extends(order@, 3, step as int);
                visit_extends(order@, 4, step as int);
            }
            step += 1;
        }
        proof {
            assert(visited(order@, 0));
            assert(visited(order@, 1));
            assert(visited(order@, 2));
            assert(visited(order@, 3));
            assert(visited(order@, 4));
        }
        let locked = (
            slot0.unwrap(),
            slot1.unwrap(),
            slot2.unwrap(),
            slot3.unwrap(),
            slot4.unwrap(),
        );
        assert(Self::held_keys(&locked) =~= self.keys());
        Ok(locked)
    }
}

} // verus!
