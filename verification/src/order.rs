//! The order in which a group of locks is acquired.

use vstd::prelude::*;
use crate::key::{key_eq_iff_rank_eq, SortKey};

verus! {

/// Position `i` is locked before position `j`: its key is smaller, or the keys
/// tie and `i` was written first.
pub open spec fn locks_before(keys: Seq<SortKey>, i: int, j: int) -> bool {
    keys[i]@ < keys[j]@ || (keys[i]@ == keys[j]@ && i < j)
}

/// `order` lists the positions of `keys` in the order in which they are locked:
/// each position once, keys ascending, ties in the order they were written.
pub open spec fn is_lock_order(keys: Seq<SortKey>, order: Seq<usize>) -> bool {
    &&& order.len() == keys.len()
    &&& forall|s: int| 0 <= s < order.len() ==> (#[trigger] order[s]) < keys.len()
    &&& forall|i: int| 0 <= i < keys.len() ==> visited(order, i)
    &&& forall|s: int, t: int|
        0 <= s < t < order.len() ==> locks_before(
            keys,
            #[trigger] order[s] as int,
            #[trigger] order[t] as int,
        )
}

/// Position `i` is locked in one of the first `steps` steps of `order`.
pub open spec fn visited_within(order: Seq<usize>, i: int, steps: int) -> bool {
    exists|s: int| 0 <= s < steps && s < order.len() && #[trigger] order[s] == i
}

/// Position `i` is locked in some step of `order`.
pub open spec fn visited(order: Seq<usize>, i: int) -> bool {
    visited_within(order, i, order.len() as int)
}

/// One more step locks the position that stands at that step, and no other.
pub proof fn visit_extends(order: Seq<usize>, i: int, steps: int)
    requires
        0 <= steps < order.len(),
    ensures
        visited_within(order, i, steps + 1)
            == (visited_within(order, i, steps) || order[steps] == i),
{
    if visited_within(order, i, steps) {
        let s = choose|s: int| 0 <= s < steps && s < order.len() && order[s] == i;
        assert(0 <= s < steps + 1 && s < order.len() && order[s] == i);
    }
    if order[steps] == i {
        assert(0 <= steps < steps + 1 && steps < order.len() && order[steps] == i);
    }
}

/// Computes the order in which the locks with the given keys are acquired.
pub fn lock_order(keys: &Vec<SortKey>) -> (order: Vec<usize>)
    ensures
        is_lock_order(keys@, order@),
{
    let n: usize = keys.len();
    let mut order: Vec<usize> = Vec::new();
    let mut i: usize = 0;
    while i < n
        invariant
            n == keys@.len(),
            i <= n,
            order@.len() == i,
            forall|s: int| 0 <= s < order@.len() ==> (#[trigger] order@[s]) < i,
            forall|x: int| 0 <= x < i ==> visited(order@, x),
            forall|s: int, t: int|
                0 <= s < t < order@.len() ==> locks_before(
                    keys@,
                    #[trigger] order@[s] as int,
                    #[trigger] order@[t] as int,
                ),
        decreases n - i,
    {
        let mut p: usize = i;
        while p > 0 && keys[i].precedes(&keys[order[p - 1]])
            invariant
                n == keys@.len(),
                i < n,
                p <= i,
                order@.len() == i,
                forall|s: int| 0 <= s < order@.len() ==> (#[trigger] order@[s]) < i,
                forall|s: int|
                    p <= s < i ==> keys@[i as int]@ < keys@[#[trigger] order@[s] as int]@,
            decreases p,
        {
            p -= 1;
        }
        let ghost before = order@;
        order.insert(p, i);
        proof {
            let after = order@;
            assert forall|s: int| 0 <= s < p implies !(keys@[i as int]@
                < keys@[#[trigger] before[s] as int]@) by {
                if s < p - 1 {
                    assert(locks_before(keys@, before[s] as int, before[p - 1] as int));
                }
            }
            assert forall|x: int| 0 <= x < i + 1 implies visited(after, x) by {
                if x == i {
                    assert(after[p as int] == i);
                } else {
                    assert(visited(before, x));
                    let s = choose|s: int| 0 <= s < before.len() && before[s] == x;
                    if s < p {
                        assert(after[s] == x);
                    } else {
                        assert(after[s + 1] == x);
                    }
                }
            }
            assert forall|s: int, t: int| 0 <= s < t < after.len() implies locks_before(
                keys@,
                #[trigger] after[s] as int,
                #[trigger] after[t] as int,
            ) by {
                let s0 = if s < p { s } else { s - 1 };
                let t0 = if t < p { t } else { t - 1 };
                if s == p {
                    assert(after[t] == before[t0]);
                } else if t == p {
                    assert(after[s] == before[s0]);
                } else {
                    assert(after[s] == before[s0]);
                    assert(after[t] == before[t0]);
                    assert(locks_before(keys@, before[s0] as int, before[t0] as int));
                }
            }
        }
        i += 1;
    }
    order
}

/// No two positions of `keys` hold the same key: no lock was put into the
/// group twice.
pub open spec fn distinct_keys(keys: Seq<SortKey>) -> bool {
    forall|i: int, j: int| 0 <= i < j < keys.len() ==> keys[i]@ != keys[j]@
}

/// The key that is locked at step `s`.
pub open spec fn key_at_step(keys: Seq<SortKey>, order: Seq<usize>, s: int) -> SortKey {
    keys[order[s] as int]
}

/// A lock order visits no position twice.
pub proof fn lock_order_visits_once(keys: Seq<SortKey>, order: Seq<usize>, s: int, t: int)
    requires
        is_lock_order(keys, order),
        0 <= s < order.len(),
        0 <= t < order.len(),
        s != t,
    ensures
        order[s] != order[t],
{
    if s < t {
        assert(locks_before(keys, order[s] as int, order[t] as int));
    } else {
        assert(locks_before(keys, order[t] as int, order[s] as int));
    }
}

/// Along a lock order the keys never descend.
pub proof fn lock_order_ascends(keys: Seq<SortKey>, order: Seq<usize>, s: int, t: int)
    requires
        is_lock_order(keys, order),
        0 <= s <= t < order.len(),
    ensures
        key_at_step(keys, order, s)@ <= key_at_step(keys, order, t)@,
{
    if s < t {
        assert(locks_before(keys, order[s] as int, order[t] as int));
    }
}

proof fn lock_orders_agree_up_to(keys: Seq<SortKey>, a: Seq<usize>, b: Seq<usize>, k: int)
    requires
        is_lock_order(keys, a),
        is_lock_order(keys, b),
        0 <= k <= keys.len(),
    ensures
        forall|s: int| 0 <= s < k ==> a[s] == b[s],
    decreases k,
{
    if k > 0 {
        lock_orders_agree_up_to(keys, a, b, k - 1);
        let s = k - 1;
        let x = a[s];
        let y = b[s];
        assert(visited(b, x as int));
        let m = choose|m: int| 0 <= m < b.len() && b[m] == x;
        assert(visited(a, y as int));
        let w = choose|w: int| 0 <= w < a.len() && a[w] == y;
        if m < s {
            assert(a[m] == b[m]);
            lock_order_visits_once(keys, a, m, s);
        }
        if w < s {
            assert(a[w] == b[w]);
            lock_order_visits_once(keys, b, w, s);
        }
        if m > s && w > s {
            assert(locks_before(keys, b[s] as int, b[m] as int));
            assert(locks_before(keys, a[s] as int, a[w] as int));
        }
    }
}

/// The keys of a group decide its lock order: two orders of the same keys are
/// the same order.
pub proof fn lock_order_is_unique(keys: Seq<SortKey>, a: Seq<usize>, b: Seq<usize>)
    requires
        is_lock_order(keys, a),
        is_lock_order(keys, b),
    ensures
        a == b,
{
    lock_orders_agree_up_to(keys, a, b, keys.len() as int);
    assert(a =~= b);
}

/// In a group without a repeated lock, of two locks the one with the smaller
/// key is locked first, wherever the two stand in the group.
pub proof fn smaller_key_locks_first(keys: Seq<SortKey>, order: Seq<usize>, s: int, t: int)
    requires
        is_lock_order(keys, order),
        distinct_keys(keys),
        0 <= s < order.len(),
        0 <= t < order.len(),
    ensures
        (s < t) == (key_at_step(keys, order, s)@ < key_at_step(keys, order, t)@),
{
    if s < t {
        assert(locks_before(keys, order[s] as int, order[t] as int));
        lock_order_visits_once(keys, order, s, t);
    } else if t < s {
        assert(locks_before(keys, order[t] as int, order[s] as int));
    }
}

/// Two groups lock the locks they share in the same relative order: if both
/// hold the locks `x` and `y`, and neither group repeats a lock, then `x` is
/// locked before `y` in the one exactly when it is in the other. So no two
/// groups ever wait for each other's locks in a cycle.
pub proof fn shared_locks_in_same_order(
    keys1: Seq<SortKey>,
    order1: Seq<usize>,
    keys2: Seq<SortKey>,
    order2: Seq<usize>,
    x1: int,
    y1: int,
    x2: int,
    y2: int,
)
    requires
        is_lock_order(keys1, order1),
        is_lock_order(keys2, order2),
        distinct_keys(keys1),
        distinct_keys(keys2),
        0 <= x1 < order1.len(),
        0 <= y1 < order1.len(),
        0 <= x2 < order2.len(),
        0 <= y2 < order2.len(),
        key_at_step(keys1, order1, x1) == key_at_step(keys2, order2, x2),
        key_at_step(keys1, order1, y1) == key_at_step(keys2, order2, y2),
    ensures
        (x1 < y1) == (x2 < y2),
{
    smaller_key_locks_first(keys1, order1, x1, y1);
    smaller_key_locks_first(keys2, order2, x2, y2);
}

/// Every lock of the group `a` is also in the group `b`.
pub open spec fn locks_within(a: Seq<SortKey>, b: Seq<SortKey>) -> bool {
    forall|i: int| 0 <= i < a.len() ==> b.contains(#[trigger] a[i])
}

proof fn step_of_key(keys: Seq<SortKey>, order: Seq<usize>, key: SortKey) -> (s: int)
    requires
        is_lock_order(keys, order),
        keys.contains(key),
    ensures
        0 <= s < order.len(),
        key_at_step(keys, order, s) == key,
{
    let i = choose|i: int| 0 <= i < keys.len() && keys[i] == key;
    assert(visited(order, i));
    choose|s: int| 0 <= s < order.len() && order[s] == i
}

proof fn same_locks_agree_up_to(
    keys1: Seq<SortKey>,
    order1: Seq<usize>,
    keys2: Seq<SortKey>,
    order2: Seq<usize>,
    steps: int,
)
    requires
        is_lock_order(keys1, order1),
        is_lock_order(keys2, order2),
        distinct_keys(keys1),
        distinct_keys(keys2),
        locks_within(keys1, keys2),
        locks_within(keys2, keys1),
        0 <= steps <= keys1.len(),
        0 <= steps <= keys2.len(),
    ensures
        forall|s: int|
            0 <= s < steps ==> key_at_step(keys1, order1, s) == key_at_step(keys2, order2, s),
    decreases steps,
{
    if steps > 0 {
        same_locks_agree_up_to(keys1, order1, keys2, order2, steps - 1);
        let s = steps - 1;
        let x = key_at_step(keys1, order1, s);
        let y = key_at_step(keys2, order2, s);
        assert(keys2.contains(keys1[order1[s] as int]));
        assert(keys1.contains(keys2[order2[s] as int]));
        let m = step_of_key(keys2, order2, x);
        let w = step_of_key(keys1, order1, y);
        if m < s {
            smaller_key_locks_first(keys1, order1, m, s);
        } else {
            lock_order_ascends(keys2, order2, s, m);
        }
        if w < s {
            smaller_key_locks_first(keys2, order2, w, s);
        } else {
            lock_order_ascends(keys1, order1, s, w);
        }
        key_eq_iff_rank_eq(x, y);
    }
}

/// Two groups of the same locks, neither of which repeats a lock, take them in
/// one and the same sequence, however each group arranges its requests.
pub proof fn same_locks_same_sequence(
    keys1: Seq<SortKey>,
    order1: Seq<usize>,
    keys2: Seq<SortKey>,
    order2: Seq<usize>,
    s: int,
)
    requires
        is_lock_order(keys1, order1),
        is_lock_order(keys2, order2),
        distinct_keys(keys1),
        distinct_keys(keys2),
        locks_within(keys1, keys2),
        locks_within(keys2, keys1),
        0 <= s < keys1.len(),
        0 <= s < keys2.len(),
    ensures
        key_at_step(keys1, order1, s) == key_at_step(keys2, order2, s),
{
    same_locks_agree_up_to(keys1, order1, keys2, order2, s + 1);
}

} // verus!
