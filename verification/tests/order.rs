use sortlock::group::tag_outcome;
use sortlock::{lock_order, KeyGenerator, Poisoned, SortKey};

#[test]
fn keys_are_pairwise_distinct() {
    let keys = KeyGenerator::new();
    let mut drawn: Vec<SortKey> = Vec::new();
    for _ in 0..1000 {
        drawn.push(SortKey::new(&keys));
    }
    for i in 0..drawn.len() {
        for j in (i + 1)..drawn.len() {
            assert_ne!(drawn[i], drawn[j]);
            assert!(drawn[i] < drawn[j]);
            assert!(drawn[i].precedes(&drawn[j]));
            assert!(!drawn[j].precedes(&drawn[i]));
        }
    }
}

#[test]
fn keys_count_up_from_zero() {
    let keys = KeyGenerator::new();
    assert_eq!(SortKey::new(&keys).rank(), 0);
    assert_eq!(SortKey::new(&keys).rank(), 1);
    assert_eq!(SortKey::new(&keys).rank(), 2);

    let other = KeyGenerator::new();
    assert_eq!(SortKey::new(&other).rank(), 0);
    assert_eq!(SortKey::new(&keys).rank(), 3);
}

#[test]
fn key_does_not_precede_itself() {
    let keys = KeyGenerator::new();
    let k = SortKey::new(&keys);
    assert!(!k.precedes(&k));
    let copy = k;
    assert_eq!(k, copy);
}

#[test]
fn lock_order_of_no_keys() {
    assert_eq!(lock_order(&Vec::new()), Vec::<usize>::new());
}

#[test]
fn lock_order_of_one_key() {
    let keys = KeyGenerator::new();
    assert_eq!(lock_order(&vec![SortKey::new(&keys)]), vec![0]);
}

#[test]
fn lock_order_sorts_positions_by_key() {
    let keys = KeyGenerator::new();
    let k0 = SortKey::new(&keys);
    let k1 = SortKey::new(&keys);
    let k2 = SortKey::new(&keys);
    let k3 = SortKey::new(&keys);
    let k4 = SortKey::new(&keys);

    assert_eq!(lock_order(&vec![k0, k1]), vec![0, 1]);
    assert_eq!(lock_order(&vec![k1, k0]), vec![1, 0]);
    assert_eq!(lock_order(&vec![k0, k1, k2]), vec![0, 1, 2]);
    assert_eq!(lock_order(&vec![k2, k0, k1]), vec![1, 2, 0]);
    assert_eq!(lock_order(&vec![k2, k1, k0]), vec![2, 1, 0]);
    assert_eq!(lock_order(&vec![k3, k1, k2, k0]), vec![3, 1, 2, 0]);
    assert_eq!(lock_order(&vec![k4, k2, k0, k3, k1]), vec![2, 4, 1, 3, 0]);
}

#[test]
fn lock_order_keeps_ties_in_written_order() {
    let keys = KeyGenerator::new();
    let k0 = SortKey::new(&keys);
    let k1 = SortKey::new(&keys);

    assert_eq!(lock_order(&vec![k1, k0, k1, k0]), vec![1, 3, 0, 2]);
    assert_eq!(lock_order(&vec![k0, k0, k0]), vec![0, 1, 2]);
}

#[test]
fn lock_order_is_the_same_for_every_arrangement() {
    let keys = KeyGenerator::new();
    let k0 = SortKey::new(&keys);
    let k1 = SortKey::new(&keys);
    let k2 = SortKey::new(&keys);

    let arrangements = vec![
        vec![k0, k1, k2],
        vec![k0, k2, k1],
        vec![k1, k0, k2],
        vec![k1, k2, k0],
        vec![k2, k0, k1],
        vec![k2, k1, k0],
    ];
    for group in arrangements.iter() {
        let locked: Vec<SortKey> = lock_order(group).iter().map(|i| group[*i]).collect();
        assert_eq!(locked, vec![k0, k1, k2]);
    }
}

#[test]
fn tag_outcome_tags_a_guard_with_its_key() {
    let keys = KeyGenerator::new();
    let _ = SortKey::new(&keys);
    let key = SortKey::new(&keys);

    let held = tag_outcome::<&str, ()>(key, Ok("guard")).unwrap();
    assert_eq!(held.key, key);
    assert_eq!(held.guard, "guard");
}

#[test]
fn tag_outcome_reports_the_poisoned_lock() {
    let keys = KeyGenerator::new();
    let _ = SortKey::new(&keys);
    let key = SortKey::new(&keys);

    let outcome = tag_outcome::<u8, &str>(key, Err("poisoned"));
    assert_eq!(outcome.err(), Some(Poisoned { key }));
}

#[test]
fn new_generator_starts_at_rank_zero() {
    let first = KeyGenerator::new();
    let second = KeyGenerator::new();
    for expected in 0..5 {
        assert_eq!(SortKey::new(&first).rank(), expected);
    }
    assert_eq!(SortKey::new(&second).rank(), 0);
}
