use std::cell::RefCell;

use sortlock::{Held, KeyGenerator, LockGroup, Poisoned, SortKey, SortableLock};

/// What happened to a probe lock, in the order in which it happened.
#[derive(Debug, Clone, Copy, PartialEq, Eq)]
enum Event {
    Locked(u64),
    Failed(u64),
    Released(u64),
}

/// A guard that records its release.
struct ProbeGuard<'a> {
    rank: u64,
    log: &'a RefCell<Vec<Event>>,
}

impl Drop for ProbeGuard<'_> {
    fn drop(&mut self) {
        self.log.borrow_mut().push(Event::Released(self.rank));
    }
}

/// A request that records when it is acquired.
struct Probe<'a> {
    key: SortKey,
    poisoned: bool,
    log: &'a RefCell<Vec<Event>>,
}

impl<'a> SortableLock for Probe<'a> {
    type Guard = ProbeGuard<'a>;

    fn key(&self) -> SortKey {
        self.key
    }

    fn can_be_poisoned(&self) -> bool {
        self.poisoned
    }

    fn sort_key(&self) -> SortKey {
        self.key
    }

    fn lock_presorted(&self) -> Result<Held<ProbeGuard<'a>>, Poisoned> {
        let rank = self.key.rank();
        if self.poisoned {
            self.log.borrow_mut().push(Event::Failed(rank));
            Err(Poisoned { key: self.key })
        } else {
            self.log.borrow_mut().push(Event::Locked(rank));
            Ok(Held { key: self.key, guard: ProbeGuard { rank, log: self.log } })
        }
    }
}

fn draw(keys: &KeyGenerator, n: usize) -> Vec<SortKey> {
    let mut drawn = Vec::new();
    for _ in 0..n {
        drawn.push(SortKey::new(keys));
    }
    drawn
}

fn probe<'a>(key: SortKey, log: &'a RefCell<Vec<Event>>) -> Probe<'a> {
    Probe { key, poisoned: false, log }
}

fn poisoned<'a>(key: SortKey, log: &'a RefCell<Vec<Event>>) -> Probe<'a> {
    Probe { key, poisoned: true, log }
}

#[test]
fn group_of_one_locks_its_request() {
    let keys = KeyGenerator::new();
    let k = draw(&keys, 1);
    let log = RefCell::new(Vec::new());

    let held = probe(k[0], &log).lock_all().unwrap();
    assert_eq!(held.key, k[0]);
    assert_eq!(held.guard.rank, 0);
    assert_eq!(*log.borrow(), vec![Event::Locked(0)]);
    drop(held);
    assert_eq!(*log.borrow(), vec![Event::Locked(0), Event::Released(0)]);
}

#[test]
fn group_of_two_locks_in_key_order() {
    let keys = KeyGenerator::new();
    let k = draw(&keys, 2);

    let log = RefCell::new(Vec::new());
    let (a, b) = (probe(k[0], &log), probe(k[1], &log)).lock_all().unwrap();
    assert_eq!((a.guard.rank, b.guard.rank), (0, 1));
    assert_eq!(*log.borrow(), vec![Event::Locked(0), Event::Locked(1)]);
    drop((a, b));

    let log = RefCell::new(Vec::new());
    let (b, a) = (probe(k[1], &log), probe(k[0], &log)).lock_all().unwrap();
    assert_eq!((b.guard.rank, a.guard.rank), (1, 0));
    assert_eq!((b.key, a.key), (k[1], k[0]));
    assert_eq!(*log.borrow(), vec![Event::Locked(0), Event::Locked(1)]);
}

#[test]
fn group_of_three_locks_in_key_order() {
    let keys = KeyGenerator::new();
    let k = draw(&keys, 3);
    let arrangements = [[0, 1, 2], [0, 2, 1], [1, 0, 2], [1, 2, 0], [2, 0, 1], [2, 1, 0]];

    for p in arrangements {
        let log = RefCell::new(Vec::new());
        let (x, y, z) =
            (probe(k[p[0]], &log), probe(k[p[1]], &log), probe(k[p[2]], &log)).lock_all().unwrap();
        assert_eq!((x.key, y.key, z.key), (k[p[0]], k[p[1]], k[p[2]]));
        assert_eq!(
            (x.guard.rank, y.guard.rank, z.guard.rank),
            (p[0] as u64, p[1] as u64, p[2] as u64)
        );
        assert_eq!(*log.borrow(), vec![Event::Locked(0), Event::Locked(1), Event::Locked(2)]);
    }
}

#[test]
fn group_of_four_locks_in_key_order() {
    let keys = KeyGenerator::new();
    let k = draw(&keys, 4);
    let log = RefCell::new(Vec::new());

    let (d, b, a, c) =
        (probe(k[3], &log), probe(k[1], &log), probe(k[0], &log), probe(k[2], &log))
            .lock_all()
            .unwrap();
    assert_eq!((d.guard.rank, b.guard.rank, a.guard.rank, c.guard.rank), (3, 1, 0, 2));
    assert_eq!((d.key, b.key, a.key, c.key), (k[3], k[1], k[0], k[2]));
    assert_eq!(
        *log.borrow(),
        vec![Event::Locked(0), Event::Locked(1), Event::Locked(2), Event::Locked(3)]
    );
}

#[test]
fn group_of_five_locks_in_key_order() {
    let keys = KeyGenerator::new();
    let k = draw(&keys, 5);
    let log = RefCell::new(Vec::new());

    let (e, c, a, d, b) = (
        probe(k[4], &log),
        probe(k[2], &log),
        probe(k[0], &log),
        probe(k[3], &log),
        probe(k[1], &log),
    )
        .lock_all()
        .unwrap();
    assert_eq!(
        (e.guard.rank, c.guard.rank, a.guard.rank, d.guard.rank, b.guard.rank),
        (4, 2, 0, 3, 1)
    );
    assert_eq!((e.key, c.key, a.key, d.key, b.key), (k[4], k[2], k[0], k[3], k[1]));
    assert_eq!(
        *log.borrow(),
        vec![
            Event::Locked(0),
            Event::Locked(1),
            Event::Locked(2),
            Event::Locked(3),
            Event::Locked(4)
        ]
    );
}

#[test]
fn group_locks_equal_keys_in_written_order() {
    let keys = KeyGenerator::new();
    let k = draw(&keys, 2);
    let log = RefCell::new(Vec::new());

    let (x, y, z) = (probe(k[1], &log), probe(k[0], &log), probe(k[1], &log)).lock_all().unwrap();
    assert_eq!((x.key, y.key, z.key), (k[1], k[0], k[1]));
    assert_eq!(*log.borrow(), vec![Event::Locked(0), Event::Locked(1), Event::Locked(1)]);
}

#[test]
fn group_reports_the_poisoned_lock_and_releases_the_rest() {
    let keys = KeyGenerator::new();
    let k = draw(&keys, 5);
    let log = RefCell::new(Vec::new());

    let outcome = (
        probe(k[4], &log),
        poisoned(k[2], &log),
        probe(k[0], &log),
        probe(k[3], &log),
        probe(k[1], &log),
    )
        .lock_all();
    assert_eq!(outcome.err(), Some(Poisoned { key: k[2] }));

    let events = log.borrow().clone();
    assert_eq!(events.len(), 5);
    assert_eq!(events[0..3], [Event::Locked(0), Event::Locked(1), Event::Failed(2)]);
    assert!(events[3..].contains(&Event::Released(0)));
    assert!(events[3..].contains(&Event::Released(1)));
}

#[test]
fn group_reports_the_first_poisoned_lock_in_key_order() {
    let keys = KeyGenerator::new();
    let k = draw(&keys, 3);
    let log = RefCell::new(Vec::new());

    let outcome = (poisoned(k[2], &log), poisoned(k[1], &log), probe(k[0], &log)).lock_all();
    assert_eq!(outcome.err(), Some(Poisoned { key: k[1] }));
    assert_eq!(
        *log.borrow(),
        vec![Event::Locked(0), Event::Failed(1), Event::Released(0)]
    );
}

#[test]
fn group_of_one_reports_its_poisoned_lock() {
    let keys = KeyGenerator::new();
    let k = draw(&keys, 1);
    let log = RefCell::new(Vec::new());

    let outcome = poisoned(k[0], &log).lock_all();
    assert_eq!(outcome.err(), Some(Poisoned { key: k[0] }));
    assert_eq!(*log.borrow(), vec![Event::Failed(0)]);
}
