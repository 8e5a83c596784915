use managed_threads::Counter;
use managed_threads::driver::{drive_to_completion, run_interleaving, run_serialized};
use managed_threads::managed_thread::{AtomicU32, Ordering, spawn};

#[test]
fn register_ops() {
    let mut r = AtomicU32::new(5);
    assert_eq!(r.load(Ordering::SeqCst), 5);
    r.store(7, Ordering::Relaxed);
    assert_eq!(r.load(Ordering::Acquire), 7);
    let prev = r.fetch_add(3, Ordering::SeqCst);
    assert_eq!(prev, 7);
    assert_eq!(r.load(Ordering::SeqCst), 10);
}

#[test]
fn fetch_add_wraps() {
    let mut r = AtomicU32::default();
    assert_eq!(r.load(Ordering::SeqCst), 0);
    r.store(u32::MAX, Ordering::SeqCst);
    let prev = r.fetch_add(2, Ordering::SeqCst);
    assert_eq!(prev, u32::MAX);
    assert_eq!(r.load(Ordering::SeqCst), 1);
}

#[test]
fn counter_counts() {
    let mut c = Counter::default();
    assert_eq!(c.get(), 0);
    c.increment();
    c.increment();
    assert_eq!(c.get(), 2);
}

#[test]
fn threaded_test() {
    let mut counter = Counter::default();

    let thread_count = 100;
    let increment_count = 100;

    // One managed worker per thread of the scenario; every increment is run
    // to completion before the next is issued, so all of them are retained.
    let mut workers = Vec::new();
    for _ in 0..thread_count {
        workers.push(spawn());
    }
    let mut order = Vec::new();
    for _ in 0..increment_count {
        for w in 0..thread_count {
            order.push(w);
        }
    }
    run_serialized(&mut counter, &mut workers, &order);
    for w in workers {
        w.join(&mut counter);
    }

    assert_eq!(counter.get(), (thread_count * increment_count) as u32);
}

#[test]
fn submit_and_unpause_return_synchronously() {
    let mut counter = Counter::new();
    let mut t = spawn();
    assert!(!t.is_paused());
    t.submit();
    assert!(t.is_paused()); // suspended before its load
    t.unpause(&mut counter);
    assert!(t.is_paused()); // suspended after reading 0
    assert_eq!(counter.get(), 0);
    t.unpause(&mut counter);
    assert!(t.is_paused()); // suspended before storing 1
    assert_eq!(counter.get(), 0);
    t.unpause(&mut counter);
    assert!(t.is_paused()); // suspended after its store
    assert_eq!(counter.get(), 1);
    t.unpause(&mut counter);
    assert!(!t.is_paused()); // the increment is complete, the worker idle
    assert_eq!(counter.get(), 1);
    t.join(&mut counter);
    assert_eq!(counter.get(), 1);
}

#[test]
fn join_drains_paused_worker() {
    let mut counter = Counter::new();
    let mut t = spawn();
    t.submit();
    assert!(t.is_paused());
    // Joining while paused must not deadlock: the worker is resumed and its
    // increment completed before join returns.
    t.join(&mut counter);
    assert_eq!(counter.get(), 1);
}

#[test]
fn join_idle_worker() {
    let mut counter = Counter::new();
    let t = spawn();
    t.join(&mut counter);
    assert_eq!(counter.get(), 0);
}

#[test]
fn join_resumes_stale_read() {
    let mut counter = Counter::new();
    let mut t1 = spawn();
    let mut t2 = spawn();
    t1.submit();
    t1.unpause(&mut counter); // t1 reads 0 and suspends
    t2.submit();
    t2.unpause(&mut counter);
    t2.unpause(&mut counter);
    t2.unpause(&mut counter);
    t2.unpause(&mut counter); // t2 runs a whole increment: counter is 1
    assert_eq!(counter.get(), 1);
    t1.join(&mut counter); // t1 resumes and stores its stale 0 + 1
    assert_eq!(counter.get(), 1);
    t2.join(&mut counter);
    assert_eq!(counter.get(), 1);
}

#[test]
fn serialized_increments_conserve() {
    let mut counter = Counter::new();
    let mut workers = Vec::new();
    for _ in 0..3 {
        workers.push(spawn());
    }
    let order = vec![0usize, 1, 2, 2, 1, 0, 1];
    run_serialized(&mut counter, &mut workers, &order);
    assert_eq!(counter.get(), 7);
    for w in workers {
        w.join(&mut counter);
    }
    assert_eq!(counter.get(), 7);
}

#[test]
fn drive_single_worker() {
    let mut counter = Counter::new();
    let mut t = spawn();
    drive_to_completion(&mut t, &mut counter);
    drive_to_completion(&mut t, &mut counter);
    assert!(!t.is_paused());
    assert_eq!(counter.get(), 2);
    t.join(&mut counter);
    assert_eq!(counter.get(), 2);
}

#[test]
fn two_workers_lose_updates() {
    // Two workers, three increments each, under the adversarial interleaving
    // that maximizes lost updates: strict alternation makes both workers
    // read before either writes, every round, so each round's two
    // increments collapse into one.
    let mut decisions = Vec::new();
    for _ in 0..15 {
        decisions.push(false);
        decisions.push(true);
    }
    let (value, issued) = run_interleaving(6, &decisions);
    assert_eq!(issued, 6);
    assert_eq!(value, 3);
    assert!(value < 6);
}

#[test]
fn empty_schedule_issues_nothing() {
    let decisions = Vec::new();
    let (value, issued) = run_interleaving(5, &decisions);
    assert_eq!(value, 0);
    assert_eq!(issued, 0);
}

#[test]
fn serialized_schedule_conserves() {
    // Advancing one worker five decisions in a row runs its increment to
    // completion before the other is touched: nothing is lost.
    let mut decisions = Vec::new();
    for _ in 0..2 {
        for _ in 0..5 {
            decisions.push(false);
        }
        for _ in 0..5 {
            decisions.push(true);
        }
    }
    let (value, issued) = run_interleaving(4, &decisions);
    assert_eq!(issued, 4);
    assert_eq!(value, 4);
}
