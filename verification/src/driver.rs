//! Verified drivers for managed workers.
//!
//! A driver advances the system one decision at a time: at each step an
//! external decision source — random, exhaustive, or manual — picks a worker,
//! and the driver either resumes it (if it is suspended) or submits the next
//! increment to it (if it is idle and the budget allows). The functions here
//! prove the two sides of the conservation story: increments that are run to
//! completion before the next one starts add up exactly, for any number of
//! workers and any order; and under arbitrary interleavings — where the
//! deliberately non-atomic increment can lose updates — the counter never
//! exceeds the number of increments issued, and every worker is always
//! drained to completion, whatever the decision sequence was.

use vstd::prelude::*;

use crate::Counter;
use crate::managed_thread::{ManagedHandle, Suspension, drained_value, spawn, unpause_spec};
use crate::protocol::State;

verus! {

/// 1 while an in-flight increment at suspension point `w` has not yet
/// performed its store, 0 otherwise.
pub open spec fn pending_of(w: Option<Suspension>) -> nat {
    match w {
        Some(Suspension::BeforeLoad) => 1,
        Some(Suspension::AfterLoad(_)) => 1,
        Some(Suspension::BeforeStore(_)) => 1,
        _ => 0,
    }
}

/// 1 while the worker's in-flight increment has not yet performed its store,
/// 0 otherwise.
pub open spec fn pending_store(h: ManagedHandle) -> nat {
    pending_of(h.susp())
}

/// The stale value a worker suspended at `w` carries is bounded by the
/// number of stores performed so far: a read can only ever see a value that
/// `writes` past stores (from zero) have produced, and the value about to
/// be stored is the successor of such a read.
pub open spec fn inflight_value_ok(w: Option<Suspension>, writes: nat) -> bool {
    match w {
        Some(Suspension::AfterLoad(r)) => r <= writes,
        Some(Suspension::BeforeStore(v)) => v <= writes + 1,
        _ => true,
    }
}

/// `inflight_value_ok` for the worker behind a handle.
pub open spec fn inflight_ok(h: ManagedHandle, writes: nat) -> bool {
    inflight_value_ok(h.susp(), writes)
}

/// A bound that holds for some store count keeps holding as more stores
/// happen.
pub proof fn lemma_inflight_monotone(h: ManagedHandle, w1: nat, w2: nat)
    requires
        inflight_ok(h, w1),
        w1 <= w2,
    ensures
        inflight_ok(h, w2),
{
}

/// Run one submitted increment to completion: one submission and the four
/// resumptions that step the worker through its suspension points. Because
/// no other worker acts in between, the increment is correctly synchronized
/// and the counter goes up by exactly one.
pub fn drive_to_completion(h: &mut ManagedHandle, counter: &mut Counter)
    requires
        old(h).inv(),
        old(h).state() == State::Ready,
        old(counter)@ < u32::MAX,
    ensures
        final(h).inv(),
        final(h).state() == State::Ready,
        final(counter)@ == old(counter)@ + 1,
{
    h.submit();
    h.unpause(counter);
    h.unpause(counter);
    h.unpause(counter);
    h.unpause(counter);
}

/// Conservation under correctly synchronized driving: for any number of
/// workers and any order in which the driver picks them, running each
/// increment to completion before the next begins leaves the counter larger
/// by exactly the number of increments issued — one per entry of `order`.
pub fn run_serialized(counter: &mut Counter, workers: &mut Vec<ManagedHandle>, order: &Vec<usize>)
    requires
        forall|j: int|
            0 <= j < old(workers)@.len() ==> ((#[trigger] old(workers)@[j]).inv()
                && old(workers)@[j].state() == State::Ready),
        forall|i: int| 0 <= i < order@.len() ==> (#[trigger] order@[i]) < old(workers)@.len(),
        old(counter)@ + order@.len() <= u32::MAX,
    ensures
        final(counter)@ == old(counter)@ + order@.len(),
        final(workers)@.len() == old(workers)@.len(),
        forall|j: int|
            0 <= j < final(workers)@.len() ==> ((#[trigger] final(workers)@[j]).inv()
                && final(workers)@[j].state() == State::Ready),
{
    let ghost counter0 = counter@;
    let ghost n = workers@.len();
    let mut i: usize = 0;
    while i < order.len()
        invariant
            i <= order@.len(),
            workers@.len() == n,
            counter@ == counter0 + i,
            counter0 + order@.len() <= u32::MAX,
            forall|j: int|
                0 <= j < workers@.len() ==> ((#[trigger] workers@[j]).inv() && workers@[j].state()
                    == State::Ready),
            forall|k: int| 0 <= k < order@.len() ==> (#[trigger] order@[k]) < n,
        decreases order@.len() - i,
    {
        let j = order[i];
        let ghost prev = workers@;
        let mut h = workers.swap_remove(j);
        assert forall|k: int| 0 <= k < workers@.len() implies ((#[trigger] workers@[k]).inv()
            && workers@[k].state() == State::Ready) by {
            assert(workers@[k] == prev.update(j as int, prev.last()).drop_last()[k]);
        }
        drive_to_completion(&mut h, counter);
        workers.push(h);
        i = i + 1;
    }
}

/// How many stores the one step a resumption performs adds to the running
/// total: exactly the step out of `BeforeStore`, which writes.
pub open spec fn writes_after_step(susp: Option<Suspension>, writes: nat) -> nat {
    match susp {
        Some(Suspension::BeforeStore(_)) => writes + 1,
        _ => writes,
    }
}

/// The whole two-worker system as the driver observes it between decisions:
/// where each worker is suspended (`None` when idle), the shared counter,
/// and how many increments have been issued. Since submitting and resuming
/// are synchronous, this is a complete description — driving is a
/// deterministic function of the decision sequence.
pub struct ModelState {
    pub first: Option<Suspension>,
    pub second: Option<Suspension>,
    pub counter: u32,
    pub issued: u32,
}

/// What one decision does to one worker under the driving policy: a
/// suspended worker takes one step; an idle one is handed the next
/// increment while the budget allows; otherwise nothing happens. Yields the
/// worker's new suspension point, the counter's new value, and the new
/// number of increments issued.
pub open spec fn advance_spec(w: Option<Suspension>, counter: u32, issued: u32, budget: u32) -> (
    Option<Suspension>,
    u32,
    u32,
) {
    match w {
        Some(s) => {
            let (w2, c2) = unpause_spec(s, counter);
            (w2, c2, issued)
        },
        None => if issued < budget {
            (Some(Suspension::BeforeLoad), counter, (issued + 1) as u32)
        } else {
            (None, counter, issued)
        },
    }
}

/// One decision applied to the system: `false` advances the first worker,
/// `true` the second.
pub open spec fn step_spec(m: ModelState, pick_second: bool, budget: u32) -> ModelState {
    if pick_second {
        let (w2, c2, n2) = advance_spec(m.second, m.counter, m.issued, budget);
        ModelState { first: m.first, second: w2, counter: c2, issued: n2 }
    } else {
        let (w2, c2, n2) = advance_spec(m.first, m.counter, m.issued, budget);
        ModelState { first: w2, second: m.second, counter: c2, issued: n2 }
    }
}

/// The system after a whole sequence of decisions.
pub open spec fn steps_spec(m: ModelState, decisions: Seq<bool>, budget: u32) -> ModelState
    decreases decisions.len(),
{
    if decisions.len() == 0 {
        m
    } else {
        steps_spec(step_spec(m, decisions[0], budget), decisions.drop_first(), budget)
    }
}

/// A fresh system: two idle workers, the counter at zero, nothing issued.
pub open spec fn init_model() -> ModelState {
    ModelState { first: None, second: None, counter: 0, issued: 0 }
}

/// The model state a driver observes, assembled from its parts.
pub open spec fn model_of(
    first: Option<Suspension>,
    second: Option<Suspension>,
    counter: u32,
    issued: u32,
) -> ModelState {
    ModelState { first: first, second: second, counter: counter, issued: issued }
}

/// The counter value left after draining and joining both workers in order.
pub open spec fn final_value_spec(m: ModelState) -> int {
    drained_value(m.second, drained_value(m.first, m.counter) as u32)
}

/// One driver decision for one worker, following the policy a test driver
/// uses: a suspended worker is resumed one step; an idle worker is handed
/// the next increment while the budget allows; otherwise nothing happens.
/// Returns the new number of increments issued, together with the new store
/// count that the caller's accounting threads through every step.
fn advance(
    h: &mut ManagedHandle,
    counter: &mut Counter,
    issued: u32,
    budget: u32,
    other_pending: Ghost<nat>,
    writes: Ghost<nat>,
) -> (r: (u32, Ghost<nat>))
    requires
        old(h).inv(),
        inflight_ok(*old(h), writes@),
        old(counter)@ <= writes@,
        writes@ + pending_store(*old(h)) + other_pending@ == issued,
        issued <= budget,
        budget < u32::MAX,
    ensures
        final(h).inv(),
        (final(h).susp(), final(counter)@, r.0) == advance_spec(
            old(h).susp(),
            old(counter)@,
            issued,
            budget,
        ),
        inflight_ok(*final(h), r.1@),
        final(counter)@ <= r.1@,
        r.1@ + pending_store(*final(h)) + other_pending@ == r.0,
        r.0 <= budget,
        writes@ <= r.1@,
        issued <= r.0,
{
    if h.is_paused() {
        let ghost before = h.susp();
        h.unpause(counter);
        (issued, Ghost(writes_after_step(before, writes@)))
    } else if issued < budget {
        h.submit();
        (issued + 1, writes)
    } else {
        (issued, writes)
    }
}

/// Drive two fresh workers over a shared counter, one decision per entry of
/// `decisions` (`false` picks the first worker, `true` the second), then
/// drain and join both. Each decision resumes its worker if it is suspended
/// and otherwise submits the next increment while fewer than `budget` have
/// been issued. Returns the counter's final value and the number of
/// increments issued. The run is the deterministic function of the decision
/// sequence that the model spells out, it terminates for every such
/// sequence with both workers drained and joined, and the final value never
/// exceeds the number issued — the deliberately non-atomic increment can
/// lose updates under an adversarial interleaving, but can never overcount.
pub fn run_interleaving(budget: u32, decisions: &Vec<bool>) -> (r: (u32, u32))
    requires
        budget < u32::MAX,
    ensures
        r.0 == final_value_spec(steps_spec(init_model(), decisions@, budget)),
        r.1 == steps_spec(init_model(), decisions@, budget).issued,
        r.0 <= r.1,
        r.1 <= budget,
{
    let mut counter = Counter::new();
    let mut first = spawn();
    let mut second = spawn();
    let mut issued: u32 = 0;
    let ghost mut writes: nat = 0nat;
    let ghost target = steps_spec(init_model(), decisions@, budget);
    proof {
        assert(decisions@.skip(0) =~= decisions@);
    }
    let mut i: usize = 0;
    while i < decisions.len()
        invariant
            first.inv(),
            second.inv(),
            inflight_ok(first, writes),
            inflight_ok(second, writes),
            counter@ <= writes,
            writes + pending_store(first) + pending_store(second) == issued,
            issued <= budget,
            budget < u32::MAX,
            i <= decisions@.len(),
            target == steps_spec(init_model(), decisions@, budget),
            steps_spec(
                model_of(first.susp(), second.susp(), counter@, issued),
                decisions@.skip(i as int),
                budget,
            ) == target,
        decreases decisions.len() - i,
    {
        let ghost pre = model_of(first.susp(), second.susp(), counter@, issued);
        let ghost rest = decisions@.skip(i as int);
        let pick_second = decisions[i];
        if pick_second {
            let (new_issued, new_writes) = advance(
                &mut second,
                &mut counter,
                issued,
                budget,
                Ghost(pending_store(first)),
                Ghost(writes),
            );
            proof {
                lemma_inflight_monotone(first, writes, new_writes@);
                writes = new_writes@;
            }
            issued = new_issued;
        } else {
            let (new_issued, new_writes) = advance(
                &mut first,
                &mut counter,
                issued,
                budget,
                Ghost(pending_store(second)),
                Ghost(writes),
            );
            proof {
                lemma_inflight_monotone(second, writes, new_writes@);
                writes = new_writes@;
            }
            issued = new_issued;
        }
        proof {
            assert(rest[0] == decisions@[i as int]);
            assert(rest.drop_first() =~= decisions@.skip(i as int + 1));
            assert(model_of(first.susp(), second.susp(), counter@, issued) == step_spec(
                pre,
                decisions@[i as int],
                budget,
            ));
        }
        i = i + 1;
    }
    proof {
        assert(decisions@.skip(decisions@.len() as int) =~= Seq::<bool>::empty());
        assert(model_of(first.susp(), second.susp(), counter@, issued) == target);
    }
    let ghost first_pending = pending_store(first);
    first.join(&mut counter);
    proof {
        writes = writes + first_pending;
        lemma_inflight_monotone(second, (writes - first_pending) as nat, writes);
        assert(counter@ == drained_value(target.first, target.counter));
    }
    let ghost second_pending = pending_store(second);
    second.join(&mut counter);
    proof {
        writes = writes + second_pending;
    }
    let value = counter.get();
    (value, issued)
}

/// A pool of any number of managed workers sharing one counter, as the
/// driver observes it between decisions: each worker's suspension point
/// (`None` when idle), the counter, and how many increments have been
/// issued.
pub struct PoolState {
    pub workers: Seq<Option<Suspension>>,
    pub counter: u32,
    pub issued: nat,
}

/// A fresh pool of `n` idle workers.
pub open spec fn pool_init(n: nat) -> PoolState {
    PoolState { workers: Seq::new(n, |j: int| None), counter: 0, issued: 0 }
}

/// One decision applied to the pool, under the same policy as `advance`:
/// the picked worker is resumed one step if suspended, handed the next
/// increment if idle and the budget allows, and left alone otherwise (as is
/// the whole pool when the pick is out of range).
pub open spec fn pool_step(s: PoolState, pick: int, budget: nat) -> PoolState {
    if 0 <= pick < s.workers.len() {
        match s.workers[pick] {
            Some(p) => {
                let (w2, c2) = unpause_spec(p, s.counter);
                PoolState { workers: s.workers.update(pick, w2), counter: c2, issued: s.issued }
            },
            None => if s.issued < budget {
                PoolState {
                    workers: s.workers.update(pick, Some(Suspension::BeforeLoad)),
                    counter: s.counter,
                    issued: s.issued + 1,
                }
            } else {
                s
            },
        }
    } else {
        s
    }
}

/// The pool after a whole sequence of decisions.
pub open spec fn pool_run(s: PoolState, picks: Seq<int>, budget: nat) -> PoolState
    decreases picks.len(),
{
    if picks.len() == 0 {
        s
    } else {
        pool_run(pool_step(s, picks[0], budget), picks.drop_first(), budget)
    }
}

/// How many of the pool's in-flight increments have not yet stored.
pub open spec fn total_pending(ws: Seq<Option<Suspension>>) -> nat
    decreases ws.len(),
{
    if ws.len() == 0 {
        0
    } else {
        pending_of(ws[0]) + total_pending(ws.drop_first())
    }
}

/// The inductive invariant behind conservation: against a running count
/// `writes` of the stores performed so far, the counter and every stale
/// in-flight value are bounded by it, and together with the increments that
/// have not yet stored it accounts exactly for every increment issued.
pub open spec fn pool_inv(s: PoolState, writes: nat, budget: nat) -> bool {
    &&& s.counter <= writes
    &&& forall|j: int|
        0 <= j < s.workers.len() ==> inflight_value_ok(#[trigger] s.workers[j], writes)
    &&& writes + total_pending(s.workers) == s.issued
    &&& s.issued <= budget
}

/// Replacing one worker's suspension point changes the pool's pending count
/// by exactly that worker's share.
proof fn lemma_total_pending_update(ws: Seq<Option<Suspension>>, j: int, w: Option<Suspension>)
    requires
        0 <= j < ws.len(),
    ensures
        total_pending(ws.update(j, w)) + pending_of(ws[j]) == total_pending(ws) + pending_of(w),
    decreases ws.len(),
{
    if j == 0 {
        assert(ws.update(0, w).drop_first() =~= ws.drop_first());
    } else {
        lemma_total_pending_update(ws.drop_first(), j - 1, w);
        assert(ws.update(j, w).drop_first() =~= ws.drop_first().update(j - 1, w));
        assert(ws.update(j, w)[0] == ws[0]);
    }
}

/// A pool of idle workers has nothing pending.
proof fn lemma_total_pending_idle(n: nat)
    ensures
        total_pending(Seq::new(n, |j: int| None)) == 0,
    decreases n,
{
    if n > 0 {
        assert(Seq::new(n, |j: int| None::<Suspension>).drop_first() =~= Seq::new(
            (n - 1) as nat,
            |j: int| None,
        ));
        lemma_total_pending_idle((n - 1) as nat);
    }
}

/// One decision preserves the invariant, against a store count that grows
/// exactly when the decision performs a store.
proof fn lemma_pool_step_preserves(s: PoolState, pick: int, budget: nat, writes: nat) -> (w2: nat)
    requires
        pool_inv(s, writes, budget),
        budget < u32::MAX,
    ensures
        pool_inv(pool_step(s, pick, budget), w2, budget),
        writes <= w2,
{
    if 0 <= pick < s.workers.len() {
        match s.workers[pick] {
            Some(p) => {
                lemma_total_pending_update(s.workers, pick, unpause_spec(p, s.counter).0);
                if p is BeforeStore {
                    writes + 1
                } else {
                    writes
                }
            },
            None => {
                if s.issued < budget {
                    lemma_total_pending_update(s.workers, pick, Some(Suspension::BeforeLoad));
                }
                writes
            },
        }
    } else {
        writes
    }
}

/// A whole decision sequence preserves the invariant.
proof fn lemma_pool_run_preserves(s: PoolState, picks: Seq<int>, budget: nat, writes: nat) -> (w2:
    nat)
    requires
        pool_inv(s, writes, budget),
        budget < u32::MAX,
    ensures
        pool_inv(pool_run(s, picks, budget), w2, budget),
    decreases picks.len(),
{
    if picks.len() == 0 {
        writes
    } else {
        let w1 = lemma_pool_step_preserves(s, picks[0], budget, writes);
        lemma_pool_run_preserves(pool_step(s, picks[0], budget), picks.drop_first(), budget, w1)
    }
}

/// Conservation bound for any number of workers: for every decision
/// sequence — every interleaving a driver can choose, however many workers
/// share the counter — the counter never exceeds the number of increments
/// issued, which never exceeds the budget. The deliberately non-atomic
/// increment can lose updates, never invent them.
pub proof fn lemma_conservation_bound(n: nat, picks: Seq<int>, budget: nat)
    requires
        budget < u32::MAX,
    ensures
        pool_run(pool_init(n), picks, budget).counter <= pool_run(pool_init(n), picks, budget).issued,
        pool_run(pool_init(n), picks, budget).issued <= budget,
{
    lemma_total_pending_idle(n);
    lemma_pool_run_preserves(pool_init(n), picks, budget, 0);
}

} // verus!
