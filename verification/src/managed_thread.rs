//! Managed workers and the instrumented register.
//!
//! A managed worker executes submitted units of work one at a time against a
//! shared counter, suspending at every instrumented access so that the driver
//! decides exactly when each memory operation happens. Because `submit` and
//! `unpause` are synchronous — each returns only once the worker has reached
//! a stable state again — the driver observes the worker only ever idle
//! (`Ready`) or blocked at a suspension point (`Paused`), and the whole
//! system advances by exactly one worker micro-step per driver call. The
//! handle below models that rendezvous faithfully: it records which
//! suspension point the worker sits at, and each `unpause` performs the one
//! memory operation the worker was about to do.

use vstd::prelude::*;

use crate::Counter;
use crate::protocol;
use crate::protocol::GateOp;
use crate::protocol::State;

verus! {

/// Memory orderings accepted by the instrumented register, the conventional
/// set. The register passes them through to the underlying primitive
/// unchanged; the suspension points themselves carry no ordering guarantee,
/// so the ordering has no effect on what the operations below return.
pub enum Ordering {
    Relaxed,
    Acquire,
    Release,
    AcqRel,
    SeqCst,
}

/// An instrumented shared register. Inside a managed worker every access is
/// bracketed by two suspension points; outside one (as here, where the
/// caller owns the register directly) the operations act on the value
/// immediately, so the type is a drop-in replacement for a plain atomic.
pub struct AtomicU32 {
    inner: u32,
}

impl AtomicU32 {
    pub closed spec fn view(&self) -> u32 {
        self.inner
    }

    pub fn new(value: u32) -> (r: AtomicU32)
        ensures
            r@ == value,
    {
        AtomicU32 { inner: value }
    }

    pub fn load(&self, ordering: Ordering) -> (r: u32)
        ensures
            r == self@,
    {
        self.inner
    }

    pub fn store(&mut self, value: u32, ordering: Ordering)
        ensures
            final(self)@ == value,
    {
        self.inner = value;
    }

    /// Adds to the register, wrapping on overflow, and returns the previous
    /// value. Unlike the load-then-store increment of `Counter`, this is a
    /// single access: under a managed worker it takes effect in one step.
    pub fn fetch_add(&mut self, value: u32, ordering: Ordering) -> (r: u32)
        ensures
            r == old(self)@,
            final(self)@ == (old(self)@ + value) % 0x1_0000_0000,
    {
        let result = self.inner;
        self.inner = self.inner.wrapping_add(value);
        result
    }
}

impl Default for AtomicU32 {
    fn default() -> (r: AtomicU32)
        ensures
            r@ == 0,
    {
        AtomicU32::new(0)
    }
}

/// The suspension point a paused worker sits at, midway through one
/// increment of the shared counter. An increment is the load-then-store
/// sequence of `Counter::increment`, and each of its two register accesses
/// is bracketed by a suspension point, so one increment pauses four times:
/// before the load, after it (holding the value it read), before the store
/// (holding the value it is about to write), and after it.
#[derive(Clone, Copy, PartialEq, Eq, Structural, Debug)]
pub enum Suspension {
    /// About to read the counter.
    BeforeLoad,
    /// Has read the given value; the load has not yet returned.
    AfterLoad(u32),
    /// About to write the given value (the successor of what it read).
    BeforeStore(u32),
    /// Has written; the store has not yet returned.
    AfterStore,
}

/// The driver-facing handle for one managed worker. The worker owns no state
/// of its own here: the shared counter it works on is handed to each driver
/// call, which mirrors how exclusive access moves back and forth between the
/// two parties — exactly one of them can act on the counter at a time.
pub struct ManagedHandle {
    state: State,
    susp: Option<Suspension>,
    history: Ghost<Seq<GateOp>>,
}

/// The one step a resumption performs: from the suspension point the worker
/// sits at and the counter's current value to the worker's next suspension
/// point (`None` when the increment is complete and the worker goes idle)
/// and the counter's new value. Only the step out of `BeforeStore` touches
/// the counter, and what it writes is the stale successor the worker
/// carries, not a function of what the counter holds by now — that is the
/// seeded race this harness exists to expose.
pub open spec fn unpause_spec(susp: Suspension, value: u32) -> (Option<Suspension>, u32) {
    match susp {
        Suspension::BeforeLoad => (Some(Suspension::AfterLoad(value)), value),
        Suspension::AfterLoad(r) => (Some(Suspension::BeforeStore((r + 1) as u32)), value),
        Suspension::BeforeStore(v) => (Some(Suspension::AfterStore), v),
        Suspension::AfterStore => (None, value),
    }
}

/// The counter value that draining a worker from suspension point `susp`
/// leaves behind, when the counter currently holds `value`. A worker that
/// has already read resumes with its possibly stale view: it writes the
/// successor of what it read, no matter what the counter holds by now.
pub open spec fn drained_value(susp: Option<Suspension>, value: u32) -> int {
    match susp {
        None => value as int,
        Some(Suspension::BeforeLoad) => value + 1,
        Some(Suspension::AfterLoad(r)) => r + 1,
        Some(Suspension::BeforeStore(v)) => v as int,
        Some(Suspension::AfterStore) => value as int,
    }
}

impl ManagedHandle {
    /// The pause gate state the driver observes.
    pub closed spec fn state(&self) -> State {
        self.state
    }

    /// Where the worker is suspended, if it is.
    pub closed spec fn susp(&self) -> Option<Suspension> {
        self.susp
    }

    /// Every pause-gate transition this worker's gate has gone through, in
    /// order: two per `submit` or `unpause` call, one from the driver and
    /// the worker's reply.
    pub closed spec fn history(&self) -> Seq<GateOp> {
        self.history@
    }

    /// Well-formedness: the driver only ever holds the handle with the pause gate
    /// stable, and the worker sits at a suspension point exactly when the
    /// gate is `Paused`.
    pub open spec fn inv(&self) -> bool {
        &&& protocol::stable(self.state())
        &&& (self.state() == State::Paused <==> self.susp() is Some)
        &&& protocol::valid_trace(State::Ready, self.history())
        &&& protocol::state_at(State::Ready, self.history(), self.history().len() as int)
            == self.state()
    }

    /// How many more times the worker must be resumed before it goes idle.
    pub open spec fn remaining(&self) -> nat {
        match self.susp() {
            None => 0,
            Some(Suspension::BeforeLoad) => 4,
            Some(Suspension::AfterLoad(_)) => 3,
            Some(Suspension::BeforeStore(_)) => 2,
            Some(Suspension::AfterStore) => 1,
        }
    }

    /// Non-blocking snapshot of the pause gate.
    pub fn is_paused(&self) -> (r: bool)
        ensures
            r == (self.state() == State::Paused),
    {
        match self.state {
            State::Paused => true,
            _ => false,
        }
    }

    /// Hand one unit of work — an increment of the shared counter — to an
    /// idle worker. Synchronous: by the time it returns, the worker has run
    /// up to its first suspension point, which precedes the load, so the
    /// counter is untouched and `is_paused` already answers `true`.
    pub fn submit(&mut self)
        requires
            old(self).inv(),
            old(self).state() == State::Ready,
        ensures
            final(self).inv(),
            final(self).state() == State::Paused,
            final(self).susp() == Some(Suspension::BeforeLoad),
            final(self).history() == old(self).history().push(GateOp::SubmitBegin).push(
                GateOp::EnterSuspension,
            ),
    {
        let ghost past = self.history@;
        let running = protocol::submit_begin(self.state);
        self.state = protocol::enter_suspension(running);
        self.susp = Some(Suspension::BeforeLoad);
        self.history = Ghost(past.push(GateOp::SubmitBegin).push(GateOp::EnterSuspension));
        proof {
            protocol::lemma_trace_extend(State::Ready, past, GateOp::SubmitBegin);
            protocol::lemma_trace_extend(
                State::Ready,
                past.push(GateOp::SubmitBegin),
                GateOp::EnterSuspension,
            );
        }
    }

    /// Let a suspended worker proceed by exactly one step. Synchronous: the
    /// worker performs the one operation it was suspended before — reading
    /// the counter, computing the successor, writing it, or finishing the
    /// unit of work — and the call returns only once the worker is stable
    /// again, so the postcondition pins the worker's new suspension point
    /// and the counter's new value exactly.
    pub fn unpause(&mut self, counter: &mut Counter)
        requires
            old(self).inv(),
            old(self).state() == State::Paused,
            match old(self).susp() {
                Some(Suspension::AfterLoad(r)) => r < u32::MAX,
                _ => true,
            },
        ensures
            final(self).inv(),
            (final(self).susp(), final(counter)@) == unpause_spec(
                old(self).susp().unwrap(),
                old(counter)@,
            ),
            final(self).state() == (if final(self).susp() is Some {
                State::Paused
            } else {
                State::Ready
            }),
            drained_value(final(self).susp(), final(counter)@) == drained_value(
                old(self).susp(),
                old(counter)@,
            ),
            final(self).history() == old(self).history().push(GateOp::RequestResume).push(
                if final(self).susp() is Some {
                    GateOp::EnterSuspension
                } else {
                    GateOp::OnClosureComplete
                },
            ),
    {
        let ghost past = self.history@;
        let running = protocol::request_resume(self.state);
        match self.susp {
            Some(Suspension::BeforeLoad) => {
                let value = counter.get();
                self.susp = Some(Suspension::AfterLoad(value));
                self.state = protocol::enter_suspension(running);
            },
            Some(Suspension::AfterLoad(value)) => {
                self.susp = Some(Suspension::BeforeStore(value + 1));
                self.state = protocol::enter_suspension(running);
            },
            Some(Suspension::BeforeStore(value)) => {
                counter.set_value(value);
                self.susp = Some(Suspension::AfterStore);
                self.state = protocol::enter_suspension(running);
            },
            Some(Suspension::AfterStore) => {
                self.susp = None;
                self.state = protocol::on_closure_complete(running);
            },
            None => unreached(),
        }
        let ghost reply: GateOp = if self.susp is Some {
            GateOp::EnterSuspension
        } else {
            GateOp::OnClosureComplete
        };
        self.history = Ghost(past.push(GateOp::RequestResume).push(reply));
        proof {
            protocol::lemma_trace_extend(State::Ready, past, GateOp::RequestResume);
            protocol::lemma_trace_extend(State::Ready, past.push(GateOp::RequestResume), reply);
        }
    }

    /// Join the worker: drain any outstanding suspension by resuming until
    /// the worker is no longer paused, then shut it down. Safe to call while
    /// the worker is midway through an increment — the increment is resumed
    /// to completion first, so joining never deadlocks, and the counter ends
    /// at exactly the drained value of the point the worker was suspended
    /// at.
    pub fn join(self, counter: &mut Counter)
        requires
            self.inv(),
            match self.susp() {
                Some(Suspension::BeforeLoad) => old(counter)@ < u32::MAX,
                Some(Suspension::AfterLoad(r)) => r < u32::MAX,
                _ => true,
            },
        ensures
            final(counter)@ == drained_value(self.susp(), old(counter)@),
    {
        let mut h = self;
        while h.is_paused()
            invariant
                h.inv(),
                drained_value(h.susp(), counter@) == drained_value(self.susp(), old(counter)@),
                match h.susp() {
                    Some(Suspension::BeforeLoad) => counter@ < u32::MAX,
                    Some(Suspension::AfterLoad(r)) => r < u32::MAX,
                    _ => true,
                },
            decreases h.remaining(),
        {
            h.unpause(counter);
        }
    }
}

/// Mutual exclusion across one handle: whatever sequence of `submit` and
/// `unpause` calls a driver makes, the pause-gate transitions they cause
/// form a valid trace in which the driver's transitions and the worker's
/// strictly alternate — the driver's at every even position, the worker's
/// reply at every odd one. The two parties take turns, so the shared state
/// is never acted on by two logical steps at once and no two `Running`
/// periods overlap.
pub proof fn lemma_mutual_exclusion(h: ManagedHandle)
    requires
        h.inv(),
    ensures
        protocol::valid_trace(State::Ready, h.history()),
        forall|i: int|
            0 <= i < h.history().len() ==> (protocol::driver_op(#[trigger] h.history()[i]) <==> i
                % 2 == 0),
{
    protocol::lemma_control_alternates(State::Ready, h.history());
    assert forall|i: int| 0 <= i < h.history().len() implies (protocol::driver_op(
        #[trigger] h.history()[i],
    ) <==> i % 2 == 0) by {
        protocol::lemma_trace_parity(State::Ready, h.history(), i);
    }
}

/// Synchronous return: a handle is only ever observable with its gate
/// stable, so immediately after `submit` or `unpause` returns, `is_paused`
/// — equivalently, the completion status — already reflects the worker's
/// stable state, with no further waiting: the pause gate is never seen `Running`,
/// it reads `Paused` exactly while the worker sits at a suspension point,
/// and `Ready` exactly when no work is in flight.
pub proof fn lemma_synchronous_return(h: ManagedHandle)
    requires
        h.inv(),
    ensures
        protocol::stable(h.state()),
        h.state() == State::Paused <==> h.susp() is Some,
        h.state() == State::Ready <==> h.susp() is None,
{
}

/// Start a managed worker. The worker begins idle, with its gate `Ready` and
/// no work in flight.
pub fn spawn() -> (h: ManagedHandle)
    ensures
        h.inv(),
        h.state() == State::Ready,
        h.susp() is None,
        h.history() == Seq::<GateOp>::empty(),
{
    ManagedHandle { state: State::Ready, susp: None, history: Ghost(Seq::empty()) }
}

} // verus!
