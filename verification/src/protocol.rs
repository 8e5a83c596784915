//! The pause-gate rendezvous protocol.
//!
//! A gate coordinates exactly one worker thread with exactly one driver
//! through a tri-state variable. The driver acts only while the pause gate is
//! stable (`Ready` or `Paused`); each driver action hands control to the
//! worker by moving the pause gate to `Running`, and the worker hands control back
//! by moving it to `Paused` (at a suspension point) or `Ready` (when the
//! submitted work is complete). This module states the transition system and
//! proves that along any valid trace control strictly alternates between the
//! two parties, so the shared state is never acted on by both at once.

use vstd::prelude::*;

verus! {

/// The pause gate's tri-state variable. `Ready`: the worker is idle with no work in
/// flight. `Running`: the worker is executing and not inside a suspension
/// point. `Paused`: the worker is blocked inside a suspension point awaiting
/// the driver's permission to go on.
#[derive(Clone, Copy, PartialEq, Eq, Structural, Debug)]
pub enum State {
    Ready,
    Running,
    Paused,
}

/// The four transitions of the pause gate protocol, two per party.
#[derive(Clone, Copy, PartialEq, Eq, Structural, Debug)]
pub enum GateOp {
    /// Driver: hand a unit of work to an idle worker.
    SubmitBegin,
    /// Worker: block inside a suspension point.
    EnterSuspension,
    /// Driver: let a suspended worker proceed.
    RequestResume,
    /// Worker: report that the submitted work is complete.
    OnClosureComplete,
}

/// The transitions the driver makes; the other two belong to the worker.
pub open spec fn driver_op(op: GateOp) -> bool {
    match op {
        GateOp::SubmitBegin => true,
        GateOp::RequestResume => true,
        GateOp::EnterSuspension => false,
        GateOp::OnClosureComplete => false,
    }
}

/// A stable state is one the driver may observe: the worker is either idle
/// or suspended, never midway through a step.
pub open spec fn stable(s: State) -> bool {
    s != State::Running
}

/// When each transition is permitted. Driver transitions are enabled exactly
/// in the stable states; worker transitions exactly while `Running`.
pub open spec fn enabled(s: State, op: GateOp) -> bool {
    match op {
        GateOp::SubmitBegin => s == State::Ready,
        GateOp::RequestResume => s == State::Paused,
        GateOp::EnterSuspension => s == State::Running,
        GateOp::OnClosureComplete => s == State::Running,
    }
}

/// The state each transition leads to.
pub open spec fn gate_step(s: State, op: GateOp) -> State {
    match op {
        GateOp::SubmitBegin => State::Running,
        GateOp::RequestResume => State::Running,
        GateOp::EnterSuspension => State::Paused,
        GateOp::OnClosureComplete => State::Ready,
    }
}

/// The pause gate's state after the first `i` transitions of `ops`, starting
/// from `s0`.
pub open spec fn state_at(s0: State, ops: Seq<GateOp>, i: int) -> State
    decreases i,
{
    if i <= 0 {
        s0
    } else {
        gate_step(state_at(s0, ops, i - 1), ops[i - 1])
    }
}

/// A trace is valid when every transition is enabled in the state it is
/// taken from.
pub open spec fn valid_trace(s0: State, ops: Seq<GateOp>) -> bool {
    forall|i: int| 0 <= i < ops.len() ==> #[trigger] enabled(state_at(s0, ops, i), ops[i])
}

/// Mutual exclusion for one gate: along any valid trace that starts in a
/// stable state, the driver acts exactly in the stable states and the worker
/// exactly in the `Running` states, so the two parties strictly alternate
/// and no two `Running` periods overlap — between any two driver actions the
/// worker has reached a stable state, and between any two worker actions the
/// driver has handed control back.
pub proof fn lemma_control_alternates(s0: State, ops: Seq<GateOp>)
    requires
        stable(s0),
        valid_trace(s0, ops),
    ensures
        forall|i: int|
            0 <= i < ops.len() ==> (driver_op(#[trigger] ops[i]) <==> stable(
                state_at(s0, ops, i),
            )),
        forall|i: int|
            0 <= i && i + 1 < ops.len() ==> (driver_op(#[trigger] ops[i]) <==> !driver_op(
                ops[i + 1],
            )),
{
    assert forall|i: int| 0 <= i < ops.len() implies (driver_op(#[trigger] ops[i]) <==> stable(
        state_at(s0, ops, i),
    )) by {
        assert(enabled(state_at(s0, ops, i), ops[i]));
    }
    assert forall|i: int| 0 <= i && i + 1 < ops.len() implies (driver_op(
        #[trigger] ops[i],
    ) <==> !driver_op(ops[i + 1])) by {
        assert(enabled(state_at(s0, ops, i), ops[i]));
        assert(enabled(state_at(s0, ops, i + 1), ops[i + 1]));
        assert(state_at(s0, ops, i + 1) == gate_step(state_at(s0, ops, i), ops[i]));
    }
}

/// In any gate state, exactly one party has transitions enabled: the driver
/// in the stable states, the worker while `Running`.
pub proof fn lemma_one_party_at_a_time(s: State)
    ensures
        forall|op: GateOp| #[trigger] enabled(s, op) ==> (driver_op(op) <==> stable(s)),
{
}

/// Appending one transition leaves the states along the existing prefix
/// unchanged.
proof fn lemma_state_at_push(s0: State, ops: Seq<GateOp>, op: GateOp, i: int)
    requires
        0 <= i <= ops.len(),
    ensures
        state_at(s0, ops.push(op), i) == state_at(s0, ops, i),
    decreases i,
{
    if i > 0 {
        lemma_state_at_push(s0, ops, op, i - 1);
        assert(ops.push(op)[i - 1] == ops[i - 1]);
    }
}

/// A valid trace extended by one transition that is enabled in its final
/// state is again a valid trace, and ends in the state that transition
/// leads to.
pub proof fn lemma_trace_extend(s0: State, ops: Seq<GateOp>, op: GateOp)
    requires
        valid_trace(s0, ops),
        enabled(state_at(s0, ops, ops.len() as int), op),
    ensures
        valid_trace(s0, ops.push(op)),
        state_at(s0, ops.push(op), ops.len() as int + 1) == gate_step(
            state_at(s0, ops, ops.len() as int),
            op,
        ),
{
    let extended = ops.push(op);
    assert forall|i: int| 0 <= i < extended.len() implies #[trigger] enabled(
        state_at(s0, extended, i),
        extended[i],
    ) by {
        lemma_state_at_push(s0, ops, op, i);
        if i < ops.len() {
            assert(extended[i] == ops[i]);
            assert(enabled(state_at(s0, ops, i), ops[i]));
        } else {
            assert(extended[i] == op);
        }
    }
    lemma_state_at_push(s0, ops, op, ops.len() as int);
    assert(state_at(s0, extended, ops.len() as int + 1) == gate_step(
        state_at(s0, extended, ops.len() as int),
        extended[ops.len() as int],
    ));
}

/// Along a valid trace from a stable state, stability alternates step by
/// step: the states at even positions are stable, those at odd positions
/// are `Running`.
pub proof fn lemma_trace_parity(s0: State, ops: Seq<GateOp>, i: int)
    requires
        stable(s0),
        valid_trace(s0, ops),
        0 <= i <= ops.len(),
    ensures
        stable(state_at(s0, ops, i)) <==> i % 2 == 0,
    decreases i,
{
    if i > 0 {
        lemma_trace_parity(s0, ops, i - 1);
        assert(enabled(state_at(s0, ops, i - 1), ops[i - 1]));
        assert(state_at(s0, ops, i) == gate_step(state_at(s0, ops, i - 1), ops[i - 1]));
    }
}

/// Driver transition out of `Ready`: hand over a unit of work. Submitting
/// to a worker that is not idle is a protocol violation and treated as
/// fatal: the precondition states it, and a running harness checks it
/// before calling, aborting rather than masking the misuse.
pub fn submit_begin(s: State) -> (r: State)
    requires
        s == State::Ready,
    ensures
        r == gate_step(s, GateOp::SubmitBegin),
        r == State::Running,
{
    State::Running
}

/// Driver transition out of `Paused`: let the suspended worker proceed.
pub fn request_resume(s: State) -> (r: State)
    requires
        s == State::Paused,
    ensures
        r == gate_step(s, GateOp::RequestResume),
        r == State::Running,
{
    State::Running
}

/// Worker transition into a suspension point, called only while `Running`.
pub fn enter_suspension(s: State) -> (r: State)
    requires
        s == State::Running,
    ensures
        r == gate_step(s, GateOp::EnterSuspension),
        r == State::Paused,
        stable(r),
{
    State::Paused
}

/// Worker transition on completing the submitted work.
pub fn on_closure_complete(s: State) -> (r: State)
    requires
        s == State::Running,
    ensures
        r == gate_step(s, GateOp::OnClosureComplete),
        r == State::Ready,
        stable(r),
{
    State::Ready
}

/// The driver's wake-up condition: after `SubmitBegin` or `RequestResume`
/// the driver waits until the pause gate is stable again, which is what makes
/// submitting and resuming synchronous.
pub fn driver_wait_done(s: State) -> (b: bool)
    ensures
        b == stable(s),
{
    match s {
        State::Running => false,
        _ => true,
    }
}

/// The worker's wake-up condition inside a suspension point: it waits until
/// the driver has moved the pause gate out of `Paused`.
pub fn worker_wait_done(s: State) -> (b: bool)
    ensures
        b == (s != State::Paused),
{
    match s {
        State::Paused => false,
        _ => true,
    }
}

} // verus!
