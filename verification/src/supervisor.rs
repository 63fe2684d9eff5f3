//! The connection supervisor: a state machine over connection attempts.
//!
//! One step consumes one observation of the worker (an attempt starting,
//! the handshake completing, a failure, a clean stop) and yields the next
//! state together with the action the worker must perform: which event to
//! emit toward the host, and whether to delay before reconnecting.

use vstd::prelude::*;

verus! {

/// Where the supervisor stands in a connection's lifecycle.
#[derive(Clone, Copy, Debug, PartialEq, Eq, Structural)]
pub enum SupervisorPhase {
    Idle,
    Connecting,
    Active,
    Stopped,
}

/// One observation reported by the connection worker.
#[derive(Clone, Copy, Debug, PartialEq, Eq, Structural)]
pub enum SupervisorEvent {
    /// A connection attempt begins.
    Start,
    /// Ports matched and opened, mode switch sent, settle delay elapsed.
    HandshakeComplete,
    /// The attempt or the active session ended in an error.
    Failed,
    /// The session's run function returned success. Not reachable in
    /// normal operation: the command loop only exits on error. The path
    /// exists for an orderly shutdown signal and nothing relies on it.
    CleanStop,
}

/// What the worker must do after a step.
#[derive(Clone, Copy, Debug, PartialEq, Eq, Structural)]
pub enum SupervisorAction {
    /// Carry on; nothing to emit.
    Proceed,
    /// Emit `Connected` toward the host: the hardware accepts commands now.
    EmitConnected,
    /// Wait the fixed retry delay, then reconnect; emit nothing, because
    /// no session was ever established.
    RetrySilently,
    /// Emit `Disconnected` toward the host, then wait the fixed retry
    /// delay and reconnect.
    EmitDisconnectedThenRetry,
    /// Leave the lifecycle for good.
    Stop,
}

/// Supervisor state: the phase, and whether any session was ever
/// successfully established since the process began.
#[derive(Clone, Copy, Debug, PartialEq, Eq, Structural)]
pub struct SupervisorState {
    pub phase: SupervisorPhase,
    pub ever_connected: bool,
}

/// The state the supervisor starts in: idle, never connected.
pub open spec fn initial_state() -> SupervisorState {
    SupervisorState { phase: SupervisorPhase::Idle, ever_connected: false }
}

/// The transition relation. An observation that cannot occur in the
/// current phase changes nothing.
pub open spec fn spec_step(st: SupervisorState, ev: SupervisorEvent) -> (
    SupervisorState,
    SupervisorAction,
) {
    match (st.phase, ev) {
        (SupervisorPhase::Idle, SupervisorEvent::Start) => (
            SupervisorState { phase: SupervisorPhase::Connecting, ..st },
            SupervisorAction::Proceed,
        ),
        (SupervisorPhase::Connecting, SupervisorEvent::HandshakeComplete) => (
            SupervisorState { phase: SupervisorPhase::Active, ever_connected: true },
            SupervisorAction::EmitConnected,
        ),
        (SupervisorPhase::Connecting, SupervisorEvent::Failed) | (
            SupervisorPhase::Active,
            SupervisorEvent::Failed,
        ) => (
            SupervisorState { phase: SupervisorPhase::Idle, ..st },
            if st.ever_connected {
                SupervisorAction::EmitDisconnectedThenRetry
            } else {
                SupervisorAction::RetrySilently
            },
        ),
        (SupervisorPhase::Connecting, SupervisorEvent::CleanStop) | (
            SupervisorPhase::Active,
            SupervisorEvent::CleanStop,
        ) => (SupervisorState { phase: SupervisorPhase::Stopped, ..st }, SupervisorAction::Stop),
        _ => (st, SupervisorAction::Proceed),
    }
}

/// Advance the supervisor by one observation.
///
/// A failure leads back to `Idle` and asks for exactly one `Disconnected`
/// emission — if and only if a session was ever established before; a
/// completed handshake leads to `Active` and asks for the one `Connected`
/// emission of the session.
pub fn supervisor_step(st: SupervisorState, ev: SupervisorEvent) -> (r: (
    SupervisorState,
    SupervisorAction,
))
    ensures
        r == spec_step(st, ev),
        r.1 == SupervisorAction::EmitDisconnectedThenRetry <==> (ev == SupervisorEvent::Failed
            && (st.phase == SupervisorPhase::Connecting || st.phase == SupervisorPhase::Active)
            && st.ever_connected),
        r.1 == SupervisorAction::EmitConnected <==> (ev == SupervisorEvent::HandshakeComplete
            && st.phase == SupervisorPhase::Connecting),
{
    match (st.phase, ev) {
        (SupervisorPhase::Idle, SupervisorEvent::Start) => (
            SupervisorState { phase: SupervisorPhase::Connecting, ever_connected: st.ever_connected },
            SupervisorAction::Proceed,
        ),
        (SupervisorPhase::Connecting, SupervisorEvent::HandshakeComplete) => (
            SupervisorState { phase: SupervisorPhase::Active, ever_connected: true },
            SupervisorAction::EmitConnected,
        ),
        (SupervisorPhase::Connecting, SupervisorEvent::Failed) | (
            SupervisorPhase::Active,
            SupervisorEvent::Failed,
        ) => (
            SupervisorState { phase: SupervisorPhase::Idle, ever_connected: st.ever_connected },
            if st.ever_connected {
                SupervisorAction::EmitDisconnectedThenRetry
            } else {
                SupervisorAction::RetrySilently
            },
        ),
        (SupervisorPhase::Connecting, SupervisorEvent::CleanStop) | (
            SupervisorPhase::Active,
            SupervisorEvent::CleanStop,
        ) => (
            SupervisorState { phase: SupervisorPhase::Stopped, ever_connected: st.ever_connected },
            SupervisorAction::Stop,
        ),
        _ => (st, SupervisorAction::Proceed),
    }
}

/// The state after a whole trace of observations, from the initial state.
pub open spec fn run_state(evs: Seq<SupervisorEvent>) -> SupervisorState
    decreases evs.len(),
{
    if evs.len() == 0 {
        initial_state()
    } else {
        spec_step(run_state(evs.drop_last()), evs.last()).0
    }
}

/// The action the supervisor asks for at position `i` of a trace.
pub open spec fn action_at(evs: Seq<SupervisorEvent>, i: int) -> SupervisorAction
    recommends
        0 <= i < evs.len(),
{
    spec_step(run_state(evs.take(i)), evs[i]).1
}

/// A session is active only if one was successfully established: the
/// `Active` phase is never reached without `ever_connected`.
pub proof fn lemma_active_implies_connected(evs: Seq<SupervisorEvent>)
    ensures
        run_state(evs).phase == SupervisorPhase::Active ==> run_state(evs).ever_connected,
    decreases evs.len(),
{
    if evs.len() > 0 {
        lemma_active_implies_connected(evs.drop_last());
    }
}

/// `ever_connected` holds after a trace exactly when some step of the
/// trace asked for the `Connected` emission.
pub proof fn lemma_ever_connected_iff_emitted(evs: Seq<SupervisorEvent>)
    ensures
        run_state(evs).ever_connected <==> exists|j: int|
            0 <= j < evs.len() && action_at(evs, j) == SupervisorAction::EmitConnected,
    decreases evs.len(),
{
    if evs.len() == 0 {
    } else {
        let prefix = evs.drop_last();
        lemma_ever_connected_iff_emitted(prefix);
        assert(evs.take(evs.len() - 1) =~= prefix);
        assert forall|j: int| 0 <= j < prefix.len() implies action_at(prefix, j) == action_at(
            evs,
            j,
        ) by {
            assert(prefix.take(j) =~= evs.take(j));
            assert(prefix[j] == evs[j]);
        }
        if run_state(evs).ever_connected {
            if run_state(prefix).ever_connected {
                let j = choose|j: int|
                    0 <= j < prefix.len() && action_at(prefix, j)
                        == SupervisorAction::EmitConnected;
                assert(action_at(evs, j) == SupervisorAction::EmitConnected);
            } else {
                assert(action_at(evs, evs.len() - 1) == SupervisorAction::EmitConnected);
            }
        } else {
            assert forall|j: int|
                0 <= j < evs.len() implies action_at(evs, j)
                != SupervisorAction::EmitConnected by {
                if j < prefix.len() {
                    assert(action_at(prefix, j) == action_at(evs, j));
                } else {
                    assert(action_at(evs, j) == spec_step(run_state(prefix), evs.last()).1);
                }
            }
        }
    }
}

/// No disconnect notification before the first successful connection:
/// whenever a step of a trace asks for the `Disconnected` emission, an
/// earlier step of the same trace asked for the `Connected` emission.
pub proof fn lemma_no_disconnect_before_connect(evs: Seq<SupervisorEvent>, i: int)
    requires
        0 <= i < evs.len(),
        action_at(evs, i) == SupervisorAction::EmitDisconnectedThenRetry,
    ensures
        exists|j: int| 0 <= j < i && action_at(evs, j) == SupervisorAction::EmitConnected,
{
    let prefix = evs.take(i);
    assert(run_state(prefix).ever_connected);
    lemma_ever_connected_iff_emitted(prefix);
    let j = choose|j: int|
        0 <= j < prefix.len() && action_at(prefix, j) == SupervisorAction::EmitConnected;
    assert(prefix.take(j) =~= evs.take(j));
    assert(prefix[j] == evs[j]);
    assert(action_at(evs, j) == SupervisorAction::EmitConnected);
}

} // verus!
