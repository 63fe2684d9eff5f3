use launchpad_bridge::supervisor::{
    supervisor_step, SupervisorAction, SupervisorEvent, SupervisorPhase, SupervisorState,
};

fn initial() -> SupervisorState {
    SupervisorState { phase: SupervisorPhase::Idle, ever_connected: false }
}

#[test]
fn first_failure_is_silent() {
    let (st, a) = supervisor_step(initial(), SupervisorEvent::Start);
    assert_eq!(a, SupervisorAction::Proceed);
    assert_eq!(st.phase, SupervisorPhase::Connecting);
    let (st, a) = supervisor_step(st, SupervisorEvent::Failed);
    assert_eq!(a, SupervisorAction::RetrySilently);
    assert_eq!(st.phase, SupervisorPhase::Idle);
    assert!(!st.ever_connected);
}

#[test]
fn repeated_failures_before_any_connection_stay_silent() {
    let mut st = initial();
    for _ in 0..3 {
        let (next, a) = supervisor_step(st, SupervisorEvent::Start);
        assert_eq!(a, SupervisorAction::Proceed);
        let (next, a) = supervisor_step(next, SupervisorEvent::Failed);
        assert_eq!(a, SupervisorAction::RetrySilently);
        st = next;
    }
}

#[test]
fn handshake_emits_connected_once() {
    let (st, _) = supervisor_step(initial(), SupervisorEvent::Start);
    let (st, a) = supervisor_step(st, SupervisorEvent::HandshakeComplete);
    assert_eq!(a, SupervisorAction::EmitConnected);
    assert_eq!(st.phase, SupervisorPhase::Active);
    assert!(st.ever_connected);
}

#[test]
fn every_failure_after_a_connection_emits_one_disconnected() {
    let (st, _) = supervisor_step(initial(), SupervisorEvent::Start);
    let (st, _) = supervisor_step(st, SupervisorEvent::HandshakeComplete);
    let (st, a) = supervisor_step(st, SupervisorEvent::Failed);
    assert_eq!(a, SupervisorAction::EmitDisconnectedThenRetry);
    assert_eq!(st.phase, SupervisorPhase::Idle);
    // The device stays away: the next attempt fails before a handshake,
    // and the failure is still announced.
    let (st, a) = supervisor_step(st, SupervisorEvent::Start);
    assert_eq!(a, SupervisorAction::Proceed);
    let (st, a) = supervisor_step(st, SupervisorEvent::Failed);
    assert_eq!(a, SupervisorAction::EmitDisconnectedThenRetry);
    assert!(st.ever_connected);
}

#[test]
fn clean_stop_leaves_the_lifecycle() {
    let (st, _) = supervisor_step(initial(), SupervisorEvent::Start);
    let (st, _) = supervisor_step(st, SupervisorEvent::HandshakeComplete);
    let (st, a) = supervisor_step(st, SupervisorEvent::CleanStop);
    assert_eq!(a, SupervisorAction::Stop);
    assert_eq!(st.phase, SupervisorPhase::Stopped);
}
