use ssc_core::lifecycle::{
    on_channel_close, on_grace_period_elapsed, on_peer_state_change, PeerConnState,
    StateDirective, GRACE_PERIOD_SECS,
};
use ssc_core::session::{
    attach_channel, drain_events, handle_channel_message, is_connected, key_exchange_payload,
    AppEvent, MessageOutcome, Session,
};

/// A session with an established crypto context.
fn established() -> Session {
    let mut a = Session::new();
    let mut b = Session::new();
    assert!(attach_channel(&mut a));
    assert!(attach_channel(&mut b));
    let b_pub = key_exchange_payload(&b).unwrap();
    assert!(matches!(
        handle_channel_message(&mut a, &b_pub),
        MessageOutcome::KeyInstalled
    ));
    drain_events(&mut a);
    a
}

#[test]
fn grace_period_is_ten_seconds() {
    assert_eq!(GRACE_PERIOD_SECS, 10);
}

#[test]
fn grace_period_recovery() {
    // Connection drops and returns within the grace period: the host
    // sees problem, recovering, recovered, connected — and no
    // disconnected.
    let mut s = established();
    let d = on_peer_state_change(&mut s, PeerConnState::Disconnected);
    assert_eq!(d, StateDirective::StartGrace);
    assert!(s.grace_pending);
    let d = on_peer_state_change(&mut s, PeerConnState::Connected);
    assert_eq!(d, StateDirective::CancelGrace);
    assert!(!s.grace_pending);
    assert!(is_connected(&s));
    let events = drain_events(&mut s);
    assert!(matches!(
        events.as_slice(),
        [
            AppEvent::ConnectionProblem,
            AppEvent::ConnectionRecovering,
            AppEvent::ConnectionRecovered,
            AppEvent::Connected,
        ]
    ));
}

#[test]
fn grace_period_timeout() {
    // The connection stays down: after the grace period the host sees
    // connection-failed.
    let mut s = established();
    let d = on_peer_state_change(&mut s, PeerConnState::Failed);
    assert_eq!(d, StateDirective::StartGrace);
    on_grace_period_elapsed(&mut s, PeerConnState::Disconnected);
    let events = drain_events(&mut s);
    assert!(matches!(
        events.as_slice(),
        [
            AppEvent::ConnectionProblem,
            AppEvent::ConnectionRecovering,
            AppEvent::ConnectionFailed,
        ]
    ));
}

#[test]
fn grace_period_elapsing_after_recovery_is_silent() {
    let mut s = established();
    on_peer_state_change(&mut s, PeerConnState::Disconnected);
    drain_events(&mut s);
    on_grace_period_elapsed(&mut s, PeerConnState::Connected);
    assert!(drain_events(&mut s).is_empty());
}

#[test]
fn second_drop_during_grace_is_ignored() {
    let mut s = established();
    assert_eq!(
        on_peer_state_change(&mut s, PeerConnState::Disconnected),
        StateDirective::StartGrace
    );
    drain_events(&mut s);
    assert_eq!(
        on_peer_state_change(&mut s, PeerConnState::Failed),
        StateDirective::Ignore
    );
    assert!(drain_events(&mut s).is_empty());
}

#[test]
fn connected_without_context_waits_for_key_exchange() {
    let mut s = Session::new();
    assert!(attach_channel(&mut s));
    let d = on_peer_state_change(&mut s, PeerConnState::Connected);
    assert_eq!(d, StateDirective::CancelGrace);
    // No crypto context yet: nothing is announced.
    assert!(drain_events(&mut s).is_empty());
}

#[test]
fn closed_tears_the_session_down() {
    let mut s = established();
    let d = on_peer_state_change(&mut s, PeerConnState::Closed);
    assert_eq!(d, StateDirective::CancelGrace);
    assert!(!is_connected(&s));
    assert!(s.my_priv.is_none() && s.my_pub.is_none());
    let events = drain_events(&mut s);
    assert!(matches!(events.as_slice(), [AppEvent::Disconnected]));
}

#[test]
fn intermediate_states_are_ignored() {
    let mut s = established();
    assert_eq!(
        on_peer_state_change(&mut s, PeerConnState::New),
        StateDirective::Ignore
    );
    assert_eq!(
        on_peer_state_change(&mut s, PeerConnState::Connecting),
        StateDirective::Ignore
    );
    assert!(drain_events(&mut s).is_empty());
}

#[test]
fn channel_close_tears_the_session_down() {
    let mut s = established();
    on_channel_close(&mut s);
    assert!(!is_connected(&s));
    let events = drain_events(&mut s);
    assert!(matches!(events.as_slice(), [AppEvent::Disconnected]));
}
