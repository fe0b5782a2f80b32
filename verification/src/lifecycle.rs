//! The connection lifecycle state machine: how the session reacts to
//! peer-connection state transitions, including the grace period that
//! lets a transient network problem heal before the session is given
//! up.

use vstd::prelude::*;
use crate::session::{
    emit_connected, emit_connection_failed, emit_connection_problem, emit_connection_recovered,
    emit_connection_recovering, emit_disconnected, AppEvent, Session,
};

verus! {

/// The grace period after a connection problem, in seconds.
pub const GRACE_PERIOD_SECS: u64 = 10;

/// The connection states reported by the ICE/peer layer.
#[derive(Clone, Copy, Debug, PartialEq, Eq, Structural)]
pub enum PeerConnState {
    New,
    Connecting,
    Connected,
    Disconnected,
    Failed,
    Closed,
}

/// What the host must do with its grace-period timer after a state
/// transition.
#[derive(Clone, Copy, Debug, PartialEq, Eq, Structural)]
pub enum StateDirective {
    /// Nothing to do.
    Ignore,
    /// Abort any pending grace-period timer.
    CancelGrace,
    /// Start the grace-period timer; call `on_grace_period_elapsed`
    /// with the then-current state when it fires.
    StartGrace,
}

/// Reacts to one peer-connection state transition.
///
/// `Connected` cancels any pending grace timer and, when the crypto
/// context already exists, announces recovery. `Disconnected` and
/// `Failed` start one grace period, during which nothing else happens.
/// `Closed` cancels the timer and tears the session state down.
pub fn on_peer_state_change(s: &mut Session, st: PeerConnState) -> (r: StateDirective)
    ensures
        old(s).wf() ==> final(s).wf(),
        st is Connected ==> ({
            &&& r is CancelGrace
            &&& (old(s).crypto is Some ==> *final(s) == (Session {
                grace_pending: false,
                was_connected: true,
                events: final(s).events,
                ..*old(s)
            }) && final(s).events@ == old(s).events@.push(AppEvent::ConnectionRecovered).push(
                AppEvent::Connected,
            ))
            &&& (old(s).crypto is None ==> *final(s) == (Session {
                grace_pending: false,
                ..*old(s)
            }))
        }),
        (st is Disconnected || st is Failed) && old(s).grace_pending ==> r is Ignore && *final(s)
            == *old(s),
        (st is Disconnected || st is Failed) && !old(s).grace_pending ==> ({
            &&& r is StartGrace
            &&& *final(s) == (Session {
                grace_pending: true,
                events: final(s).events,
                ..*old(s)
            })
            &&& final(s).events@ == old(s).events@.push(AppEvent::ConnectionProblem).push(
                AppEvent::ConnectionRecovering,
            )
        }),
        st is Closed ==> ({
            &&& r is CancelGrace
            &&& !final(s).grace_pending
            &&& final(s).crypto is None
            &&& final(s).my_priv is None
            &&& final(s).my_pub is None
            &&& !final(s).was_connected
            &&& final(s).pending_remote_candidates@.len() == 0
            &&& final(s).local_candidates@.len() == 0
            &&& !final(s).collecting_candidates
            &&& final(s).peer_present == old(s).peer_present
            &&& final(s).channel_open == old(s).channel_open
            &&& final(s).remote_description_set == old(s).remote_description_set
            &&& final(s).user_ice_servers == old(s).user_ice_servers
            &&& final(s).events@ == old(s).events@.push(AppEvent::Disconnected)
        }),
        (st is New || st is Connecting) ==> r is Ignore && *final(s) == *old(s),
{
    match st {
        PeerConnState::Connected => {
            s.grace_pending = false;
            let has_crypto = match &s.crypto {
                Some(_) => true,
                None => false,
            };
            if has_crypto {
                emit_connection_recovered(s);
                emit_connected(s);
            }
            StateDirective::CancelGrace
        },
        PeerConnState::Disconnected | PeerConnState::Failed => {
            if s.grace_pending {
                StateDirective::Ignore
            } else {
                emit_connection_problem(s);
                emit_connection_recovering(s);
                s.grace_pending = true;
                StateDirective::StartGrace
            }
        },
        PeerConnState::Closed => {
            s.grace_pending = false;
            emit_disconnected(s);
            StateDirective::CancelGrace
        },
        PeerConnState::New | PeerConnState::Connecting => StateDirective::Ignore,
    }
}

/// The grace period ran out: when the connection is still not
/// `Connected`, announce that recovery failed; a connection that came
/// back in time was already handled by its own `Connected` transition.
pub fn on_grace_period_elapsed(s: &mut Session, now: PeerConnState)
    ensures
        final(s).wf() == old(s).wf(),
        now is Connected ==> *final(s) == *old(s),
        !(now is Connected) ==> *final(s) == (Session { events: final(s).events, ..*old(s) })
            && final(s).events@ == old(s).events@.push(AppEvent::ConnectionFailed),
{
    if !matches!(now, PeerConnState::Connected) {
        emit_connection_failed(s);
    }
}

/// The data channel closed: tear the session state down.
pub fn on_channel_close(s: &mut Session)
    ensures
        final(s).wf(),
        final(s).crypto is None,
        !final(s).was_connected,
        final(s).events@ == old(s).events@.push(AppEvent::Disconnected),
{
    emit_disconnected(s);
}


} // verus!
