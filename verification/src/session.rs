//! The single active session: peer and channel presence, the crypto
//! context, the candidate queues, the event queue read by the host,
//! and the dispatch of incoming data-channel payloads.

use vstd::prelude::*;
use crate::crypto::{
    chacha_seal_of, derive_ctx, new_system_random, nonce_of, wipe_vec, x25519_agree,
    x25519_generate, x25519_public, CryptoCtx, RecvOutcome,
};
use vstd::string::StringSliceAdditionalSpecFns;
use crate::types::{IceCandidate, ServerConfig};

verus! {

/// One notification queued for the host, keyed by a short topic when
/// delivered.
pub enum AppEvent {
    Connected,
    Disconnected,
    Message(String),
    ConnectionProblem,
    ConnectionRecovering,
    ConnectionRecovered,
    ConnectionFailed,
}

/// What the session made of one incoming data-channel payload.
pub enum MessageOutcome {
    /// A 32-byte peer public key arrived first: the crypto context was
    /// built and `connected` was queued.
    KeyInstalled,
    /// A 32-byte payload arrived while the context already exists: it
    /// is silently dropped, never treated as ciphertext.
    KeyIgnored,
    /// A 32-byte payload arrived but our own key slots are empty.
    KeyUnavailable,
    /// The key agreement or derivation failed; no context was built.
    KeyExchangeFailed,
    /// A fresh, authentic message: its text, also queued as an event.
    Accepted(String),
    /// Authentic but at or below the replay floor; dropped.
    Replay,
    /// Rejected by the AEAD; dropped, counters unchanged.
    DecryptFailed,
    /// Shorter than the authentication tag; dropped.
    TooShort,
    /// Ciphertext arrived before any crypto context exists; dropped.
    NoContext,
}

/// What `String::from_utf8_lossy` makes of a byte string.
pub uninterp spec fn utf8_lossy_of(b: Seq<u8>) -> Seq<char>;

/// Relies on `String::from_utf8_lossy` (std): the result depends on the
/// bytes alone, and is the decoded text whenever they are valid UTF-8.
#[verifier::external_body]
fn utf8_lossy(b: &[u8]) -> (r: String)
    ensures
        r@ == utf8_lossy_of(b@),
        vstd::utf8::valid_utf8(b@) ==> r@ == vstd::utf8::decode_utf8(b@),
{
    String::from_utf8_lossy(b).into_owned()
}

/// The per-process session state. At most one session is active at a
/// time; the host owns one value of this type and threads it through
/// every operation.
pub struct Session {
    /// A peer connection exists.
    pub peer_present: bool,
    /// A data channel is attached.
    pub channel_open: bool,
    /// The remote description has been applied to the peer.
    pub remote_description_set: bool,
    /// The cipher state, once the peer's public key has arrived.
    pub crypto: Option<CryptoCtx>,
    /// Our ephemeral private key, consumed by the key agreement.
    pub my_priv: Option<ring::agreement::EphemeralPrivateKey>,
    /// Our 32-byte public key, sent as the first channel payload.
    pub my_pub: Option<Vec<u8>>,
    /// Remote candidates delivered before the remote description.
    pub pending_remote_candidates: Vec<IceCandidate>,
    /// Local candidates reported by the ICE layer, in arrival order.
    pub local_candidates: Vec<IceCandidate>,
    /// The ICE layer is still gathering.
    pub collecting_candidates: bool,
    /// A connection was established at least once.
    pub was_connected: bool,
    /// A grace-period task is pending.
    pub grace_pending: bool,
    /// The user-supplied ICE server list, if any was set.
    pub user_ice_servers: Option<Vec<ServerConfig>>,
    /// Events queued for the host, oldest first.
    pub events: Vec<AppEvent>,
}

impl Session {
    /// Internal consistency: a 32-byte public key slot and a
    /// well-formed cipher state.
    pub open spec fn wf(&self) -> bool {
        &&& match self.my_pub {
            Option::Some(p) => p@.len() == 32,
            Option::None => true,
        }
        &&& match self.crypto {
            Option::Some(c) => c.wf(),
            Option::None => true,
        }
    }

    /// A fresh, empty session.
    pub fn new() -> (r: Session)
        ensures
            r.wf(),
            !r.peer_present,
            !r.channel_open,
            !r.remote_description_set,
            r.crypto is None,
            r.my_priv is None,
            r.my_pub is None,
            r.pending_remote_candidates@.len() == 0,
            r.local_candidates@.len() == 0,
            !r.collecting_candidates,
            !r.was_connected,
            !r.grace_pending,
            r.user_ice_servers is None,
            r.events@.len() == 0,
    {
        Session {
            peer_present: false,
            channel_open: false,
            remote_description_set: false,
            crypto: None,
            my_priv: None,
            my_pub: None,
            pending_remote_candidates: Vec::new(),
            local_candidates: Vec::new(),
            collecting_candidates: false,
            was_connected: false,
            grace_pending: false,
            user_ice_servers: None,
            events: Vec::new(),
        }
    }
}

// ---------- event emission ----------

/// Marks the connection established and queues `connected`.
pub fn emit_connected(s: &mut Session)
    ensures
        *final(s) == (Session {
            was_connected: true,
            events: final(s).events,
            ..*old(s)
        }),
        final(s).events@ == old(s).events@.push(AppEvent::Connected),
{
    s.was_connected = true;
    s.events.push(AppEvent::Connected);
}

/// Clears the whole cryptographic and candidate state and queues
/// `disconnected`. The key slots are wiped before they are dropped.
pub fn emit_disconnected(s: &mut Session)
    ensures
        final(s).crypto is None,
        final(s).my_priv is None,
        final(s).my_pub is None,
        !final(s).was_connected,
        final(s).pending_remote_candidates@.len() == 0,
        final(s).local_candidates@.len() == 0,
        !final(s).collecting_candidates,
        final(s).peer_present == old(s).peer_present,
        final(s).channel_open == old(s).channel_open,
        final(s).remote_description_set == old(s).remote_description_set,
        final(s).grace_pending == old(s).grace_pending,
        final(s).user_ice_servers == old(s).user_ice_servers,
        final(s).events@ == old(s).events@.push(AppEvent::Disconnected),
        final(s).wf(),
{
    match &mut s.crypto {
        Some(ctx) => {
            ctx.wipe();
        },
        None => {},
    }
    s.crypto = None;
    s.my_priv = None;
    match &mut s.my_pub {
        Some(p) => {
            wipe_vec(p);
        },
        None => {},
    }
    s.my_pub = None;
    s.was_connected = false;
    s.pending_remote_candidates = Vec::new();
    s.local_candidates = Vec::new();
    s.collecting_candidates = false;
    s.events.push(AppEvent::Disconnected);
}

/// Queues a decrypted message for the host.
pub fn emit_message(s: &mut Session, msg: String)
    ensures
        *final(s) == (Session { events: final(s).events, ..*old(s) }),
        final(s).events@ == old(s).events@.push(AppEvent::Message(msg)),
{
    s.events.push(AppEvent::Message(msg));
}

/// Queues `connection-problem`.
pub fn emit_connection_problem(s: &mut Session)
    ensures
        *final(s) == (Session { events: final(s).events, ..*old(s) }),
        final(s).events@ == old(s).events@.push(AppEvent::ConnectionProblem),
{
    s.events.push(AppEvent::ConnectionProblem);
}

/// Queues `connection-recovering`.
pub fn emit_connection_recovering(s: &mut Session)
    ensures
        *final(s) == (Session { events: final(s).events, ..*old(s) }),
        final(s).events@ == old(s).events@.push(AppEvent::ConnectionRecovering),
{
    s.events.push(AppEvent::ConnectionRecovering);
}

/// Queues `connection-recovered`.
pub fn emit_connection_recovered(s: &mut Session)
    ensures
        *final(s) == (Session { events: final(s).events, ..*old(s) }),
        final(s).events@ == old(s).events@.push(AppEvent::ConnectionRecovered),
{
    s.events.push(AppEvent::ConnectionRecovered);
}

/// Queues `connection-failed`.
pub fn emit_connection_failed(s: &mut Session)
    ensures
        *final(s) == (Session { events: final(s).events, ..*old(s) }),
        final(s).events@ == old(s).events@.push(AppEvent::ConnectionFailed),
{
    s.events.push(AppEvent::ConnectionFailed);
}

/// Hands the queued events to the host, oldest first, and empties the
/// queue.
pub fn drain_events(s: &mut Session) -> (r: Vec<AppEvent>)
    ensures
        r == old(s).events,
        *final(s) == (Session { events: final(s).events, ..*old(s) }),
        final(s).events@.len() == 0,
{
    let mut out: Vec<AppEvent> = Vec::new();
    core::mem::swap(&mut out, &mut s.events);
    out
}

// ---------- reads ----------

/// The SAS of the active crypto context, if one exists.
pub fn get_fingerprint(s: &Session) -> (r: Option<String>)
    ensures
        match s.crypto {
            Option::Some(c) => r matches Some(f) && f@ == c.sas@,
            Option::None => r is None,
        },
{
    match &s.crypto {
        Some(c) => Some(c.sas.clone()),
        None => None,
    }
}

/// The connection is ready exactly when the crypto context exists.
pub fn is_connected(s: &Session) -> (r: bool)
    ensures
        r == (s.crypto is Some),
{
    match &s.crypto {
        Some(_) => true,
        None => false,
    }
}

// ---------- channel attachment and key exchange ----------

/// Resets the session for a fresh data channel and draws a new
/// ephemeral key pair, exactly as when a channel is attached: any old
/// context, queues and flags are cleared first.
pub fn attach_channel(s: &mut Session) -> (r: bool)
    ensures
        final(s).wf(),
        final(s).grace_pending == false,
        final(s).crypto is None,
        final(s).channel_open,
        !final(s).was_connected,
        final(s).pending_remote_candidates@.len() == 0,
        final(s).local_candidates@.len() == 0,
        !final(s).collecting_candidates,
        r ==> final(s).my_priv is Some && (final(s).my_pub matches Some(p) && p@.len() == 32),
        !r ==> final(s).my_priv is None && final(s).my_pub is None,
        final(s).events == old(s).events,
        final(s).user_ice_servers == old(s).user_ice_servers,
{
    s.grace_pending = false;
    match &mut s.crypto {
        Some(ctx) => {
            ctx.wipe();
        },
        None => {},
    }
    s.crypto = None;
    s.my_priv = None;
    s.my_pub = None;
    s.was_connected = false;
    s.pending_remote_candidates = Vec::new();
    s.local_candidates = Vec::new();
    s.collecting_candidates = false;
    s.channel_open = true;
    let rng = new_system_random();
    let priv_key = match x25519_generate(&rng) {
        Some(k) => k,
        None => {
            return false;
        },
    };
    let pub_key = match x25519_public(&priv_key) {
        Some(p) => p,
        None => {
            return false;
        },
    };
    if pub_key.len() != 32 {
        return false;
    }
    s.my_priv = Some(priv_key);
    s.my_pub = Some(pub_key);
    true
}

/// The 32-byte public key to send as the first payload once the data
/// channel opens.
pub fn key_exchange_payload(s: &Session) -> (r: Option<Vec<u8>>)
    requires
        s.wf(),
    ensures
        match s.my_pub {
            Option::Some(p) => r matches Some(v) && v@ == p@ && v@.len() == 32,
            Option::None => r is None,
        },
{
    match &s.my_pub {
        Some(p) => Some(crate::strutil::clone_bytes(p)),
        None => None,
    }
}

/// Dispatches one incoming data-channel payload: a 32-byte payload is
/// the peer's public key and completes the key exchange once; anything
/// else goes to the cipher, whose counters only ever move forward.
pub fn handle_channel_message(s: &mut Session, payload: &[u8]) -> (r: MessageOutcome)
    requires
        old(s).wf(),
        old(s).crypto matches Some(c) ==> c.recv_n < u64::MAX,
    ensures
        final(s).wf(),
        final(s).peer_present == old(s).peer_present,
        final(s).channel_open == old(s).channel_open,
        final(s).user_ice_servers == old(s).user_ice_servers,
        payload@.len() == 32 && old(s).crypto is Some ==> r is KeyIgnored && *final(s) == *old(s),
        payload@.len() == 32 && old(s).crypto is None && (old(s).my_priv is None
            || old(s).my_pub is None) ==> r is KeyUnavailable && *final(s) == *old(s),
        r is KeyInstalled ==> final(s).crypto is Some && final(s).was_connected
            && final(s).events@ == old(s).events@.push(AppEvent::Connected)
            && final(s).my_priv is None && final(s).my_pub == old(s).my_pub && ({
            let nc = final(s).crypto->Some_0;
            &&& nc.send_n == 1
            &&& nc.recv_n == 1
            &&& nc.last_accepted_recv == 0
            &&& nc.sas@.len() == 12
        }),
        r is KeyExchangeFailed ==> *final(s) == (Session { my_priv: None, ..*old(s) }),
        payload@.len() != 32 && old(s).crypto is None ==> r is NoContext && *final(s) == *old(s),
        payload@.len() != 32 && payload@.len() < 16 && old(s).crypto is Some ==> r is TooShort
            && *final(s) == *old(s),
        r matches MessageOutcome::Accepted(m) ==> ({
            let oc = old(s).crypto->Some_0;
            let nc = final(s).crypto->Some_0;
            &&& old(s).crypto is Some
            &&& final(s).crypto is Some
            &&& (exists|p: Seq<u8>|
                #![auto]
                payload@ == chacha_seal_of(oc.recv_key.key@, nonce_of(oc.recv_n), p) && m@
                    == utf8_lossy_of(p))
            &&& nc.last_accepted_recv == oc.recv_n
            &&& nc.last_accepted_recv > oc.last_accepted_recv
            &&& nc.recv_n == oc.recv_n + 1
            &&& nc.send_n == oc.send_n
            &&& final(s).events@ == old(s).events@.push(AppEvent::Message(m))
        }),
        payload@.len() != 32 && old(s).crypto is Some ==> (r matches MessageOutcome::Accepted(_)
            || r is Replay || r is DecryptFailed || r is TooShort),
        payload@.len() != 32 && old(s).crypto is Some && !(r matches MessageOutcome::Accepted(_))
            ==> *final(s) == *old(s),
        payload@.len() != 32 && payload@.len() >= 16 && old(s).crypto is Some ==> !(r
            is TooShort),
        forall|p: Seq<u8>|
            (old(s).crypto is Some && payload@ == #[trigger] chacha_seal_of(
                old(s).crypto->Some_0.recv_key.key@,
                nonce_of(old(s).crypto->Some_0.recv_n),
                p,
            ) && payload@.len() == p.len() + 16 && payload@.len() != 32
                && old(s).crypto->Some_0.recv_n > old(s).crypto->Some_0.last_accepted_recv)
                ==> (r matches MessageOutcome::Accepted(m) && m@ == utf8_lossy_of(p)),
{
    if payload.len() == 32 {
        match &s.crypto {
            Some(_) => {
                return MessageOutcome::KeyIgnored;
            },
            None => {},
        }
        let my_priv = match s.my_priv.take() {
            Some(k) => k,
            None => {
                return MessageOutcome::KeyUnavailable;
            },
        };
        let my_pub = match s.my_pub.take() {
            Some(p) => p,
            None => {
                s.my_priv = Some(my_priv);
                return MessageOutcome::KeyUnavailable;
            },
        };
        let ctx = match build_ctx(my_priv, &my_pub, payload) {
            Some(c) => c,
            None => {
                s.my_pub = Some(my_pub);
                return MessageOutcome::KeyExchangeFailed;
            },
        };
        s.my_pub = Some(my_pub);
        s.crypto = Some(ctx);
        emit_connected(s);
        MessageOutcome::KeyInstalled
    } else {
        let mut ctx = match s.crypto.take() {
            Some(c) => c,
            None => {
                return MessageOutcome::NoContext;
            },
        };
        let outcome = ctx.open_next(payload);
        s.crypto = Some(ctx);
        match outcome {
            RecvOutcome::Accepted(plaintext) => {
                let text = utf8_lossy(plaintext.as_slice());
                let out = text.clone();
                emit_message(s, text);
                MessageOutcome::Accepted(out)
            },
            RecvOutcome::Replay => MessageOutcome::Replay,
            RecvOutcome::DecryptFailed => MessageOutcome::DecryptFailed,
            RecvOutcome::TooShort => MessageOutcome::TooShort,
        }
    }
}

/// Completes the key agreement: consumes our private key, agrees with
/// the peer's 32-byte public key, and derives the directional context.
/// The derivation itself is verified for every value of the shared
/// secret; the agreement is the trusted step.
pub fn build_ctx(
    my_priv: ring::agreement::EphemeralPrivateKey,
    my_pub: &Vec<u8>,
    peer_pub: &[u8],
) -> (r: Option<CryptoCtx>)
    requires
        my_pub@.len() == 32,
        peer_pub@.len() == 32,
    ensures
        r matches Some(ctx) ==> ({
            &&& ctx.wf()
            &&& ctx.send_n == 1
            &&& ctx.recv_n == 1
            &&& ctx.last_accepted_recv == 0
            &&& ctx.sas@.len() == 12
            &&& (exists|secret: Seq<u8>|
                #![auto]
                secret.len() == 32 && ctx.send_key.key@ == crate::crypto::derived_of(
                    secret,
                    my_pub@,
                    peer_pub@,
                ).send_key && ctx.recv_key.key@ == crate::crypto::derived_of(
                    secret,
                    my_pub@,
                    peer_pub@,
                ).recv_key && ctx.sas@ == crate::crypto::derived_of(
                    secret,
                    my_pub@,
                    peer_pub@,
                ).sas)
        }),
{
    let mut secret = match x25519_agree(my_priv, peer_pub) {
        Some(v) => v,
        None => {
            return None;
        },
    };
    let ctx = derive_ctx(secret.as_slice(), my_pub.as_slice(), peer_pub);
    wipe_vec(&mut secret);
    Some(ctx)
}

// ---------- sending ----------

/// Encrypts `text` for the channel: the send counter is consumed even
/// when sealing fails, so a nonce is never offered twice. Returns the
/// ciphertext for the host to ship, or nothing without a channel and
/// context.
pub fn send_text(s: &mut Session, text: &str) -> (r: Option<Vec<u8>>)
    requires
        old(s).wf(),
        old(s).crypto matches Some(c) ==> c.send_n < u64::MAX,
    ensures
        final(s).wf(),
        !old(s).channel_open ==> r is None && *final(s) == *old(s),
        old(s).channel_open && old(s).crypto is None ==> r is None && *final(s) == *old(s),
        old(s).channel_open && old(s).crypto is Some ==> ({
            let oc = old(s).crypto->Some_0;
            let nc = final(s).crypto->Some_0;
            &&& final(s).crypto is Some
            &&& *final(s) == (Session { crypto: final(s).crypto, ..*old(s) })
            &&& nc.send_n == oc.send_n + 1
            &&& nc.recv_n == oc.recv_n
            &&& nc.last_accepted_recv == oc.last_accepted_recv
            &&& nc.send_key == oc.send_key
            &&& nc.recv_key == oc.recv_key
            &&& nc.sas == oc.sas
            &&& (r matches Some(ct) ==> ct@ == chacha_seal_of(
                oc.send_key.key@,
                nonce_of(oc.send_n),
                text.spec_bytes(),
            ))
            &&& (r matches Some(ct) ==> ct@.len() == text.spec_bytes().len() + 16)
            &&& (text.spec_bytes().len() < crate::crypto::CHACHA_MAX_PLAINTEXT ==> r is Some)
        }),
        final(s).events == old(s).events,
{
    if !s.channel_open {
        return None;
    }
    let mut ctx = match s.crypto.take() {
        Some(c) => c,
        None => {
            return None;
        },
    };
    let ct = ctx.seal_next(text.as_bytes());
    s.crypto = Some(ctx);
    ct
}

// ---------- teardown ----------

/// Explicit disconnect: cancels the grace-period task, forgets the
/// peer and channel, wipes and clears all secrets and queues, and
/// queues `disconnected`. Afterwards no fingerprint exists and the
/// session reports not connected.
pub fn disconnect(s: &mut Session)
    ensures
        final(s).wf(),
        !final(s).peer_present,
        !final(s).channel_open,
        !final(s).remote_description_set,
        !final(s).grace_pending,
        final(s).crypto is None,
        final(s).my_priv is None,
        final(s).my_pub is None,
        !final(s).was_connected,
        final(s).pending_remote_candidates@.len() == 0,
        final(s).local_candidates@.len() == 0,
        !final(s).collecting_candidates,
        final(s).user_ice_servers == old(s).user_ice_servers,
        final(s).events@ == old(s).events@.push(AppEvent::Disconnected),
{
    s.peer_present = false;
    s.channel_open = false;
    s.remote_description_set = false;
    s.grace_pending = false;
    emit_disconnected(s);
}

} // verus!
