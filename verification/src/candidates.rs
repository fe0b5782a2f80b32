//! The ICE candidate store: local candidates in arrival order, the
//! pending queue for remote candidates that arrive early, the
//! gathering-wait decision, and candidate-type analysis.

use vstd::prelude::*;
use vstd::string::StringSliceAdditionalSpecFns;
use crate::session::Session;
use crate::strutil::{bytes_eq, contains_bytes, contains_sub};
use crate::types::{IceCandidate, IceCandidateV};

verus! {

/// Where `add_ice_candidate` sent a remote candidate.
pub enum CandidateDisposition {
    /// The remote description is set: the host applies it right away.
    Apply,
    /// No remote description yet: held in the pending queue.
    Queued,
    /// No peer connection at all: held in the pending queue anyway.
    QueuedNoPeer,
}

/// Routes one remote candidate: applied immediately when the peer has
/// a remote description, otherwise queued for the flush that follows
/// `set_remote_description`. Queued candidates are appended in order.
pub fn add_ice_candidate(s: &mut Session, candidate: IceCandidate) -> (r: CandidateDisposition)
    ensures
        final(s).wf() == old(s).wf(),
        old(s).peer_present && old(s).remote_description_set ==> r is Apply && *final(s) == *old(
            s,
        ),
        old(s).peer_present && !old(s).remote_description_set ==> r is Queued,
        !old(s).peer_present ==> r is QueuedNoPeer,
        !(old(s).peer_present && old(s).remote_description_set) ==> *final(s) == (Session {
            pending_remote_candidates: final(s).pending_remote_candidates,
            ..*old(s)
        }) && final(s).pending_remote_candidates@ == old(s).pending_remote_candidates@.push(
            candidate,
        ),
{
    if s.peer_present {
        if s.remote_description_set {
            CandidateDisposition::Apply
        } else {
            s.pending_remote_candidates.push(candidate);
            CandidateDisposition::Queued
        }
    } else {
        s.pending_remote_candidates.push(candidate);
        CandidateDisposition::QueuedNoPeer
    }
}

/// Drains the pending queue in insertion order for the host to apply,
/// one by one, after the remote description has been set. Each queued
/// candidate comes out exactly once.
pub fn take_pending_candidates(s: &mut Session) -> (r: Vec<IceCandidate>)
    ensures
        final(s).wf() == old(s).wf(),
        r == old(s).pending_remote_candidates,
        *final(s) == (Session {
            pending_remote_candidates: final(s).pending_remote_candidates,
            ..*old(s)
        }),
        final(s).pending_remote_candidates@.len() == 0,
{
    let mut out: Vec<IceCandidate> = Vec::new();
    core::mem::swap(&mut out, &mut s.pending_remote_candidates);
    out
}

/// Appends one local candidate as the ICE layer reports it. No
/// deduplication.
pub fn record_local_candidate(s: &mut Session, candidate: IceCandidate)
    ensures
        final(s).wf() == old(s).wf(),
        *final(s) == (Session { local_candidates: final(s).local_candidates, ..*old(s) }),
        final(s).local_candidates@ == old(s).local_candidates@.push(candidate),
{
    s.local_candidates.push(candidate);
}

/// Clears the local list and marks gathering active, as at the start
/// of a handshake.
pub fn begin_collecting(s: &mut Session)
    ensures
        final(s).wf() == old(s).wf(),
        *final(s) == (Session {
            local_candidates: final(s).local_candidates,
            collecting_candidates: true,
            ..*old(s)
        }),
        final(s).local_candidates@.len() == 0,
{
    s.local_candidates = Vec::new();
    s.collecting_candidates = true;
}

/// Marks gathering complete, as when the ICE layer reports the
/// terminating null candidate.
pub fn gathering_complete(s: &mut Session)
    ensures
        final(s).wf() == old(s).wf(),
        *final(s) == (Session { collecting_candidates: false, ..*old(s) }),
{
    s.collecting_candidates = false;
}

/// An exact copy of one candidate record.
pub fn clone_candidate(c: &IceCandidate) -> (r: IceCandidate)
    ensures
        r == *c,
{
    IceCandidate {
        candidate: c.candidate.clone(),
        sdp_mid: match &c.sdp_mid {
            Some(m) => Some(m.clone()),
            None => None,
        },
        sdp_mline_index: c.sdp_mline_index,
        connection_id: c.connection_id.clone(),
    }
}

/// A snapshot of the local candidate list, as returned at the end of
/// the gathering wait.
pub fn snapshot_local_candidates(s: &Session) -> (r: Vec<IceCandidate>)
    ensures
        r@ == s.local_candidates@,
{
    let mut out: Vec<IceCandidate> = Vec::new();
    let n = s.local_candidates.len();
    let mut i: usize = 0;
    while i < n
        invariant
            i <= n,
            n == s.local_candidates@.len(),
            out@ == s.local_candidates@.take(i as int),
        decreases n - i,
    {
        out.push(clone_candidate(&s.local_candidates[i]));
        i = i + 1;
        proof {
            assert(out@ =~= s.local_candidates@.take(i as int));
        }
    }
    proof {
        assert(s.local_candidates@.take(n as int) =~= s.local_candidates@);
    }
    out
}

/// Whether the gathering wait may stop: never before two seconds (late
/// STUN/TURN answers would be missed), then as soon as gathering has
/// finished or at least one candidate arrived, and in any case once
/// the timeout has elapsed.
pub fn collect_wait_done(
    elapsed_secs: u64,
    timeout_secs: u64,
    collecting: bool,
    candidate_count: usize,
) -> (r: bool)
    ensures
        r == (elapsed_secs >= 2 && (!collecting || candidate_count > 0 || elapsed_secs
            >= timeout_secs)),
{
    elapsed_secs >= 2 && (!collecting || candidate_count > 0 || elapsed_secs >= timeout_secs)
}

// ---------- candidate analysis ----------

/// The byte pattern `typ host`.
pub open spec fn pat_typ_host() -> Seq<u8> {
    seq![0x74u8, 0x79u8, 0x70u8, 0x20u8, 0x68u8, 0x6fu8, 0x73u8, 0x74u8]
}

/// The byte pattern `typ srflx`.
pub open spec fn pat_typ_srflx() -> Seq<u8> {
    seq![0x74u8, 0x79u8, 0x70u8, 0x20u8, 0x73u8, 0x72u8, 0x66u8, 0x6cu8, 0x78u8]
}

/// The byte pattern `typ relay`.
pub open spec fn pat_typ_relay() -> Seq<u8> {
    seq![0x74u8, 0x79u8, 0x70u8, 0x20u8, 0x72u8, 0x65u8, 0x6cu8, 0x61u8, 0x79u8]
}

/// The candidate line, as UTF-8 bytes.
pub open spec fn line_bytes(c: IceCandidateV) -> Seq<u8> {
    vstd::utf8::encode_utf8(c.candidate)
}

/// Classified as host: the line holds `typ host`.
pub open spec fn is_host_cand(c: IceCandidateV) -> bool {
    contains_sub(line_bytes(c), pat_typ_host())
}

/// Classified as server-reflexive: not host, and the line holds
/// `typ srflx`.
pub open spec fn is_srflx_cand(c: IceCandidateV) -> bool {
    !is_host_cand(c) && contains_sub(line_bytes(c), pat_typ_srflx())
}

/// Classified as relay: neither of the above, and the line holds
/// `typ relay`.
pub open spec fn is_relay_cand(c: IceCandidateV) -> bool {
    !is_host_cand(c) && !contains_sub(line_bytes(c), pat_typ_srflx()) && contains_sub(
        line_bytes(c),
        pat_typ_relay(),
    )
}

pub open spec fn count_host(s: Seq<IceCandidateV>) -> int
    decreases s.len(),
{
    if s.len() == 0 {
        0
    } else {
        count_host(s.drop_last()) + if is_host_cand(s.last()) {
            1int
        } else {
            0int
        }
    }
}

pub open spec fn count_srflx(s: Seq<IceCandidateV>) -> int
    decreases s.len(),
{
    if s.len() == 0 {
        0
    } else {
        count_srflx(s.drop_last()) + if is_srflx_cand(s.last()) {
            1int
        } else {
            0int
        }
    }
}

pub open spec fn count_relay(s: Seq<IceCandidateV>) -> int
    decreases s.len(),
{
    if s.len() == 0 {
        0
    } else {
        count_relay(s.drop_last()) + if is_relay_cand(s.last()) {
            1int
        } else {
            0int
        }
    }
}

/// The views of a candidate slice.
pub open spec fn cand_views(s: Seq<IceCandidate>) -> Seq<IceCandidateV> {
    Seq::new(s.len(), |i: int| s[i]@)
}

/// What the analysis found: counts by candidate type, and the warning
/// that no TURN relay candidate was gathered, which makes a connection
/// across NAT likely to fail.
pub struct CandidateStats {
    pub host: usize,
    pub srflx: usize,
    pub relay: usize,
    pub relay_missing: bool,
}

fn pat_host_bytes() -> (r: Vec<u8>)
    ensures
        r@ == pat_typ_host(),
{
    let mut v: Vec<u8> = Vec::new();
    v.push(0x74);
    v.push(0x79);
    v.push(0x70);
    v.push(0x20);
    v.push(0x68);
    v.push(0x6f);
    v.push(0x73);
    v.push(0x74);
    proof {
        assert(v@ =~= pat_typ_host());
    }
    v
}

fn pat_srflx_bytes() -> (r: Vec<u8>)
    ensures
        r@ == pat_typ_srflx(),
{
    let mut v: Vec<u8> = Vec::new();
    v.push(0x74);
    v.push(0x79);
    v.push(0x70);
    v.push(0x20);
    v.push(0x73);
    v.push(0x72);
    v.push(0x66);
    v.push(0x6c);
    v.push(0x78);
    proof {
        assert(v@ =~= pat_typ_srflx());
    }
    v
}

fn pat_relay_bytes() -> (r: Vec<u8>)
    ensures
        r@ == pat_typ_relay(),
{
    let mut v: Vec<u8> = Vec::new();
    v.push(0x74);
    v.push(0x79);
    v.push(0x70);
    v.push(0x20);
    v.push(0x72);
    v.push(0x65);
    v.push(0x6c);
    v.push(0x61);
    v.push(0x79);
    proof {
        assert(v@ =~= pat_typ_relay());
    }
    v
}

/// Counts candidates by type — `host`, `srflx`, `relay`, decided by
/// substring of the candidate line — and flags a missing relay.
pub fn analyze_candidates(candidates: &[IceCandidate]) -> (r: CandidateStats)
    ensures
        r.host == count_host(cand_views(candidates@)),
        r.srflx == count_srflx(cand_views(candidates@)),
        r.relay == count_relay(cand_views(candidates@)),
        r.relay_missing == (count_relay(cand_views(candidates@)) == 0),
{
    let ghost views = cand_views(candidates@);
    let host_pat = pat_host_bytes();
    let srflx_pat = pat_srflx_bytes();
    let relay_pat = pat_relay_bytes();
    let mut host: usize = 0;
    let mut srflx: usize = 0;
    let mut relay: usize = 0;
    let n = candidates.len();
    let mut i: usize = 0;
    while i < n
        invariant
            i <= n,
            n == candidates@.len(),
            views == cand_views(candidates@),
            host_pat@ == pat_typ_host(),
            srflx_pat@ == pat_typ_srflx(),
            relay_pat@ == pat_typ_relay(),
            host == count_host(views.take(i as int)),
            srflx == count_srflx(views.take(i as int)),
            relay == count_relay(views.take(i as int)),
            host + srflx + relay <= i,
        decreases n - i,
    {
        let line = candidates[i].candidate.as_str().as_bytes();
        proof {
            assert(views[i as int] == candidates@[i as int]@);
            assert(line@ == line_bytes(views[i as int]));
        }
        if contains_bytes(line, host_pat.as_slice()) {
            host = host + 1;
        } else if contains_bytes(line, srflx_pat.as_slice()) {
            srflx = srflx + 1;
        } else if contains_bytes(line, relay_pat.as_slice()) {
            relay = relay + 1;
        }
        i = i + 1;
        proof {
            let t = views.take(i as int);
            assert(t.drop_last() =~= views.take(i as int - 1));
            assert(t.last() == views[i as int - 1]);
        }
    }
    proof {
        assert(views.take(n as int) =~= views);
    }
    CandidateStats { host, srflx, relay, relay_missing: relay == 0 }
}

// ---------- reachability probe ----------

/// The bytes of the server kind `stun`.
pub open spec fn kind_stun() -> Seq<u8> {
    seq![0x73u8, 0x74u8, 0x75u8, 0x6eu8]
}

/// The bytes of the server kind `turn`.
pub open spec fn kind_turn() -> Seq<u8> {
    seq![0x74u8, 0x75u8, 0x72u8, 0x6eu8]
}

/// Whether a candidate line reported during a reachability probe
/// proves the probed server works: a server-reflexive candidate for a
/// STUN server, a relay candidate for a TURN server.
pub open spec fn probe_match(server_kind: Seq<u8>, line: Seq<u8>) -> bool {
    ||| (server_kind == kind_stun() && contains_sub(line, seq![0x73u8, 0x72u8, 0x66u8, 0x6cu8, 0x78u8]))
    ||| (server_kind == kind_turn() && contains_sub(line, seq![0x72u8, 0x65u8, 0x6cu8, 0x61u8, 0x79u8]))
}

/// Decides `probe_match` on a probe's candidate line.
pub fn probe_candidate_matches(server_kind: &str, line: &str) -> (r: bool)
    ensures
        r == probe_match(server_kind.spec_bytes(), line.spec_bytes()),
{
    let mut stun_kind: Vec<u8> = Vec::new();
    stun_kind.push(0x73);
    stun_kind.push(0x74);
    stun_kind.push(0x75);
    stun_kind.push(0x6e);
    let mut turn_kind: Vec<u8> = Vec::new();
    turn_kind.push(0x74);
    turn_kind.push(0x75);
    turn_kind.push(0x72);
    turn_kind.push(0x6e);
    let mut srflx: Vec<u8> = Vec::new();
    srflx.push(0x73);
    srflx.push(0x72);
    srflx.push(0x66);
    srflx.push(0x6c);
    srflx.push(0x78);
    let mut relay: Vec<u8> = Vec::new();
    relay.push(0x72);
    relay.push(0x65);
    relay.push(0x6c);
    relay.push(0x61);
    relay.push(0x79);
    proof {
        assert(stun_kind@ =~= kind_stun());
        assert(turn_kind@ =~= kind_turn());
        assert(srflx@ =~= seq![0x73u8, 0x72u8, 0x66u8, 0x6cu8, 0x78u8]);
        assert(relay@ =~= seq![0x72u8, 0x65u8, 0x6cu8, 0x61u8, 0x79u8]);
    }
    let kb = server_kind.as_bytes();
    let lb = line.as_bytes();
    (bytes_eq(kb, stun_kind.as_slice()) && contains_bytes(lb, srflx.as_slice())) || (bytes_eq(
        kb,
        turn_kind.as_slice(),
    ) && contains_bytes(lb, relay.as_slice()))
}

} // verus!
