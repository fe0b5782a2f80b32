//! Data carried through the handshake: session descriptions, envelopes,
//! ICE candidate records and ICE server configurations, together with
//! their mathematical views.

use vstd::prelude::*;

verus! {

/// A session description as exchanged between peers: its role
/// (`"offer"` or `"answer"`) and the SDP text itself.
#[derive(Clone, Debug, PartialEq, Eq)]
pub struct SessionDescription {
    pub kind: String,
    pub sdp: String,
}

pub ghost struct SessionDescriptionV {
    pub kind: Seq<char>,
    pub sdp: Seq<char>,
}

impl View for SessionDescription {
    type V = SessionDescriptionV;

    open spec fn view(&self) -> SessionDescriptionV {
        SessionDescriptionV { kind: self.kind@, sdp: self.sdp@ }
    }
}

/// The unit shipped out of band in trickle mode: a session description
/// plus a session identifier and a Unix-seconds timestamp.
#[derive(Clone, Debug, PartialEq, Eq)]
pub struct SdpPayload {
    pub sdp: SessionDescription,
    pub id: String,
    pub ts: i64,
}

pub ghost struct SdpPayloadV {
    pub sdp: SessionDescriptionV,
    pub id: Seq<char>,
    pub ts: i64,
}

impl View for SdpPayload {
    type V = SdpPayloadV;

    open spec fn view(&self) -> SdpPayloadV {
        SdpPayloadV { sdp: self.sdp@, id: self.id@, ts: self.ts }
    }
}

/// One ICE candidate, correlated to its handshake by `connection_id`.
#[derive(Clone, Debug, PartialEq, Eq)]
pub struct IceCandidate {
    pub candidate: String,
    pub sdp_mid: Option<String>,
    pub sdp_mline_index: Option<u16>,
    pub connection_id: String,
}

pub ghost struct IceCandidateV {
    pub candidate: Seq<char>,
    pub sdp_mid: Option<Seq<char>>,
    pub sdp_mline_index: Option<u16>,
    pub connection_id: Seq<char>,
}

impl View for IceCandidate {
    type V = IceCandidateV;

    open spec fn view(&self) -> IceCandidateV {
        IceCandidateV {
            candidate: self.candidate@,
            sdp_mid: match self.sdp_mid {
                Some(ref m) => Some(m@),
                None => None,
            },
            sdp_mline_index: self.sdp_mline_index,
            connection_id: self.connection_id@,
        }
    }
}

/// The unit shipped out of band in bundle mode: the SDP payload plus the
/// full ordered list of local ICE candidates.
#[derive(Clone, Debug, PartialEq, Eq)]
pub struct ConnectionBundle {
    pub sdp_payload: SdpPayload,
    pub ice_candidates: Vec<IceCandidate>,
}

pub ghost struct ConnectionBundleV {
    pub sdp_payload: SdpPayloadV,
    pub ice_candidates: Seq<IceCandidateV>,
}

impl View for ConnectionBundle {
    type V = ConnectionBundleV;

    open spec fn view(&self) -> ConnectionBundleV {
        ConnectionBundleV {
            sdp_payload: self.sdp_payload@,
            ice_candidates: Seq::new(
                self.ice_candidates@.len(),
                |i: int| self.ice_candidates@[i]@,
            ),
        }
    }
}

/// One user-supplied ICE server entry. `kind` is `"stun"` or `"turn"`.
#[derive(Clone, Debug, PartialEq, Eq)]
pub struct ServerConfig {
    pub id: String,
    pub kind: String,
    pub url: String,
    pub username: Option<String>,
    pub credential: Option<String>,
}

pub ghost struct ServerConfigV {
    pub id: Seq<char>,
    pub kind: Seq<char>,
    pub url: Seq<char>,
    pub username: Option<Seq<char>>,
    pub credential: Option<Seq<char>>,
}

impl View for ServerConfig {
    type V = ServerConfigV;

    open spec fn view(&self) -> ServerConfigV {
        ServerConfigV {
            id: self.id@,
            kind: self.kind@,
            url: self.url@,
            username: match self.username {
                Some(ref u) => Some(u@),
                None => None,
            },
            credential: match self.credential {
                Some(ref c) => Some(c@),
                None => None,
            },
        }
    }
}

/// The error value surfaced to the host. The other failure classes —
/// a missing session or context, an invalid server list, a dropped
/// message — come back as `None`, `false` or an outcome variant from
/// the operation they belong to.
#[derive(Clone, Copy, Debug, PartialEq, Eq)]
pub enum CoreError {
    /// Any failure along envelope decode: base64, decompression, the
    /// decompressed-size cap, or the JSON layer.
    EnvelopeMalformed,
}

} // verus!
