//! The two offer/answer flows run end to end over plain values: the
//! envelopes travel as strings, the key exchange and the first
//! messages over byte payloads, exactly as a host would drive them.

use ssc_core::candidates::{add_ice_candidate, take_pending_candidates, CandidateDisposition};
use ssc_core::codec::{dec, dec_bundle, enc, enc_bundle};
use ssc_core::session::{
    attach_channel, drain_events, get_fingerprint, handle_channel_message, key_exchange_payload,
    send_text, AppEvent, MessageOutcome, Session,
};
use ssc_core::types::{ConnectionBundle, IceCandidate, SdpPayload, SessionDescription};
use ssc_core::util::random_id;

fn offer_sdp() -> SessionDescription {
    SessionDescription {
        kind: "offer".to_string(),
        sdp: "v=0\r\no=- 1 2 IN IP4 0.0.0.0\r\ns=-\r\nt=0 0\r\nm=application 9 UDP/DTLS/SCTP webrtc-datachannel\r\n".to_string(),
    }
}

fn answer_sdp() -> SessionDescription {
    SessionDescription {
        kind: "answer".to_string(),
        sdp: "v=0\r\no=- 3 4 IN IP4 0.0.0.0\r\ns=-\r\nt=0 0\r\n".to_string(),
    }
}

fn local_cand(id: &str, n: u16) -> IceCandidate {
    IceCandidate {
        candidate: format!("candidate:{} 1 udp 2130706431 192.168.0.{} 50000 typ host", n, n),
        sdp_mid: Some("0".to_string()),
        sdp_mline_index: Some(0),
        connection_id: id.to_string(),
    }
}

/// After both envelopes have crossed, run the in-band key exchange and
/// pass one message from a to b.
fn key_exchange_and_message(text: &str) {
    let mut a = Session::new();
    let mut b = Session::new();
    assert!(attach_channel(&mut a));
    assert!(attach_channel(&mut b));
    let a_pub = key_exchange_payload(&a).unwrap();
    let b_pub = key_exchange_payload(&b).unwrap();
    assert!(matches!(
        handle_channel_message(&mut a, &b_pub),
        MessageOutcome::KeyInstalled
    ));
    assert!(matches!(
        handle_channel_message(&mut b, &a_pub),
        MessageOutcome::KeyInstalled
    ));
    assert_eq!(get_fingerprint(&a), get_fingerprint(&b));
    assert_eq!(get_fingerprint(&a).unwrap().len(), 12);
    let ct = send_text(&mut a, text).unwrap();
    match handle_channel_message(&mut b, &ct) {
        MessageOutcome::Accepted(m) => assert_eq!(m, text),
        _ => panic!("message lost"),
    }
    let events = drain_events(&mut b);
    assert!(matches!(&events[..], [AppEvent::Connected, AppEvent::Message(m)] if m == text));
}

#[test]
fn bundle_happy_path() {
    // Peer A builds the offer bundle.
    let id = random_id();
    let offer_bundle = ConnectionBundle {
        sdp_payload: SdpPayload { sdp: offer_sdp(), id: id.clone(), ts: 1_700_000_000 },
        ice_candidates: vec![local_cand(&id, 1), local_cand(&id, 2)],
    };
    let e1 = enc_bundle(&offer_bundle);

    // Peer B decodes it, keeps the initiator's identifier, applies the
    // carried candidates inline and answers with its own bundle.
    let got = dec_bundle(&e1).unwrap();
    assert_eq!(got, offer_bundle);
    assert_eq!(got.sdp_payload.id, id);
    let answer_bundle = ConnectionBundle {
        sdp_payload: SdpPayload { sdp: answer_sdp(), id: got.sdp_payload.id.clone(), ts: 1_700_000_001 },
        ice_candidates: vec![local_cand(&id, 3)],
    };
    let e2 = enc_bundle(&answer_bundle);

    // Peer A applies the answer.
    let got2 = dec_bundle(&e2).unwrap();
    assert_eq!(got2, answer_bundle);
    assert_eq!(got2.sdp_payload.id, id);

    // Once the channel connects, keys cross and "hello" traverses.
    key_exchange_and_message("hello");
}

#[test]
fn trickle_happy_path() {
    // Peer A returns the offer envelope at once, without candidates.
    let id = random_id();
    let offer = SdpPayload { sdp: offer_sdp(), id: id.clone(), ts: 1_700_000_000 };
    let e1 = enc(&offer);

    // Peer B decodes, answers immediately.
    let mut b = Session::new();
    b.peer_present = true;
    let got = dec(&e1).unwrap();
    assert_eq!(got, offer);
    // A candidate that arrives before the remote description is
    // queued; the flush after set_remote_description applies it.
    let early = local_cand(&id, 9);
    assert!(matches!(
        add_ice_candidate(&mut b, early.clone()),
        CandidateDisposition::Queued
    ));
    b.remote_description_set = true;
    assert_eq!(take_pending_candidates(&mut b), vec![early]);
    let answer = SdpPayload { sdp: answer_sdp(), id: got.id.clone(), ts: 1_700_000_001 };
    let e2 = enc(&answer);

    // Peer A applies the answer; later candidates apply directly.
    let mut a = Session::new();
    a.peer_present = true;
    let got2 = dec(&e2).unwrap();
    assert_eq!(got2, answer);
    assert_eq!(got2.id, id);
    a.remote_description_set = true;
    assert!(matches!(
        add_ice_candidate(&mut a, local_cand(&id, 4)),
        CandidateDisposition::Apply
    ));

    // Eventually the channel connects and "ping" traverses.
    key_exchange_and_message("ping");
}
