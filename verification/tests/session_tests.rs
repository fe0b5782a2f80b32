use ssc_core::candidates::{
    add_ice_candidate, analyze_candidates, begin_collecting, collect_wait_done,
    gathering_complete, probe_candidate_matches, record_local_candidate,
    snapshot_local_candidates, take_pending_candidates, CandidateDisposition,
};
use ssc_core::config::{get_ice_servers, set_ice_servers};
use ssc_core::session::{
    attach_channel, disconnect, drain_events, get_fingerprint, handle_channel_message,
    is_connected, key_exchange_payload, AppEvent, MessageOutcome, Session,
};
use ssc_core::types::{IceCandidate, ServerConfig};
use ssc_core::util::{add_ice_url_scheme, random_id};

fn cand(line: &str) -> IceCandidate {
    IceCandidate {
        candidate: line.to_string(),
        sdp_mid: Some("0".to_string()),
        sdp_mline_index: Some(0),
        connection_id: "c0ffee".to_string(),
    }
}

#[test]
fn disconnect_clears_fingerprint_and_connection() {
    let mut a = Session::new();
    let mut b = Session::new();
    assert!(attach_channel(&mut a));
    assert!(attach_channel(&mut b));
    let b_pub = key_exchange_payload(&b).unwrap();
    assert!(matches!(
        handle_channel_message(&mut a, &b_pub),
        MessageOutcome::KeyInstalled
    ));
    assert!(is_connected(&a));
    assert!(get_fingerprint(&a).is_some());
    disconnect(&mut a);
    assert!(get_fingerprint(&a).is_none());
    assert!(!is_connected(&a));
    assert!(a.my_priv.is_none());
    assert!(a.my_pub.is_none());
    assert!(a.pending_remote_candidates.is_empty());
    assert!(a.local_candidates.is_empty());
    let events = drain_events(&mut a);
    assert!(matches!(events.last(), Some(AppEvent::Disconnected)));
}

#[test]
fn early_remote_candidate_is_queued_then_flushed_exactly_once() {
    let mut s = Session::new();
    s.peer_present = true;
    let c = cand("candidate:1 1 udp 1 10.0.0.1 9 typ host");
    // Before the remote description: queued.
    assert!(matches!(
        add_ice_candidate(&mut s, c.clone()),
        CandidateDisposition::Queued
    ));
    assert_eq!(s.pending_remote_candidates.len(), 1);
    // The flush after set_remote_description hands it out exactly once.
    s.remote_description_set = true;
    let flushed = take_pending_candidates(&mut s);
    assert_eq!(flushed, vec![c.clone()]);
    assert!(take_pending_candidates(&mut s).is_empty());
    // With the description in place, later candidates apply directly.
    assert!(matches!(
        add_ice_candidate(&mut s, c.clone()),
        CandidateDisposition::Apply
    ));
    assert!(s.pending_remote_candidates.is_empty());
}

#[test]
fn candidate_without_peer_is_still_queued() {
    let mut s = Session::new();
    let c = cand("candidate:1 1 udp 1 10.0.0.1 9 typ host");
    assert!(matches!(
        add_ice_candidate(&mut s, c),
        CandidateDisposition::QueuedNoPeer
    ));
    assert_eq!(s.pending_remote_candidates.len(), 1);
}

#[test]
fn local_candidates_preserve_insertion_order() {
    let mut s = Session::new();
    begin_collecting(&mut s);
    assert!(s.collecting_candidates);
    let c1 = cand("candidate:1 1 udp 1 10.0.0.1 9 typ host");
    let c2 = cand("candidate:2 1 udp 1 203.0.113.7 9 typ srflx raddr 10.0.0.1");
    record_local_candidate(&mut s, c1.clone());
    record_local_candidate(&mut s, c2.clone());
    gathering_complete(&mut s);
    assert!(!s.collecting_candidates);
    assert_eq!(snapshot_local_candidates(&s), vec![c1, c2]);
}

#[test]
fn analysis_counts_types_and_flags_missing_relay() {
    let list = vec![
        cand("candidate:1 1 udp 1 10.0.0.1 9 typ host"),
        cand("candidate:2 1 udp 1 10.0.0.2 9 typ host"),
        cand("candidate:3 1 udp 1 203.0.113.7 9 typ srflx raddr 10.0.0.1"),
    ];
    let stats = analyze_candidates(&list);
    assert_eq!(stats.host, 2);
    assert_eq!(stats.srflx, 1);
    assert_eq!(stats.relay, 0);
    assert!(stats.relay_missing);

    let with_relay = vec![
        cand("candidate:4 1 udp 1 198.51.100.9 9 typ relay raddr 203.0.113.7"),
    ];
    let stats = analyze_candidates(&with_relay);
    assert_eq!(stats.relay, 1);
    assert!(!stats.relay_missing);

    let stats = analyze_candidates(&[]);
    assert_eq!((stats.host, stats.srflx, stats.relay), (0, 0, 0));
    assert!(stats.relay_missing);
}

#[test]
fn gathering_wait_respects_minimum_and_timeout() {
    // Never before two seconds, whatever else holds.
    assert!(!collect_wait_done(0, 10, false, 5));
    assert!(!collect_wait_done(1, 10, true, 5));
    // After two seconds: done when gathering finished or anything
    // arrived.
    assert!(collect_wait_done(2, 10, false, 0));
    assert!(collect_wait_done(2, 10, true, 1));
    assert!(!collect_wait_done(2, 10, true, 0));
    // The timeout ends the wait regardless.
    assert!(collect_wait_done(10, 10, true, 0));
}

#[test]
fn probe_matches_candidate_kind_to_server_kind() {
    assert!(probe_candidate_matches(
        "stun",
        "candidate:3 1 udp 1 203.0.113.7 9 typ srflx raddr 10.0.0.1"
    ));
    assert!(probe_candidate_matches(
        "turn",
        "candidate:4 1 udp 1 198.51.100.9 9 typ relay"
    ));
    assert!(!probe_candidate_matches("stun", "candidate:4 typ relay"));
    assert!(!probe_candidate_matches("turn", "candidate:3 typ srflx"));
    assert!(!probe_candidate_matches("other", "typ srflx typ relay"));
}

fn server(kind: &str, url: &str, user: Option<&str>, cred: Option<&str>) -> ServerConfig {
    ServerConfig {
        id: "s1".to_string(),
        kind: kind.to_string(),
        url: url.to_string(),
        username: user.map(|s| s.to_string()),
        credential: cred.map(|s| s.to_string()),
    }
}

#[test]
fn ice_server_validation() {
    let mut s = Session::new();
    // Empty URL: rejected whole, previous (unset) configuration kept.
    assert!(!set_ice_servers(&mut s, vec![server("stun", "", None, None)]));
    assert!(s.user_ice_servers.is_none());
    // TURN without credentials: rejected.
    assert!(!set_ice_servers(
        &mut s,
        vec![server("turn", "turn.example.org", Some("u"), None)]
    ));
    assert!(!set_ice_servers(
        &mut s,
        vec![server("turn", "turn.example.org", None, Some("p"))]
    ));
    assert!(s.user_ice_servers.is_none());
    // A valid list is stored and read back.
    let good = vec![
        server("stun", "stun.example.org", None, None),
        server("turn", "turn.example.org", Some("u"), Some("p")),
    ];
    assert!(set_ice_servers(&mut s, good.clone()));
    assert_eq!(get_ice_servers(&s), good);
    // An invalid update keeps the stored list.
    assert!(!set_ice_servers(&mut s, vec![server("stun", "", None, None)]));
    assert_eq!(get_ice_servers(&s), good);
}

#[test]
fn default_ice_servers_when_unset() {
    let s = Session::new();
    let list = get_ice_servers(&s);
    assert_eq!(list.len(), 2);
    assert_eq!(list[0].id, "default-stun");
    assert_eq!(list[0].kind, "stun");
    assert_eq!(list[0].url, "stun:stun.l.google.com:19302");
    assert!(list[0].username.is_none() && list[0].credential.is_none());
    assert_eq!(list[1].id, "default-stun-2");
    assert_eq!(list[1].kind, "stun");
    assert_eq!(list[1].url, "stun:stun1.l.google.com:19302");
}

#[test]
fn url_scheme_is_added_by_kind() {
    let c = server("turn", "turn.example.org:3478", Some("u"), Some("p"));
    assert_eq!(add_ice_url_scheme(&c), "turn:turn.example.org:3478");
    let c = server("stun", "stun.example.org:3478", None, None);
    assert_eq!(add_ice_url_scheme(&c), "stun:stun.example.org:3478");
    // An unknown kind falls back to stun.
    let c = server("other", "host", None, None);
    assert_eq!(add_ice_url_scheme(&c), "stun:host");
    // An existing scheme is kept as it stands.
    let c = server("turn", "stun:already.example.org", None, None);
    assert_eq!(add_ice_url_scheme(&c), "stun:already.example.org");
    let c = server("stun", "turn:already.example.org", None, None);
    assert_eq!(add_ice_url_scheme(&c), "turn:already.example.org");
}

#[test]
fn random_ids_are_hex_and_distinct() {
    let a = random_id();
    let b = random_id();
    assert_eq!(a.len(), 16);
    assert_eq!(b.len(), 16);
    assert!(a.chars().all(|c| c.is_ascii_hexdigit() && !c.is_ascii_uppercase()));
    // Two draws of 64 random bits colliding would mean a broken
    // generator.
    assert_ne!(a, b);
}
