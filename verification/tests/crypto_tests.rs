use ssc_core::crypto::u64_to_nonce;
use ssc_core::hexfmt::hex_ascii_of;
use ssc_core::session::{
    attach_channel, drain_events, get_fingerprint, handle_channel_message, is_connected,
    key_exchange_payload, send_text, AppEvent, MessageOutcome, Session,
};

#[test]
fn nonce_layout_is_four_zeroes_then_big_endian() {
    assert_eq!(u64_to_nonce(1), vec![0, 0, 0, 0, 0, 0, 0, 0, 0, 0, 0, 1]);
    assert_eq!(
        u64_to_nonce(0x0102030405060708),
        vec![0, 0, 0, 0, 1, 2, 3, 4, 5, 6, 7, 8]
    );
    assert_eq!(
        u64_to_nonce(u64::MAX),
        vec![0, 0, 0, 0, 0xff, 0xff, 0xff, 0xff, 0xff, 0xff, 0xff, 0xff]
    );
}

#[test]
fn hex_matches_reference_implementation() {
    let bytes = [0xde, 0xad, 0xbe, 0xef, 0x00, 0x7f];
    let ours = hex_ascii_of(&bytes);
    assert_eq!(String::from_utf8(ours).unwrap(), hex::encode(bytes));
}

/// Runs the in-band key exchange between two fresh sessions and
/// returns them with their crypto contexts established.
fn handshaken_pair() -> (Session, Session) {
    let mut a = Session::new();
    let mut b = Session::new();
    assert!(attach_channel(&mut a));
    assert!(attach_channel(&mut b));
    let a_pub = key_exchange_payload(&a).unwrap();
    let b_pub = key_exchange_payload(&b).unwrap();
    assert_eq!(a_pub.len(), 32);
    assert_eq!(b_pub.len(), 32);
    assert!(matches!(
        handle_channel_message(&mut a, &b_pub),
        MessageOutcome::KeyInstalled
    ));
    assert!(matches!(
        handle_channel_message(&mut b, &a_pub),
        MessageOutcome::KeyInstalled
    ));
    (a, b)
}

#[test]
fn handshake_yields_same_fingerprint_on_both_sides() {
    let (mut a, mut b) = handshaken_pair();
    assert!(is_connected(&a));
    assert!(is_connected(&b));
    let fa = get_fingerprint(&a).unwrap();
    let fb = get_fingerprint(&b).unwrap();
    assert_eq!(fa, fb);
    assert_eq!(fa.len(), 12);
    assert!(fa.chars().all(|c| c.is_ascii_hexdigit() && !c.is_ascii_uppercase()));
    let ea = drain_events(&mut a);
    let eb = drain_events(&mut b);
    assert!(matches!(ea.as_slice(), [AppEvent::Connected]));
    assert!(matches!(eb.as_slice(), [AppEvent::Connected]));
}

#[test]
fn directional_keys_pair_up() {
    let (a, b) = handshaken_pair();
    let ac = a.crypto.as_ref().unwrap();
    let bc = b.crypto.as_ref().unwrap();
    assert_eq!(ac.send_key.key, bc.recv_key.key);
    assert_eq!(ac.recv_key.key, bc.send_key.key);
    assert_ne!(ac.send_key.key, ac.recv_key.key);
    assert_eq!(ac.sas, bc.sas);
}

#[test]
fn encrypt_then_decrypt_recovers_plaintext() {
    let (mut a, mut b) = handshaken_pair();
    let ct = send_text(&mut a, "hello").unwrap();
    assert_eq!(ct.len(), 5 + 16);
    match handle_channel_message(&mut b, &ct) {
        MessageOutcome::Accepted(m) => assert_eq!(m, "hello"),
        _ => panic!("message not accepted"),
    }
    let events = drain_events(&mut b);
    match events.as_slice() {
        [AppEvent::Connected, AppEvent::Message(m)] => assert_eq!(m, "hello"),
        _ => panic!("unexpected events"),
    }
}

#[test]
fn send_counter_strictly_increases() {
    let (mut a, _b) = handshaken_pair();
    assert_eq!(a.crypto.as_ref().unwrap().send_n, 1);
    send_text(&mut a, "one").unwrap();
    assert_eq!(a.crypto.as_ref().unwrap().send_n, 2);
    send_text(&mut a, "two").unwrap();
    assert_eq!(a.crypto.as_ref().unwrap().send_n, 3);
}

#[test]
fn replayed_ciphertext_is_rejected_without_counter_movement() {
    let (mut a, mut b) = handshaken_pair();
    let ct1 = send_text(&mut a, "one").unwrap();
    let ct2 = send_text(&mut a, "two").unwrap();
    let ct3 = send_text(&mut a, "three").unwrap();
    assert!(matches!(handle_channel_message(&mut b, &ct1), MessageOutcome::Accepted(_)));
    assert!(matches!(handle_channel_message(&mut b, &ct2), MessageOutcome::Accepted(_)));
    assert!(matches!(handle_channel_message(&mut b, &ct3), MessageOutcome::Accepted(_)));
    let recv_before = b.crypto.as_ref().unwrap().recv_n;
    let floor_before = b.crypto.as_ref().unwrap().last_accepted_recv;
    drain_events(&mut b);
    // Replay the second ciphertext: it must not be accepted and no
    // counter may move.
    let outcome = handle_channel_message(&mut b, &ct2);
    assert!(!matches!(outcome, MessageOutcome::Accepted(_)));
    assert_eq!(b.crypto.as_ref().unwrap().recv_n, recv_before);
    assert_eq!(b.crypto.as_ref().unwrap().last_accepted_recv, floor_before);
    assert!(drain_events(&mut b).is_empty());
}

#[test]
fn tag_only_junk_payload_is_rejected() {
    // 16 bytes that are not a genuine ciphertext: dropped, counters
    // unchanged; such a payload can never carry a non-empty message.
    let (_a, mut b) = handshaken_pair();
    let junk = [0u8; 16];
    let outcome = handle_channel_message(&mut b, &junk);
    assert!(matches!(outcome, MessageOutcome::DecryptFailed));
    assert_eq!(b.crypto.as_ref().unwrap().recv_n, 1);
    assert_eq!(b.crypto.as_ref().unwrap().last_accepted_recv, 0);
}

#[test]
fn shorter_than_tag_is_too_short() {
    let (_a, mut b) = handshaken_pair();
    let outcome = handle_channel_message(&mut b, &[1, 2, 3]);
    assert!(matches!(outcome, MessageOutcome::TooShort));
}

#[test]
fn key_sized_payload_after_handshake_is_ignored() {
    // A 32-byte payload once the context exists is silently dropped,
    // never fed to the cipher.
    let (mut a, mut b) = handshaken_pair();
    drain_events(&mut b);
    let echo = key_exchange_payload(&a).unwrap();
    let outcome = handle_channel_message(&mut b, &echo);
    assert!(matches!(outcome, MessageOutcome::KeyIgnored));
    assert_eq!(b.crypto.as_ref().unwrap().recv_n, 1);
    assert!(drain_events(&mut b).is_empty());
    // Even a 32-byte genuine ciphertext is dropped: a 16-byte text
    // gives a 32-byte sealed payload.
    let ct = send_text(&mut a, "sixteen chars..!").unwrap();
    assert_eq!(ct.len(), 32);
    assert!(matches!(handle_channel_message(&mut b, &ct), MessageOutcome::KeyIgnored));
}

#[test]
fn corrupted_ciphertext_is_dropped_and_stream_continues_failing() {
    let (mut a, mut b) = handshaken_pair();
    let mut ct = send_text(&mut a, "hello").unwrap();
    ct[0] ^= 0xff;
    assert!(matches!(handle_channel_message(&mut b, &ct), MessageOutcome::DecryptFailed));
    assert_eq!(b.crypto.as_ref().unwrap().recv_n, 1);
}

#[test]
fn ciphertext_before_context_is_dropped() {
    let mut s = Session::new();
    assert!(attach_channel(&mut s));
    let outcome = handle_channel_message(&mut s, &[0u8; 20]);
    assert!(matches!(outcome, MessageOutcome::NoContext));
}

#[test]
fn send_without_channel_or_context_fails() {
    let mut s = Session::new();
    assert!(send_text(&mut s, "hi").is_none());
    assert!(attach_channel(&mut s));
    assert!(send_text(&mut s, "hi").is_none());
}

#[test]
fn empty_message_round_trip() {
    // A sealed empty text is a 16-byte payload and decodes to the
    // empty message.
    let (mut a, mut b) = handshaken_pair();
    let ct = send_text(&mut a, "").unwrap();
    assert_eq!(ct.len(), 16);
    match handle_channel_message(&mut b, &ct) {
        MessageOutcome::Accepted(m) => assert_eq!(m, ""),
        _ => panic!("empty message not accepted"),
    }
}
