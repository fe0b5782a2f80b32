use base64::Engine;
use ssc_core::codec::{dec, dec_bundle, enc, enc_bundle};
use std::io::Write;
use ssc_core::jsonfmt::{bundle_to_json, payload_to_json};
use ssc_core::types::{ConnectionBundle, IceCandidate, SdpPayload, SessionDescription};

fn sample_payload() -> SdpPayload {
    SdpPayload {
        sdp: SessionDescription {
            kind: "offer".to_string(),
            sdp: "v=0\r\no=- 4611731400430051336 2 IN IP4 127.0.0.1\r\ns=-\r\nt=0 0\r\n".to_string(),
        },
        id: "a1b2c3d4e5f60708".to_string(),
        ts: 1735689600,
    }
}

fn sample_candidate(n: u16) -> IceCandidate {
    IceCandidate {
        candidate: format!("candidate:1 1 udp 2130706431 192.168.1.{} 54321 typ host", n),
        sdp_mid: if n % 2 == 0 { Some("0".to_string()) } else { None },
        sdp_mline_index: if n % 2 == 0 { Some(n) } else { None },
        connection_id: "a1b2c3d4e5f60708".to_string(),
    }
}

#[test]
fn payload_round_trip() {
    let p = sample_payload();
    let e = enc(&p);
    let back = dec(&e).unwrap();
    assert_eq!(back, p);
}

#[test]
fn payload_round_trip_special_characters() {
    let p = SdpPayload {
        sdp: SessionDescription {
            kind: "answer".to_string(),
            sdp: "line with \"quotes\" and \\backslash\\ and\ttab\r\nand unicode: Grüße 你好"
                .to_string(),
        },
        id: String::new(),
        ts: -42,
    };
    let e = enc(&p);
    let back = dec(&e).unwrap();
    assert_eq!(back, p);
}

#[test]
fn bundle_round_trip_empty_candidates() {
    let b = ConnectionBundle { sdp_payload: sample_payload(), ice_candidates: vec![] };
    let e = enc_bundle(&b);
    let back = dec_bundle(&e).unwrap();
    assert_eq!(back, b);
}

#[test]
fn bundle_round_trip_with_candidates() {
    let b = ConnectionBundle {
        sdp_payload: sample_payload(),
        ice_candidates: vec![sample_candidate(1), sample_candidate(2), sample_candidate(3)],
    };
    let e = enc_bundle(&b);
    let back = dec_bundle(&e).unwrap();
    assert_eq!(back, b);
}

#[test]
fn json_text_is_plain_json() {
    // The printed JSON must agree with an independent JSON parser.
    let p = sample_payload();
    let j = payload_to_json(&p);
    let v: serde_json::Value = serde_json::from_slice(&j).unwrap();
    assert_eq!(v["sdp"]["type"].as_str().unwrap(), "offer");
    assert_eq!(v["sdp"]["sdp"].as_str().unwrap(), p.sdp.sdp);
    assert_eq!(v["id"].as_str().unwrap(), "a1b2c3d4e5f60708");
    assert_eq!(v["ts"].as_i64().unwrap(), 1735689600);

    let b = ConnectionBundle {
        sdp_payload: sample_payload(),
        ice_candidates: vec![sample_candidate(1), sample_candidate(2)],
    };
    let jb = bundle_to_json(&b);
    let v: serde_json::Value = serde_json::from_slice(&jb).unwrap();
    assert_eq!(v["sdp_payload"]["id"].as_str().unwrap(), "a1b2c3d4e5f60708");
    let cands = v["ice_candidates"].as_array().unwrap();
    assert_eq!(cands.len(), 2);
    assert!(cands[0]["sdp_mid"].is_null());
    assert!(cands[0]["sdp_mline_index"].is_null());
    assert_eq!(cands[1]["sdp_mid"].as_str().unwrap(), "0");
    assert_eq!(cands[1]["sdp_mline_index"].as_u64().unwrap(), 2);
    assert_eq!(
        cands[0]["candidate"].as_str().unwrap(),
        "candidate:1 1 udp 2130706431 192.168.1.1 54321 typ host"
    );
}

#[test]
fn decodes_externally_built_envelope() {
    // An envelope produced by hand with serde_json-style field order,
    // gzip and base64 — the wire format of the original peers.
    let json = String::from(
        "{\"sdp\":{\"type\":\"offer\",\"sdp\":\"v=0\\r\\n\\tx\"},\"id\":\"00ff\",\"ts\":7}",
    );
    let envelope = gzip_b64(json.as_bytes());
    let p = dec(&envelope).unwrap();
    assert_eq!(p.sdp.kind, "offer");
    assert_eq!(p.sdp.sdp, "v=0\r\n\tx");
    assert_eq!(p.id, "00ff");
    assert_eq!(p.ts, 7);
}

fn gzip_b64(data: &[u8]) -> String {
    let mut gz = flate2::write::GzEncoder::new(Vec::new(), flate2::Compression::fast());
    gz.write_all(data).unwrap();
    let z = gz.finish().unwrap();
    base64::engine::general_purpose::STANDARD.encode(z)
}

#[test]
fn rejects_bad_base64() {
    assert!(dec("not base64 at all!!!").is_err());
    assert!(dec_bundle("@@@@").is_err());
}

#[test]
fn rejects_bad_gzip() {
    let e = base64::engine::general_purpose::STANDARD.encode(b"these are not gzip bytes");
    assert!(dec(&e).is_err());
}

#[test]
fn rejects_bad_json() {
    let e = gzip_b64(b"{\"sdp\": 17}");
    assert!(dec(&e).is_err());
    let e = gzip_b64(b"[]");
    assert!(dec_bundle(&e).is_err());
}

/// Builds a payload whose JSON text is exactly `target` bytes long by
/// padding the SDP text.
fn payload_of_json_size(target: usize) -> SdpPayload {
    let base = SdpPayload {
        sdp: SessionDescription { kind: "offer".to_string(), sdp: String::new() },
        id: "00".to_string(),
        ts: 0,
    };
    let base_len = payload_to_json(&base).len();
    assert!(target >= base_len);
    let pad = target - base_len;
    let mut p = base;
    p.sdp.sdp = "a".repeat(pad);
    let j = payload_to_json(&p);
    assert_eq!(j.len(), target);
    p
}

#[test]
fn cap_boundary_exact_size_decodes() {
    // Exactly 262,144 decompressed bytes: accepted.
    let p = payload_of_json_size(262144);
    let e = enc(&p);
    let back = dec(&e).unwrap();
    assert_eq!(back, p);
}

#[test]
fn cap_boundary_one_over_fails() {
    // 262,145 decompressed bytes: rejected.
    let p = payload_of_json_size(262145);
    let e = enc(&p);
    assert!(dec(&e).is_err());
}

#[test]
fn zip_bomb_rejected() {
    // An envelope that expands to 10 MiB must fail without inflating.
    let bomb = vec![b'a'; 10 * 1024 * 1024];
    let e = gzip_b64(&bomb);
    assert!(dec(&e).is_err());
    assert!(dec_bundle(&e).is_err());
}

#[test]
fn negative_timestamp_round_trip() {
    let mut p = sample_payload();
    p.ts = i64::MIN;
    let e = enc(&p);
    assert_eq!(dec(&e).unwrap(), p);
    p.ts = i64::MAX;
    let e = enc(&p);
    assert_eq!(dec(&e).unwrap(), p);
}
