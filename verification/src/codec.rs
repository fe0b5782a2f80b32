//! The out-of-band envelope codec: JSON, gzip at the fastest setting,
//! then standard base64. Decoding runs the pipeline backwards and caps
//! the decompressed size, so a compression bomb is rejected without
//! being inflated.

use vstd::prelude::*;
use base64::Engine;
use crate::types::{ConnectionBundle, CoreError, IceCandidate, SdpPayload, SessionDescription};
use crate::jsonfmt::{
    bundle_of_json, bundle_to_json, candidate_view_of, json_of_bundle, json_of_payload,
    lemma_bundle_json_round_trip, lemma_payload_json_round_trip, parse_bundle_bytes,
    parse_payload_bytes, payload_of_json, payload_to_json, raw_candidate_ok,
    raw_cands_ok, raw_payload_ok, RawCandidateBytes, RawPayloadBytes,
};
use crate::strutil::string_from_utf8;

verus! {

/// The cap on decompressed envelope size: 256 KiB.
pub const MAX_DECOMPRESSED_SIZE: usize = 262144;

// ---------- names for what the outside codec calls return ----------

/// What base64's standard-alphabet padded decoder makes of a string:
/// the decoded bytes, or nothing when the string is not valid base64.
pub uninterp spec fn b64_decode_of(s: Seq<char>) -> Option<Seq<u8>>;

/// What flate2's gzip decoder makes of a byte string: the decompressed
/// bytes, or nothing when the stream is not a well-formed gzip stream.
pub uninterp spec fn gunzip_of(z: Seq<u8>) -> Option<Seq<u8>>;

// ---------- trusted wrappers over base64 and flate2 ----------

/// Relies on `base64::engine::general_purpose::STANDARD` `encode`: the
/// encoded string decodes back to the input bytes.
#[verifier::external_body]
fn b64_encode(data: &[u8]) -> (r: String)
    ensures
        b64_decode_of(r@) == Some(data@),
{
    base64::engine::general_purpose::STANDARD.encode(data)
}

/// Relies on `base64::engine::general_purpose::STANDARD` `decode`: it
/// decides `b64_decode_of`.
#[verifier::external_body]
fn b64_decode(s: &str) -> (r: Option<Vec<u8>>)
    ensures
        r matches Some(v) ==> b64_decode_of(s@) == Some(v@),
        r is None ==> b64_decode_of(s@) is None,
{
    base64::engine::general_purpose::STANDARD.decode(s).ok()
}

/// Relies on `flate2::write::GzEncoder` at `Compression::fast`: the
/// compressed stream decompresses back to the input bytes. Writing
/// into a `Vec` sink cannot fail: the encoder only surfaces errors of
/// the underlying writer, and a `Vec` has none.
#[verifier::external_body]
fn gzip_compress(data: &[u8]) -> (r: Vec<u8>)
    ensures
        gunzip_of(r@) == Some(data@),
{
    let mut gz = flate2::write::GzEncoder::new(Vec::new(), flate2::Compression::fast());
    std::io::Write::write_all(&mut gz, data).unwrap();
    gz.finish().unwrap()
}

/// Relies on `flate2::read::GzDecoder`: it decides `gunzip_of`. Reading
/// stops one byte past `cap`, so no output near the cap's multiple is
/// ever allocated and an over-cap stream comes back as a failure.
#[verifier::external_body]
fn gunzip_bounded(z: &[u8], cap: usize) -> (r: Option<Vec<u8>>)
    ensures
        r matches Some(v) ==> gunzip_of(z@) == Some(v@) && v@.len() <= cap,
        r is None ==> (gunzip_of(z@) is None || gunzip_of(z@)->Some_0.len() > cap),
{
    let gz = flate2::read::GzDecoder::new(z);
    let mut out: Vec<u8> = Vec::new();
    let mut limited = std::io::Read::take(gz, (cap as u64).saturating_add(1));
    match std::io::Read::read_to_end(&mut limited, &mut out) {
        Ok(_) => {
            if out.len() > cap {
                None
            } else {
                Some(out)
            }
        },
        Err(_) => None,
    }
}

// ---------- the envelope codec ----------

/// What an envelope string means as a trickle payload: base64, then
/// gzip under the size cap, then the JSON schema.
pub open spec fn payload_of_envelope(s: Seq<char>) -> Option<crate::types::SdpPayloadV> {
    match b64_decode_of(s) {
        Option::None => None,
        Option::Some(z) => match gunzip_of(z) {
            Option::None => None,
            Option::Some(j) => if j.len() <= MAX_DECOMPRESSED_SIZE {
                payload_of_json(j)
            } else {
                None
            },
        },
    }
}

/// What an envelope string means as a bundle.
pub open spec fn bundle_of_envelope(s: Seq<char>) -> Option<crate::types::ConnectionBundleV> {
    match b64_decode_of(s) {
        Option::None => None,
        Option::Some(z) => match gunzip_of(z) {
            Option::None => None,
            Option::Some(j) => if j.len() <= MAX_DECOMPRESSED_SIZE {
                bundle_of_json(j)
            } else {
                None
            },
        },
    }
}

/// A payload whose JSON text fits under the decompressed-size cap, so
/// its envelope is decodable.
pub open spec fn payload_encodable(p: crate::types::SdpPayloadV) -> bool {
    json_of_payload(p).len() <= MAX_DECOMPRESSED_SIZE
}

/// A bundle whose JSON text fits under the decompressed-size cap.
pub open spec fn bundle_encodable(b: crate::types::ConnectionBundleV) -> bool {
    json_of_bundle(b).len() <= MAX_DECOMPRESSED_SIZE
}

/// Encodes a trickle payload as an envelope string. Encoding never
/// fails, and decoding the result yields the payload back, as long as
/// its JSON text fits under the size cap.
pub fn enc(p: &SdpPayload) -> (r: String)
    ensures
        b64_decode_of(r@) is Some && gunzip_of(b64_decode_of(r@)->Some_0) == Some(
            json_of_payload(p@),
        ),
        payload_encodable(p@) ==> payload_of_envelope(r@) == Some(p@),
{
    let json = payload_to_json(p);
    let z = gzip_compress(json.as_slice());
    let s = b64_encode(z.as_slice());
    proof {
        lemma_payload_json_round_trip(p@);
    }
    s
}

/// Encodes a bundle as an envelope string. Encoding never fails, and
/// decoding the result yields the bundle back, as long as its JSON
/// text fits under the size cap.
pub fn enc_bundle(b: &ConnectionBundle) -> (r: String)
    ensures
        b64_decode_of(r@) is Some && gunzip_of(b64_decode_of(r@)->Some_0) == Some(
            json_of_bundle(b@),
        ),
        bundle_encodable(b@) ==> bundle_of_envelope(r@) == Some(b@),
{
    let json = bundle_to_json(b);
    let z = gzip_compress(json.as_slice());
    let s = b64_encode(z.as_slice());
    proof {
        lemma_bundle_json_round_trip(b@);
    }
    s
}

/// Decodes a trickle envelope. Succeeds exactly on strings that decode
/// through base64, gzip under the 256 KiB cap, and the JSON schema;
/// anything else is `EnvelopeMalformed`, in particular any stream whose
/// decompressed size exceeds the cap by even one byte.
pub fn dec(s: &str) -> (r: Result<SdpPayload, CoreError>)
    ensures
        r matches Ok(p) ==> payload_of_envelope(s@) == Some(p@),
        r is Err ==> payload_of_envelope(s@) is None && r == Err::<SdpPayload, CoreError>(
            CoreError::EnvelopeMalformed,
        ),
        (b64_decode_of(s@) matches Some(z) && gunzip_of(z) matches Some(j) && j.len()
            > MAX_DECOMPRESSED_SIZE) ==> r is Err,
{
    let z = match b64_decode(s) {
        Some(z) => z,
        None => {
            return Err(CoreError::EnvelopeMalformed);
        },
    };
    let j = match gunzip_bounded(z.as_slice(), MAX_DECOMPRESSED_SIZE) {
        Some(j) => j,
        None => {
            return Err(CoreError::EnvelopeMalformed);
        },
    };
    let (rp, end) = match parse_payload_bytes(j.as_slice(), 0) {
        Some(p) => p,
        None => {
            proof {
                assert(j@.skip(0) =~= j@);
            }
            return Err(CoreError::EnvelopeMalformed);
        },
    };
    proof {
        assert(j@.skip(0) =~= j@);
    }
    if end != j.len() {
        proof {
            assert(j@.skip(end as int).len() > 0);
        }
        return Err(CoreError::EnvelopeMalformed);
    }
    let RawPayloadBytes { kind, sdp, id, ts } = rp;
    let kind_s = match string_from_utf8(kind) {
        Some(v) => v,
        None => {
            return Err(CoreError::EnvelopeMalformed);
        },
    };
    let sdp_s = match string_from_utf8(sdp) {
        Some(v) => v,
        None => {
            return Err(CoreError::EnvelopeMalformed);
        },
    };
    let id_s = match string_from_utf8(id) {
        Some(v) => v,
        None => {
            return Err(CoreError::EnvelopeMalformed);
        },
    };
    Ok(SdpPayload { sdp: SessionDescription { kind: kind_s, sdp: sdp_s }, id: id_s, ts })
}

/// Decodes a bundle envelope under the same rules as `dec`.
#[verifier::loop_isolation(false)]
pub fn dec_bundle(s: &str) -> (r: Result<ConnectionBundle, CoreError>)
    ensures
        r matches Ok(b) ==> bundle_of_envelope(s@) == Some(b@),
        r is Err ==> bundle_of_envelope(s@) is None && r == Err::<ConnectionBundle, CoreError>(
            CoreError::EnvelopeMalformed,
        ),
        (b64_decode_of(s@) matches Some(z) && gunzip_of(z) matches Some(j) && j.len()
            > MAX_DECOMPRESSED_SIZE) ==> r is Err,
{
    let z = match b64_decode(s) {
        Some(z) => z,
        None => {
            return Err(CoreError::EnvelopeMalformed);
        },
    };
    let j = match gunzip_bounded(z.as_slice(), MAX_DECOMPRESSED_SIZE) {
        Some(j) => j,
        None => {
            return Err(CoreError::EnvelopeMalformed);
        },
    };
    let ((rp, rcs), end) = match parse_bundle_bytes(j.as_slice(), 0) {
        Some(p) => p,
        None => {
            proof {
                assert(j@.skip(0) =~= j@);
            }
            return Err(CoreError::EnvelopeMalformed);
        },
    };
    proof {
        assert(j@.skip(0) =~= j@);
    }
    if end != j.len() {
        proof {
            assert(j@.skip(end as int).len() > 0);
        }
        return Err(CoreError::EnvelopeMalformed);
    }
    let ghost raw_cand_views = crate::jsonfmt::views_of_raw_cands(rcs@);
    let ghost rpv = rp@;
    let RawPayloadBytes { kind, sdp, id, ts } = rp;
    let kind_s = match string_from_utf8(kind) {
        Some(v) => v,
        None => {
            return Err(CoreError::EnvelopeMalformed);
        },
    };
    let sdp_s = match string_from_utf8(sdp) {
        Some(v) => v,
        None => {
            return Err(CoreError::EnvelopeMalformed);
        },
    };
    let id_s = match string_from_utf8(id) {
        Some(v) => v,
        None => {
            return Err(CoreError::EnvelopeMalformed);
        },
    };
    let mut cands: Vec<IceCandidate> = Vec::new();
    let mut i: usize = 0;
    let n = rcs.len();
    while i < n
        invariant
            i <= n,
            n == rcs@.len(),
            raw_cand_views == crate::jsonfmt::views_of_raw_cands(rcs@),
            cands@.len() == i,
            forall|k: int| 0 <= k < i ==> raw_candidate_ok(#[trigger] raw_cand_views[k]),
            forall|k: int|
                0 <= k < i ==> #[trigger] cands@[k]@ == candidate_view_of(raw_cand_views[k]),
        decreases n - i,
    {
        let rc = &rcs[i];
        proof {
            assert(raw_cand_views[i as int] == rcs@[i as int]@);
        }
        let cand_s = match string_from_utf8(crate::strutil::clone_bytes(&rc.candidate)) {
            Some(v) => v,
            None => {
                proof {
                    assert(!raw_candidate_ok(raw_cand_views[i as int]));
                    assert(!raw_cands_ok(raw_cand_views));
                    assert(raw_payload_ok(rpv));
                    assert(bundle_of_json(j@) is None);
                }
                return Err(CoreError::EnvelopeMalformed);
            },
        };
        let connid_s = match string_from_utf8(crate::strutil::clone_bytes(&rc.connection_id)) {
            Some(v) => v,
            None => {
                proof {
                    assert(!raw_candidate_ok(raw_cand_views[i as int]));
                    assert(!raw_cands_ok(raw_cand_views));
                    assert(raw_payload_ok(rpv));
                    assert(bundle_of_json(j@) is None);
                }
                return Err(CoreError::EnvelopeMalformed);
            },
        };
        let mid_s: Option<String> = match rc.sdp_mid {
            Option::Some(ref m) => {
                match string_from_utf8(crate::strutil::clone_bytes(m)) {
                    Some(v) => Some(v),
                    None => {
                        proof {
                            assert(!raw_candidate_ok(raw_cand_views[i as int]));
                            assert(!raw_cands_ok(raw_cand_views));
                            assert(raw_payload_ok(rpv));
                            assert(bundle_of_json(j@) is None);
                        }
                        return Err(CoreError::EnvelopeMalformed);
                    },
                }
            },
            Option::None => None,
        };
        cands.push(
            IceCandidate {
                candidate: cand_s,
                sdp_mid: mid_s,
                sdp_mline_index: rc.sdp_mline_index,
                connection_id: connid_s,
            },
        );
        i = i + 1;
    }
    let bundle = ConnectionBundle {
        sdp_payload: SdpPayload {
            sdp: SessionDescription { kind: kind_s, sdp: sdp_s },
            id: id_s,
            ts,
        },
        ice_candidates: cands,
    };
    proof {
        assert(raw_cands_ok(raw_cand_views));
        let bv = bundle_of_json(j@)->Some_0;
        assert(bundle@.ice_candidates =~= bv.ice_candidates);
        assert(bundle@ == bv);
    }
    Ok(bundle)
}


} // verus!
