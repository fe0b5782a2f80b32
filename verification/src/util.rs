//! Small helpers: random session identifiers and ICE URL scheme
//! normalisation.

use vstd::prelude::*;
use vstd::string::StringSliceAdditionalSpecFns;
use crate::hexfmt::{lemma_hex_ascii_is_ascii, lemma_hex_ascii_len};
use crate::strutil::{ascii_to_string, starts_with_bytes, str_eq};
use crate::types::ServerConfig;

verus! {

/// Relies on `rand::random` for `[u8; 8]`: eight bytes drawn from the
/// thread-local generator. Nothing is promised of their values.
#[verifier::external_body]
fn random_bytes8() -> (r: Vec<u8>)
    ensures
        r@.len() == 8,
{
    rand::random::<[u8; 8]>().to_vec()
}

/// A fresh session identifier: the lowercase hex of 8 random bytes,
/// 16 characters. Whatever bytes chance drew, the result is exactly
/// their hex rendering.
pub fn random_id() -> (r: String)
    ensures
        r@.len() == 16,
        exists|b: Seq<u8>| b.len() == 8 && r@ == #[trigger] crate::hexfmt::hex_of(b),
{
    let raw = random_bytes8();
    let ascii = crate::hexfmt::hex_ascii_of(raw.as_slice());
    proof {
        lemma_hex_ascii_len(raw@);
        lemma_hex_ascii_is_ascii(raw@);
    }
    let r = ascii_to_string(ascii);
    proof {
        assert(r@ =~= crate::hexfmt::hex_of(raw@));
    }
    r
}

/// The scheme prefix `turn:` as bytes.
pub open spec fn turn_prefix() -> Seq<u8> {
    seq![0x74u8, 0x75u8, 0x72u8, 0x6eu8, 0x3au8]
}

/// The scheme prefix `stun:` as bytes.
pub open spec fn stun_prefix() -> Seq<u8> {
    seq![0x73u8, 0x74u8, 0x75u8, 0x6eu8, 0x3au8]
}

/// A URL already carries one of the two ICE schemes.
pub open spec fn has_ice_scheme(url_bytes: Seq<u8>) -> bool {
    ||| (url_bytes.len() >= 5 && url_bytes.take(5) == turn_prefix())
    ||| (url_bytes.len() >= 5 && url_bytes.take(5) == stun_prefix())
}

/// What `add_ice_url_scheme` yields: the URL as given when it already
/// has a scheme, else prefixed by the scheme its declared kind calls
/// for.
pub open spec fn with_ice_scheme(kind: Seq<char>, url: Seq<char>) -> Seq<char> {
    if has_ice_scheme(vstd::utf8::encode_utf8(url)) {
        url
    } else if kind == "turn"@ {
        "turn:"@ + url
    } else {
        "stun:"@ + url
    }
}

/// Prefixes the server URL with `turn:` or `stun:` according to its
/// declared kind, unless a scheme is already present.
pub fn add_ice_url_scheme(config: &ServerConfig) -> (r: String)
    ensures
        r@ == with_ice_scheme(config.kind@, config.url@),
{
    let mut turn_pat: Vec<u8> = Vec::new();
    turn_pat.push(0x74);
    turn_pat.push(0x75);
    turn_pat.push(0x72);
    turn_pat.push(0x6e);
    turn_pat.push(0x3a);
    let mut stun_pat: Vec<u8> = Vec::new();
    stun_pat.push(0x73);
    stun_pat.push(0x74);
    stun_pat.push(0x75);
    stun_pat.push(0x6e);
    stun_pat.push(0x3a);
    proof {
        assert(turn_pat@ =~= turn_prefix());
        assert(stun_pat@ =~= stun_prefix());
    }
    let ub = config.url.as_str().as_bytes();
    if starts_with_bytes(ub, turn_pat.as_slice()) || starts_with_bytes(ub, stun_pat.as_slice()) {
        config.url.clone()
    } else if str_eq(config.kind.as_str(), "turn") {
        String::from_str("turn:").concat(config.url.as_str())
    } else {
        String::from_str("stun:").concat(config.url.as_str())
    }
}

} // verus!
