//! The JSON wire format of the handshake envelopes, written out as a
//! byte-level printer and a strict parser, with proofs that the parser
//! inverts the printer.

use vstd::prelude::*;
use crate::hexfmt::hex_digit_ascii;

verus! {

pub const QUOTE: u8 = 0x22;
pub const BSLASH: u8 = 0x5c;
pub const COMMA: u8 = 0x2c;
pub const LBRACKET: u8 = 0x5b;
pub const RBRACKET: u8 = 0x5d;
pub const RBRACE: u8 = 0x7d;
pub const MINUS: u8 = 0x2d;

// ---------- string escaping ----------

/// How one byte of string content is written inside a JSON string:
/// quote and backslash get a backslash escape, control bytes become
/// `\u00XX`, and everything else stands as itself.
pub open spec fn esc_byte(b: u8) -> Seq<u8> {
    if b == QUOTE {
        seq![BSLASH, QUOTE]
    } else if b == BSLASH {
        seq![BSLASH, BSLASH]
    } else if b < 0x20 {
        seq![BSLASH, 0x75u8, 0x30u8, 0x30u8, hex_digit_ascii(b / 16), hex_digit_ascii(b % 16)]
    } else {
        seq![b]
    }
}

/// The escaped form of a whole string content.
pub open spec fn json_escape(s: Seq<u8>) -> Seq<u8>
    decreases s.len(),
{
    if s.len() == 0 {
        Seq::empty()
    } else {
        esc_byte(s[0]) + json_escape(s.drop_first())
    }
}

pub proof fn lemma_json_escape_snoc(s: Seq<u8>, x: u8)
    ensures
        json_escape(s.push(x)) == json_escape(s) + esc_byte(x),
    decreases s.len(),
{
    let sp = s.push(x);
    if s.len() == 0 {
        assert(sp[0] == x);
        assert(sp.drop_first() =~= Seq::<u8>::empty());
        assert(json_escape(sp.drop_first()) == Seq::<u8>::empty());
        assert(json_escape(sp) =~= esc_byte(x));
        assert(json_escape(s) + esc_byte(x) =~= esc_byte(x));
    } else {
        assert(sp[0] == s[0]);
        assert(sp.drop_first() =~= s.drop_first().push(x));
        lemma_json_escape_snoc(s.drop_first(), x);
        assert(esc_byte(s[0]) + (json_escape(s.drop_first()) + esc_byte(x)) =~= (esc_byte(s[0])
            + json_escape(s.drop_first())) + esc_byte(x));
    }
}

/// A lowercase hex digit byte.
pub open spec fn is_hex_lower(b: u8) -> bool {
    (0x30 <= b <= 0x39) || (0x61 <= b <= 0x66)
}

/// The value of a lowercase hex digit byte.
pub open spec fn hex_val(b: u8) -> u8 {
    if 0x30 <= b <= 0x39 {
        (b - 0x30) as u8
    } else {
        ((b - 0x61) + 10) as u8
    }
}

pub proof fn lemma_hex_digit_roundtrip(n: u8)
    requires
        n < 16,
    ensures
        is_hex_lower(hex_digit_ascii(n)),
        hex_val(hex_digit_ascii(n)) == n,
{
}

// ---------- string parsing ----------

/// A letter with a shorthand JSON escape, as other encoders of this
/// format write control characters: `b`, `t`, `n`, `f` or `r`.
pub open spec fn is_shorthand_escape(b: u8) -> bool {
    b == 0x62 || b == 0x74 || b == 0x6e || b == 0x66 || b == 0x72
}

/// The control byte a shorthand escape letter stands for.
pub open spec fn shorthand_value(b: u8) -> u8 {
    if b == 0x62 {
        0x08
    } else if b == 0x74 {
        0x09
    } else if b == 0x6e {
        0x0a
    } else if b == 0x66 {
        0x0c
    } else {
        0x0d
    }
}

/// Parses the body of a JSON string from `s` until the closing quote,
/// prepending already-read content `acc`. Returns the full content and
/// the input remaining after the closing quote. Only the escapes the
/// printer emits are accepted.
pub open spec fn parse_str_body(s: Seq<u8>, acc: Seq<u8>) -> Option<(Seq<u8>, Seq<u8>)>
    decreases s.len(),
{
    if s.len() == 0 {
        None
    } else if s[0] == QUOTE {
        Some((acc, s.drop_first()))
    } else if s[0] == BSLASH {
        if s.len() >= 2 && s[1] == QUOTE {
            parse_str_body(s.skip(2), acc.push(QUOTE))
        } else if s.len() >= 2 && s[1] == BSLASH {
            parse_str_body(s.skip(2), acc.push(BSLASH))
        } else if s.len() >= 2 && is_shorthand_escape(s[1]) {
            parse_str_body(s.skip(2), acc.push(shorthand_value(s[1])))
        } else if s.len() >= 6 && s[1] == 0x75 && s[2] == 0x30 && s[3] == 0x30 && is_hex_lower(
            s[4],
        ) && is_hex_lower(s[5]) && hex_val(s[4]) * 16 + hex_val(s[5]) < 0x20 {
            parse_str_body(s.skip(6), acc.push((hex_val(s[4]) * 16 + hex_val(s[5])) as u8))
        } else {
            None
        }
    } else if s[0] < 0x20 {
        None
    } else {
        parse_str_body(s.drop_first(), acc.push(s[0]))
    }
}

/// The parser undoes the printer: an escaped content followed by the
/// closing quote and anything else parses back to that content.
pub proof fn lemma_parse_escape(content: Seq<u8>, acc: Seq<u8>, rest: Seq<u8>)
    ensures
        parse_str_body(json_escape(content) + seq![QUOTE] + rest, acc) == Some::<(Seq<u8>, Seq<
            u8,
        >)>((acc + content, rest)),
    decreases content.len(),
{
    let s = json_escape(content) + seq![QUOTE] + rest;
    if content.len() == 0 {
        assert(s[0] == QUOTE);
        assert(s.drop_first() =~= rest);
        assert(acc + content =~= acc);
    } else {
        let c0 = content[0];
        let tail = json_escape(content.drop_first()) + seq![QUOTE] + rest;
        assert(json_escape(content) == esc_byte(c0) + json_escape(content.drop_first()));
        assert(s =~= esc_byte(c0) + tail);
        lemma_parse_escape(content.drop_first(), acc.push(c0), rest);
        assert(acc.push(c0) + content.drop_first() =~= acc + content);
        if c0 == QUOTE {
            assert(s[0] == BSLASH && s[1] == QUOTE);
            assert(s.skip(2) =~= tail);
        } else if c0 == BSLASH {
            assert(s[0] == BSLASH && s[1] == BSLASH);
            assert(s.skip(2) =~= tail);
        } else if c0 < 0x20 {
            lemma_hex_digit_roundtrip(c0 / 16);
            lemma_hex_digit_roundtrip(c0 % 16);
            assert(s[0] == BSLASH && s[1] == 0x75 && s[2] == 0x30 && s[3] == 0x30);
            assert(!is_shorthand_escape(s[1]));
            assert(s[4] == hex_digit_ascii(c0 / 16));
            assert(s[5] == hex_digit_ascii(c0 % 16));
            assert(hex_val(s[4]) * 16 + hex_val(s[5]) == c0);
            assert(s.skip(6) =~= tail);
        } else {
            assert(s[0] == c0);
            assert(s.drop_first() =~= tail);
        }
    }
}

/// Appends the escaped form of `s` to `out`.
pub fn push_escaped(out: &mut Vec<u8>, s: &[u8])
    ensures
        final(out)@ == old(out)@ + json_escape(s@),
{
    let ghost base = out@;
    let mut i: usize = 0;
    while i < s.len()
        invariant
            i <= s@.len(),
            out@ == base + json_escape(s@.take(i as int)),
        decreases s@.len() - i,
    {
        let b = s[i];
        if b == QUOTE || b == BSLASH {
            out.push(BSLASH);
            out.push(b);
        } else if b < 0x20 {
            out.push(BSLASH);
            out.push(0x75);
            out.push(0x30);
            out.push(0x30);
            out.push(crate::hexfmt::hex_digit(b / 16));
            out.push(crate::hexfmt::hex_digit(b % 16));
        } else {
            out.push(b);
        }
        proof {
            assert(out@ =~= base + json_escape(s@.take(i as int)) + esc_byte(b));
        }
        i = i + 1;
        proof {
            assert(s@.take(i as int) =~= s@.take(i as int - 1).push(b));
            lemma_json_escape_snoc(s@.take(i as int - 1), b);
            assert(out@ =~= base + json_escape(s@.take(i as int)));
        }
    }
    proof {
        assert(s@.take(s@.len() as int) =~= s@);
    }
}

/// Parses a string body starting at `start` (just after the opening
/// quote), mirroring `parse_str_body`; on success returns the content
/// and the index just past the closing quote.
pub fn parse_string_body(buf: &[u8], start: usize) -> (r: Option<(Vec<u8>, usize)>)
    requires
        start <= buf@.len(),
    ensures
        ({
            let sr = parse_str_body(buf@.skip(start as int), Seq::empty());
            match r {
                Some((c, j)) => sr matches Some(p) && p.0 == c@ && p.1 == buf@.skip(j as int)
                    && start <= j <= buf@.len(),
                None => sr is None,
            }
        }),
{
    let mut i: usize = start;
    let mut out: Vec<u8> = Vec::new();
    loop
        invariant
            start <= i <= buf@.len(),
            parse_str_body(buf@.skip(start as int), Seq::empty()) == parse_str_body(
                buf@.skip(i as int),
                out@,
            ),
        decreases buf@.len() - i,
    {
        let ghost s = buf@.skip(i as int);
        if i >= buf.len() {
            proof {
                assert(s.len() == 0);
            }
            return None;
        }
        proof {
            assert(s[0] == buf@[i as int]);
        }
        let b = buf[i];
        if b == QUOTE {
            proof {
                assert(s.drop_first() =~= buf@.skip(i as int + 1));
            }
            return Some((out, i + 1));
        }
        if b == BSLASH {
            if i + 1 < buf.len() && (buf[i + 1] == QUOTE || buf[i + 1] == BSLASH) {
                proof {
                    assert(s.len() >= 2);
                    assert(s[1] == buf@[i as int + 1]);
                    assert(s.skip(2) =~= buf@.skip(i as int + 2));
                }
                out.push(buf[i + 1]);
                i = i + 2;
            } else if i + 1 < buf.len() && is_shorthand_escape_b(buf[i + 1]) {
                proof {
                    assert(s.len() >= 2);
                    assert(s[1] == buf@[i as int + 1]);
                    assert(s.skip(2) =~= buf@.skip(i as int + 2));
                }
                out.push(shorthand_value_b(buf[i + 1]));
                i = i + 2;
            } else if buf.len() - i > 5 && buf[i + 1] == 0x75 && buf[i + 2] == 0x30 && buf[i + 3]
                == 0x30 && is_hex_lower_b(buf[i + 4]) && is_hex_lower_b(buf[i + 5]) && hex_val_b(
                buf[i + 4],
            ) * 16 + hex_val_b(buf[i + 5]) < 0x20 {
                proof {
                    assert(s.len() >= 6);
                    assert(s[1] == buf@[i as int + 1]);
                    assert(s[2] == buf@[i as int + 2]);
                    assert(s[3] == buf@[i as int + 3]);
                    assert(s[4] == buf@[i as int + 4]);
                    assert(s[5] == buf@[i as int + 5]);
                    assert(s.skip(6) =~= buf@.skip(i as int + 6));
                }
                out.push(hex_val_b(buf[i + 4]) * 16 + hex_val_b(buf[i + 5]));
                i = i + 6;
            } else {
                proof {
                    if s.len() >= 2 {
                        assert(s[1] == buf@[i as int + 1]);
                    }
                    if s.len() >= 6 {
                        assert(s[4] == buf@[i as int + 4]);
                        assert(s[5] == buf@[i as int + 5]);
                    }
                }
                return None;
            }
        } else if b < 0x20 {
            return None;
        } else {
            proof {
                assert(s.drop_first() =~= buf@.skip(i as int + 1));
            }
            out.push(b);
            i = i + 1;
        }
    }
}

/// Decides `is_shorthand_escape`.
pub fn is_shorthand_escape_b(b: u8) -> (r: bool)
    ensures
        r == is_shorthand_escape(b),
{
    b == 0x62 || b == 0x74 || b == 0x6e || b == 0x66 || b == 0x72
}

/// Computes `shorthand_value`.
pub fn shorthand_value_b(b: u8) -> (r: u8)
    ensures
        r == shorthand_value(b),
{
    if b == 0x62 {
        0x08
    } else if b == 0x74 {
        0x09
    } else if b == 0x6e {
        0x0a
    } else if b == 0x66 {
        0x0c
    } else {
        0x0d
    }
}

/// Decides `is_hex_lower`.
pub fn is_hex_lower_b(b: u8) -> (r: bool)
    ensures
        r == is_hex_lower(b),
{
    (0x30 <= b && b <= 0x39) || (0x61 <= b && b <= 0x66)
}

/// Computes `hex_val`.
pub fn hex_val_b(b: u8) -> (r: u8)
    requires
        is_hex_lower(b),
    ensures
        r == hex_val(b),
        r < 16,
{
    if 0x30 <= b && b <= 0x39 {
        b - 0x30
    } else {
        (b - 0x61) + 10
    }
}

// ---------- decimal numbers ----------

pub open spec fn is_digit(b: u8) -> bool {
    0x30 <= b <= 0x39
}

/// The decimal digits of `n`, most significant first.
pub open spec fn dec_digits(n: nat) -> Seq<u8>
    decreases n,
{
    if n < 10 {
        seq![(0x30 + n) as u8]
    } else {
        dec_digits(n / 10).push((0x30 + n % 10) as u8)
    }
}

/// Reads digits from the front of `s` into the accumulator; stops at
/// the first non-digit. Never fails; reading no digit leaves `acc`.
pub open spec fn parse_digits(s: Seq<u8>, acc: nat) -> (nat, Seq<u8>)
    decreases s.len(),
{
    if s.len() > 0 && is_digit(s[0]) {
        parse_digits(s.drop_first(), acc * 10 + (s[0] - 0x30) as nat)
    } else {
        (acc, s)
    }
}

/// `10` to the number of digits of `n`.
pub open spec fn pow_len(n: nat) -> nat
    decreases n,
{
    if n < 10 {
        10
    } else {
        10 * pow_len(n / 10)
    }
}

pub proof fn lemma_dec_digits_are_digits(n: nat)
    ensures
        dec_digits(n).len() >= 1,
        forall|i: int| 0 <= i < dec_digits(n).len() ==> is_digit(#[trigger] dec_digits(n)[i]),
    decreases n,
{
    if n >= 10 {
        lemma_dec_digits_are_digits(n / 10);
        let d = dec_digits(n / 10);
        assert forall|i: int| 0 <= i < dec_digits(n).len() implies is_digit(
            #[trigger] dec_digits(n)[i],
        ) by {
            if i < d.len() {
                assert(dec_digits(n)[i] == d[i]);
            }
        }
    }
}

/// Reading the printed digits of `n` multiplies the accumulator by the
/// matching power of ten and adds `n`, then goes on with the rest.
pub proof fn lemma_parse_dec(n: nat, acc: nat, rest: Seq<u8>)
    ensures
        parse_digits(dec_digits(n) + rest, acc) == parse_digits(rest, acc * pow_len(n) + n),
    decreases n,
{
    let s = dec_digits(n) + rest;
    if n < 10 {
        assert(s[0] == (0x30 + n) as u8);
        assert(is_digit(s[0]));
        assert(s.drop_first() =~= rest);
        assert((s[0] - 0x30) as nat == n);
        assert(acc * 10 + n == acc * pow_len(n) + n);
    } else {
        let hi = dec_digits(n / 10);
        let last = (0x30 + n % 10) as u8;
        assert(dec_digits(n) =~= hi + seq![last]);
        assert(s =~= hi + (seq![last] + rest));
        lemma_parse_dec(n / 10, acc, seq![last] + rest);
        let acc2 = acc * pow_len(n / 10) + n / 10;
        let s2 = seq![last] + rest;
        assert(s2[0] == last);
        assert(is_digit(last));
        assert(s2.drop_first() =~= rest);
        assert((last - 0x30) as nat == n % 10);
        assert(parse_digits(s2, acc2) == parse_digits(rest, acc2 * 10 + n % 10));
        let p = pow_len(n / 10);
        assert((acc * p + n / 10) * 10 + n % 10 == acc * (10 * p) + ((n / 10) * 10 + n % 10))
            by (nonlinear_arith);
        vstd::arithmetic::div_mod::lemma_fundamental_div_mod(n as int, 10);
        assert(pow_len(n) == 10 * pow_len(n / 10));
    }
}

/// The parsed value is never below the accumulator it started from.
pub proof fn lemma_parse_digits_lower(s: Seq<u8>, acc: nat)
    ensures
        parse_digits(s, acc).0 >= acc,
    decreases s.len(),
{
    if s.len() > 0 && is_digit(s[0]) {
        lemma_parse_digits_lower(s.drop_first(), acc * 10 + (s[0] - 0x30) as nat);
        assert(acc * 10 >= acc) by (nonlinear_arith);
    }
}

/// Appends the decimal digits of `n` to `out`.
pub fn push_dec_u64(out: &mut Vec<u8>, n: u64)
    ensures
        final(out)@ == old(out)@ + dec_digits(n as nat),
    decreases n,
{
    if n < 10 {
        out.push(0x30 + (n as u8));
        proof {
            assert(old(out)@.push((0x30 + n as nat) as u8) =~= old(out)@ + dec_digits(n as nat));
        }
    } else {
        push_dec_u64(out, n / 10);
        out.push(0x30 + ((n % 10) as u8));
        proof {
            assert((old(out)@ + dec_digits((n / 10) as nat)).push((0x30 + (n as nat) % 10) as u8)
                =~= old(out)@ + dec_digits(n as nat));
        }
    }
}

/// Reads a run of digits starting at `start` as a `u64`, mirroring
/// `parse_digits` from an empty accumulator; fails when there is no
/// digit or the value does not fit.
pub fn parse_number_u64(buf: &[u8], start: usize) -> (r: Option<(u64, usize)>)
    requires
        start <= buf@.len(),
    ensures
        ({
            let sr = parse_digits(buf@.skip(start as int), 0);
            match r {
                Some((v, j)) => sr.0 == v && sr.1 == buf@.skip(j as int) && start < j <= buf@.len()
                    && buf@.len() > start && is_digit(buf@[start as int]),
                None => !(buf@.len() > start && is_digit(buf@[start as int])) || sr.0 > u64::MAX,
            }
        }),
{
    if start >= buf.len() || !is_digit_b(buf[start]) {
        return None;
    }
    let mut i: usize = start;
    let mut acc: u64 = 0;
    loop
        invariant
            start <= i <= buf@.len(),
            parse_digits(buf@.skip(start as int), 0) == parse_digits(buf@.skip(i as int), acc as nat),
            buf@.len() > start && is_digit(buf@[start as int]),
            i == start ==> acc == 0,
        decreases buf@.len() - i,
    {
        let ghost s = buf@.skip(i as int);
        if i >= buf.len() {
            proof {
                assert(s.len() == 0);
            }
            if i == start {
                proof {
                    assert(false);
                }
            }
            return Some((acc, i));
        }
        proof {
            assert(s[0] == buf@[i as int]);
        }
        let b = buf[i];
        if !is_digit_b(b) {
            if i == start {
                proof {
                    assert(false);
                }
            }
            return Some((acc, i));
        }
        let d = b - 0x30;
        if acc > (u64::MAX - (d as u64)) / 10 {
            proof {
                assert(s.drop_first() =~= buf@.skip(i as int + 1));
                let next = acc as nat * 10 + (b - 0x30) as nat;
                assert(next > u64::MAX) by (nonlinear_arith)
                    requires
                        acc > (u64::MAX - d) / 10,
                        d == b - 0x30,
                        d <= 9,
                        next == acc as nat * 10 + (b - 0x30) as nat,
                ;
                lemma_parse_digits_lower(s.drop_first(), next);
            }
            return None;
        }
        proof {
            assert(s.drop_first() =~= buf@.skip(i as int + 1));
            assert(acc as nat * 10 + (b - 0x30) as nat <= u64::MAX) by (nonlinear_arith)
                requires
                    acc <= (u64::MAX - (b - 0x30)) / 10,
                    0x30 <= b <= 0x39,
            ;
        }
        acc = acc * 10 + (d as u64);
        i = i + 1;
    }
}

/// Decides `is_digit`.
pub fn is_digit_b(b: u8) -> (r: bool)
    ensures
        r == is_digit(b),
{
    0x30 <= b && b <= 0x39
}

// ---------- schema fragments ----------

/// One fixed fragment of the JSON schema, as bytes.
pub open spec fn lit_payload_open() -> Seq<u8> {
    seq![0x7bu8, 0x22u8, 0x73u8, 0x64u8, 0x70u8, 0x22u8, 0x3au8, 0x7bu8, 0x22u8, 0x74u8, 0x79u8, 0x70u8, 0x65u8, 0x22u8, 0x3au8]
}

/// One fixed fragment of the JSON schema, as bytes.
pub open spec fn lit_sdp_key() -> Seq<u8> {
    seq![0x2cu8, 0x22u8, 0x73u8, 0x64u8, 0x70u8, 0x22u8, 0x3au8]
}

/// One fixed fragment of the JSON schema, as bytes.
pub open spec fn lit_id_key() -> Seq<u8> {
    seq![0x7du8, 0x2cu8, 0x22u8, 0x69u8, 0x64u8, 0x22u8, 0x3au8]
}

/// One fixed fragment of the JSON schema, as bytes.
pub open spec fn lit_ts_key() -> Seq<u8> {
    seq![0x2cu8, 0x22u8, 0x74u8, 0x73u8, 0x22u8, 0x3au8]
}

/// One fixed fragment of the JSON schema, as bytes.
pub open spec fn lit_bundle_open() -> Seq<u8> {
    seq![0x7bu8, 0x22u8, 0x73u8, 0x64u8, 0x70u8, 0x5fu8, 0x70u8, 0x61u8, 0x79u8, 0x6cu8, 0x6fu8, 0x61u8, 0x64u8, 0x22u8, 0x3au8]
}

/// One fixed fragment of the JSON schema, as bytes.
pub open spec fn lit_cands_key() -> Seq<u8> {
    seq![0x2cu8, 0x22u8, 0x69u8, 0x63u8, 0x65u8, 0x5fu8, 0x63u8, 0x61u8, 0x6eu8, 0x64u8, 0x69u8, 0x64u8, 0x61u8, 0x74u8, 0x65u8, 0x73u8, 0x22u8, 0x3au8]
}

/// One fixed fragment of the JSON schema, as bytes.
pub open spec fn lit_cand_open() -> Seq<u8> {
    seq![0x7bu8, 0x22u8, 0x63u8, 0x61u8, 0x6eu8, 0x64u8, 0x69u8, 0x64u8, 0x61u8, 0x74u8, 0x65u8, 0x22u8, 0x3au8]
}

/// One fixed fragment of the JSON schema, as bytes.
pub open spec fn lit_mid_key() -> Seq<u8> {
    seq![0x2cu8, 0x22u8, 0x73u8, 0x64u8, 0x70u8, 0x5fu8, 0x6du8, 0x69u8, 0x64u8, 0x22u8, 0x3au8]
}

/// One fixed fragment of the JSON schema, as bytes.
pub open spec fn lit_mline_key() -> Seq<u8> {
    seq![0x2cu8, 0x22u8, 0x73u8, 0x64u8, 0x70u8, 0x5fu8, 0x6du8, 0x6cu8, 0x69u8, 0x6eu8, 0x65u8, 0x5fu8, 0x69u8, 0x6eu8, 0x64u8, 0x65u8, 0x78u8, 0x22u8, 0x3au8]
}

/// One fixed fragment of the JSON schema, as bytes.
pub open spec fn lit_connid_key() -> Seq<u8> {
    seq![0x2cu8, 0x22u8, 0x63u8, 0x6fu8, 0x6eu8, 0x6eu8, 0x65u8, 0x63u8, 0x74u8, 0x69u8, 0x6fu8, 0x6eu8, 0x5fu8, 0x69u8, 0x64u8, 0x22u8, 0x3au8]
}

/// One fixed fragment of the JSON schema, as bytes.
pub open spec fn lit_null() -> Seq<u8> {
    seq![0x6eu8, 0x75u8, 0x6cu8, 0x6cu8]
}


// ---------- printers ----------

/// A full JSON string: quote, escaped content, quote.
pub open spec fn json_string(content: Seq<u8>) -> Seq<u8> {
    seq![QUOTE] + json_escape(content) + seq![QUOTE]
}

/// The decimal rendering of a signed 64-bit value.
pub open spec fn dec_i64(v: i64) -> Seq<u8> {
    if v >= 0 {
        dec_digits(v as nat)
    } else {
        seq![MINUS] + dec_digits((-(v as int)) as nat)
    }
}

/// The byte-level content parsed out of a trickle envelope.
pub ghost struct RawPayload {
    pub kind: Seq<u8>,
    pub sdp: Seq<u8>,
    pub id: Seq<u8>,
    pub ts: i64,
}

/// The byte-level content parsed out of one candidate record.
pub ghost struct RawCandidate {
    pub candidate: Seq<u8>,
    pub sdp_mid: Option<Seq<u8>>,
    pub sdp_mline_index: Option<u16>,
    pub connection_id: Seq<u8>,
}

/// The byte-level fields of a payload view: each string as UTF-8.
pub open spec fn raw_of_payload(p: crate::types::SdpPayloadV) -> RawPayload {
    RawPayload {
        kind: vstd::utf8::encode_utf8(p.sdp.kind),
        sdp: vstd::utf8::encode_utf8(p.sdp.sdp),
        id: vstd::utf8::encode_utf8(p.id),
        ts: p.ts,
    }
}

/// The byte-level fields of a candidate view.
pub open spec fn raw_of_candidate(c: crate::types::IceCandidateV) -> RawCandidate {
    RawCandidate {
        candidate: vstd::utf8::encode_utf8(c.candidate),
        sdp_mid: match c.sdp_mid {
            Option::Some(m) => Option::Some(vstd::utf8::encode_utf8(m)),
            Option::None => Option::None,
        },
        sdp_mline_index: c.sdp_mline_index,
        connection_id: vstd::utf8::encode_utf8(c.connection_id),
    }
}

/// The JSON text of a trickle envelope.
pub open spec fn json_of_payload(p: crate::types::SdpPayloadV) -> Seq<u8> {
    lit_payload_open() + json_string(vstd::utf8::encode_utf8(p.sdp.kind)) + lit_sdp_key()
        + json_string(vstd::utf8::encode_utf8(p.sdp.sdp)) + lit_id_key() + json_string(
        vstd::utf8::encode_utf8(p.id),
    ) + lit_ts_key() + dec_i64(p.ts) + seq![RBRACE]
}

/// The JSON text of an optional string field.
pub open spec fn json_of_opt_string(o: Option<Seq<char>>) -> Seq<u8> {
    match o {
        Option::None => lit_null(),
        Option::Some(s) => json_string(vstd::utf8::encode_utf8(s)),
    }
}

/// The JSON text of an optional 16-bit index field.
pub open spec fn json_of_opt_u16(o: Option<u16>) -> Seq<u8> {
    match o {
        Option::None => lit_null(),
        Option::Some(v) => dec_digits(v as nat),
    }
}

/// The JSON text of one candidate record.
pub open spec fn json_of_candidate(c: crate::types::IceCandidateV) -> Seq<u8> {
    lit_cand_open() + json_string(vstd::utf8::encode_utf8(c.candidate)) + lit_mid_key()
        + json_of_opt_string(c.sdp_mid) + lit_mline_key() + json_of_opt_u16(c.sdp_mline_index)
        + lit_connid_key() + json_string(vstd::utf8::encode_utf8(c.connection_id)) + seq![RBRACE]
}

/// The comma-separated items of a non-empty candidate array.
pub open spec fn json_of_cand_items(cs: Seq<crate::types::IceCandidateV>) -> Seq<u8>
    decreases cs.len(),
{
    if cs.len() <= 1 {
        if cs.len() == 0 {
            Seq::empty()
        } else {
            json_of_candidate(cs[0])
        }
    } else {
        json_of_candidate(cs[0]) + seq![COMMA] + json_of_cand_items(cs.drop_first())
    }
}

/// The JSON text of the candidate array.
pub open spec fn json_of_cand_list(cs: Seq<crate::types::IceCandidateV>) -> Seq<u8> {
    if cs.len() == 0 {
        seq![LBRACKET, RBRACKET]
    } else {
        seq![LBRACKET] + json_of_cand_items(cs) + seq![RBRACKET]
    }
}

/// The JSON text of a bundle envelope.
pub open spec fn json_of_bundle(b: crate::types::ConnectionBundleV) -> Seq<u8> {
    lit_bundle_open() + json_of_payload(b.sdp_payload) + lit_cands_key() + json_of_cand_list(
        b.ice_candidates,
    ) + seq![RBRACE]
}

// ---------- parsers ----------

/// Consumes an exact literal from the front of `s`.
pub open spec fn expect(s: Seq<u8>, lit: Seq<u8>) -> Option<Seq<u8>> {
    if lit.len() <= s.len() && s.take(lit.len() as int) == lit {
        Some(s.skip(lit.len() as int))
    } else {
        None
    }
}

/// Parses a quoted JSON string, returning its content bytes.
pub open spec fn parse_string(s: Seq<u8>) -> Option<(Seq<u8>, Seq<u8>)> {
    if s.len() > 0 && s[0] == QUOTE {
        parse_str_body(s.drop_first(), Seq::empty())
    } else {
        None
    }
}

/// Parses a decimal signed 64-bit value.
pub open spec fn parse_i64(s: Seq<u8>) -> Option<(i64, Seq<u8>)> {
    if s.len() > 0 && s[0] == MINUS {
        if s.len() >= 2 && is_digit(s[1]) {
            let (v, rest) = parse_digits(s.skip(1), 0);
            if v <= 0x8000000000000000 {
                Some(((-(v as int)) as i64, rest))
            } else {
                None
            }
        } else {
            None
        }
    } else if s.len() > 0 && is_digit(s[0]) {
        let (v, rest) = parse_digits(s, 0);
        if v <= i64::MAX {
            Some((v as i64, rest))
        } else {
            None
        }
    } else {
        None
    }
}

/// Parses a string or `null`.
pub open spec fn parse_opt_string(s: Seq<u8>) -> Option<(Option<Seq<u8>>, Seq<u8>)> {
    if s.len() > 0 && s[0] == QUOTE {
        match parse_str_body(s.drop_first(), Seq::empty()) {
            Option::Some((c, r)) => Some((Some(c), r)),
            Option::None => None,
        }
    } else {
        match expect(s, lit_null()) {
            Option::Some(r) => Some((None, r)),
            Option::None => None,
        }
    }
}

/// Parses a 16-bit index or `null`.
pub open spec fn parse_opt_u16(s: Seq<u8>) -> Option<(Option<u16>, Seq<u8>)> {
    if s.len() > 0 && is_digit(s[0]) {
        let (v, rest) = parse_digits(s, 0);
        if v <= u16::MAX {
            Some((Some(v as u16), rest))
        } else {
            None
        }
    } else {
        match expect(s, lit_null()) {
            Option::Some(r) => Some((None, r)),
            Option::None => None,
        }
    }
}

/// Parses a trickle envelope object.
pub open spec fn parse_payload(s: Seq<u8>) -> Option<(RawPayload, Seq<u8>)> {
    match expect(s, lit_payload_open()) {
        Option::None => None,
        Option::Some(s1) => match parse_string(s1) {
            Option::None => None,
            Option::Some((kind, s2)) => match expect(s2, lit_sdp_key()) {
                Option::None => None,
                Option::Some(s3) => match parse_string(s3) {
                    Option::None => None,
                    Option::Some((sdp, s4)) => match expect(s4, lit_id_key()) {
                        Option::None => None,
                        Option::Some(s5) => match parse_string(s5) {
                            Option::None => None,
                            Option::Some((id, s6)) => match expect(s6, lit_ts_key()) {
                                Option::None => None,
                                Option::Some(s7) => match parse_i64(s7) {
                                    Option::None => None,
                                    Option::Some((ts, s8)) => if s8.len() > 0 && s8[0] == RBRACE {
                                        Some(
                                            (
                                                RawPayload { kind, sdp, id, ts },
                                                s8.drop_first(),
                                            ),
                                        )
                                    } else {
                                        None
                                    },
                                },
                            },
                        },
                    },
                },
            },
        },
    }
}

/// Parses one candidate object.
pub open spec fn parse_candidate(s: Seq<u8>) -> Option<(RawCandidate, Seq<u8>)> {
    match expect(s, lit_cand_open()) {
        Option::None => None,
        Option::Some(s1) => match parse_string(s1) {
            Option::None => None,
            Option::Some((cand, s2)) => match expect(s2, lit_mid_key()) {
                Option::None => None,
                Option::Some(s3) => match parse_opt_string(s3) {
                    Option::None => None,
                    Option::Some((mid, s4)) => match expect(s4, lit_mline_key()) {
                        Option::None => None,
                        Option::Some(s5) => match parse_opt_u16(s5) {
                            Option::None => None,
                            Option::Some((mline, s6)) => match expect(s6, lit_connid_key()) {
                                Option::None => None,
                                Option::Some(s7) => match parse_string(s7) {
                                    Option::None => None,
                                    Option::Some((connid, s8)) => if s8.len() > 0 && s8[0]
                                        == RBRACE {
                                        Some(
                                            (
                                                RawCandidate {
                                                    candidate: cand,
                                                    sdp_mid: mid,
                                                    sdp_mline_index: mline,
                                                    connection_id: connid,
                                                },
                                                s8.drop_first(),
                                            ),
                                        )
                                    } else {
                                        None
                                    },
                                },
                            },
                        },
                    },
                },
            },
        },
    }
}

/// Parses the comma-separated items of a non-empty candidate array,
/// up to and including the closing bracket.
pub open spec fn parse_cand_items(s: Seq<u8>) -> Option<(Seq<RawCandidate>, Seq<u8>)>
    decreases s.len(),
{
    match parse_candidate(s) {
        Option::None => None,
        Option::Some((c, s2)) => {
            if s2.len() >= 1 && s2[0] == COMMA && s2.len() < s.len() {
                match parse_cand_items(s2.skip(1)) {
                    Option::None => None,
                    Option::Some((cs, s3)) => Some((seq![c] + cs, s3)),
                }
            } else if s2.len() >= 1 && s2[0] == RBRACKET {
                Some((seq![c], s2.drop_first()))
            } else {
                None
            }
        },
    }
}

/// Parses the candidate array.
pub open spec fn parse_cand_list(s: Seq<u8>) -> Option<(Seq<RawCandidate>, Seq<u8>)> {
    if s.len() >= 2 && s[0] == LBRACKET && s[1] == RBRACKET {
        Some((Seq::empty(), s.skip(2)))
    } else if s.len() >= 1 && s[0] == LBRACKET {
        parse_cand_items(s.skip(1))
    } else {
        None
    }
}

/// Parses a bundle envelope object.
pub open spec fn parse_bundle(s: Seq<u8>) -> Option<((RawPayload, Seq<RawCandidate>), Seq<u8>)> {
    match expect(s, lit_bundle_open()) {
        Option::None => None,
        Option::Some(s1) => match parse_payload(s1) {
            Option::None => None,
            Option::Some((p, s2)) => match expect(s2, lit_cands_key()) {
                Option::None => None,
                Option::Some(s3) => match parse_cand_list(s3) {
                    Option::None => None,
                    Option::Some((cs, s4)) => if s4.len() > 0 && s4[0] == RBRACE {
                        Some(((p, cs), s4.drop_first()))
                    } else {
                        None
                    },
                },
            },
        },
    }
}


// ---------- the parser inverts the printer ----------

pub proof fn lemma_expect_inverts(lit: Seq<u8>, rest: Seq<u8>)
    ensures
        expect(lit + rest, lit) == Some(rest),
{
    let s = lit + rest;
    assert(s.take(lit.len() as int) =~= lit);
    assert(s.skip(lit.len() as int) =~= rest);
}

pub proof fn lemma_parse_string_inverts(content: Seq<u8>, rest: Seq<u8>)
    ensures
        parse_string(json_string(content) + rest) == Some::<(Seq<u8>, Seq<u8>)>((content, rest)),
{
    let s = json_string(content) + rest;
    let body = json_escape(content) + seq![QUOTE] + rest;
    assert(s =~= seq![QUOTE] + body);
    assert(s[0] == QUOTE);
    assert(s.len() > 0);
    assert(s.drop_first() =~= body);
    lemma_parse_escape(content, Seq::empty(), rest);
    assert(Seq::empty() + content =~= content);
}

pub proof fn lemma_parse_digits_full(n: nat, rest: Seq<u8>)
    requires
        rest.len() == 0 || !is_digit(rest[0]),
    ensures
        parse_digits(dec_digits(n) + rest, 0) == (n, rest),
{
    lemma_parse_dec(n, 0, rest);
    assert(0 * pow_len(n) + n == n) by (nonlinear_arith);
}

pub proof fn lemma_parse_i64_inverts(v: i64, rest: Seq<u8>)
    requires
        rest.len() == 0 || !is_digit(rest[0]),
    ensures
        parse_i64(dec_i64(v) + rest) == Some::<(i64, Seq<u8>)>((v, rest)),
{
    let s = dec_i64(v) + rest;
    if v >= 0 {
        let n = v as nat;
        lemma_dec_digits_are_digits(n);
        assert(s =~= dec_digits(n) + rest);
        assert(s[0] == dec_digits(n)[0]);
        assert(is_digit(s[0]));
        assert(s[0] != MINUS);
        lemma_parse_digits_full(n, rest);
    } else {
        let n = (-(v as int)) as nat;
        lemma_dec_digits_are_digits(n);
        assert(dec_i64(v) =~= seq![MINUS] + dec_digits(n));
        assert(s =~= seq![MINUS] + (dec_digits(n) + rest));
        assert(s[0] == MINUS);
        assert(s[1] == (dec_digits(n) + rest)[0]);
        assert(s[1] == dec_digits(n)[0]);
        assert(is_digit(s[1]));
        assert(s.len() >= 2);
        assert(s.skip(1) =~= dec_digits(n) + rest);
        lemma_parse_digits_full(n, rest);
        assert(n <= 0x8000000000000000);
        assert((-(n as int)) as i64 == v);
    }
}

pub proof fn lemma_parse_opt_u16_inverts(o: Option<u16>, rest: Seq<u8>)
    requires
        rest.len() == 0 || !is_digit(rest[0]),
    ensures
        parse_opt_u16(json_of_opt_u16(o) + rest) == Some::<(Option<u16>, Seq<u8>)>((o, rest)),
{
    let s = json_of_opt_u16(o) + rest;
    match o {
        Option::Some(v) => {
            let n = v as nat;
            lemma_dec_digits_are_digits(n);
            assert(s =~= dec_digits(n) + rest);
            assert(s[0] == dec_digits(n)[0]);
            assert(is_digit(s[0]));
            lemma_parse_digits_full(n, rest);
        },
        Option::None => {
            assert(s =~= lit_null() + rest);
            assert(s[0] == lit_null()[0]);
            assert(!is_digit(s[0]));
            lemma_expect_inverts(lit_null(), rest);
        },
    }
}

/// The byte-level form of an optional string field.
pub open spec fn json_of_opt_bytes(o: Option<Seq<u8>>) -> Seq<u8> {
    match o {
        Option::None => lit_null(),
        Option::Some(c) => json_string(c),
    }
}

pub proof fn lemma_parse_opt_string_inverts(o: Option<Seq<u8>>, rest: Seq<u8>)
    ensures
        parse_opt_string(json_of_opt_bytes(o) + rest) == Some::<(Option<Seq<u8>>, Seq<u8>)>(
            (o, rest),
        ),
{
    let s = json_of_opt_bytes(o) + rest;
    match o {
        Option::Some(c) => {
            let body = json_escape(c) + seq![QUOTE] + rest;
            assert(s =~= seq![QUOTE] + body);
            assert(s[0] == QUOTE);
            assert(s.drop_first() =~= body);
            lemma_parse_escape(c, Seq::empty(), rest);
            assert(Seq::empty() + c =~= c);
        },
        Option::None => {
            assert(s =~= lit_null() + rest);
            assert(s[0] == lit_null()[0]);
            assert(s[0] != QUOTE);
            lemma_expect_inverts(lit_null(), rest);
        },
    }
}

#[verifier::rlimit(100)]
pub proof fn lemma_parse_payload_inverts(p: crate::types::SdpPayloadV, rest: Seq<u8>)
    ensures
        parse_payload(json_of_payload(p) + rest) == Some::<(RawPayload, Seq<u8>)>(
            (raw_of_payload(p), rest),
        ),
{
    let kb = vstd::utf8::encode_utf8(p.sdp.kind);
    let db = vstd::utf8::encode_utf8(p.sdp.sdp);
    let ib = vstd::utf8::encode_utf8(p.id);
    let s = json_of_payload(p) + rest;
    let t8 = seq![RBRACE] + rest;
    let t7 = dec_i64(p.ts) + t8;
    let t6 = lit_ts_key() + t7;
    let t5 = json_string(ib) + t6;
    let t4 = lit_id_key() + t5;
    let t3 = json_string(db) + t4;
    let t2 = lit_sdp_key() + t3;
    let t1 = json_string(kb) + t2;
    assert(s =~= lit_payload_open() + t1);
    lemma_expect_inverts(lit_payload_open(), t1);
    lemma_parse_string_inverts(kb, t2);
    lemma_expect_inverts(lit_sdp_key(), t3);
    lemma_parse_string_inverts(db, t4);
    lemma_expect_inverts(lit_id_key(), t5);
    lemma_parse_string_inverts(ib, t6);
    lemma_expect_inverts(lit_ts_key(), t7);
    assert(t8.len() == 0 || !is_digit(t8[0]));
    lemma_parse_i64_inverts(p.ts, t8);
    assert(t8[0] == RBRACE);
    assert(t8.drop_first() =~= rest);
}

#[verifier::rlimit(100)]
pub proof fn lemma_parse_candidate_inverts(c: crate::types::IceCandidateV, rest: Seq<u8>)
    ensures
        parse_candidate(json_of_candidate(c) + rest) == Some::<(RawCandidate, Seq<u8>)>(
            (raw_of_candidate(c), rest),
        ),
{
    let cb = vstd::utf8::encode_utf8(c.candidate);
    let nb = vstd::utf8::encode_utf8(c.connection_id);
    let midb: Option<Seq<u8>> = match c.sdp_mid {
        Option::Some(m) => Option::Some(vstd::utf8::encode_utf8(m)),
        Option::None => Option::None,
    };
    let s = json_of_candidate(c) + rest;
    let t8 = seq![RBRACE] + rest;
    let t7 = json_string(nb) + t8;
    let t6 = lit_connid_key() + t7;
    let t5 = json_of_opt_u16(c.sdp_mline_index) + t6;
    let t4 = lit_mline_key() + t5;
    let t3 = json_of_opt_bytes(midb) + t4;
    let t2 = lit_mid_key() + t3;
    let t1 = json_string(cb) + t2;
    assert(json_of_opt_string(c.sdp_mid) == json_of_opt_bytes(midb));
    assert(s =~= lit_cand_open() + t1);
    lemma_expect_inverts(lit_cand_open(), t1);
    lemma_parse_string_inverts(cb, t2);
    lemma_expect_inverts(lit_mid_key(), t3);
    lemma_parse_opt_string_inverts(midb, t4);
    lemma_expect_inverts(lit_mline_key(), t5);
    assert(t6[0] == lit_connid_key()[0]);
    assert(!is_digit(t6[0]));
    lemma_parse_opt_u16_inverts(c.sdp_mline_index, t6);
    lemma_expect_inverts(lit_connid_key(), t7);
    lemma_parse_string_inverts(nb, t8);
    assert(t8[0] == RBRACE);
    assert(t8.drop_first() =~= rest);
}

/// The byte-level records of a candidate list.
pub open spec fn raws_of_cands(cs: Seq<crate::types::IceCandidateV>) -> Seq<RawCandidate> {
    Seq::new(cs.len(), |i: int| raw_of_candidate(cs[i]))
}

pub proof fn lemma_json_of_candidate_nonempty(c: crate::types::IceCandidateV)
    ensures
        json_of_candidate(c).len() >= 1,
{
    assert(json_of_candidate(c).len() >= lit_cand_open().len());
}

#[verifier::rlimit(100)]
pub proof fn lemma_parse_cand_items_inverts(cs: Seq<crate::types::IceCandidateV>, rest: Seq<u8>)
    requires
        cs.len() >= 1,
    ensures
        parse_cand_items(json_of_cand_items(cs) + seq![RBRACKET] + rest) == Some::<(Seq<
            RawCandidate,
        >, Seq<u8>)>((raws_of_cands(cs), rest)),
    decreases cs.len(),
{
    let s = json_of_cand_items(cs) + seq![RBRACKET] + rest;
    if cs.len() == 1 {
        let t = seq![RBRACKET] + rest;
        assert(s =~= json_of_candidate(cs[0]) + t);
        lemma_parse_candidate_inverts(cs[0], t);
        assert(t[0] == RBRACKET);
        assert(t[0] != COMMA);
        assert(t.drop_first() =~= rest);
        assert(seq![raw_of_candidate(cs[0])] =~= raws_of_cands(cs));
    } else {
        let tail_items = json_of_cand_items(cs.drop_first()) + seq![RBRACKET] + rest;
        let t = seq![COMMA] + tail_items;
        assert(json_of_cand_items(cs) == json_of_candidate(cs[0]) + seq![COMMA]
            + json_of_cand_items(cs.drop_first()));
        assert(s =~= json_of_candidate(cs[0]) + t);
        lemma_parse_candidate_inverts(cs[0], t);
        assert(t[0] == COMMA);
        lemma_json_of_candidate_nonempty(cs[0]);
        assert(t.len() < s.len());
        assert(t.skip(1) =~= tail_items);
        lemma_parse_cand_items_inverts(cs.drop_first(), rest);
        assert(seq![raw_of_candidate(cs[0])] + raws_of_cands(cs.drop_first()) =~= raws_of_cands(
            cs,
        ));
    }
}

pub proof fn lemma_parse_cand_list_inverts(cs: Seq<crate::types::IceCandidateV>, rest: Seq<u8>)
    ensures
        parse_cand_list(json_of_cand_list(cs) + rest) == Some::<(Seq<RawCandidate>, Seq<u8>)>(
            (raws_of_cands(cs), rest),
        ),
{
    let s = json_of_cand_list(cs) + rest;
    if cs.len() == 0 {
        assert(s =~= seq![LBRACKET, RBRACKET] + rest);
        assert(s[0] == LBRACKET && s[1] == RBRACKET);
        assert(s.skip(2) =~= rest);
        assert(raws_of_cands(cs) =~= Seq::<RawCandidate>::empty());
    } else {
        let items = json_of_cand_items(cs) + seq![RBRACKET] + rest;
        assert(s =~= seq![LBRACKET] + items);
        assert(s[0] == LBRACKET);
        assert(items[0] == json_of_cand_items(cs)[0]);
        assert(json_of_cand_items(cs)[0] == json_of_candidate(cs[0])[0]);
        assert(json_of_candidate(cs[0])[0] == lit_cand_open()[0]);
        assert(s[1] != RBRACKET);
        assert(s.skip(1) =~= items);
        lemma_parse_cand_items_inverts(cs, rest);
    }
}

#[verifier::rlimit(100)]
pub proof fn lemma_parse_bundle_inverts(b: crate::types::ConnectionBundleV, rest: Seq<u8>)
    ensures
        parse_bundle(json_of_bundle(b) + rest) == Some::<((RawPayload, Seq<RawCandidate>), Seq<
            u8,
        >)>(((raw_of_payload(b.sdp_payload), raws_of_cands(b.ice_candidates)), rest)),
{
    let s = json_of_bundle(b) + rest;
    let t4 = seq![RBRACE] + rest;
    let t3 = json_of_cand_list(b.ice_candidates) + t4;
    let t2 = lit_cands_key() + t3;
    let t1 = json_of_payload(b.sdp_payload) + t2;
    assert(s =~= lit_bundle_open() + t1);
    lemma_expect_inverts(lit_bundle_open(), t1);
    lemma_parse_payload_inverts(b.sdp_payload, t2);
    lemma_expect_inverts(lit_cands_key(), t3);
    lemma_parse_cand_list_inverts(b.ice_candidates, t4);
    assert(t4[0] == RBRACE);
    assert(t4.drop_first() =~= rest);
}

// ---------- whole-text decoding, with UTF-8 recovery ----------

/// The parsed byte fields hold well-formed UTF-8.
pub open spec fn raw_payload_ok(r: RawPayload) -> bool {
    &&& vstd::utf8::valid_utf8(r.kind)
    &&& vstd::utf8::valid_utf8(r.sdp)
    &&& vstd::utf8::valid_utf8(r.id)
}

pub open spec fn payload_view_of(r: RawPayload) -> crate::types::SdpPayloadV {
    crate::types::SdpPayloadV {
        sdp: crate::types::SessionDescriptionV {
            kind: vstd::utf8::decode_utf8(r.kind),
            sdp: vstd::utf8::decode_utf8(r.sdp),
        },
        id: vstd::utf8::decode_utf8(r.id),
        ts: r.ts,
    }
}

pub open spec fn raw_candidate_ok(r: RawCandidate) -> bool {
    &&& vstd::utf8::valid_utf8(r.candidate)
    &&& vstd::utf8::valid_utf8(r.connection_id)
    &&& match r.sdp_mid {
        Option::Some(m) => vstd::utf8::valid_utf8(m),
        Option::None => true,
    }
}

pub open spec fn candidate_view_of(r: RawCandidate) -> crate::types::IceCandidateV {
    crate::types::IceCandidateV {
        candidate: vstd::utf8::decode_utf8(r.candidate),
        sdp_mid: match r.sdp_mid {
            Option::Some(m) => Option::Some(vstd::utf8::decode_utf8(m)),
            Option::None => Option::None,
        },
        sdp_mline_index: r.sdp_mline_index,
        connection_id: vstd::utf8::decode_utf8(r.connection_id),
    }
}

/// What a complete JSON text means as a trickle envelope, if anything.
pub open spec fn payload_of_json(j: Seq<u8>) -> Option<crate::types::SdpPayloadV> {
    match parse_payload(j) {
        Option::None => None,
        Option::Some((raw, rest)) => if rest.len() == 0 && raw_payload_ok(raw) {
            Some(payload_view_of(raw))
        } else {
            None
        },
    }
}

pub open spec fn raw_cands_ok(rs: Seq<RawCandidate>) -> bool {
    forall|i: int| 0 <= i < rs.len() ==> raw_candidate_ok(#[trigger] rs[i])
}

/// What a complete JSON text means as a bundle envelope, if anything.
pub open spec fn bundle_of_json(j: Seq<u8>) -> Option<crate::types::ConnectionBundleV> {
    match parse_bundle(j) {
        Option::None => None,
        Option::Some(((p, cs), rest)) => if rest.len() == 0 && raw_payload_ok(p) && raw_cands_ok(
            cs,
        ) {
            Some(
                crate::types::ConnectionBundleV {
                    sdp_payload: payload_view_of(p),
                    ice_candidates: Seq::new(cs.len(), |i: int| candidate_view_of(cs[i])),
                },
            )
        } else {
            None
        },
    }
}

/// Decoding undoes encoding for every trickle envelope.
pub proof fn lemma_payload_json_round_trip(p: crate::types::SdpPayloadV)
    ensures
        payload_of_json(json_of_payload(p)) == Some(p),
{
    broadcast use vstd::utf8::encode_utf8_valid_utf8, vstd::utf8::encode_utf8_decode_utf8;

    lemma_parse_payload_inverts(p, Seq::empty());
    assert(json_of_payload(p) + Seq::empty() =~= json_of_payload(p));
    let raw = raw_of_payload(p);
    assert(raw_payload_ok(raw));
    assert(payload_view_of(raw) == p);
}

/// Decoding undoes encoding for every bundle envelope.
pub proof fn lemma_bundle_json_round_trip(b: crate::types::ConnectionBundleV)
    ensures
        bundle_of_json(json_of_bundle(b)) == Some(b),
{
    broadcast use vstd::utf8::encode_utf8_valid_utf8, vstd::utf8::encode_utf8_decode_utf8;

    lemma_parse_bundle_inverts(b, Seq::empty());
    assert(json_of_bundle(b) + Seq::empty() =~= json_of_bundle(b));
    let rp = raw_of_payload(b.sdp_payload);
    let rcs = raws_of_cands(b.ice_candidates);
    assert(raw_payload_ok(rp));
    assert(raw_cands_ok(rcs));
    assert(payload_view_of(rp) == b.sdp_payload);
    assert(Seq::new(rcs.len(), |i: int| candidate_view_of(rcs[i])) =~= b.ice_candidates);
}


// ---------- executable printers ----------

fn lit_payload_open_bytes() -> (r: Vec<u8>)
    ensures
        r@ == lit_payload_open(),
{
    let mut v: Vec<u8> = Vec::new();
    v.push(0x7b);
    v.push(0x22);
    v.push(0x73);
    v.push(0x64);
    v.push(0x70);
    v.push(0x22);
    v.push(0x3a);
    v.push(0x7b);
    v.push(0x22);
    v.push(0x74);
    v.push(0x79);
    v.push(0x70);
    v.push(0x65);
    v.push(0x22);
    v.push(0x3a);
    proof {
        assert(v@ =~= lit_payload_open());
    }
    v
}

fn lit_sdp_key_bytes() -> (r: Vec<u8>)
    ensures
        r@ == lit_sdp_key(),
{
    let mut v: Vec<u8> = Vec::new();
    v.push(0x2c);
    v.push(0x22);
    v.push(0x73);
    v.push(0x64);
    v.push(0x70);
    v.push(0x22);
    v.push(0x3a);
    proof {
        assert(v@ =~= lit_sdp_key());
    }
    v
}

fn lit_id_key_bytes() -> (r: Vec<u8>)
    ensures
        r@ == lit_id_key(),
{
    let mut v: Vec<u8> = Vec::new();
    v.push(0x7d);
    v.push(0x2c);
    v.push(0x22);
    v.push(0x69);
    v.push(0x64);
    v.push(0x22);
    v.push(0x3a);
    proof {
        assert(v@ =~= lit_id_key());
    }
    v
}

fn lit_ts_key_bytes() -> (r: Vec<u8>)
    ensures
        r@ == lit_ts_key(),
{
    let mut v: Vec<u8> = Vec::new();
    v.push(0x2c);
    v.push(0x22);
    v.push(0x74);
    v.push(0x73);
    v.push(0x22);
    v.push(0x3a);
    proof {
        assert(v@ =~= lit_ts_key());
    }
    v
}

fn lit_bundle_open_bytes() -> (r: Vec<u8>)
    ensures
        r@ == lit_bundle_open(),
{
    let mut v: Vec<u8> = Vec::new();
    v.push(0x7b);
    v.push(0x22);
    v.push(0x73);
    v.push(0x64);
    v.push(0x70);
    v.push(0x5f);
    v.push(0x70);
    v.push(0x61);
    v.push(0x79);
    v.push(0x6c);
    v.push(0x6f);
    v.push(0x61);
    v.push(0x64);
    v.push(0x22);
    v.push(0x3a);
    proof {
        assert(v@ =~= lit_bundle_open());
    }
    v
}

fn lit_cands_key_bytes() -> (r: Vec<u8>)
    ensures
        r@ == lit_cands_key(),
{
    let mut v: Vec<u8> = Vec::new();
    v.push(0x2c);
    v.push(0x22);
    v.push(0x69);
    v.push(0x63);
    v.push(0x65);
    v.push(0x5f);
    v.push(0x63);
    v.push(0x61);
    v.push(0x6e);
    v.push(0x64);
    v.push(0x69);
    v.push(0x64);
    v.push(0x61);
    v.push(0x74);
    v.push(0x65);
    v.push(0x73);
    v.push(0x22);
    v.push(0x3a);
    proof {
        assert(v@ =~= lit_cands_key());
    }
    v
}

fn lit_cand_open_bytes() -> (r: Vec<u8>)
    ensures
        r@ == lit_cand_open(),
{
    let mut v: Vec<u8> = Vec::new();
    v.push(0x7b);
    v.push(0x22);
    v.push(0x63);
    v.push(0x61);
    v.push(0x6e);
    v.push(0x64);
    v.push(0x69);
    v.push(0x64);
    v.push(0x61);
    v.push(0x74);
    v.push(0x65);
    v.push(0x22);
    v.push(0x3a);
    proof {
        assert(v@ =~= lit_cand_open());
    }
    v
}

fn lit_mid_key_bytes() -> (r: Vec<u8>)
    ensures
        r@ == lit_mid_key(),
{
    let mut v: Vec<u8> = Vec::new();
    v.push(0x2c);
    v.push(0x22);
    v.push(0x73);
    v.push(0x64);
    v.push(0x70);
    v.push(0x5f);
    v.push(0x6d);
    v.push(0x69);
    v.push(0x64);
    v.push(0x22);
    v.push(0x3a);
    proof {
        assert(v@ =~= lit_mid_key());
    }
    v
}

fn lit_mline_key_bytes() -> (r: Vec<u8>)
    ensures
        r@ == lit_mline_key(),
{
    let mut v: Vec<u8> = Vec::new();
    v.push(0x2c);
    v.push(0x22);
    v.push(0x73);
    v.push(0x64);
    v.push(0x70);
    v.push(0x5f);
    v.push(0x6d);
    v.push(0x6c);
    v.push(0x69);
    v.push(0x6e);
    v.push(0x65);
    v.push(0x5f);
    v.push(0x69);
    v.push(0x6e);
    v.push(0x64);
    v.push(0x65);
    v.push(0x78);
    v.push(0x22);
    v.push(0x3a);
    proof {
        assert(v@ =~= lit_mline_key());
    }
    v
}

fn lit_connid_key_bytes() -> (r: Vec<u8>)
    ensures
        r@ == lit_connid_key(),
{
    let mut v: Vec<u8> = Vec::new();
    v.push(0x2c);
    v.push(0x22);
    v.push(0x63);
    v.push(0x6f);
    v.push(0x6e);
    v.push(0x6e);
    v.push(0x65);
    v.push(0x63);
    v.push(0x74);
    v.push(0x69);
    v.push(0x6f);
    v.push(0x6e);
    v.push(0x5f);
    v.push(0x69);
    v.push(0x64);
    v.push(0x22);
    v.push(0x3a);
    proof {
        assert(v@ =~= lit_connid_key());
    }
    v
}

fn lit_null_bytes() -> (r: Vec<u8>)
    ensures
        r@ == lit_null(),
{
    let mut v: Vec<u8> = Vec::new();
    v.push(0x6e);
    v.push(0x75);
    v.push(0x6c);
    v.push(0x6c);
    proof {
        assert(v@ =~= lit_null());
    }
    v
}


/// Appends a full JSON string for `content` to `out`.
fn push_json_string(out: &mut Vec<u8>, content: &[u8])
    ensures
        final(out)@ == old(out)@ + json_string(content@),
{
    out.push(QUOTE);
    push_escaped(out, content);
    out.push(QUOTE);
    proof {
        assert(final(out)@ =~= old(out)@ + json_string(content@));
    }
}

/// Appends the decimal rendering of `v` to `out`.
fn push_dec_i64(out: &mut Vec<u8>, v: i64)
    ensures
        final(out)@ == old(out)@ + dec_i64(v),
{
    if v >= 0 {
        push_dec_u64(out, v as u64);
    } else {
        out.push(MINUS);
        let mag: u64 = if v == i64::MIN {
            9223372036854775808u64
        } else {
            (-v) as u64
        };
        proof {
            assert(mag as nat == (-(v as int)) as nat);
        }
        push_dec_u64(out, mag);
        proof {
            assert(old(out)@.push(MINUS) + dec_digits(mag as nat) =~= old(out)@ + dec_i64(v));
        }
    }
}

/// The JSON text of a trickle envelope.
pub fn payload_to_json(p: &crate::types::SdpPayload) -> (r: Vec<u8>)
    ensures
        r@ == json_of_payload(p@),
{
    let mut out: Vec<u8> = Vec::new();
    let mut lit = lit_payload_open_bytes();
    out.append(&mut lit);
    push_json_string(&mut out, p.sdp.kind.as_str().as_bytes());
    let mut lit = lit_sdp_key_bytes();
    out.append(&mut lit);
    push_json_string(&mut out, p.sdp.sdp.as_str().as_bytes());
    let mut lit = lit_id_key_bytes();
    out.append(&mut lit);
    push_json_string(&mut out, p.id.as_str().as_bytes());
    let mut lit = lit_ts_key_bytes();
    out.append(&mut lit);
    push_dec_i64(&mut out, p.ts);
    out.push(RBRACE);
    proof {
        assert(out@ =~= json_of_payload(p@));
    }
    out
}

/// Appends the JSON text of an optional string field.
fn push_opt_string(out: &mut Vec<u8>, o: &Option<String>)
    ensures
        final(out)@ == old(out)@ + json_of_opt_string(
            match o {
                Option::Some(s) => Option::Some(s@),
                Option::None => Option::None,
            },
        ),
{
    match o {
        Option::Some(s) => {
            push_json_string(out, s.as_str().as_bytes());
        },
        Option::None => {
            let mut lit = lit_null_bytes();
            out.append(&mut lit);
        },
    }
}

/// Appends the JSON text of one candidate record.
fn push_candidate(out: &mut Vec<u8>, c: &crate::types::IceCandidate)
    ensures
        final(out)@ == old(out)@ + json_of_candidate(c@),
{
    let mut lit = lit_cand_open_bytes();
    out.append(&mut lit);
    push_json_string(out, c.candidate.as_str().as_bytes());
    let mut lit = lit_mid_key_bytes();
    out.append(&mut lit);
    push_opt_string(out, &c.sdp_mid);
    let mut lit = lit_mline_key_bytes();
    out.append(&mut lit);
    match c.sdp_mline_index {
        Option::Some(v) => {
            push_dec_u64(out, v as u64);
            proof {
                assert(dec_digits((v as u64) as nat) == json_of_opt_u16(Option::Some(v)));
            }
        },
        Option::None => {
            let mut lit = lit_null_bytes();
            out.append(&mut lit);
        },
    }
    let mut lit = lit_connid_key_bytes();
    out.append(&mut lit);
    push_json_string(out, c.connection_id.as_str().as_bytes());
    out.push(RBRACE);
    proof {
        assert(final(out)@ =~= old(out)@ + json_of_candidate(c@));
    }
}

pub proof fn lemma_json_items_snoc(cs: Seq<crate::types::IceCandidateV>, c: crate::types::IceCandidateV)
    requires
        cs.len() >= 1,
    ensures
        json_of_cand_items(cs.push(c)) == json_of_cand_items(cs) + seq![COMMA] + json_of_candidate(
            c,
        ),
    decreases cs.len(),
{
    let sp = cs.push(c);
    if cs.len() == 1 {
        assert(sp[0] == cs[0]);
        assert(sp.drop_first() =~= seq![c]);
        assert(json_of_cand_items(sp.drop_first()) == json_of_candidate(c));
        assert(json_of_cand_items(sp) =~= json_of_cand_items(cs) + seq![COMMA]
            + json_of_candidate(c));
    } else {
        assert(sp[0] == cs[0]);
        assert(sp.drop_first() =~= cs.drop_first().push(c));
        lemma_json_items_snoc(cs.drop_first(), c);
        assert(json_of_candidate(sp[0]) + seq![COMMA] + (json_of_cand_items(cs.drop_first())
            + seq![COMMA] + json_of_candidate(c)) =~= json_of_cand_items(cs) + seq![COMMA]
            + json_of_candidate(c));
    }
}

/// The JSON text of a bundle envelope.
pub fn bundle_to_json(b: &crate::types::ConnectionBundle) -> (r: Vec<u8>)
    ensures
        r@ == json_of_bundle(b@),
{
    let mut out: Vec<u8> = Vec::new();
    let mut lit = lit_bundle_open_bytes();
    out.append(&mut lit);
    let mut payload_json = payload_to_json(&b.sdp_payload);
    out.append(&mut payload_json);
    let mut lit = lit_cands_key_bytes();
    out.append(&mut lit);
    let ghost base = out@;
    let ghost cviews = b@.ice_candidates;
    out.push(LBRACKET);
    if b.ice_candidates.len() == 0 {
        out.push(RBRACKET);
        proof {
            assert(out@ =~= base + json_of_cand_list(cviews));
        }
    } else {
        push_candidate(&mut out, &b.ice_candidates[0]);
        proof {
            assert(cviews.take(1) =~= seq![cviews[0]]);
            assert(json_of_cand_items(cviews.take(1)) == json_of_candidate(cviews[0]));
            assert(out@ =~= base + seq![LBRACKET] + json_of_cand_items(cviews.take(1)));
        }
        let mut i: usize = 1;
        while i < b.ice_candidates.len()
            invariant
                1 <= i <= cviews.len(),
                cviews == b@.ice_candidates,
                cviews.len() == b.ice_candidates@.len(),
                forall|k: int| 0 <= k < cviews.len() ==> cviews[k] == #[trigger] b.ice_candidates@[k]@,
                out@ == base + seq![LBRACKET] + json_of_cand_items(cviews.take(i as int)),
            decreases cviews.len() - i,
        {
            out.push(COMMA);
            proof {
                assert(out@ =~= base + seq![LBRACKET] + (json_of_cand_items(cviews.take(i as int))
                    + seq![COMMA]));
            }
            push_candidate(&mut out, &b.ice_candidates[i]);
            i = i + 1;
            proof {
                let prev = cviews.take(i as int - 1);
                assert(cviews.take(i as int) =~= prev.push(cviews[i as int - 1]));
                lemma_json_items_snoc(prev, cviews[i as int - 1]);
                assert(out@ =~= base + seq![LBRACKET] + json_of_cand_items(cviews.take(i as int)));
            }
        }
        out.push(RBRACKET);
        proof {
            assert(cviews.take(cviews.len() as int) =~= cviews);
            assert(out@ =~= base + json_of_cand_list(cviews));
        }
    }
    out.push(RBRACE);
    proof {
        assert(out@ =~= json_of_bundle(b@));
    }
    out
}


// ---------- executable parsers ----------

/// Consumes the exact literal `lit` at `start`.
fn expect_lit(buf: &[u8], start: usize, lit: &[u8]) -> (r: Option<usize>)
    requires
        start <= buf@.len(),
    ensures
        ({
            let se = expect(buf@.skip(start as int), lit@);
            match r {
                Some(j) => se matches Some(rr) && rr == buf@.skip(j as int) && start <= j
                    <= buf@.len(),
                None => se is None,
            }
        }),
{
    let ghost s = buf@.skip(start as int);
    if buf.len() - start < lit.len() {
        proof {
            assert(lit@.len() > s.len());
        }
        return None;
    }
    let ok = crate::strutil::match_at(buf, lit, start);
    proof {
        assert(s.take(lit@.len() as int) =~= buf@.subrange(start as int, start + lit@.len() as int));
    }
    if ok {
        proof {
            assert(s.skip(lit@.len() as int) =~= buf@.skip(start + lit@.len() as int));
        }
        Some(start + lit.len())
    } else {
        None
    }
}

/// Parses a quoted JSON string at `start`, returning its raw content.
fn parse_json_string(buf: &[u8], start: usize) -> (r: Option<(Vec<u8>, usize)>)
    requires
        start <= buf@.len(),
    ensures
        ({
            let sr = parse_string(buf@.skip(start as int));
            match r {
                Some((c, j)) => sr matches Some(p) && p.0 == c@ && p.1 == buf@.skip(j as int)
                    && start <= j <= buf@.len(),
                None => sr is None,
            }
        }),
{
    let ghost s = buf@.skip(start as int);
    if start < buf.len() && buf[start] == QUOTE {
        proof {
            assert(s[0] == buf@[start as int]);
            assert(s.drop_first() =~= buf@.skip(start as int + 1));
        }
        parse_string_body(buf, start + 1)
    } else {
        proof {
            if s.len() > 0 {
                assert(s[0] == buf@[start as int]);
            }
        }
        None
    }
}

/// Parses a decimal signed 64-bit value at `start`.
fn parse_i64_bytes(buf: &[u8], start: usize) -> (r: Option<(i64, usize)>)
    requires
        start <= buf@.len(),
    ensures
        ({
            let sr = parse_i64(buf@.skip(start as int));
            match r {
                Some((v, j)) => sr matches Some(p) && p.0 == v && p.1 == buf@.skip(j as int)
                    && start <= j <= buf@.len(),
                None => sr is None,
            }
        }),
{
    let ghost s = buf@.skip(start as int);
    proof {
        if s.len() > 0 {
            assert(s[0] == buf@[start as int]);
        }
        if s.len() > 1 {
            assert(s[1] == buf@[start as int + 1]);
        }
    }
    if start < buf.len() && buf[start] == MINUS {
        if start + 1 < buf.len() && is_digit_b(buf[start + 1]) {
            proof {
                assert(s.skip(1) =~= buf@.skip(start as int + 1));
            }
            match parse_number_u64(buf, start + 1) {
                Some((v, j)) => {
                    if v > 0x8000000000000000u64 {
                        None
                    } else if v == 0x8000000000000000u64 {
                        Some((i64::MIN, j))
                    } else {
                        Some((-(v as i64), j))
                    }
                },
                None => {
                    proof {
                        let (sv, _) = parse_digits(buf@.skip(start as int + 1), 0);
                        assert(sv > u64::MAX);
                    }
                    None
                },
            }
        } else {
            None
        }
    } else if start < buf.len() && is_digit_b(buf[start]) {
        match parse_number_u64(buf, start) {
            Some((v, j)) => {
                if v <= i64::MAX as u64 {
                    Some((v as i64, j))
                } else {
                    None
                }
            },
            None => {
                proof {
                    let (sv, _) = parse_digits(buf@.skip(start as int), 0);
                    assert(sv > u64::MAX);
                }
                None
            },
        }
    } else {
        None
    }
}

/// Parses a string or `null` at `start`.
fn parse_opt_string_bytes(buf: &[u8], start: usize) -> (r: Option<(Option<Vec<u8>>, usize)>)
    requires
        start <= buf@.len(),
    ensures
        ({
            let sr = parse_opt_string(buf@.skip(start as int));
            match r {
                Some((c, j)) => sr matches Some(p) && p.0 == (match c {
                    Option::Some(v) => Option::Some(v@),
                    Option::None => Option::None,
                }) && p.1 == buf@.skip(j as int) && start <= j <= buf@.len(),
                None => sr is None,
            }
        }),
{
    let ghost s = buf@.skip(start as int);
    proof {
        if s.len() > 0 {
            assert(s[0] == buf@[start as int]);
        }
    }
    if start < buf.len() && buf[start] == QUOTE {
        proof {
            assert(s.drop_first() =~= buf@.skip(start as int + 1));
        }
        match parse_string_body(buf, start + 1) {
            Some((c, j)) => Some((Some(c), j)),
            None => None,
        }
    } else {
        let lit = lit_null_bytes();
        match expect_lit(buf, start, lit.as_slice()) {
            Some(j) => Some((None, j)),
            None => None,
        }
    }
}

/// Parses a 16-bit index or `null` at `start`.
fn parse_opt_u16_bytes(buf: &[u8], start: usize) -> (r: Option<(Option<u16>, usize)>)
    requires
        start <= buf@.len(),
    ensures
        ({
            let sr = parse_opt_u16(buf@.skip(start as int));
            match r {
                Some((c, j)) => sr matches Some(p) && p.0 == c && p.1 == buf@.skip(j as int)
                    && start <= j <= buf@.len(),
                None => sr is None,
            }
        }),
{
    let ghost s = buf@.skip(start as int);
    proof {
        if s.len() > 0 {
            assert(s[0] == buf@[start as int]);
        }
    }
    if start < buf.len() && is_digit_b(buf[start]) {
        match parse_number_u64(buf, start) {
            Some((v, j)) => {
                if v <= u16::MAX as u64 {
                    Some((Some(v as u16), j))
                } else {
                    None
                }
            },
            None => {
                proof {
                    let (sv, _) = parse_digits(buf@.skip(start as int), 0);
                    assert(sv > u64::MAX);
                }
                None
            },
        }
    } else {
        let lit = lit_null_bytes();
        match expect_lit(buf, start, lit.as_slice()) {
            Some(j) => Some((None, j)),
            None => None,
        }
    }
}

/// The byte fields parsed out of a trickle envelope.
pub struct RawPayloadBytes {
    pub kind: Vec<u8>,
    pub sdp: Vec<u8>,
    pub id: Vec<u8>,
    pub ts: i64,
}

impl View for RawPayloadBytes {
    type V = RawPayload;

    open spec fn view(&self) -> RawPayload {
        RawPayload { kind: self.kind@, sdp: self.sdp@, id: self.id@, ts: self.ts }
    }
}

/// The byte fields parsed out of one candidate record.
pub struct RawCandidateBytes {
    pub candidate: Vec<u8>,
    pub sdp_mid: Option<Vec<u8>>,
    pub sdp_mline_index: Option<u16>,
    pub connection_id: Vec<u8>,
}

impl View for RawCandidateBytes {
    type V = RawCandidate;

    open spec fn view(&self) -> RawCandidate {
        RawCandidate {
            candidate: self.candidate@,
            sdp_mid: match self.sdp_mid {
                Option::Some(ref m) => Option::Some(m@),
                Option::None => Option::None,
            },
            sdp_mline_index: self.sdp_mline_index,
            connection_id: self.connection_id@,
        }
    }
}

/// Parses a trickle envelope object at `start`.
pub fn parse_payload_bytes(buf: &[u8], start: usize) -> (r: Option<(RawPayloadBytes, usize)>)
    requires
        start <= buf@.len(),
    ensures
        ({
            let sr = parse_payload(buf@.skip(start as int));
            match r {
                Some((rp, j)) => sr matches Some(p) && p.0 == rp@ && p.1 == buf@.skip(j as int)
                    && start <= j <= buf@.len(),
                None => sr is None,
            }
        }),
{
    let lit = lit_payload_open_bytes();
    let j1 = match expect_lit(buf, start, lit.as_slice()) {
        Some(j) => j,
        None => {
            return None;
        },
    };
    let (kind, j2) = match parse_json_string(buf, j1) {
        Some(p) => p,
        None => {
            return None;
        },
    };
    let lit = lit_sdp_key_bytes();
    let j3 = match expect_lit(buf, j2, lit.as_slice()) {
        Some(j) => j,
        None => {
            return None;
        },
    };
    let (sdp, j4) = match parse_json_string(buf, j3) {
        Some(p) => p,
        None => {
            return None;
        },
    };
    let lit = lit_id_key_bytes();
    let j5 = match expect_lit(buf, j4, lit.as_slice()) {
        Some(j) => j,
        None => {
            return None;
        },
    };
    let (id, j6) = match parse_json_string(buf, j5) {
        Some(p) => p,
        None => {
            return None;
        },
    };
    let lit = lit_ts_key_bytes();
    let j7 = match expect_lit(buf, j6, lit.as_slice()) {
        Some(j) => j,
        None => {
            return None;
        },
    };
    let (ts, j8) = match parse_i64_bytes(buf, j7) {
        Some(p) => p,
        None => {
            return None;
        },
    };
    if j8 < buf.len() && buf[j8] == RBRACE {
        proof {
            let s8 = buf@.skip(j8 as int);
            assert(s8[0] == buf@[j8 as int]);
            assert(s8.drop_first() =~= buf@.skip(j8 as int + 1));
        }
        Some((RawPayloadBytes { kind, sdp, id, ts }, j8 + 1))
    } else {
        proof {
            let s8 = buf@.skip(j8 as int);
            if s8.len() > 0 {
                assert(s8[0] == buf@[j8 as int]);
            }
        }
        None
    }
}

/// Parses one candidate object at `start`.
fn parse_candidate_bytes(buf: &[u8], start: usize) -> (r: Option<(RawCandidateBytes, usize)>)
    requires
        start <= buf@.len(),
    ensures
        ({
            let sr = parse_candidate(buf@.skip(start as int));
            match r {
                Some((rc, j)) => sr matches Some(p) && p.0 == rc@ && p.1 == buf@.skip(j as int)
                    && start <= j <= buf@.len(),
                None => sr is None,
            }
        }),
{
    let lit = lit_cand_open_bytes();
    let j1 = match expect_lit(buf, start, lit.as_slice()) {
        Some(j) => j,
        None => {
            return None;
        },
    };
    let (cand, j2) = match parse_json_string(buf, j1) {
        Some(p) => p,
        None => {
            return None;
        },
    };
    let lit = lit_mid_key_bytes();
    let j3 = match expect_lit(buf, j2, lit.as_slice()) {
        Some(j) => j,
        None => {
            return None;
        },
    };
    let (mid, j4) = match parse_opt_string_bytes(buf, j3) {
        Some(p) => p,
        None => {
            return None;
        },
    };
    let lit = lit_mline_key_bytes();
    let j5 = match expect_lit(buf, j4, lit.as_slice()) {
        Some(j) => j,
        None => {
            return None;
        },
    };
    let (mline, j6) = match parse_opt_u16_bytes(buf, j5) {
        Some(p) => p,
        None => {
            return None;
        },
    };
    let lit = lit_connid_key_bytes();
    let j7 = match expect_lit(buf, j6, lit.as_slice()) {
        Some(j) => j,
        None => {
            return None;
        },
    };
    let (connid, j8) = match parse_json_string(buf, j7) {
        Some(p) => p,
        None => {
            return None;
        },
    };
    if j8 < buf.len() && buf[j8] == RBRACE {
        proof {
            let s8 = buf@.skip(j8 as int);
            assert(s8[0] == buf@[j8 as int]);
            assert(s8.drop_first() =~= buf@.skip(j8 as int + 1));
        }
        Some(
            (
                RawCandidateBytes {
                    candidate: cand,
                    sdp_mid: mid,
                    sdp_mline_index: mline,
                    connection_id: connid,
                },
                j8 + 1,
            ),
        )
    } else {
        proof {
            let s8 = buf@.skip(j8 as int);
            if s8.len() > 0 {
                assert(s8[0] == buf@[j8 as int]);
            }
        }
        None
    }
}

/// The views of a sequence of parsed candidate records.
pub open spec fn views_of_raw_cands(s: Seq<RawCandidateBytes>) -> Seq<RawCandidate> {
    Seq::new(s.len(), |i: int| s[i]@)
}

/// Parses the candidate array at `start`.
#[verifier::rlimit(100)]
fn parse_cand_list_bytes(buf: &[u8], start: usize) -> (r: Option<(Vec<RawCandidateBytes>, usize)>)
    requires
        start <= buf@.len(),
    ensures
        ({
            let sr = parse_cand_list(buf@.skip(start as int));
            match r {
                Some((cs, j)) => sr matches Some(p) && p.0 == views_of_raw_cands(cs@) && p.1
                    == buf@.skip(j as int) && start <= j <= buf@.len(),
                None => sr is None,
            }
        }),
{
    let ghost s = buf@.skip(start as int);
    proof {
        if s.len() > 0 {
            assert(s[0] == buf@[start as int]);
        }
        if s.len() > 1 {
            assert(s[1] == buf@[start as int + 1]);
        }
    }
    if !(start < buf.len() && buf[start] == LBRACKET) {
        return None;
    }
    if start + 1 < buf.len() && buf[start + 1] == RBRACKET {
        proof {
            assert(s.skip(2) =~= buf@.skip(start as int + 2));
            assert(views_of_raw_cands(Seq::<RawCandidateBytes>::empty()) =~= Seq::<
                RawCandidate,
            >::empty());
        }
        return Some((Vec::new(), start + 2));
    }
    let ghost items_start = start + 1;
    proof {
        assert(s.skip(1) =~= buf@.skip(start as int + 1));
    }
    let mut out: Vec<RawCandidateBytes> = Vec::new();
    let mut i: usize = start + 1;
    loop
        invariant
            items_start == start + 1,
            start + 1 <= i <= buf@.len(),
            parse_cand_list(buf@.skip(start as int)) == parse_cand_items(buf@.skip(items_start)),
            ({
                let whole = parse_cand_items(buf@.skip(items_start));
                let sub = parse_cand_items(buf@.skip(i as int));
                match sub {
                    Option::Some(p) => whole matches Some(w) && w.0 == views_of_raw_cands(out@)
                        + p.0 && w.1 == p.1,
                    Option::None => whole is None,
                }
            }),
        decreases buf@.len() - i,
    {
        let (c, j) = match parse_candidate_bytes(buf, i) {
            Some(p) => p,
            None => {
                return None;
            },
        };
        let ghost si = buf@.skip(i as int);
        let ghost s2 = buf@.skip(j as int);
        proof {
            if s2.len() > 0 {
                assert(s2[0] == buf@[j as int]);
            }
        }
        if j < buf.len() && buf[j] == COMMA && j > i {
            proof {
                assert(s2.len() < si.len());
                assert(s2.skip(1) =~= buf@.skip(j as int + 1));
            }
            out.push(c);
            proof {
                let sub2 = parse_cand_items(buf@.skip(j as int + 1));
                if sub2 is Some {
                    let p2 = sub2->Some_0;
                    assert(parse_cand_items(si) == Some(
                        (seq![c@] + p2.0, p2.1),
                    ));
                    assert(views_of_raw_cands(out@) =~= views_of_raw_cands(out@.drop_last())
                        + seq![c@]);
                    assert(views_of_raw_cands(out@.drop_last()) + (seq![c@] + p2.0)
                        =~= views_of_raw_cands(out@) + p2.0);
                }
            }
            i = j + 1;
        } else if j < buf.len() && buf[j] == RBRACKET {
            proof {
                assert(s2.drop_first() =~= buf@.skip(j as int + 1));
                assert(parse_cand_items(si) == Some((seq![c@], s2.drop_first())));
            }
            out.push(c);
            proof {
                assert(views_of_raw_cands(out@) =~= views_of_raw_cands(out@.drop_last())
                    + seq![c@]);
            }
            return Some((out, j + 1));
        } else {
            return None;
        }
    }
}

/// Parses a bundle envelope object at `start`.
pub fn parse_bundle_bytes(buf: &[u8], start: usize) -> (r: Option<
    ((RawPayloadBytes, Vec<RawCandidateBytes>), usize),
>)
    requires
        start <= buf@.len(),
    ensures
        ({
            let sr = parse_bundle(buf@.skip(start as int));
            match r {
                Some(((rp, cs), j)) => sr matches Some(p) && p.0.0 == rp@ && p.0.1
                    == views_of_raw_cands(cs@) && p.1 == buf@.skip(j as int) && start <= j
                    <= buf@.len(),
                None => sr is None,
            }
        }),
{
    let lit = lit_bundle_open_bytes();
    let j1 = match expect_lit(buf, start, lit.as_slice()) {
        Some(j) => j,
        None => {
            return None;
        },
    };
    let (p, j2) = match parse_payload_bytes(buf, j1) {
        Some(p) => p,
        None => {
            return None;
        },
    };
    let lit = lit_cands_key_bytes();
    let j3 = match expect_lit(buf, j2, lit.as_slice()) {
        Some(j) => j,
        None => {
            return None;
        },
    };
    let (cs, j4) = match parse_cand_list_bytes(buf, j3) {
        Some(p) => p,
        None => {
            return None;
        },
    };
    if j4 < buf.len() && buf[j4] == RBRACE {
        proof {
            let s4 = buf@.skip(j4 as int);
            assert(s4[0] == buf@[j4 as int]);
            assert(s4.drop_first() =~= buf@.skip(j4 as int + 1));
        }
        Some(((p, cs), j4 + 1))
    } else {
        proof {
            let s4 = buf@.skip(j4 as int);
            if s4.len() > 0 {
                assert(s4[0] == buf@[j4 as int]);
            }
        }
        None
    }
}

} // verus!
