//! The session cipher: ephemeral X25519 agreement, HKDF-SHA-256 key
//! derivation split into two directional keys, the short authentication
//! string, and the ChaCha20-Poly1305 message channel with
//! sequence-number nonces and a replay floor.

use vstd::prelude::*;
use vstd::slice::{slice_subrange, slice_to_vec};
use crate::hexfmt::{hex_of, lemma_hex_ascii_len};
use chacha20poly1305::aead::{Aead, KeyInit};
use sha2::Digest;
use zeroize::Zeroize;

verus! {

/// The ChaCha20-Poly1305 authentication tag length in bytes.
pub const TAG_LEN: usize = 16;

// ---------- names for what the outside crypto calls return ----------

/// What HKDF-SHA-256 with an absent salt expands `ikm` and `info` to,
/// when asked for 64 bytes of output keying material.
pub uninterp spec fn hkdf64_of(ikm: Seq<u8>, info: Seq<u8>) -> Seq<u8>;

/// The SHA-256 digest of `data`.
pub uninterp spec fn sha256_of(data: Seq<u8>) -> Seq<u8>;

/// The ChaCha20-Poly1305 ciphertext (tag appended) for the given key,
/// nonce and plaintext.
pub uninterp spec fn chacha_seal_of(key: Seq<u8>, nonce: Seq<u8>, plaintext: Seq<u8>) -> Seq<u8>;

// ---------- trusted wrappers over the outside crypto crates ----------

/// Relies on `hkdf::Hkdf::<Sha256>::expand`: the output keying material
/// is a function of the input keying material and the info string alone
/// (the salt is absent), and fills the 64-byte buffer handed to it.
/// Expansion fails only above 255 hash lengths of output, far beyond
/// the 64 bytes asked for here, so it cannot fail.
#[verifier::external_body]
fn hkdf_expand64(ikm: &[u8], info: &[u8]) -> (r: Vec<u8>)
    ensures
        r@ == hkdf64_of(ikm@, info@),
        r@.len() == 64,
{
    let hk = hkdf::Hkdf::<sha2::Sha256>::new(None, ikm);
    let mut okm = [0u8; 64];
    hk.expand(info, &mut okm).unwrap();
    okm.to_vec()
}

/// Relies on `sha2::Sha256::digest`: a 32-byte digest that is a function
/// of the input alone.
#[verifier::external_body]
fn sha256(data: &[u8]) -> (r: Vec<u8>)
    ensures
        r@ == sha256_of(data@),
        r@.len() == 32,
{
    sha2::Sha256::digest(data).to_vec()
}

/// The ChaCha20 block-count cap: sealing succeeds for every plaintext
/// shorter than this many bytes (the 32-bit block counter times the
/// 64-byte block).
pub const CHACHA_MAX_PLAINTEXT: u64 = 274877906880;

/// Relies on `chacha20poly1305::ChaCha20Poly1305` (`Aead::encrypt`): the
/// ciphertext is a function of key, nonce and plaintext, carries the
/// 16-byte tag appended to the plaintext length, and encryption fails
/// only when the plaintext reaches the ChaCha20 block-count cap.
#[verifier::external_body]
fn aead_seal(key: &[u8], nonce: &[u8], plaintext: &[u8]) -> (r: Option<Vec<u8>>)
    requires
        key@.len() == 32,
        nonce@.len() == 12,
    ensures
        r matches Some(c) ==> c@ == chacha_seal_of(key@, nonce@, plaintext@),
        r matches Some(c) ==> c@.len() == plaintext@.len() + 16,
        plaintext@.len() < CHACHA_MAX_PLAINTEXT ==> r is Some,
{
    let cipher = match chacha20poly1305::ChaCha20Poly1305::new_from_slice(key) {
        Ok(c) => c,
        Err(_) => return None,
    };
    let nonce_arr = match chacha20poly1305::Nonce::try_from(nonce) {
        Ok(n) => n,
        Err(_) => return None,
    };
    cipher.encrypt(&nonce_arr, plaintext).ok()
}

/// Relies on `chacha20poly1305::ChaCha20Poly1305` (`Aead::decrypt`)
/// being the authenticated inverse of `encrypt`: it succeeds exactly on
/// ciphertexts produced under the same key and nonce, and then returns
/// the plaintext that was sealed.
#[verifier::external_body]
fn aead_open(key: &[u8], nonce: &[u8], ciphertext: &[u8]) -> (r: Option<Vec<u8>>)
    requires
        key@.len() == 32,
        nonce@.len() == 12,
    ensures
        r matches Some(p) ==> ciphertext@ == chacha_seal_of(key@, nonce@, p@),
        r matches Some(p) ==> ciphertext@.len() == p@.len() + 16,
        r is None ==> forall|p: Seq<u8>| ciphertext@ != chacha_seal_of(key@, nonce@, p),
        r matches Some(q) ==> forall|p: Seq<u8>|
            ciphertext@ == chacha_seal_of(key@, nonce@, p) ==> q@ == p,
{
    let cipher = match chacha20poly1305::ChaCha20Poly1305::new_from_slice(key) {
        Ok(c) => c,
        Err(_) => return None,
    };
    let nonce_arr = match chacha20poly1305::Nonce::try_from(nonce) {
        Ok(n) => n,
        Err(_) => return None,
    };
    cipher.decrypt(&nonce_arr, ciphertext).ok()
}

#[verifier::external_type_specification]
#[verifier::external_body]
pub struct ExEphemeralPrivateKey(ring::agreement::EphemeralPrivateKey);

#[verifier::external_type_specification]
#[verifier::external_body]
pub struct ExSystemRandom(ring::rand::SystemRandom);

/// Relies on `ring::rand::SystemRandom::new`.
#[verifier::external_body]
pub fn new_system_random() -> ring::rand::SystemRandom {
    ring::rand::SystemRandom::new()
}

/// Relies on `ring::agreement::EphemeralPrivateKey::generate` for X25519.
/// Nothing is promised of the freshly drawn key.
#[verifier::external_body]
pub fn x25519_generate(rng: &ring::rand::SystemRandom) -> (r: Option<
    ring::agreement::EphemeralPrivateKey,
>) {
    ring::agreement::EphemeralPrivateKey::generate(&ring::agreement::X25519, rng).ok()
}

/// Relies on `ring::agreement::EphemeralPrivateKey::compute_public_key`:
/// an X25519 public key is 32 bytes.
#[verifier::external_body]
pub fn x25519_public(key: &ring::agreement::EphemeralPrivateKey) -> (r: Option<Vec<u8>>)
    ensures
        r matches Some(p) ==> p@.len() == 32,
{
    key.compute_public_key().ok().map(|p| p.as_ref().to_vec())
}

/// Relies on `ring::agreement::agree_ephemeral` for X25519: the shared
/// secret handed to the closure is 32 bytes. The private key is consumed.
#[verifier::external_body]
pub fn x25519_agree(
    my_priv: ring::agreement::EphemeralPrivateKey,
    peer_pub: &[u8],
) -> (r: Option<Vec<u8>>)
    requires
        peer_pub@.len() == 32,
    ensures
        r matches Some(s) ==> s@.len() == 32,
{
    let peer = ring::agreement::UnparsedPublicKey::new(&ring::agreement::X25519, peer_pub);
    ring::agreement::agree_ephemeral(my_priv, &peer, |s: &[u8]| s.to_vec()).ok()
}

/// Relies on `zeroize::Zeroize` for `Vec<u8>`: the contents and spare
/// capacity are zeroed, then the vector is cleared.
#[verifier::external_body]
pub fn wipe_vec(buf: &mut Vec<u8>)
    ensures
        final(buf)@.len() == 0,
{
    buf.zeroize();
}

// ---------- directional key derivation ----------

/// The ASCII bytes of the fixed HKDF info string `"ssc-chat"`.
pub open spec fn kdf_info() -> Seq<u8> {
    seq![0x73u8, 0x73u8, 0x63u8, 0x2du8, 0x63u8, 0x68u8, 0x61u8, 0x74u8]
}

/// Builds the fixed HKDF info string `"ssc-chat"` as bytes.
pub fn kdf_info_bytes() -> (r: Vec<u8>)
    ensures
        r@ == kdf_info(),
{
    let mut v: Vec<u8> = Vec::new();
    v.push(0x73);
    v.push(0x73);
    v.push(0x63);
    v.push(0x2d);
    v.push(0x63);
    v.push(0x68);
    v.push(0x61);
    v.push(0x74);
    proof {
        assert(v@ =~= kdf_info());
    }
    v
}

/// Strict lexicographic order on byte strings.
pub open spec fn lex_lt(a: Seq<u8>, b: Seq<u8>) -> bool
    decreases a.len(),
{
    if b.len() == 0 {
        false
    } else if a.len() == 0 {
        true
    } else if a[0] < b[0] {
        true
    } else if a[0] > b[0] {
        false
    } else {
        lex_lt(a.drop_first(), b.drop_first())
    }
}

/// On strings of equal length, `lex_lt` is a strict total order: of two
/// distinct strings exactly one is smaller.
pub proof fn lemma_lex_lt_total(a: Seq<u8>, b: Seq<u8>)
    requires
        a.len() == b.len(),
        a != b,
    ensures
        lex_lt(a, b) <==> !lex_lt(b, a),
    decreases a.len(),
{
    if a.len() == 0 {
        assert(a =~= b);
    } else if a[0] == b[0] {
        if a.drop_first() == b.drop_first() {
            assert forall|i: int| 0 <= i < a.len() implies a[i] == b[i] by {
                if i > 0 {
                    assert(a[i] == a.drop_first()[i - 1]);
                    assert(b[i] == b.drop_first()[i - 1]);
                }
            }
            assert(a =~= b);
        }
        lemma_lex_lt_total(a.drop_first(), b.drop_first());
    }
}

/// The first derived key half: bytes 0..32 of the HKDF output.
pub open spec fn k1_of(okm: Seq<u8>) -> Seq<u8> {
    okm.subrange(0, 32)
}

/// The second derived key half: bytes 32..64 of the HKDF output.
pub open spec fn k2_of(okm: Seq<u8>) -> Seq<u8> {
    okm.subrange(32, 64)
}

/// The 32-byte half a peer sends with: the lexicographically smaller
/// public key takes the first half.
pub open spec fn send_key_of(okm: Seq<u8>, mine: Seq<u8>, theirs: Seq<u8>) -> Seq<u8> {
    if lex_lt(mine, theirs) {
        k1_of(okm)
    } else {
        k2_of(okm)
    }
}

/// The 32-byte half a peer receives with; the mirror of `send_key_of`.
pub open spec fn recv_key_of(okm: Seq<u8>, mine: Seq<u8>, theirs: Seq<u8>) -> Seq<u8> {
    if lex_lt(mine, theirs) {
        k2_of(okm)
    } else {
        k1_of(okm)
    }
}

/// The short authentication string: lowercase hex of the first 6 bytes
/// of SHA-256 over the first derived key half — 12 characters shown to
/// both users for out-of-band comparison.
pub open spec fn sas_of(okm: Seq<u8>) -> Seq<char> {
    hex_of(sha256_of(k1_of(okm)).subrange(0, 6))
}

/// A's send key is B's receive key and vice versa, whenever the two
/// peers expand the same key material and their public keys differ.
pub proof fn lemma_directional_agreement(okm: Seq<u8>, pa: Seq<u8>, pb: Seq<u8>)
    requires
        pa.len() == 32,
        pb.len() == 32,
        pa != pb,
    ensures
        send_key_of(okm, pa, pb) == recv_key_of(okm, pb, pa),
        recv_key_of(okm, pa, pb) == send_key_of(okm, pb, pa),
{
    lemma_lex_lt_total(pa, pb);
}

/// Exact byte order comparison of two 32-byte public keys.
pub fn lex_less(a: &[u8], b: &[u8]) -> (r: bool)
    requires
        a@.len() == b@.len(),
    ensures
        r == lex_lt(a@, b@),
{
    let n = a.len();
    proof {
        assert(a@.skip(0) =~= a@);
        assert(b@.skip(0) =~= b@);
    }
    let mut i: usize = 0;
    while i < n
        invariant
            i <= n,
            n == a@.len() == b@.len(),
            lex_lt(a@, b@) == lex_lt(a@.skip(i as int), b@.skip(i as int)),
        decreases n - i,
    {
        let x = a[i];
        let y = b[i];
        proof {
            let sa = a@.skip(i as int);
            let sb = b@.skip(i as int);
            assert(sa.len() > 0);
            assert(sa[0] == a@[i as int]);
            assert(sb[0] == b@[i as int]);
            assert(sa.drop_first() =~= a@.skip(i as int + 1));
            assert(sb.drop_first() =~= b@.skip(i as int + 1));
        }
        if x < y {
            return true;
        }
        if x > y {
            return false;
        }
        i = i + 1;
    }
    proof {
        assert(a@.skip(n as int).len() == 0);
    }
    false
}

// ---------- the crypto context ----------

/// A 32-byte key slot that can be wiped in place.
pub struct ZeroizedKey {
    pub key: Vec<u8>,
}

impl ZeroizedKey {
    pub fn new(key: Vec<u8>) -> (r: Self)
        ensures
            r.key == key,
    {
        ZeroizedKey { key }
    }

    /// Relies on `zeroize::Zeroize` for `Vec<u8>`: the key bytes and any
    /// spare capacity are zeroed, then the vector is cleared.
    #[verifier::external_body]
    pub fn wipe(&mut self)
        ensures
            final(self).key@.len() == 0,
    {
        self.key.zeroize();
    }
}

/// What a derivation from given key material and public keys must yield.
pub ghost struct DerivedV {
    pub send_key: Seq<u8>,
    pub recv_key: Seq<u8>,
    pub sas: Seq<char>,
}

/// The derivation, as a function of the shared secret and the two
/// public keys.
pub open spec fn derived_of(secret: Seq<u8>, mine: Seq<u8>, theirs: Seq<u8>) -> DerivedV {
    let okm = hkdf64_of(secret, kdf_info());
    DerivedV {
        send_key: send_key_of(okm, mine, theirs),
        recv_key: recv_key_of(okm, mine, theirs),
        sas: sas_of(okm),
    }
}

/// Both sides of a handshake agree: with the same shared secret and
/// distinct public keys, each peer's send key is the other's receive
/// key, and both compute byte-identical SAS strings.
pub proof fn lemma_handshake_agreement(secret: Seq<u8>, pa: Seq<u8>, pb: Seq<u8>)
    requires
        pa.len() == 32,
        pb.len() == 32,
        pa != pb,
    ensures
        derived_of(secret, pa, pb).send_key == derived_of(secret, pb, pa).recv_key,
        derived_of(secret, pa, pb).recv_key == derived_of(secret, pb, pa).send_key,
        derived_of(secret, pa, pb).sas == derived_of(secret, pb, pa).sas,
{
    lemma_directional_agreement(hkdf64_of(secret, kdf_info()), pa, pb);
}

/// The per-session cipher state: the two directional keys, the send and
/// receive counters, the replay floor and the SAS.
pub struct CryptoCtx {
    pub send_key: ZeroizedKey,
    pub recv_key: ZeroizedKey,
    pub send_n: u64,
    pub recv_n: u64,
    pub last_accepted_recv: u64,
    pub sas: String,
}

impl CryptoCtx {
    /// Internal consistency: 32-byte keys and a receive counter one
    /// ahead of the replay floor.
    pub open spec fn wf(&self) -> bool {
        &&& self.send_key.key@.len() == 32
        &&& self.recv_key.key@.len() == 32
        &&& self.last_accepted_recv < self.recv_n
        &&& self.send_n >= 1
    }
}

/// Byte `i` (big-endian, `0 <= i < 8`) of a 64-bit counter.
pub open spec fn be_byte(n: u64, i: int) -> u8 {
    ((n >> (((7 - i) * 8) as u64)) & 0xff) as u8
}

/// The 12-byte nonce for sequence number `n`: four zero bytes followed
/// by the big-endian 64-bit counter.
pub open spec fn nonce_of(n: u64) -> Seq<u8> {
    seq![0u8, 0u8, 0u8, 0u8] + Seq::new(8, |i: int| be_byte(n, i))
}

/// Builds the nonce for sequence number `n`.
pub fn u64_to_nonce(n: u64) -> (r: Vec<u8>)
    ensures
        r@ == nonce_of(n),
        r@.len() == 12,
{
    let mut v: Vec<u8> = Vec::new();
    v.push(0);
    v.push(0);
    v.push(0);
    v.push(0);
    let mut i: usize = 0;
    while i < 8
        invariant
            i <= 8,
            v@.len() == 4 + i,
            v@ == seq![0u8, 0u8, 0u8, 0u8] + Seq::new(i as nat, |j: int| be_byte(n, j)),
        decreases 8 - i,
    {
        let shift: u64 = ((7 - i) as u64) * 8;
        let byte: u8 = ((n >> shift) & 0xff) as u8;
        proof {
            assert(shift == ((7 - i as int) * 8) as u64);
            assert(byte == be_byte(n, i as int));
        }
        v.push(byte);
        i = i + 1;
        proof {
            assert(v@ =~= seq![0u8, 0u8, 0u8, 0u8] + Seq::new(i as nat, |j: int| be_byte(n, j)));
        }
    }
    proof {
        assert(v@ =~= nonce_of(n));
    }
    v
}

/// Distinct sequence numbers give distinct nonces, so no nonce is ever
/// reused under a session key while the counter strictly increases.
pub proof fn lemma_nonce_injective(a: u64, b: u64)
    requires
        a != b,
    ensures
        nonce_of(a) != nonce_of(b),
{
    if nonce_of(a) == nonce_of(b) {
        assert forall|i: int| 0 <= i < 8 implies be_byte(a, i) == be_byte(b, i) by {
            assert(nonce_of(a)[4 + i] == be_byte(a, i));
            assert(nonce_of(b)[4 + i] == be_byte(b, i));
        }
        assert(be_byte(a, 0) == be_byte(b, 0));
        assert(be_byte(a, 1) == be_byte(b, 1));
        assert(be_byte(a, 2) == be_byte(b, 2));
        assert(be_byte(a, 3) == be_byte(b, 3));
        assert(be_byte(a, 4) == be_byte(b, 4));
        assert(be_byte(a, 5) == be_byte(b, 5));
        assert(be_byte(a, 6) == be_byte(b, 6));
        assert(be_byte(a, 7) == be_byte(b, 7));
        assert(a == b) by (bit_vector)
            requires
                ((a >> 56u64) & 0xff) as u8 == ((b >> 56u64) & 0xff) as u8,
                ((a >> 48u64) & 0xff) as u8 == ((b >> 48u64) & 0xff) as u8,
                ((a >> 40u64) & 0xff) as u8 == ((b >> 40u64) & 0xff) as u8,
                ((a >> 32u64) & 0xff) as u8 == ((b >> 32u64) & 0xff) as u8,
                ((a >> 24u64) & 0xff) as u8 == ((b >> 24u64) & 0xff) as u8,
                ((a >> 16u64) & 0xff) as u8 == ((b >> 16u64) & 0xff) as u8,
                ((a >> 8u64) & 0xff) as u8 == ((b >> 8u64) & 0xff) as u8,
                ((a >> 0u64) & 0xff) as u8 == ((b >> 0u64) & 0xff) as u8,
        ;
    }
}

/// Derives the crypto context from a shared secret and the two public
/// keys. This function is verified for every value of the secret; the
/// X25519 agreement that produces the secret is the trusted step.
pub fn derive_ctx(secret: &[u8], my_pub: &[u8], peer_pub: &[u8]) -> (ctx: CryptoCtx)
    requires
        my_pub@.len() == 32,
        peer_pub@.len() == 32,
    ensures
        ({
            let d = derived_of(secret@, my_pub@, peer_pub@);
            &&& ctx.wf()
            &&& ctx.send_key.key@ == d.send_key
            &&& ctx.recv_key.key@ == d.recv_key
            &&& ctx.sas@ == d.sas
            &&& ctx.sas@.len() == 12
            &&& ctx.send_n == 1
            &&& ctx.recv_n == 1
            &&& ctx.last_accepted_recv == 0
        }),
{
    let info = kdf_info_bytes();
    let okm = hkdf_expand64(secret, info.as_slice());
    let k1 = slice_to_vec(slice_subrange(okm.as_slice(), 0, 32));
    let k2 = slice_to_vec(slice_subrange(okm.as_slice(), 32, 64));
    let digest = sha256(k1.as_slice());
    let sas_ascii = crate::hexfmt::hex_ascii_of(slice_subrange(digest.as_slice(), 0, 6));
    proof {
        lemma_hex_ascii_len(digest@.subrange(0, 6));
        crate::hexfmt::lemma_hex_ascii_is_ascii(digest@.subrange(0, 6));
    }
    let sas = crate::strutil::ascii_to_string(sas_ascii);
    let mine_less = lex_less(my_pub, peer_pub);
    let (send_key, recv_key) = if mine_less {
        (k1, k2)
    } else {
        (k2, k1)
    };
    let mut wiped = okm;
    wipe_vec(&mut wiped);
    CryptoCtx {
        send_key: ZeroizedKey::new(send_key),
        recv_key: ZeroizedKey::new(recv_key),
        send_n: 1,
        recv_n: 1,
        last_accepted_recv: 0,
        sas,
    }
}

/// The outcome of handing one incoming data-channel payload to the
/// cipher.
pub enum RecvOutcome {
    /// Fresh, authentic message: the decrypted plaintext bytes.
    Accepted(Vec<u8>),
    /// Authentic but at or below the replay floor; dropped.
    Replay,
    /// Rejected by the AEAD; dropped, counters unchanged.
    DecryptFailed,
    /// Shorter than the 16-byte tag; dropped.
    TooShort,
}

impl CryptoCtx {
    /// Seals `plaintext` under the send key with the current send
    /// counter as nonce seed; the counter is consumed whether or not
    /// sealing succeeds, so no nonce is ever offered twice.
    pub fn seal_next(&mut self, plaintext: &[u8]) -> (r: Option<Vec<u8>>)
        requires
            old(self).wf(),
            old(self).send_n < u64::MAX,
        ensures
            final(self).wf(),
            final(self).send_n == old(self).send_n + 1,
            final(self).recv_n == old(self).recv_n,
            final(self).last_accepted_recv == old(self).last_accepted_recv,
            final(self).send_key == old(self).send_key,
            final(self).recv_key == old(self).recv_key,
            final(self).sas == old(self).sas,
            r matches Some(c) ==> c@ == chacha_seal_of(
                old(self).send_key.key@,
                nonce_of(old(self).send_n),
                plaintext@,
            ),
            r matches Some(c) ==> c@.len() == plaintext@.len() + 16,
            plaintext@.len() < CHACHA_MAX_PLAINTEXT ==> r is Some,
    {
        let nonce = u64_to_nonce(self.send_n);
        self.send_n = self.send_n + 1;
        aead_seal(self.send_key.key.as_slice(), nonce.as_slice(), plaintext)
    }

    /// Hands one incoming payload to the cipher: attempts decryption
    /// under the receive key with the current receive counter, then
    /// applies the replay floor. Counters move only on acceptance, and
    /// every accepted message lies strictly above all previously
    /// accepted ones.
    pub fn open_next(&mut self, payload: &[u8]) -> (r: RecvOutcome)
        requires
            old(self).wf(),
            old(self).recv_n < u64::MAX,
        ensures
            final(self).wf(),
            final(self).send_n == old(self).send_n,
            final(self).send_key == old(self).send_key,
            final(self).recv_key == old(self).recv_key,
            final(self).sas == old(self).sas,
            final(self).last_accepted_recv >= old(self).last_accepted_recv,
            r matches RecvOutcome::Accepted(p) ==> payload@.len() == p@.len() + 16,
            r matches RecvOutcome::Accepted(p) ==> {
                &&& payload@ == chacha_seal_of(
                    old(self).recv_key.key@,
                    nonce_of(old(self).recv_n),
                    p@,
                )
                &&& old(self).recv_n > old(self).last_accepted_recv
                &&& final(self).last_accepted_recv == old(self).recv_n
                &&& final(self).last_accepted_recv > old(self).last_accepted_recv
                &&& final(self).recv_n == old(self).recv_n + 1
            },
            !(r matches RecvOutcome::Accepted(_)) ==> *final(self) == *old(self),
            payload@.len() < 16 <==> r matches RecvOutcome::TooShort,
            forall|p: Seq<u8>|
                (payload@ == chacha_seal_of(
                    old(self).recv_key.key@,
                    nonce_of(old(self).recv_n),
                    p,
                ) && payload@.len() == p.len() + 16 && old(self).recv_n > old(
                    self,
                ).last_accepted_recv) ==> (r matches RecvOutcome::Accepted(q) && q@ == p),
    {
        if payload.len() < TAG_LEN {
            return RecvOutcome::TooShort;
        }
        let nonce = u64_to_nonce(self.recv_n);
        match aead_open(self.recv_key.key.as_slice(), nonce.as_slice(), payload) {
            Some(plaintext) => {
                if self.recv_n > self.last_accepted_recv {
                    self.last_accepted_recv = self.recv_n;
                    self.recv_n = self.recv_n + 1;
                    RecvOutcome::Accepted(plaintext)
                } else {
                    RecvOutcome::Replay
                }
            },
            None => RecvOutcome::DecryptFailed,
        }
    }

    /// Wipes the key slots, counters and SAS in place, as teardown
    /// demands of all sensitive material.
    pub fn wipe(&mut self)
        ensures
            final(self).send_key.key@.len() == 0,
            final(self).recv_key.key@.len() == 0,
            final(self).send_n == 0,
            final(self).recv_n == 0,
            final(self).last_accepted_recv == 0,
            final(self).sas@.len() == 0,
    {
        self.send_key.wipe();
        self.recv_key.wipe();
        self.send_n = 0;
        self.recv_n = 0;
        self.last_accepted_recv = 0;
        self.sas = String::new();
    }
}

} // verus!
