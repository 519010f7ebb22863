//! KLAP: the handshake and session a current-firmware Tapo device speaks on port 80.
//!
//! Two POSTs establish it and every request after them is encrypted:
//!
//! ```text
//!   POST /app/handshake1  local_seed (16 bytes)
//!        -> remote_seed (16) || server_hash (32), and a TP_SESSIONID cookie
//!   POST /app/handshake2  SHA256(remote_seed || local_seed || auth_hash)
//!   POST /app/request?seq=N   SHA256(sig || seq || ciphertext) || ciphertext
//! ```
//!
//! # The device proves it knows the password first
//!
//! `server_hash` is `SHA256(local_seed || remote_seed || auth_hash)`, computed by the switch
//! from the credentials it was set up with. So the first reply already says whether the account
//! details are right, before anything is sent that depends on them. Handshake2 is the same proof
//! in the other direction, with the two seeds the other way round.
//!
//! `auth_hash` is `SHA256(SHA1(email) || SHA1(password))`: the TP-Link *account* the switch is
//! paired to, not a per-device secret and not a local PIN.

use vstd::prelude::*;
use vstd::utf8::encode_utf8;
use crate::bytes::{big_endian, first, from_big_endian, law_big_endian_reads_back, law_big_endian_writes_back, of_big_endian, same_bytes, to_big_endian, window};
use crate::outside::{cbc_decrypt, cbc_decrypted, cbc_encrypt, cbc_encrypted, fill_random, garbled, sha1_digest, sha1_of, sha256_digest, sha256_of};

verus! {

// ---------------------------------------------------------------------------------------
// The handshake
// ---------------------------------------------------------------------------------------

/// What the switch checks a login against: the TP-Link account, hashed the way KLAP v2 wants.
pub open spec fn auth_of(email: Seq<char>, password: Seq<char>) -> Seq<u8> {
    sha256_of(sha1_of(encode_utf8(email)) + sha1_of(encode_utf8(password)))
}

/// What the switch checks a login against: the TP-Link account, hashed the way KLAP v2 wants.
pub fn auth_hash(email: &str, password: &str) -> (r: [u8; 32])
    ensures
        r@ == auth_of(email@, password@),
        r@ == sha256_of(sha1_of(encode_utf8(email@)) + sha1_of(encode_utf8(password@))),
{
    let a: [u8; 20] = sha1_digest(email.as_bytes());
    let b: [u8; 20] = sha1_digest(password.as_bytes());
    let (x, y): (&[u8], &[u8]) = (a.as_slice(), b.as_slice());
    proof {
        lemma_two_parts(x, y);
    }
    sha256(&[x, y])
}

/// Several runs of bytes, one after another.
pub open spec fn concatenated(parts: Seq<&[u8]>) -> Seq<u8>
    decreases parts.len(),
{
    if parts.len() == 0 {
        Seq::empty()
    } else {
        concatenated(parts.drop_last()) + parts.last()@
    }
}

/// The SHA-256 digest of several runs of bytes, one after another.
pub fn sha256(parts: &[&[u8]]) -> (r: [u8; 32])
    ensures
        r@ == sha256_of(concatenated(parts@)),
{
    let mut all: Vec<u8> = Vec::new();
    let mut i: usize = 0;
    while i < parts.len()
        invariant
            i <= parts@.len(),
            all@ == concatenated(parts@.take(i as int)),
        decreases parts@.len() - i,
    {
        proof {
            assert(parts@.take(i + 1).drop_last() =~= parts@.take(i as int));
            assert(parts@.take(i + 1).last() == parts@[i as int]);
        }
        let ghost before = all@;
        all.extend_from_slice(parts[i]);
        proof {
            assert(all@ =~= before + parts@[i as int]@);
        }
        i += 1;
    }
    proof {
        assert(parts@.take(i as int) =~= parts@);
    }
    sha256_digest(all.as_slice())
}

/// The bytes of a seed, where there is one.
pub open spec fn seed_option(seed: Option<[u8; 16]>) -> Option<Seq<u8>> {
    match seed {
        Some(seed) => Some(seed@),
        None => None,
    }
}

/// What a draw of random bytes comes to: the bytes, or nothing where the source failed. What a
/// buffer holds after a failure is not random, and must not pass for a seed.
pub open spec fn drawn(filled: bool, bytes: Seq<u8>) -> Option<Seq<u8>> {
    if filled {
        Some(bytes)
    } else {
        None
    }
}

/// What a draw may come to: sixteen bytes, or nothing.
pub open spec fn is_draw(draw: Option<Seq<u8>>) -> bool {
    draw matches Some(seed) ==> seed.len() == 16
}

/// The seed in `bytes`, if the source that was to fill them did.
pub fn seed_from(filled: bool, bytes: [u8; 16]) -> (r: Option<[u8; 16]>)
    ensures
        seed_option(r) == drawn(filled, bytes@),
{
    if filled {
        Some(bytes)
    } else {
        None
    }
}

/// A fresh local seed, or nothing where the system has no random numbers to give. Sixteen bytes,
/// and they must be unpredictable: they are half of what the session key is derived from. So
/// nothing is stated of them, and whatever uses them is stated for every draw there is.
pub fn local_seed() -> (r: Option<[u8; 16]>)
    ensures
        is_draw(seed_option(r)),
{
    let mut seed: [u8; 16] = vstd::array::array_fill_for_copy_types(0u8);
    let filled: bool = fill_random(&mut seed);
    seed_from(filled, seed)
}

/// The remote seed out of the device's reply to handshake1, if `hash` is what follows it there.
///
/// Nothing covers both failures on purpose: a short reply and a wrong hash are the same thing
/// to a caller, which is "this is not a Tapo that will talk to you".
pub open spec fn vouched(hash: Seq<u8>, body: Seq<u8>) -> Option<Seq<u8>> {
    if body.len() >= 48 && hash == body.subrange(16, 48) {
        Some(body.subrange(0, 16))
    } else {
        None
    }
}

/// The remote seed out of the device's reply to handshake1, if that reply proves that the
/// device holds these credentials.
pub open spec fn accepted(local: Seq<u8>, auth: Seq<u8>, body: Seq<u8>) -> Option<Seq<u8>> {
    vouched(sha256_of(local + body.subrange(0, 16) + auth), body)
}

/// The remote seed out of a handshake1 reply, if `hash` is what follows it there.
pub fn accept_hash(hash: &[u8; 32], body: &[u8]) -> (r: Option<[u8; 16]>)
    ensures
        seed_option(r) == vouched(hash@, body@),
{
    if body.len() >= 48 && same_bytes(hash.as_slice(), &body[16..48]) {
        Some(window(body, 0))
    } else {
        None
    }
}

/// The remote seed out of a handshake1 reply, if the device proved it holds these credentials.
pub fn accept_handshake1(local: &[u8; 16], auth: &[u8; 32], body: &[u8]) -> (r: Option<[u8; 16]>)
    ensures
        seed_option(r) == accepted(local@, auth@, body@),
        r is Some <==> body@.len() >= 48 && body@.subrange(16, 48) == sha256_of(
            local@ + body@.subrange(0, 16) + auth@,
        ),
        r is Some ==> r->0@ == body@.subrange(0, 16),
{
    if body.len() < 48 {
        return None;
    }
    let remote: [u8; 16] = window(body, 0);
    let (l, r, a): (&[u8], &[u8], &[u8]) = (local.as_slice(), remote.as_slice(), auth.as_slice());
    proof {
        lemma_three_parts(l, r, a);
    }
    let hash: [u8; 32] = sha256(&[l, r, a]);
    accept_hash(&hash, body)
}

/// The proof that the caller holds the credentials, which is the body of handshake2.
pub open spec fn login_proof(local: Seq<u8>, remote: Seq<u8>, auth: Seq<u8>) -> Seq<u8> {
    sha256_of(remote + local + auth)
}

/// Our half of the proof: the body of handshake2.
pub fn handshake2(local: &[u8; 16], remote: &[u8; 16], auth: &[u8; 32]) -> (r: [u8; 32])
    ensures
        r@ == login_proof(local@, remote@, auth@),
        r@ == sha256_of(remote@ + local@ + auth@),
{
    let (l, r, a): (&[u8], &[u8], &[u8]) = (local.as_slice(), remote.as_slice(), auth.as_slice());
    proof {
        lemma_three_parts(r, l, a);
    }
    sha256(&[r, l, a])
}

proof fn lemma_two_parts(a: &[u8], b: &[u8])
    ensures
        concatenated(seq![a, b]) == a@ + b@,
{
    reveal_with_fuel(concatenated, 3);
    assert(seq![a, b].drop_last() =~= seq![a]);
    assert(seq![a].drop_last() =~= Seq::<&[u8]>::empty());
    assert(concatenated(seq![a, b]) =~= a@ + b@);
}

proof fn lemma_three_parts(a: &[u8], b: &[u8], c: &[u8])
    ensures
        concatenated(seq![a, b, c]) == a@ + b@ + c@,
{
    lemma_two_parts(a, b);
    assert(seq![a, b, c].drop_last() =~= seq![a, b]);
}

proof fn lemma_four_parts(a: &[u8], b: &[u8], c: &[u8], d: &[u8])
    ensures
        concatenated(seq![a, b, c, d]) == a@ + b@ + c@ + d@,
{
    lemma_three_parts(a, b, c);
    assert(seq![a, b, c, d].drop_last() =~= seq![a, b, c]);
}

/// A switch that was set up with the same account is believed: what it computes from the two
/// seeds is what [`accept_handshake1`] looks for.
pub proof fn law_the_same_account_is_accepted(
    local: [u8; 16],
    remote: [u8; 16],
    auth: [u8; 32],
    hash: [u8; 32],
)
    requires
        hash@ == sha256_of(local@ + remote@ + auth@),
    ensures
        accepted(local@, auth@, remote@ + hash@) == Some(remote@),
{
    assert((remote@ + hash@).subrange(0, 16) =~= remote@);
    assert((remote@ + hash@).subrange(16, 48) =~= hash@);
}

// ---------------------------------------------------------------------------------------
// The session
// ---------------------------------------------------------------------------------------

/// An established session. Every field is derived from the two seeds and the credential hash,
/// so it survives a restart and needs no second handshake to rebuild.
#[derive(Clone)]
pub struct Session {
    key: [u8; 16],
    iv: [u8; 12],
    sig: [u8; 28],
    /// Counts up, and is *both* the last four bytes of the IV and a query parameter. The device
    /// tracks it too, which is why it is stored rather than recomputed.
    pub seq: i32,
}

/// What a session is made of.
pub struct SessionView {
    pub key: Seq<u8>,
    pub iv: Seq<u8>,
    pub sig: Seq<u8>,
    pub seq: i32,
}

impl SessionView {
    /// Each part has the length that the cipher and the signature call for.
    pub open spec fn well_formed(self) -> bool {
        &&& self.key.len() == 16
        &&& self.iv.len() == 12
        &&& self.sig.len() == 28
    }
}

impl View for Session {
    type V = SessionView;

    closed spec fn view(&self) -> SessionView {
        SessionView { key: self.key@, iv: self.iv@, sig: self.sig@, seq: self.seq }
    }
}

/// The bytes `lsk`, before which the key is derived.
pub open spec fn key_label() -> Seq<u8> {
    seq![0x6c, 0x73, 0x6b]
}

/// The bytes `iv`, before which the initialisation vector and the first sequence number are
/// derived.
pub open spec fn iv_label() -> Seq<u8> {
    seq![0x69, 0x76]
}

/// The bytes `ldk`, before which the signing key is derived.
pub open spec fn sig_label() -> Seq<u8> {
    seq![0x6c, 0x64, 0x6b]
}

/// The session that three digests stand for: one for the key, one for the vector, one for the
/// signing key.
///
/// The first sequence number is the last four bytes of the hash that the vector comes from,
/// read as a signed number: it starts wherever the hash says, which can be below zero.
pub open spec fn cut_from(lsk: Seq<u8>, ivf: Seq<u8>, ldk: Seq<u8>) -> SessionView {
    SessionView {
        key: first(lsk, 16),
        iv: first(ivf, 12),
        sig: first(ldk, 28),
        seq: from_big_endian(ivf.subrange(28, 32)),
    }
}

/// The session that two seeds and a credential hash stand for.
pub open spec fn derived(local: Seq<u8>, remote: Seq<u8>, auth: Seq<u8>) -> SessionView {
    cut_from(
        sha256_of(key_label() + local + remote + auth),
        sha256_of(iv_label() + local + remote + auth),
        sha256_of(sig_label() + local + remote + auth),
    )
}

/// The number after `seq`. Past the largest it starts again at the smallest, as the device does.
pub open spec fn next_seq(seq: i32) -> i32 {
    if seq == i32::MAX {
        i32::MIN
    } else {
        (seq + 1) as i32
    }
}

/// The initialisation vector of the request at `seq`.
pub open spec fn block_iv_of(session: SessionView, seq: i32) -> Seq<u8> {
    session.iv + big_endian(seq)
}

/// The body of the request at `seq` that carries `plain`: a signature and the ciphertext.
pub open spec fn framed(session: SessionView, seq: i32, plain: Seq<u8>) -> Seq<u8> {
    let cipher = cbc_encrypted(session.key, block_iv_of(session, seq), plain);
    sha256_of(session.sig + big_endian(seq) + cipher) + cipher
}

/// What is read at a wrong number in place of `plain`: something of the same length, wrong in its
/// first sixteen bytes and right from there on.
pub open spec fn misread(plain: Seq<u8>, noise: Option<Seq<u8>>) -> bool {
    &&& noise is Some
    &&& noise->0.len() == plain.len()
    &&& noise->0 != plain
    &&& noise->0.skip(16) == plain.skip(16)
}

/// What the body of a reply to the request at `seq` carries behind its signature.
pub open spec fn opened(session: SessionView, seq: i32, body: Seq<u8>) -> Option<Seq<u8>> {
    if body.len() <= 32 {
        None
    } else {
        cbc_decrypted(session.key, block_iv_of(session, seq), body.skip(32))
    }
}

/// Two numbers give two vectors, and two vectors never give the same first block.
proof fn lemma_misread(
    session: SessionView,
    seq: i32,
    other: i32,
    plain: Seq<u8>,
    noise: Option<Seq<u8>>,
)
    requires
        session.iv.len() == 12,
        seq != other,
        garbled(plain, block_iv_of(session, seq), block_iv_of(session, other), noise),
    ensures
        misread(plain, noise),
{
    let (a, b) = (block_iv_of(session, seq), block_iv_of(session, other));
    if noise->0 == plain {
        assert forall|k: int| 0 <= k < 16 implies a[k] == b[k] by {
            let (p, x, y) = (plain[k], a[k], b[k]);
            assert(noise->0[k] == p);
            assert(p ^ y == p ^ x ==> x == y) by (bit_vector);
        }
        assert(big_endian(seq) =~= a.subrange(12, 16));
        assert(big_endian(other) =~= b.subrange(12, 16));
        assert(a =~= b);
        law_big_endian_reads_back(seq);
        law_big_endian_reads_back(other);
    }
}

impl Session {
    /// The session that both sides derive once the handshake is done.
    pub fn derive(local: &[u8; 16], remote: &[u8; 16], auth: &[u8; 32]) -> (r: Session)
        ensures
            r@ == derived(local@, remote@, auth@),
            r@.well_formed(),
            r@.key == sha256_of(seq![0x6cu8, 0x73, 0x6b] + local@ + remote@ + auth@).take(16),
            r@.iv == sha256_of(seq![0x69u8, 0x76] + local@ + remote@ + auth@).take(12),
            r@.sig == sha256_of(seq![0x6cu8, 0x64, 0x6b] + local@ + remote@ + auth@).take(28),
            big_endian(r@.seq) == sha256_of(
                seq![0x69u8, 0x76] + local@ + remote@ + auth@,
            ).skip(28),
    {
        let key_name: [u8; 3] = [0x6c, 0x73, 0x6b];
        let iv_name: [u8; 2] = [0x69, 0x76];
        let sig_name: [u8; 3] = [0x6c, 0x64, 0x6b];
        let (l, r, a): (&[u8], &[u8], &[u8]) = (local.as_slice(), remote.as_slice(), auth.as_slice());
        let (k, i, s): (&[u8], &[u8], &[u8]) = (
            key_name.as_slice(),
            iv_name.as_slice(),
            sig_name.as_slice(),
        );
        let lsk: [u8; 32] = sha256(&[k, l, r, a]);
        let ivf: [u8; 32] = sha256(&[i, l, r, a]);
        let ldk: [u8; 32] = sha256(&[s, l, r, a]);
        proof {
            lemma_four_parts(k, l, r, a);
            lemma_four_parts(i, l, r, a);
            lemma_four_parts(s, l, r, a);
            assert(key_name@ =~= key_label());
            assert(iv_name@ =~= iv_label());
            assert(sig_name@ =~= sig_label());
        }
        let session: Session = Session::cut(&lsk, &ivf, &ldk);
        proof {
            assert(session@.key =~= lsk@.take(16));
            assert(session@.iv =~= ivf@.take(12));
            assert(session@.sig =~= ldk@.take(28));
            law_big_endian_writes_back(ivf@.subrange(28, 32));
            assert(ivf@.subrange(28, 32) =~= ivf@.skip(28));
        }
        session
    }

    /// The session that three digests stand for.
    pub fn cut(lsk: &[u8; 32], ivf: &[u8; 32], ldk: &[u8; 32]) -> (r: Session)
        ensures
            r@ == cut_from(lsk@, ivf@, ldk@),
            r@.well_formed(),
    {
        let last: [u8; 4] = window(ivf.as_slice(), 28);
        let session: Session = Session {
            key: window(lsk.as_slice(), 0),
            iv: window(ivf.as_slice(), 0),
            sig: window(ldk.as_slice(), 0),
            seq: of_big_endian(&last),
        };
        proof {
            let d = cut_from(lsk@, ivf@, ldk@);
            assert(session@.key =~= d.key);
            assert(session@.iv =~= d.iv);
            assert(session@.sig =~= d.sig);
        }
        session
    }

    /// A session out of parts that were stored.
    pub fn restore(key: [u8; 16], iv: [u8; 12], sig: [u8; 28], seq: i32) -> (r: Session)
        ensures
            r@ == (SessionView { key: key@, iv: iv@, sig: sig@, seq }),
            r@.well_formed(),
    {
        Session { key, iv, sig, seq }
    }

    /// The parts to store. With the sequence number they are the whole session, so that
    /// [`Session::restore`] on them gives it back.
    pub fn parts(&self) -> (r: ([u8; 16], [u8; 12], [u8; 28]))
        ensures
            r.0@ == self@.key,
            r.1@ == self@.iv,
            r.2@ == self@.sig,
            self@ == (SessionView { key: r.0@, iv: r.1@, sig: r.2@, seq: self@.seq }),
    {
        (self.key, self.iv, self.sig)
    }

    /// The number of the last request that went out.
    pub fn sequence(&self) -> (r: i32)
        ensures
            r == self@.seq,
    {
        self.seq
    }

    /// The initialisation vector of the request at `seq`.
    pub fn block_iv(&self, seq: i32) -> (r: [u8; 16])
        ensures
            r@ == block_iv_of(self@, seq),
    {
        let tail: [u8; 4] = to_big_endian(seq);
        let mut iv: [u8; 16] = vstd::array::array_fill_for_copy_types(0u8);
        let mut i: usize = 0;
        while i < 12
            invariant
                i <= 12,
                forall|k: int| 0 <= k < i ==> iv@[k] == self.iv@[k],
            decreases 12 - i,
        {
            iv[i] = self.iv[i];
            i += 1;
        }
        iv[12] = tail[0];
        iv[13] = tail[1];
        iv[14] = tail[2];
        iv[15] = tail[3];
        proof {
            assert(iv@ =~= self.iv@ + tail@);
        }
        iv
    }

    /// Encrypt one request, advancing the sequence. The caller needs the new `seq` for the query
    /// string, so it comes back rather than having to be read off the session again.
    ///
    /// Whoever holds the same key and vector reads `plain` back out of the body. At any other
    /// number a plain text that fills a block is misread in its first block alone.
    pub fn encrypt(&mut self, plain: &[u8]) -> (r: (i32, Vec<u8>))
        ensures
            r.0 == next_seq(old(self)@.seq),
            r.1@ == framed(old(self)@, r.0, plain@),
            final(self)@ == (SessionView { seq: r.0, ..old(self)@ }),
            r.1@.len() == 32 + (plain@.len() / 16 + 1) * 16,
            (r.0 - old(self)@.seq - 1) % 0x1_0000_0000 == 0,
            r.1@.take(32) == sha256_of(old(self)@.sig + big_endian(r.0) + r.1@.skip(32)),
            r.1@.skip(32) == cbc_encrypted(
                old(self)@.key,
                old(self)@.iv + big_endian(r.0),
                plain@,
            ),
            forall|peer: SessionView|
                peer.key == old(self)@.key && peer.iv == old(self)@.iv ==> #[trigger] opened(
                    peer,
                    r.0,
                    r.1@,
                ) == Some(plain@),
            plain@.len() >= 16 ==> (forall|peer: SessionView, other: i32|
                peer.key == old(self)@.key && peer.iv == old(self)@.iv && other != r.0 ==> misread(
                    plain@,
                    #[trigger] opened(peer, other, r.1@),
                )),
    {
        self.seq = if self.seq == i32::MAX {
            i32::MIN
        } else {
            self.seq + 1
        };
        let iv: [u8; 16] = self.block_iv(self.seq);
        let cipher: Vec<u8> = cbc_encrypt(&self.key, &iv, plain);
        let count: [u8; 4] = to_big_endian(self.seq);
        let (s, n, c): (&[u8], &[u8], &[u8]) = (
            self.sig.as_slice(),
            count.as_slice(),
            cipher.as_slice(),
        );
        proof {
            lemma_three_parts(s, n, c);
        }
        let signature: [u8; 32] = sha256(&[s, n, c]);
        let mut body: Vec<u8> = Vec::new();
        body.extend_from_slice(signature.as_slice());
        body.extend_from_slice(cipher.as_slice());
        proof {
            assert(body@ =~= signature@ + cipher@);
            assert(body@.skip(32) =~= cipher@);
            assert(body@.take(32) =~= signature@);
            assert forall|peer: SessionView, other: i32|
                plain@.len() >= 16 && peer.key == old(self)@.key && peer.iv == old(self)@.iv
                    && other != self.seq implies misread(
                plain@,
                #[trigger] opened(peer, other, body@),
            ) by {
                assert(block_iv_of(peer, other).len() == 16);
                lemma_misread(peer, self.seq, other, plain@, opened(peer, other, body@));
            }
        }
        (self.seq, body)
    }

    /// Decrypt the reply to the request at `seq`, dropping the device's leading 32-byte
    /// signature over what follows.
    ///
    /// **This does not authenticate.** CBC decrypts every block from the ciphertext before it,
    /// so only the *first* block depends on the IV, and the sequence number is in the IV. With
    /// the wrong `seq` the padding of a longer reply still validates, and what comes back is
    /// sixteen bytes of noise followed by the real tail, which is what the last clause says. So
    /// the caller's JSON parse is the integrity check.
    pub fn decrypt(&self, seq: i32, body: &[u8]) -> (r: Option<Vec<u8>>)
        ensures
            match r {
                Some(plain) => opened(self@, seq, body@) == Some(plain@),
                None => opened(self@, seq, body@) is None,
            },
            body@.len() > 32 ==> (match r {
                Some(plain) => Some(plain@),
                None => None,
            }) == cbc_decrypted(self@.key, self@.iv + big_endian(seq), body@.skip(32)),
            body@.len() <= 32 || body@.len() % 16 != 0 ==> r is None,
            body@.len() >= 64 ==> (forall|other: i32|
                match r {
                    Some(plain) => other != seq ==> misread(
                        plain@,
                        #[trigger] opened(self@, other, body@),
                    ),
                    None => opened(self@, other, body@) is None,
                }),
    {
        if body.len() <= 32 {
            return None;
        }
        let iv: [u8; 16] = self.block_iv(seq);
        proof {
            assert(body@.subrange(32, body@.len() as int) =~= body@.skip(32));
        }
        let r: Option<Vec<u8>> = cbc_decrypt(&self.key, &iv, &body[32..body.len()]);
        proof {
            assert forall|other: i32| body@.len() >= 64 implies (match r {
                Some(plain) => other != seq ==> misread(
                    plain@,
                    #[trigger] opened(self@, other, body@),
                ),
                None => opened(self@, other, body@) is None,
            }) by {
                assert(block_iv_of(self@, other).len() == 16);
                if other != seq && r is Some {
                    lemma_misread(self@, seq, other, r->0@, opened(self@, other, body@));
                }
            }
        }
        r
    }
}

/// The two sides of a handshake hold one session: it depends on the seeds and the account and
/// on nothing else, and its parts have the lengths that [`Session::restore`] takes.
pub proof fn law_a_derived_session_is_well_formed(local: Seq<u8>, remote: Seq<u8>, auth: Seq<u8>)
    ensures
        derived(local, remote, auth).well_formed(),
{
}

} // verus!
