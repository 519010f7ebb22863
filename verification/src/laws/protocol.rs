//! What the two sides of a session agree on, said in the digests and the cipher themselves.

use vstd::prelude::*;
use vstd::utf8::encode_utf8;
use crate::bytes::{big_endian, law_big_endian_writes_back};
use crate::klap::{accepted, auth_of, block_iv_of, concatenated, derived, drawn, framed, is_draw, login_proof, next_seq, opened, SessionView};
use crate::outside::{cbc_decrypted, cbc_encrypted, sha1_of, sha256_of};

verus! {

/// The account is hashed with the email in front: the digest of its two digests, in that order.
pub proof fn law_the_email_is_hashed_before_the_password(email: Seq<char>, password: Seq<char>)
    ensures
        auth_of(email, password) == sha256_of(
            sha1_of(encode_utf8(email)) + sha1_of(encode_utf8(password)),
        ),
{
}

/// A switch is believed exactly where its reply is its own seed and behind it the digest of our
/// seed, its seed and the account, and the seed that it is believed with is the one it sent.
pub proof fn law_a_switch_is_believed_for_its_digest_alone(
    local: Seq<u8>,
    auth: Seq<u8>,
    body: Seq<u8>,
)
    ensures
        accepted(local, auth, body) is Some <==> body.len() >= 48 && body.subrange(16, 48)
            == sha256_of(local + body.subrange(0, 16) + auth),
        accepted(local, auth, body) is Some ==> accepted(local, auth, body)->0 == body.subrange(
            0,
            16,
        ),
{
}

/// The proof that goes out is the one that the other side looks for: a switch that reads our reply
/// as we read its own, with the seeds the other way round, believes us.
pub proof fn law_our_proof_is_the_one_that_is_looked_for(
    local: [u8; 16],
    remote: [u8; 16],
    auth: [u8; 32],
    proof_sent: [u8; 32],
)
    requires
        proof_sent@ == login_proof(local@, remote@, auth@),
    ensures
        proof_sent@ == sha256_of(remote@ + local@ + auth@),
        accepted(remote@, auth@, local@ + proof_sent@) == Some(local@),
{
    assert((local@ + proof_sent@).subrange(0, 16) =~= local@);
    assert((local@ + proof_sent@).subrange(16, 48) =~= proof_sent@);
}

/// Each part of a session is the front of a digest of its own, and the first number is the end of
/// the digest that the vector comes from.
pub proof fn law_a_session_is_cut_from_three_digests(
    local: Seq<u8>,
    remote: Seq<u8>,
    auth: Seq<u8>,
    lsk: [u8; 32],
    ivf: [u8; 32],
    ldk: [u8; 32],
)
    requires
        lsk@ == sha256_of(seq![0x6cu8, 0x73, 0x6b] + local + remote + auth),
        ivf@ == sha256_of(seq![0x69u8, 0x76] + local + remote + auth),
        ldk@ == sha256_of(seq![0x6cu8, 0x64, 0x6b] + local + remote + auth),
    ensures
        derived(local, remote, auth).key == lsk@.take(16),
        derived(local, remote, auth).iv == ivf@.take(12),
        derived(local, remote, auth).sig == ldk@.take(28),
        big_endian(derived(local, remote, auth).seq) == ivf@.skip(28),
{
    let d = derived(local, remote, auth);
    assert(d.key =~= lsk@.take(16));
    assert(d.iv =~= ivf@.take(12));
    assert(d.sig =~= ldk@.take(28));
    assert(ivf@.subrange(28, 32) =~= ivf@.skip(28));
    law_big_endian_writes_back(ivf@.subrange(28, 32));
}

/// Each number is one more than the last, round the whole circle of them.
pub proof fn law_the_numbers_go_up_by_one(seq: i32)
    ensures
        (next_seq(seq) - seq - 1) % 0x1_0000_0000 == 0,
        seq < i32::MAX ==> next_seq(seq) == seq + 1,
{
}

/// The vector of a request ends in its number, and so no two numbers share one.
pub proof fn law_the_vector_ends_in_the_number(session: SessionView, seq: i32)
    ensures
        block_iv_of(session, seq) == session.iv + big_endian(seq),
{
}

/// The body of a request is the ciphertext of what it carries, and before it the digest of the
/// signing key, the number and the ciphertext.
pub proof fn law_a_request_is_signed_with_the_signing_key(
    session: SessionView,
    seq: i32,
    plain: Seq<u8>,
    signature: [u8; 32],
)
    requires
        signature@ == sha256_of(
            session.sig + big_endian(seq) + cbc_encrypted(
                session.key,
                session.iv + big_endian(seq),
                plain,
            ),
        ),
    ensures
        framed(session, seq, plain).take(32) == signature@,
        framed(session, seq, plain).skip(32) == cbc_encrypted(
            session.key,
            session.iv + big_endian(seq),
            plain,
        ),
        framed(session, seq, plain).take(32) == sha256_of(
            session.sig + big_endian(seq) + framed(session, seq, plain).skip(32),
        ),
{
    let cipher = cbc_encrypted(session.key, session.iv + big_endian(seq), plain);
    assert(framed(session, seq, plain) == signature@ + cipher);
    assert((signature@ + cipher).take(32) =~= signature@);
    assert((signature@ + cipher).skip(32) =~= cipher);
}

/// A reply is opened behind its thirty-two bytes of signature, at the number of its request: what
/// stands there decrypts to what is read, whatever stands before it.
pub proof fn law_a_reply_is_opened_behind_its_signature(
    session: SessionView,
    seq: i32,
    signature: Seq<u8>,
    cipher: Seq<u8>,
)
    requires
        signature.len() == 32,
    ensures
        opened(session, seq, signature + cipher) == if cipher.len() == 0 {
            None
        } else {
            cbc_decrypted(session.key, session.iv + big_endian(seq), cipher)
        },
{
    assert((signature + cipher).skip(32) =~= cipher);
}

/// A reply that is no longer than a signature carries nothing.
pub proof fn law_a_signature_alone_carries_nothing(session: SessionView, seq: i32, body: Seq<u8>)
    ensures
        body.len() <= 32 ==> opened(session, seq, body) is None,
{
}

/// What is hashed in parts is hashed in their order, each part whole.
pub proof fn law_parts_are_hashed_in_their_order(parts: Seq<&[u8]>, part: &[u8])
    ensures
        concatenated(Seq::empty()).len() == 0,
        concatenated(parts.push(part)) == concatenated(parts) + part@,
{
    assert(parts.push(part).drop_last() =~= parts);
}

/// A seed is what was drawn, and nothing is one where the draw failed; every sixteen bytes may be
/// drawn, and no other number of them.
pub proof fn law_a_failed_draw_is_no_seed(filled: bool, bytes: Seq<u8>)
    ensures
        drawn(filled, bytes) is Some <==> filled,
        filled ==> drawn(filled, bytes) == Some(bytes),
        is_draw(None),
        is_draw(Some(bytes)) <==> bytes.len() == 16,
{
}

} // verus!
