use tapo::bytes::{of_big_endian, to_big_endian};
use tapo::klap::{
    accept_handshake1, accept_hash, auth_hash, handshake2, local_seed, seed_from, sha256, Session,
};

/// The handshake and one round trip, against a stand-in that plays the switch's half with the
/// same primitives. It fails if either hash is built in the wrong order, if the sequence is read
/// unsigned, or if encrypt and decrypt disagree about the IV, which are the four ways this
/// protocol goes wrong silently.
#[test]
fn a_session_survives_the_handshake_and_a_round_trip() {
    let auth = auth_hash("someone@example.com", "hunter2");
    let local = [7u8; 16];
    let remote = [9u8; 16];

    // What the device sends back to handshake1.
    let mut reply = remote.to_vec();
    reply.extend_from_slice(&sha256(&[&local, &remote, &auth]));
    assert_eq!(accept_handshake1(&local, &auth, &reply), Some(remote));

    // The same reply against the wrong password is not a weak match, it is no match.
    let wrong = auth_hash("someone@example.com", "hunter3");
    assert_eq!(accept_handshake1(&local, &wrong, &reply), None);
    assert_eq!(accept_handshake1(&local, &auth, &reply[..40]), None);

    assert_eq!(handshake2(&local, &remote, &auth), sha256(&[&remote, &local, &auth]));

    let mut ours = Session::derive(&local, &remote, &auth);
    let theirs = Session::derive(&local, &remote, &auth);
    let (seq, body) = ours.encrypt(br#"{"method":"get_device_info"}"#);
    assert_eq!(seq, theirs.seq + 1, "the first request is one past the derived sequence");
    assert_eq!(
        theirs.decrypt(seq, &body).as_deref(),
        Some(&br#"{"method":"get_device_info"}"#[..])
    );
    // The sequence is part of the IV, but only of the first block, so a reply matched to the
    // wrong one comes back as garbage with valid padding rather than as an error. This is the
    // reason `decrypt`'s caller checks the JSON and not the return value.
    let wrong = theirs.decrypt(seq + 1, &body).expect("unpadding does not catch this");
    assert_ne!(wrong, br#"{"method":"get_device_info"}"#);
    assert_eq!(&wrong[16..], &br#"{"method":"get_device_info"}"#[16..]);
}

fn bytes_of(hex: &str) -> Vec<u8> {
    tapo::codec::unhex(hex).expect("hexadecimal")
}

#[test]
fn the_hashes_are_the_published_ones() {
    // The digest of nothing at all, and of the three letters of the standard's first example.
    assert_eq!(
        sha256(&[]).to_vec(),
        bytes_of("e3b0c44298fc1c149afbf4c8996fb92427ae41e4649b934ca495991b7852b855")
    );
    assert_eq!(
        sha256(&[b"a", b"", b"bc"]).to_vec(),
        bytes_of("ba7816bf8f01cfea414140de5dae2223b00361a396177a9cb410ff61f20015ad")
    );
    // SHA-1 of "abc", twice, hashed again.
    let sha1_abc = bytes_of("a9993e364706816aba3e25717850c26c9cd0d89d");
    assert_eq!(auth_hash("abc", "abc"), sha256(&[&sha1_abc, &sha1_abc]));
    assert_ne!(auth_hash("abc", "abd"), auth_hash("abd", "abc"));
}

#[test]
fn a_seed_is_not_what_the_buffer_held() {
    let seeds: Vec<[u8; 16]> = (0..4).map(|_| local_seed().expect("random numbers")).collect();
    assert!(seeds.iter().any(|s| *s != [0u8; 16]));
    assert_ne!(seeds[0], seeds[1]);
}

#[test]
fn the_cipher_is_the_published_one() {
    // AES-128 in CBC mode on a whole block, from the standard's own example: key, vector, block
    // and ciphertext. The last four bytes of the vector are the sequence number.
    let key: [u8; 16] = bytes_of("2b7e151628aed2a6abf7158809cf4f3c").try_into().unwrap();
    let iv: [u8; 12] = bytes_of("000102030405060708090a0b").try_into().unwrap();
    let mut session = Session::restore(key, iv, [0u8; 28], 0x0c0d0e0f - 1);
    let plain = bytes_of("6bc1bee22e409f96e93d7e117393172a");
    let (seq, body) = session.encrypt(&plain);
    assert_eq!(seq, 0x0c0d0e0f);
    assert_eq!(body.len(), 64);
    assert_eq!(body[32..48].to_vec(), bytes_of("7649abac8119b246cee98e9b12e9197d"));
    assert_eq!(body[..32], sha256(&[&[0u8; 28], &to_big_endian(seq), &body[32..]]));
    assert_eq!(session.decrypt(seq, &body), Some(plain));
}

#[test]
fn only_whole_blocks_behind_a_signature_are_opened() {
    let mut session = Session::restore([1u8; 16], [2u8; 12], [3u8; 28], 40);
    for plain in [&b""[..], b"x", b"fifteen bytes..", b"sixteen bytes...", b"seventeen bytes.."] {
        let (seq, body) = session.encrypt(plain);
        assert_eq!(body.len(), 32 + (plain.len() / 16 + 1) * 16);
        assert_eq!(session.decrypt(seq, &body).as_deref(), Some(plain));
        assert_eq!(session.decrypt(seq, &body[..32]), None);
        assert_eq!(session.decrypt(seq, &body[..body.len() - 1]), None);
    }
    assert_eq!(session.seq, 45);
    assert_eq!(session.decrypt(1, b""), None);
}

#[test]
fn the_sequence_wraps_as_the_device_does() {
    let mut session = Session::restore([1u8; 16], [2u8; 12], [3u8; 28], i32::MAX);
    let (seq, body) = session.encrypt(b"off");
    assert_eq!(seq, i32::MIN);
    assert_eq!(session.sequence(), i32::MIN);
    assert_eq!(session.decrypt(i32::MIN, &body).as_deref(), Some(&b"off"[..]));
    let (seq, _) = session.encrypt(b"off");
    assert_eq!(seq, i32::MIN + 1);
}

#[test]
fn a_session_is_the_sum_of_its_parts() {
    let auth = auth_hash("a", "b");
    let session = Session::derive(&[1u8; 16], &[2u8; 16], &auth);
    let (key, iv, sig) = session.parts();
    assert_eq!(key, sha256(&[b"lsk", &[1u8; 16], &[2u8; 16], &auth])[..16]);
    let ivf = sha256(&[b"iv", &[1u8; 16], &[2u8; 16], &auth]);
    assert_eq!(iv, ivf[..12]);
    assert_eq!(sig, sha256(&[b"ldk", &[1u8; 16], &[2u8; 16], &auth])[..28]);
    assert_eq!(session.seq, i32::from_be_bytes([ivf[28], ivf[29], ivf[30], ivf[31]]));

    let mut again = Session::restore(key, iv, sig, session.seq);
    let (seq, body) = again.encrypt(b"the same session");
    assert_eq!(session.decrypt(seq, &body).as_deref(), Some(&b"the same session"[..]));
    let mut expected = iv.to_vec();
    expected.extend_from_slice(&seq.to_be_bytes());
    assert_eq!(session.block_iv(seq).to_vec(), expected);
}

#[test]
fn the_sequence_is_read_signed_and_high_byte_first() {
    for n in [0, 1, -1, 0x01020304, i32::MIN, i32::MAX, -123_456_789] {
        assert_eq!(to_big_endian(n), n.to_be_bytes());
        assert_eq!(of_big_endian(&n.to_be_bytes()), n);
    }
}

#[test]
fn a_hash_vouches_for_the_seed_before_it() {
    let mut body = vec![5u8; 16];
    body.extend_from_slice(&[6u8; 32]);
    assert_eq!(accept_hash(&[6u8; 32], &body), Some([5u8; 16]));
    assert_eq!(accept_hash(&[7u8; 32], &body), None);
    assert_eq!(accept_hash(&[6u8; 32], &body[..47]), None);
    // What follows the hash does not count.
    body.push(9);
    assert_eq!(accept_hash(&[6u8; 32], &body), Some([5u8; 16]));
}

#[test]
fn a_session_is_cut_from_three_digests() {
    let mut ivf = [2u8; 32];
    ivf[28..].copy_from_slice(&(-5i32).to_be_bytes());
    let session = Session::cut(&[1u8; 32], &ivf, &[3u8; 32]);
    assert_eq!(session.parts(), ([1u8; 16], [2u8; 12], [3u8; 28]));
    assert_eq!(session.seq, -5);
}

#[test]
fn a_source_that_failed_gives_no_seed() {
    assert_eq!(seed_from(true, [7u8; 16]), Some([7u8; 16]));
    assert_eq!(seed_from(false, [7u8; 16]), None);
    assert_eq!(seed_from(false, [0u8; 16]), None);
}

#[test]
fn at_a_wrong_number_the_first_block_alone_is_wrong() {
    let mut session = Session::restore([1u8; 16], [2u8; 12], [3u8; 28], 40);
    let plain = b"sixteen bytes, and then some more of them";
    let (seq, body) = session.encrypt(plain);
    for other in [seq + 1, seq - 1, 0, i32::MIN] {
        let read = session.decrypt(other, &body).expect("the padding is in a later block");
        assert_eq!(read.len(), plain.len());
        assert_ne!(read, plain);
        assert_eq!(read[16..], plain[16..]);
        // Each byte of the first block is off by the XOR of the two vectors.
        let (a, b) = (session.block_iv(seq), session.block_iv(other));
        for k in 0..16 {
            assert_eq!(read[k] ^ b[k], plain[k] ^ a[k]);
        }
    }
    // A text of exactly one block has its padding in the next.
    let (seq, body) = session.encrypt(&[9u8; 16]);
    assert_ne!(session.decrypt(seq + 7, &body).expect("a block of padding"), [9u8; 16]);
}
