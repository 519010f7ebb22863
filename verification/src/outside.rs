//! Everything this crate takes on trust: the hashes, the cipher, the entropy and the JSON
//! reader that come from other crates, and the few functions of the standard library that the
//! verifier does not know. Nothing in this file decides anything; each item hands its arguments
//! to one outside function and says what comes back.

use vstd::prelude::*;
use vstd::utf8::{decode_utf8, valid_utf8};
use aes::Aes128;
use aes::cipher::block_padding::Pkcs7;
use aes::cipher::{BlockDecryptMut, BlockEncryptMut, KeyIvInit};
use sha1::Sha1;
use sha2::{Digest, Sha256};

verus! {

// ---------------------------------------------------------------------------------------
// Hashes
// ---------------------------------------------------------------------------------------

/// The SHA-1 digest of `data`.
pub uninterp spec fn sha1_of(data: Seq<u8>) -> Seq<u8>;

/// `Sha1::digest` of the `sha1` crate: the twenty-byte digest, which depends on nothing but
/// the bytes it is given.
#[verifier::external_body]
pub(crate) fn sha1_digest(data: &[u8]) -> (r: [u8; 20])
    ensures
        r@ == sha1_of(data@),
{
    Sha1::digest(data).into()
}

/// The SHA-256 digest of `data`.
pub uninterp spec fn sha256_of(data: Seq<u8>) -> Seq<u8>;

/// `Sha256::digest` of the `sha2` crate: the thirty-two-byte digest, which depends on nothing
/// but the bytes it is given.
#[verifier::external_body]
pub(crate) fn sha256_digest(data: &[u8]) -> (r: [u8; 32])
    ensures
        r@ == sha256_of(data@),
{
    Sha256::digest(data).into()
}

// ---------------------------------------------------------------------------------------
// AES-128 in CBC mode, padded with PKCS#7
// ---------------------------------------------------------------------------------------

/// `plain`, padded to whole blocks of sixteen bytes and encrypted.
pub uninterp spec fn cbc_encrypted(key: Seq<u8>, iv: Seq<u8>, plain: Seq<u8>) -> Seq<u8>;

/// `cipher`, decrypted and with its padding taken off, or nothing where it is not a whole
/// number of blocks or the padding is malformed.
pub uninterp spec fn cbc_decrypted(key: Seq<u8>, iv: Seq<u8>, cipher: Seq<u8>) -> Option<Seq<u8>>;

/// What decrypting under the vector `other` gives in place of `plain`, which the vector `iv` gives.
/// The first block is XORed with the vector and every later one with the ciphertext before it, so
/// each of the first sixteen bytes is off by the XOR of the two vectors, and nothing else is.
pub open spec fn garbled(
    plain: Seq<u8>,
    iv: Seq<u8>,
    other: Seq<u8>,
    noise: Option<Seq<u8>>,
) -> bool {
    &&& noise is Some
    &&& noise->0.len() == plain.len() >= 16
    &&& noise->0.skip(16) == plain.skip(16)
    &&& forall|k: int| 0 <= k < 16 ==> (#[trigger] noise->0[k]) ^ other[k] == plain[k] ^ iv[k]
}

/// `encrypt_padded_vec_mut` of the `cipher` crate on `cbc::Encryptor<Aes128>`.
///
/// The padding always adds between one byte and a whole block, and decrypting the result under
/// the same key and initialisation vector gives `plain` back. Where `plain` fills a block, the
/// padding is in a later one, so under another vector the first block alone comes out wrong.
#[verifier::external_body]
pub(crate) fn cbc_encrypt(key: &[u8; 16], iv: &[u8; 16], plain: &[u8]) -> (r: Vec<u8>)
    ensures
        r@ == cbc_encrypted(key@, iv@, plain@),
        r@.len() == (plain@.len() / 16 + 1) * 16,
        cbc_decrypted(key@, iv@, r@) == Some(plain@),
        plain@.len() >= 16 ==> (forall|other: Seq<u8>|
            other.len() == 16 ==> garbled(
                plain@,
                iv@,
                other,
                #[trigger] cbc_decrypted(key@, other, r@),
            )),
{
    cbc::Encryptor::<Aes128>::new(&(*key).into(), &(*iv).into())
        .encrypt_padded_vec_mut::<Pkcs7>(plain)
}

/// `decrypt_padded_vec_mut` of the `cipher` crate on `cbc::Decryptor<Aes128>`.
///
/// Input that is empty or not a whole number of blocks is refused. Every block after the first
/// is decrypted from the ciphertext before it and not from the initialisation vector, so with
/// two blocks or more another vector changes neither whether the padding validates, nor the
/// length, nor anything past the sixteenth byte; what it changes is as [`garbled`] says.
#[verifier::external_body]
pub(crate) fn cbc_decrypt(key: &[u8; 16], iv: &[u8; 16], cipher: &[u8]) -> (r: Option<Vec<u8>>)
    ensures
        match r {
            Some(plain) => cbc_decrypted(key@, iv@, cipher@) == Some(plain@),
            None => cbc_decrypted(key@, iv@, cipher@) is None,
        },
        cipher@.len() == 0 || cipher@.len() % 16 != 0 ==> r is None,
        cipher@.len() >= 32 ==> (forall|other: Seq<u8>|
            other.len() == 16 ==> (match r {
                Some(plain) => garbled(
                    plain@,
                    iv@,
                    other,
                    #[trigger] cbc_decrypted(key@, other, cipher@),
                ),
                None => cbc_decrypted(key@, other, cipher@) is None,
            })),
{
    cbc::Decryptor::<Aes128>::new(&(*key).into(), &(*iv).into())
        .decrypt_padded_vec_mut::<Pkcs7>(cipher)
        .ok()
}

// ---------------------------------------------------------------------------------------
// Entropy
// ---------------------------------------------------------------------------------------

/// `getrandom::getrandom`: fills `seed` from the system's random number source and says
/// whether that worked. Nothing is promised of the bytes, and on a failure nothing can be.
#[verifier::external_body]
pub(crate) fn fill_random(seed: &mut [u8; 16]) -> (r: bool) {
    getrandom::getrandom(seed).is_ok()
}

// ---------------------------------------------------------------------------------------
// JSON
// ---------------------------------------------------------------------------------------

/// What a JSON value holds. `Float` stands for every number that is kept in floating point, which
/// is each one that was not written as an integer of at most sixty-four bits, and a zero with a
/// minus sign: nothing here reads such a number.
pub enum Json {
    Null,
    Bool(bool),
    Int(int),
    Float,
    Text(Seq<char>),
    Array(Seq<Json>),
    Object(Map<Seq<char>, Json>),
}

/// A parsed JSON document, as `serde_json` keeps it.
#[verifier::external_type_specification]
#[verifier::external_body]
pub struct ExValue(serde_json::Value);

/// What a `serde_json::Value` holds.
pub uninterp spec fn json_tree(value: serde_json::Value) -> Json;

/// The JSON document that `bytes` spell, if they spell one.
pub uninterp spec fn json_of_bytes(bytes: Seq<u8>) -> Option<Json>;

/// `serde_json::from_slice` into a `serde_json::Value`.
#[verifier::external_body]
pub(crate) fn json_from_slice(bytes: &[u8]) -> (r: Option<serde_json::Value>)
    ensures
        match r {
            Some(value) => json_of_bytes(bytes@) == Some(json_tree(value)),
            None => json_of_bytes(bytes@) is None,
        },
{
    serde_json::from_slice::<serde_json::Value>(bytes).ok()
}

/// The JSON document that `text` spells, if it spells one.
pub uninterp spec fn json_of_text(text: Seq<char>) -> Option<Json>;

/// `serde_json::from_str` into a `serde_json::Value`.
#[verifier::external_body]
pub(crate) fn json_from_str(text: &str) -> (r: Option<serde_json::Value>)
    ensures
        match r {
            Some(value) => json_of_text(text@) == Some(json_tree(value)),
            None => json_of_text(text@) is None,
        },
{
    serde_json::from_str::<serde_json::Value>(text).ok()
}

/// The member `key` of an object; nothing where `tree` is no object or has no such member.
pub open spec fn json_member(tree: Json, key: Seq<char>) -> Option<Json> {
    match tree {
        Json::Object(members) => if members.dom().contains(key) {
            Some(members[key])
        } else {
            None
        },
        _ => None,
    }
}

/// `serde_json::Value::get` with a string for its index: the member of that name.
#[verifier::external_body]
pub(crate) fn json_get<'a>(value: &'a serde_json::Value, key: &str) -> (r: Option<
    &'a serde_json::Value,
>)
    ensures
        match r {
            Some(member) => json_member(json_tree(*value), key@) == Some(json_tree(*member)),
            None => json_member(json_tree(*value), key@) is None,
        },
{
    value.get(key)
}

/// `tree` as a truth value, where it is one.
pub open spec fn json_bool(tree: Json) -> Option<bool> {
    match tree {
        Json::Bool(b) => Some(b),
        _ => None,
    }
}

/// `serde_json::Value::as_bool`: the truth value, where the value is one.
pub assume_specification[ serde_json::Value::as_bool ](value: &serde_json::Value) -> (r: Option<
    bool,
>)
    ensures
        r == json_bool(json_tree(*value)),
;

/// `tree` as an unsigned integer of sixty-four bits, where it is one.
pub open spec fn json_u64(tree: Json) -> Option<u64> {
    match tree {
        Json::Int(n) => if 0 <= n <= u64::MAX {
            Some(n as u64)
        } else {
            None
        },
        _ => None,
    }
}

/// `serde_json::Value::as_u64`: the integer, where the value is one and fits.
pub assume_specification[ serde_json::Value::as_u64 ](value: &serde_json::Value) -> (r: Option<u64>)
    ensures
        r == json_u64(json_tree(*value)),
;

/// `tree` as a signed integer of sixty-four bits, where it is one.
pub open spec fn json_i64(tree: Json) -> Option<i64> {
    match tree {
        Json::Int(n) => if i64::MIN <= n <= i64::MAX {
            Some(n as i64)
        } else {
            None
        },
        _ => None,
    }
}

/// `serde_json::Value::as_i64`: the integer, where the value is one and fits.
pub assume_specification[ serde_json::Value::as_i64 ](value: &serde_json::Value) -> (r: Option<i64>)
    ensures
        r == json_i64(json_tree(*value)),
;

/// `tree` as a string, where it is one.
pub open spec fn json_text(tree: Json) -> Option<Seq<char>> {
    match tree {
        Json::Text(text) => Some(text),
        _ => None,
    }
}

/// `serde_json::Value::as_str`: the string, where the value is one.
pub assume_specification[ serde_json::Value::as_str ](value: &serde_json::Value) -> (r: Option<
    &str,
>)
    ensures
        match r {
            Some(text) => json_text(json_tree(*value)) == Some(text@),
            None => json_text(json_tree(*value)) is None,
        },
;

// ---------------------------------------------------------------------------------------
// The standard library
// ---------------------------------------------------------------------------------------

/// `bytes` as text, with the replacement character wherever they are not UTF-8.
pub uninterp spec fn utf8_lossy(bytes: Seq<u8>) -> Seq<char>;

/// `bytes` as text: what they encode where they are UTF-8 throughout, and with the replacement
/// character here and there where they are not.
pub open spec fn lossy_text(bytes: Seq<u8>) -> Seq<char> {
    if valid_utf8(bytes) {
        decode_utf8(bytes)
    } else {
        utf8_lossy(bytes)
    }
}

/// `String::from_utf8_lossy`. Bytes that are UTF-8 throughout come back as what they encode;
/// where they are not, which sequences share one replacement character is left to the name.
#[verifier::external_body]
pub(crate) fn text_lossy(bytes: &[u8]) -> (r: String)
    ensures
        r@ == utf8_lossy(bytes@),
        valid_utf8(bytes@) ==> r@ == decode_utf8(bytes@),
{
    String::from_utf8_lossy(bytes).into_owned()
}

/// `String::from_utf8`: the text that the bytes encode, if they are UTF-8 throughout.
#[verifier::external_body]
pub(crate) fn text_of_utf8(bytes: Vec<u8>) -> (r: Option<String>)
    ensures
        match r {
            Some(text) => valid_utf8(bytes@) && text@ == decode_utf8(bytes@),
            None => !valid_utf8(bytes@),
        },
{
    String::from_utf8(bytes).ok()
}

/// `String::push`: appends one character.
pub assume_specification[ String::push ](s: &mut String, c: char)
    ensures
        final(s)@ == old(s)@.push(c),
;

/// Equality of two string slices: the same characters in the same order.
pub assume_specification[ <str as PartialEq>::eq ](a: &str, b: &str) -> (r: bool)
    ensures
        r == (a@ == b@),
;

} // verus!
