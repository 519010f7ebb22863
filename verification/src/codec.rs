//! Bytes as text and text as bytes: the hexadecimal form that a session is stored in, the base64
//! that a Tapo sends every human-set name in, and the lists of numbers that carry raw bytes
//! through JSON.

use vstd::prelude::*;
use vstd::utf8::{decode_utf8, encode_utf8, encode_utf8_decode_utf8, encode_utf8_valid_utf8, valid_utf8};
use crate::outside::text_of_utf8;
use crate::text::{chars_of, text_option};

verus! {

// ---------------------------------------------------------------------------------------
// Hexadecimal
// ---------------------------------------------------------------------------------------

/// The hexadecimal digit for `n`, which is below sixteen.
pub open spec fn nibble(n: int) -> char {
    if n < 10 {
        (48 + n) as char
    } else {
        (87 + n) as char
    }
}

/// `bytes` in hexadecimal: two small digits for each, the high one first.
pub open spec fn hex_text(bytes: Seq<u8>) -> Seq<char> {
    Seq::new(
        2 * bytes.len(),
        |i: int|
            nibble(
                if i % 2 == 0 {
                    bytes[i / 2] as int / 16
                } else {
                    bytes[i / 2] as int % 16
                },
            ),
    )
}

fn nibble_of(n: u8) -> (r: char)
    requires
        n < 16,
    ensures
        r == nibble(n as int),
{
    if n < 10 {
        (48 + n) as char
    } else {
        (87 + n) as char
    }
}

/// `bytes` in hexadecimal.
pub fn hex(bytes: &[u8]) -> (r: String)
    ensures
        r@ == hex_text(bytes@),
{
    let mut out: String = String::new();
    let mut i: usize = 0;
    while i < bytes.len()
        invariant
            i <= bytes@.len(),
            out@ == hex_text(bytes@.take(i as int)),
        decreases bytes@.len() - i,
    {
        let ghost before = out@;
        out.push(nibble_of(bytes[i] / 16));
        out.push(nibble_of(bytes[i] % 16));
        proof {
            let b = bytes@[i as int] as int;
            assert(out@ =~= before.push(nibble(b / 16)).push(nibble(b % 16)));
            assert(out@ =~= hex_text(bytes@.take(i + 1)));
        }
        i += 1;
    }
    proof {
        assert(bytes@.take(i as int) =~= bytes@);
    }
    out
}

/// The value of a hexadecimal digit of either case.
pub open spec fn hex_digit(c: char) -> Option<int> {
    let n = c as int;
    if 48 <= n <= 57 {
        Some(n - 48)
    } else if 97 <= n <= 102 {
        Some(n - 87)
    } else if 65 <= n <= 70 {
        Some(n - 55)
    } else {
        None
    }
}

/// The byte that two characters stand for: two hexadecimal digits, or a plus sign and one.
pub open spec fn hex_pair(a: char, b: char) -> Option<u8> {
    match hex_digit(b) {
        Some(low) => match hex_digit(a) {
            Some(high) => Some((16 * high + low) as u8),
            None => if a == '+' {
                Some(low as u8)
            } else {
                None
            },
        },
        None => None,
    }
}

/// Whether `s` is made of pairs that each stand for a byte.
pub open spec fn is_hex(s: Seq<char>) -> bool {
    &&& s.len() % 2 == 0
    &&& forall|i: int|
        0 <= i < s.len() / 2 ==> #[trigger] hex_pair(s[2 * i], s[2 * i + 1]) is Some
}

/// The bytes that `s` stands for, where it is hexadecimal throughout.
pub open spec fn unhexed(s: Seq<char>) -> Option<Seq<u8>> {
    if is_hex(s) {
        Some(Seq::new(s.len() / 2, |i: int| hex_pair(s[2 * i], s[2 * i + 1])->0))
    } else {
        None
    }
}

fn hex_digit_of(c: char) -> (r: Option<u8>)
    ensures
        match r {
            Some(n) => hex_digit(c) == Some(n as int) && n < 16,
            None => hex_digit(c) is None,
        },
{
    let n: u32 = c as u32;
    if 48 <= n && n <= 57 {
        Some((n - 48) as u8)
    } else if 97 <= n && n <= 102 {
        Some((n - 87) as u8)
    } else if 65 <= n && n <= 70 {
        Some((n - 55) as u8)
    } else {
        None
    }
}

fn hex_pair_of(a: char, b: char) -> (r: Option<u8>)
    ensures
        r == hex_pair(a, b),
{
    match hex_digit_of(b) {
        Some(low) => match hex_digit_of(a) {
            Some(high) => Some(16 * high + low),
            None => if a == '+' {
                Some(low)
            } else {
                None
            },
        },
        None => None,
    }
}

/// The bytes that `s` stands for, where it is hexadecimal throughout.
pub fn unhex(s: &str) -> (r: Option<Vec<u8>>)
    ensures
        match r {
            Some(bytes) => unhexed(s@) == Some(bytes@),
            None => unhexed(s@) is None,
        },
{
    let chars: Vec<char> = chars_of(s);
    if chars.len() % 2 != 0 {
        return None;
    }
    let mut out: Vec<u8> = Vec::new();
    let mut i: usize = 0;
    while i < chars.len() / 2
        invariant
            chars@ == s@,
            chars@.len() % 2 == 0,
            i <= chars@.len() / 2,
            out@.len() == i,
            forall|k: int|
                0 <= k < i ==> #[trigger] hex_pair(chars@[2 * k], chars@[2 * k + 1]) == Some(
                    out@[k],
                ),
        decreases chars@.len() / 2 - i,
    {
        match hex_pair_of(chars[2 * i], chars[2 * i + 1]) {
            Some(byte) => {
                out.push(byte);
            },
            None => {
                proof {
                    assert(hex_pair(s@[2 * i as int], s@[2 * i as int + 1]) is None);
                }
                return None;
            },
        }
        i += 1;
    }
    proof {
        assert(out@ =~= unhexed(s@)->0);
    }
    Some(out)
}

/// What was stored in hexadecimal comes back as it was.
pub proof fn law_hex_reads_back(bytes: Seq<u8>)
    ensures
        unhexed(hex_text(bytes)) == Some(bytes),
{
    let s = hex_text(bytes);
    assert forall|i: int| 0 <= i < s.len() / 2 implies #[trigger] hex_pair(s[2 * i], s[2 * i + 1])
        == Some(bytes[i]) by {
        let b = bytes[i] as int;
        assert(s[2 * i] == nibble(b / 16));
        assert(s[2 * i + 1] == nibble(b % 16));
        assert(hex_digit(nibble(b / 16)) == Some(b / 16));
        assert(hex_digit(nibble(b % 16)) == Some(b % 16));
    }
    assert(unhexed(s)->0 =~= bytes);
}

// ---------------------------------------------------------------------------------------
// Base64
// ---------------------------------------------------------------------------------------

/// The six bits that a character of the base64 alphabet stands for.
pub open spec fn sextet(c: char) -> Option<int> {
    let n = c as int;
    if 65 <= n <= 90 {
        Some(n - 65)
    } else if 97 <= n <= 122 {
        Some(n - 71)
    } else if 48 <= n <= 57 {
        Some(n + 4)
    } else if c == '+' {
        Some(62)
    } else if c == '/' {
        Some(63)
    } else {
        None
    }
}

/// `s` without its padding, wherever that stands.
pub open spec fn unpadded(s: Seq<char>) -> Seq<char>
    decreases s.len(),
{
    if s.len() == 0 {
        Seq::empty()
    } else if s.last() == '=' {
        unpadded(s.drop_last())
    } else {
        unpadded(s.drop_last()).push(s.last())
    }
}

/// Whether `s` is made of the base64 alphabet alone.
pub open spec fn is_base64(s: Seq<char>) -> bool {
    forall|i: int| 0 <= i < s.len() ==> sextet(#[trigger] s[i]) is Some
}

/// The bytes whose bits are the six of each character in turn: three for every four characters.
/// Bits that do not fill a byte are dropped.
pub open spec fn base64_bytes(s: Seq<char>) -> Seq<u8> {
    Seq::new(
        3 * s.len() / 4,
        |k: int|
            {
                let j = 4 * (k / 3) + k % 3;
                let (a, b) = (sextet(s[j])->0, sextet(s[j + 1])->0);
                if k % 3 == 0 {
                    (a * 4 + b / 16) as u8
                } else if k % 3 == 1 {
                    (a % 16 * 16 + b / 4) as u8
                } else {
                    (a % 4 * 64 + b) as u8
                }
            },
    )
}

/// The name that a Tapo sent as `s`, where that is base64 of UTF-8.
pub open spec fn base64_text(s: Seq<char>) -> Option<Seq<char>> {
    let t = unpadded(s);
    if is_base64(t) && valid_utf8(base64_bytes(t)) {
        Some(decode_utf8(base64_bytes(t)))
    } else {
        None
    }
}

fn sextet_of(c: char) -> (r: Option<u8>)
    ensures
        match r {
            Some(n) => sextet(c) == Some(n as int) && n < 64,
            None => sextet(c) is None,
        },
{
    let n: u32 = c as u32;
    if 65 <= n && n <= 90 {
        Some((n - 65) as u8)
    } else if 97 <= n && n <= 122 {
        Some((n - 71) as u8)
    } else if 48 <= n && n <= 57 {
        Some((n + 4) as u8)
    } else if c == '+' {
        Some(62)
    } else if c == '/' {
        Some(63)
    } else {
        None
    }
}

proof fn lemma_unpadded_of_prefix(s: Seq<char>, i: int)
    requires
        0 <= i < s.len(),
    ensures
        unpadded(s.take(i + 1)) == (if s[i] == '=' {
            unpadded(s.take(i))
        } else {
            unpadded(s.take(i)).push(s[i])
        }),
{
    assert(s.take(i + 1).drop_last() =~= s.take(i));
}

proof fn lemma_unpadded_keeps(s: Seq<char>, i: int)
    requires
        0 <= i < s.len(),
        s[i] != '=',
    ensures
        unpadded(s).contains(s[i]),
    decreases s.len(),
{
    let rest = s.drop_last();
    if i == s.len() - 1 {
        let t = unpadded(s);
        assert(t[t.len() - 1] == s[i]);
    } else {
        lemma_unpadded_keeps(rest, i);
        let k = choose|k: int| 0 <= k < unpadded(rest).len() && unpadded(rest)[k] == s[i];
        assert(unpadded(s)[k] == s[i]);
    }
}

/// The bits that the last of `t` left over, where it did not fill a byte.
spec fn bits_left(t: Seq<char>) -> int {
    (sextet(t.last())->0) % (if t.len() % 4 == 1 {
        64int
    } else if t.len() % 4 == 2 {
        16
    } else {
        4
    })
}

/// Everything that the characters `t` give is in `out`, but for the bits that are left over at this
/// place in a group of four.
#[verifier::opaque]
spec fn absorbed(t: Seq<char>, out: Seq<u8>, place: int, left: int) -> bool {
    &&& is_base64(t)
    &&& out == base64_bytes(t)
    &&& place == t.len() % 4
    &&& place != 0 ==> left == bits_left(t)
}

/// The byte that six bits `v` complete at this place, with those that were left over before them.
spec fn completed(place: int, left: int, v: int) -> u8 {
    if place == 1 {
        (left * 4 + v / 16) as u8
    } else if place == 2 {
        (left * 16 + v / 4) as u8
    } else {
        (left * 64 + v) as u8
    }
}

/// The bits of `v` that are left over at this place.
spec fn kept(place: int, v: int) -> int {
    if place == 0 {
        v
    } else if place == 1 {
        v % 16
    } else if place == 2 {
        v % 4
    } else {
        0
    }
}

proof fn lemma_sextet_bounds(c: char)
    requires
        sextet(c) is Some,
    ensures
        0 <= sextet(c)->0 < 64,
{
}

proof fn lemma_is_base64_push(t: Seq<char>, c: char)
    requires
        is_base64(t),
        sextet(c) is Some,
    ensures
        is_base64(t.push(c)),
{
    let u = t.push(c);
    assert forall|k: int| 0 <= k < u.len() implies sextet(#[trigger] u[k]) is Some by {
        if k < t.len() {
            assert(u[k] == t[k]);
        }
    }
}

proof fn lemma_left_over(t: Seq<char>, out: Seq<u8>, place: int, left: int)
    requires
        absorbed(t, out, place, left),
    ensures
        0 <= place < 4,
        place == 1 ==> 0 <= left < 64 && left == sextet(t.last())->0,
        place == 2 ==> 0 <= left < 16 && left == sextet(t.last())->0 % 16,
        place == 3 ==> 0 <= left < 4 && left == sextet(t.last())->0 % 4,
{
    reveal(absorbed);
    if place != 0 {
        assert(sextet(t[t.len() - 1]) is Some);
        lemma_sextet_bounds(t.last());
    }
}

#[verifier::rlimit(40)]
proof fn lemma_absorbed_more(
    t: Seq<char>,
    c: char,
    out: Seq<u8>,
    place: int,
    left: int,
    v: int,
)
    requires
        absorbed(t, out, place, left),
        sextet(c) == Some(v),
    ensures
        absorbed(
            t.push(c),
            if place == 0 {
                out
            } else {
                out.push(completed(place, left, v))
            },
            if place == 3 {
                0
            } else {
                place + 1
            },
            kept(place, v),
        ),
{
    lemma_left_over(t, out, place, left);
    lemma_sextet_bounds(c);
    reveal(absorbed);
    lemma_is_base64_push(t, c);
    lemma_base64_grows(t, c);
    let u = t.push(c);
    assert(u.last() == c);
    let more = if place == 0 {
        out
    } else {
        out.push(completed(place, left, v))
    };
    assert(more.len() == base64_bytes(u).len());
    assert(more =~= base64_bytes(u));
}

/// Six more bits: the byte that they complete goes to `out`, and the next place and the bits that
/// are left over come back.
fn absorb(out: &mut Vec<u8>, place: usize, left: u8, v: u8, t: Ghost<Seq<char>>, c: Ghost<char>) -> (r:
    (usize, u8))
    requires
        absorbed(t@, old(out)@, place as int, left as int),
        sextet(c@) == Some(v as int),
    ensures
        absorbed(t@.push(c@), final(out)@, r.0 as int, r.1 as int),
{
    proof {
        lemma_left_over(t@, out@, place as int, left as int);
        lemma_sextet_bounds(c@);
        lemma_absorbed_more(t@, c@, out@, place as int, left as int, v as int);
    }
    if place == 0 {
        return (1, v);
    }
    let (byte, rest): (u8, u8) = if place == 1 {
        (left * 4 + v / 16, v % 16)
    } else if place == 2 {
        (left * 16 + v / 4, v % 4)
    } else {
        (left * 64 + v, 0)
    };
    out.push(byte);
    if place == 3 {
        (0, rest)
    } else {
        (place + 1, rest)
    }
}

proof fn lemma_nothing_absorbed(s: Seq<char>)
    ensures
        absorbed(unpadded(s.take(0)), Seq::empty(), 0, 0),
{
    reveal(absorbed);
    assert(unpadded(s.take(0)) =~= Seq::<char>::empty());
    assert(base64_bytes(Seq::empty()) =~= Seq::<u8>::empty());
}

proof fn lemma_all_absorbed(s: Seq<char>, out: Seq<u8>, place: int, left: int)
    requires
        absorbed(unpadded(s), out, place, left),
    ensures
        base64_text(s) == (if valid_utf8(out) {
            Some(decode_utf8(out))
        } else {
            None
        }),
{
    reveal(absorbed);
}

proof fn lemma_not_base64(s: Seq<char>, i: int)
    requires
        0 <= i < s.len(),
        s[i] != '=',
        sextet(s[i]) is None,
    ensures
        base64_text(s) is None,
{
    lemma_unpadded_keeps(s, i);
    let u = unpadded(s);
    let k = choose|k: int| 0 <= k < u.len() && u[k] == s[i];
    assert(sextet(u[k]) is None);
}

/// The name that a Tapo sent as `s`.
pub fn from_base64(s: &str) -> (r: Option<String>)
    ensures
        text_option(r) == base64_text(s@),
{
    let chars: Vec<char> = chars_of(s);
    let mut out: Vec<u8> = Vec::new();
    // Where in a group of four characters this is, and the bits left over from the last one.
    let mut place: usize = 0;
    let mut left: u8 = 0;
    let mut i: usize = 0;
    proof {
        lemma_nothing_absorbed(s@);
        assert(out@ =~= Seq::<u8>::empty());
    }
    while i < chars.len()
        invariant
            chars@ == s@,
            i <= chars@.len(),
            absorbed(unpadded(s@.take(i as int)), out@, place as int, left as int),
        decreases chars@.len() - i,
    {
        let c: char = chars[i];
        proof {
            lemma_unpadded_of_prefix(s@, i as int);
        }
        if c != '=' {
            let v: u8 = match sextet_of(c) {
                Some(v) => v,
                None => {
                    proof {
                        lemma_not_base64(s@, i as int);
                    }
                    return None;
                },
            };
            let (at, rest): (usize, u8) = absorb(
                &mut out,
                place,
                left,
                v,
                Ghost(unpadded(s@.take(i as int))),
                Ghost(c),
            );
            place = at;
            left = rest;
        }
        i += 1;
    }
    proof {
        assert(s@.take(i as int) =~= s@);
        lemma_all_absorbed(s@, out@, place as int, left as int);
    }
    text_of_utf8(out)
}

#[verifier::rlimit(40)]
proof fn lemma_base64_grows(t: Seq<char>, c: char)
    ensures
        t.len() % 4 == 0 ==> base64_bytes(t.push(c)).len() == base64_bytes(t).len(),
        t.len() % 4 != 0 ==> base64_bytes(t.push(c)).len() == base64_bytes(t).len() + 1,
        forall|k: int|
            0 <= k < base64_bytes(t).len() ==> base64_bytes(t.push(c))[k] == #[trigger] base64_bytes(
                t,
            )[k],
        t.len() % 4 != 0 ==> base64_bytes(t.push(c)).last() == ({
            let (a, b) = (sextet(t.last())->0, sextet(c)->0);
            if t.len() % 4 == 1 {
                (a * 4 + b / 16) as u8
            } else if t.len() % 4 == 2 {
                (a % 16 * 16 + b / 4) as u8
            } else {
                (a % 4 * 64 + b) as u8
            }
        }),
{
    let u = t.push(c);
    let n = t.len() as int;
    assert forall|k: int| 0 <= k < base64_bytes(t).len() implies base64_bytes(u)[k]
        == #[trigger] base64_bytes(t)[k] by {
        let j = 4 * (k / 3) + k % 3;
        assert(j + 1 < n);
        assert(u[j] == t[j]);
        assert(u[j + 1] == t[j + 1]);
    }
    if n % 4 != 0 {
        let k = base64_bytes(u).len() - 1;
        assert(k == 3 * (n + 1) / 4 - 1);
        let j = 4 * (k / 3) + k % 3;
        assert(j == n - 1);
        assert(u[j] == t.last());
        assert(u[j + 1] == c);
    }
}

/// The character of the base64 alphabet for `v`, which is below sixty-four.
pub open spec fn letter(v: int) -> char {
    if v < 26 {
        (65 + v) as char
    } else if v < 52 {
        (71 + v) as char
    } else if v < 62 {
        (v - 4) as char
    } else if v == 62 {
        '+'
    } else {
        '/'
    }
}

/// The byte at `i`, or zero past the end.
pub open spec fn byte_at(bytes: Seq<u8>, i: int) -> int {
    if 0 <= i < bytes.len() {
        bytes[i] as int
    } else {
        0
    }
}

/// The six bits of `bytes` that the `i`th character of their base64 stands for.
pub open spec fn six_bits(bytes: Seq<u8>, i: int) -> int {
    let k = 3 * (i / 4);
    if i % 4 == 0 {
        byte_at(bytes, k) / 4
    } else if i % 4 == 1 {
        byte_at(bytes, k) % 4 * 16 + byte_at(bytes, k + 1) / 16
    } else if i % 4 == 2 {
        byte_at(bytes, k + 1) % 16 * 4 + byte_at(bytes, k + 2) / 64
    } else {
        byte_at(bytes, k + 2) % 64
    }
}

/// The base64 of `bytes` without its padding: four characters for every three bytes, and one more
/// than is left for the rest.
pub open spec fn base64_letters(bytes: Seq<u8>) -> Seq<char> {
    Seq::new(((4 * bytes.len() + 2) / 3) as nat, |i: int| letter(six_bits(bytes, i)))
}

/// What fills up the last group of four.
pub open spec fn base64_padding(n: nat) -> Seq<char> {
    if n % 3 == 1 {
        seq!['=', '=']
    } else if n % 3 == 2 {
        seq!['=']
    } else {
        Seq::empty()
    }
}

/// The base64 of `bytes`, as a Tapo writes it.
pub open spec fn base64_of(bytes: Seq<u8>) -> Seq<char> {
    base64_letters(bytes) + base64_padding(bytes.len())
}

proof fn lemma_letter(v: int)
    requires
        0 <= v < 64,
    ensures
        sextet(letter(v)) == Some(v),
        letter(v) != '=',
{
}

proof fn lemma_six_bits(bytes: Seq<u8>, i: int)
    requires
        0 <= i,
    ensures
        0 <= six_bits(bytes, i) < 64,
{
}

proof fn lemma_unpadded_of_letters(s: Seq<char>, n: nat)
    requires
        forall|i: int| 0 <= i < s.len() ==> s[i] != '=',
    ensures
        unpadded(s) == s,
        unpadded(s + base64_padding(n)) == s,
    decreases s.len(),
{
    if s.len() > 0 {
        lemma_unpadded_of_letters(s.drop_last(), 0);
        assert(s.drop_last().push(s.last()) =~= s);
    } else {
        assert(unpadded(s) =~= s);
    }
    let one = s + seq!['='];
    let two = s + seq!['=', '='];
    assert(one.drop_last() =~= s);
    assert(two.drop_last() =~= one);
    assert(s + Seq::<char>::empty() =~= s);
    assert(one.last() == '=' && two.last() == '=');
    assert(unpadded(s) == s);
    assert(unpadded(one) == unpadded(one.drop_last()));
    assert(unpadded(two) == unpadded(two.drop_last()));
}

/// Where the bits of the byte at `3 * g + r` are.
proof fn lemma_places(g: int, r: int, n: int)
    requires
        0 <= g,
        0 <= r < 3,
        3 * g + r < n,
    ensures
        (4 * g + r) / 4 == g,
        (4 * g + r) % 4 == r,
        (4 * g + r + 1) / 4 == g,
        (4 * g + r + 1) % 4 == r + 1,
        (3 * g + r) / 3 == g,
        (3 * g + r) % 3 == r,
        4 * g + r + 1 < (4 * n + 2) / 3,
{
}

proof fn lemma_above_four_bits(high: int, low: int)
    requires
        0 <= low < 16,
    ensures
        (high * 16 + low) / 16 == high,
        (high * 16 + low) % 16 == low,
{
}

proof fn lemma_above_two_bits(high: int, low: int)
    requires
        0 <= low < 4,
    ensures
        (high * 4 + low) / 4 == high,
        (high * 4 + low) % 4 == low,
{
}

/// A byte is put together out of the bits it was taken apart into, whatever is before and after.
proof fn lemma_bits(before: int, b: int, after: int)
    requires
        0 <= before < 256,
        0 <= b < 256,
        0 <= after < 256,
    ensures
        b / 4 * 4 + (b % 4 * 16 + after / 16) / 16 == b,
        (before % 4 * 16 + b / 16) % 16 * 16 + (b % 16 * 4 + after / 64) / 4 == b,
        (before % 16 * 4 + b / 64) % 4 * 64 + b % 64 == b,
{
    lemma_above_four_bits(b % 4, after / 16);
    lemma_above_four_bits(before % 4, b / 16);
    lemma_above_two_bits(b % 16, after / 64);
    lemma_above_two_bits(before % 16, b / 64);
}

proof fn lemma_sextet_of_letters(bytes: Seq<u8>, i: int)
    requires
        0 <= i < base64_letters(bytes).len(),
    ensures
        sextet(base64_letters(bytes)[i]) == Some(six_bits(bytes, i)),
{
    lemma_six_bits(bytes, i);
    lemma_letter(six_bits(bytes, i));
}

#[verifier::rlimit(40)]
proof fn lemma_byte_of_letters(bytes: Seq<u8>, k: int)
    requires
        0 <= k < bytes.len(),
        k < base64_bytes(base64_letters(bytes)).len(),
    ensures
        base64_bytes(base64_letters(bytes))[k] == bytes[k],
{
    let t = base64_letters(bytes);
    let (g, r) = (k / 3, k % 3);
    let j = 4 * g + r;
    lemma_places(g, r, bytes.len() as int);
    lemma_sextet_of_letters(bytes, j);
    lemma_sextet_of_letters(bytes, j + 1);
    lemma_bits(byte_at(bytes, k - 1), byte_at(bytes, k), byte_at(bytes, k + 1));
    let (a, b) = (six_bits(bytes, j), six_bits(bytes, j + 1));
    let c = byte_at(bytes, k);
    if r == 0 {
        assert(a * 4 + b / 16 == c);
    } else if r == 1 {
        assert(a % 16 * 16 + b / 4 == c);
    } else {
        assert(a % 4 * 64 + b == c);
    }
}

proof fn lemma_base64_bytes_of_letters(bytes: Seq<u8>)
    ensures
        is_base64(base64_letters(bytes)),
        base64_bytes(base64_letters(bytes)) == bytes,
{
    let t = base64_letters(bytes);
    assert forall|i: int| 0 <= i < t.len() implies sextet(#[trigger] t[i]) is Some by {
        lemma_sextet_of_letters(bytes, i);
    }
    let back = base64_bytes(t);
    assert(back.len() == bytes.len());
    assert forall|k: int| 0 <= k < bytes.len() implies #[trigger] back[k] == bytes[k] by {
        lemma_byte_of_letters(bytes, k);
    }
    assert(back =~= bytes);
}

/// Every name reads back: base64 of a text is read as that text.
pub proof fn law_base64_reads_back(text: Seq<char>)
    ensures
        base64_text(base64_of(encode_utf8(text))) == Some(text),
{
    let bytes = encode_utf8(text);
    let t = base64_letters(bytes);
    assert forall|i: int| 0 <= i < t.len() implies t[i] != '=' by {
        lemma_six_bits(bytes, i);
        lemma_letter(six_bits(bytes, i));
    }
    lemma_unpadded_of_letters(t, bytes.len());
    lemma_base64_bytes_of_letters(bytes);
    encode_utf8_valid_utf8(text);
    encode_utf8_decode_utf8(text);
}

// ---------------------------------------------------------------------------------------
// Bytes in lists of numbers
// ---------------------------------------------------------------------------------------

/// The bytes in a list of what may be numbers: the low eight bits of each that is one.
pub open spec fn octets_of(numbers: Seq<Option<u64>>) -> Seq<u8>
    decreases numbers.len(),
{
    if numbers.len() == 0 {
        Seq::empty()
    } else {
        match numbers.last() {
            Some(n) => octets_of(numbers.drop_last()).push(n as u8),
            None => octets_of(numbers.drop_last()),
        }
    }
}

/// The bytes in a list of what may be numbers.
pub fn octets(numbers: &[Option<u64>]) -> (r: Vec<u8>)
    ensures
        r@ == octets_of(numbers@),
{
    let mut out: Vec<u8> = Vec::new();
    let mut i: usize = 0;
    while i < numbers.len()
        invariant
            i <= numbers@.len(),
            out@ == octets_of(numbers@.take(i as int)),
        decreases numbers@.len() - i,
    {
        proof {
            assert(numbers@.take(i + 1).drop_last() =~= numbers@.take(i as int));
            assert(numbers@.take(i + 1).last() == numbers@[i as int]);
        }
        if let Some(n) = numbers[i] {
            out.push(n as u8);
        }
        i += 1;
    }
    proof {
        assert(numbers@.take(i as int) =~= numbers@);
    }
    out
}

} // verus!
