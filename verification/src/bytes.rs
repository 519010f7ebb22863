//! Runs of bytes: fixed-size windows, and the big-endian form of a signed number.

use vstd::prelude::*;

verus! {

/// The first `n` items of `s`.
pub open spec fn first(s: Seq<u8>, n: nat) -> Seq<u8> {
    Seq::new(n, |i: int| s[i])
}

/// The `N` bytes of `v` that begin at `from`.
pub fn window<const N: usize>(v: &[u8], from: usize) -> (r: [u8; N])
    requires
        from + N <= v@.len(),
    ensures
        r@ == v@.subrange(from as int, from + N),
{
    let n: usize = v.len();
    let mut out: [u8; N] = vstd::array::array_fill_for_copy_types(0u8);
    let mut i: usize = 0;
    while i < N
        invariant
            i <= N,
            n == v@.len(),
            from + N <= n,
            forall|k: int| 0 <= k < i ==> out@[k] == v@[from + k],
        decreases N - i,
    {
        out[i] = v[from + i];
        i += 1;
    }
    proof {
        assert(out@ =~= v@.subrange(from as int, from + N));
    }
    out
}

/// `v` as an array, where it has exactly `N` bytes.
pub fn exactly<const N: usize>(v: &[u8]) -> (r: Option<[u8; N]>)
    ensures
        match r {
            Some(a) => a@ == v@ && v@.len() == N,
            None => v@.len() != N,
        },
{
    if v.len() == N {
        let a: [u8; N] = window(v, 0);
        proof {
            assert(v@.subrange(0, N as int) =~= v@);
        }
        Some(a)
    } else {
        None
    }
}

/// Whether `a` and `b` are the same bytes.
pub fn same_bytes(a: &[u8], b: &[u8]) -> (r: bool)
    ensures
        r == (a@ == b@),
{
    if a.len() != b.len() {
        return false;
    }
    let mut i: usize = 0;
    while i < a.len()
        invariant
            a@.len() == b@.len(),
            i <= a@.len(),
            forall|k: int| 0 <= k < i ==> a@[k] == b@[k],
        decreases a@.len() - i,
    {
        if a[i] != b[i] {
            return false;
        }
        i += 1;
    }
    proof {
        assert(a@ =~= b@);
    }
    true
}

/// The bytes of `seq`, the most significant first, negative numbers in two's complement.
pub open spec fn big_endian(seq: i32) -> Seq<u8> {
    let n = seq as int % 0x1_0000_0000;
    seq![
        (n / 0x100_0000) as u8,
        (n / 0x1_0000 % 0x100) as u8,
        (n / 0x100 % 0x100) as u8,
        (n % 0x100) as u8,
    ]
}

/// The number whose big-endian bytes are the first four of `b`.
pub open spec fn from_big_endian(b: Seq<u8>) -> i32 {
    let n = b[0] as int * 0x100_0000 + b[1] as int * 0x1_0000 + b[2] as int * 0x100 + b[3] as int;
    if n >= 0x8000_0000 {
        (n - 0x1_0000_0000) as i32
    } else {
        n as i32
    }
}

/// The bytes of `seq`, the most significant first.
pub fn to_big_endian(seq: i32) -> (r: [u8; 4])
    ensures
        r@ == big_endian(seq),
{
    let n: i64 = if seq < 0 {
        seq as i64 + 0x1_0000_0000
    } else {
        seq as i64
    };
    let r: [u8; 4] = [
        (n / 0x100_0000) as u8,
        (n / 0x1_0000 % 0x100) as u8,
        (n / 0x100 % 0x100) as u8,
        (n % 0x100) as u8,
    ];
    proof {
        assert(n == seq as int % 0x1_0000_0000);
        assert(r@ =~= big_endian(seq));
    }
    r
}

/// The number whose big-endian bytes are `b`.
pub fn of_big_endian(b: &[u8; 4]) -> (r: i32)
    ensures
        r == from_big_endian(b@),
{
    let n: i64 = b[0] as i64 * 0x100_0000 + b[1] as i64 * 0x1_0000 + b[2] as i64 * 0x100
        + b[3] as i64;
    if n >= 0x8000_0000 {
        (n - 0x1_0000_0000) as i32
    } else {
        n as i32
    }
}

/// The big-endian form of a number reads back as the number, whatever its sign.
pub proof fn law_big_endian_reads_back(seq: i32)
    ensures
        from_big_endian(big_endian(seq)) == seq,
{
    let n = seq as int % 0x1_0000_0000;
    assert(n == (n / 0x100_0000) * 0x100_0000 + (n / 0x1_0000 % 0x100) * 0x1_0000 + (n / 0x100
        % 0x100) * 0x100 + n % 0x100);
}

/// Four bytes read as a number are its big-endian form.
pub proof fn law_big_endian_writes_back(b: Seq<u8>)
    requires
        b.len() == 4,
    ensures
        big_endian(from_big_endian(b)) == b,
{
    let n = b[0] as int * 0x100_0000 + b[1] as int * 0x1_0000 + b[2] as int * 0x100 + b[3] as int;
    assert(from_big_endian(b) as int % 0x1_0000_0000 == n);
    assert(n / 0x100_0000 == b[0]);
    assert(n / 0x1_0000 % 0x100 == b[1]);
    assert(n / 0x100 % 0x100 == b[2]);
    assert(n % 0x100 == b[3]);
    assert(big_endian(from_big_endian(b)) =~= b);
}

/// The first byte weighs most: the four bytes, by their places, add up to the number, or for one
/// below zero to what two's complement has in its place.
pub proof fn law_the_first_byte_weighs_most(seq: i32)
    ensures
        big_endian(seq).len() == 4,
        ({
            let b = big_endian(seq);
            b[0] * 0x100_0000 + b[1] * 0x1_0000 + b[2] * 0x100 + b[3] == if seq < 0 {
                seq + 0x1_0000_0000
            } else {
                seq as int
            }
        }),
{
    let n = seq as int % 0x1_0000_0000;
    assert(n == (n / 0x100_0000) * 0x100_0000 + (n / 0x1_0000 % 0x100) * 0x1_0000 + (n / 0x100
        % 0x100) * 0x100 + n % 0x100);
}

} // verus!
