//! The text this crate reads and writes, one character at a time: white space, decimal
//! numbers, lines, header names, and where one piece of text stands inside another.

use vstd::prelude::*;

verus! {

// ---------------------------------------------------------------------------------------
// Strings and their characters
// ---------------------------------------------------------------------------------------

/// The characters of an optional string.
pub open spec fn text_option(text: Option<String>) -> Option<Seq<char>> {
    match text {
        Some(s) => Some(s@),
        None => None,
    }
}

/// The characters of each of several strings.
pub open spec fn text_list(texts: Seq<String>) -> Seq<Seq<char>> {
    texts.map_values(|s: String| s@)
}

/// The characters of `s`.
pub fn chars_of(s: &str) -> (r: Vec<char>)
    ensures
        r@ == s@,
{
    let mut out: Vec<char> = Vec::new();
    for c in it: s.chars()
        invariant
            out@ == it.seq().take(it.index()),
            it.seq() == s@,
    {
        proof {
            assert(it.seq().take(it.index() + 1) =~= it.seq().take(it.index()).push(c));
        }
        out.push(c);
    }
    out
}

/// The string whose characters are `chars`.
pub fn string_of(chars: &[char]) -> (r: String)
    ensures
        r@ == chars@,
{
    let mut out: String = String::new();
    let mut i: usize = 0;
    while i < chars.len()
        invariant
            i <= chars@.len(),
            out@ == chars@.take(i as int),
        decreases chars@.len() - i,
    {
        proof {
            assert(chars@.take(i + 1) =~= chars@.take(i as int).push(chars@[i as int]));
        }
        out.push(chars[i]);
        i += 1;
    }
    proof {
        assert(chars@.take(i as int) =~= chars@);
    }
    out
}

/// Two pieces of text, one after the other.
pub fn joined(a: &str, b: &str) -> (r: String)
    ensures
        r@ == a@ + b@,
{
    let mut out: String = a.to_owned();
    out.append(b);
    out
}

// ---------------------------------------------------------------------------------------
// White space
// ---------------------------------------------------------------------------------------

/// The characters with the Unicode property `White_Space`.
pub open spec fn white_space(c: char) -> bool {
    let n = c as int;
    ||| 0x09 <= n <= 0x0d
    ||| n == 0x20
    ||| n == 0x85
    ||| n == 0xa0
    ||| n == 0x1680
    ||| 0x2000 <= n <= 0x200a
    ||| n == 0x2028
    ||| n == 0x2029
    ||| n == 0x202f
    ||| n == 0x205f
    ||| n == 0x3000
}

/// Whether `c` is white space.
pub fn is_white_space(c: char) -> (r: bool)
    ensures
        r == white_space(c),
{
    let n: u32 = c as u32;
    (0x09 <= n && n <= 0x0d) || n == 0x20 || n == 0x85 || n == 0xa0 || n == 0x1680 || (0x2000 <= n
        && n <= 0x200a) || n == 0x2028 || n == 0x2029 || n == 0x202f || n == 0x205f || n == 0x3000
}

/// `s` without the white space it begins with.
pub open spec fn trim_start(s: Seq<char>) -> Seq<char>
    decreases s.len(),
{
    if s.len() > 0 && white_space(s[0]) {
        trim_start(s.drop_first())
    } else {
        s
    }
}

/// `s` without the white space it ends with.
pub open spec fn trim_end(s: Seq<char>) -> Seq<char>
    decreases s.len(),
{
    if s.len() > 0 && white_space(s.last()) {
        trim_end(s.drop_last())
    } else {
        s
    }
}

/// `s` without the white space around it.
pub open spec fn trimmed(s: Seq<char>) -> Seq<char> {
    trim_end(trim_start(s))
}

/// The part of `s` after the white space it begins with.
fn trim_start_slice(s: &[char]) -> (r: &[char])
    ensures
        r@ == trim_start(s@),
{
    let mut i: usize = 0;
    proof {
        assert(s@.skip(0) =~= s@);
    }
    while i < s.len() && is_white_space(s[i])
        invariant
            i <= s@.len(),
            trim_start(s@) == trim_start(s@.skip(i as int)),
        decreases s@.len() - i,
    {
        proof {
            assert(s@.skip(i as int).drop_first() =~= s@.skip(i + 1));
        }
        i += 1;
    }
    proof {
        assert(s@.subrange(i as int, s@.len() as int) =~= s@.skip(i as int));
    }
    &s[i..s.len()]
}

/// The part of `s` between the white space around it.
pub fn trim_slice(s: &[char]) -> (r: &[char])
    ensures
        r@ == trimmed(s@),
{
    let t: &[char] = trim_start_slice(s);
    let mut n: usize = t.len();
    proof {
        assert(t@.take(n as int) =~= t@);
    }
    while n > 0 && is_white_space(t[n - 1])
        invariant
            n <= t@.len(),
            trim_end(t@) == trim_end(t@.take(n as int)),
        decreases n,
    {
        proof {
            assert(t@.take(n as int).drop_last() =~= t@.take(n - 1));
        }
        n -= 1;
    }
    proof {
        assert(t@.subrange(0, n as int) =~= t@.take(n as int));
    }
    &t[0..n]
}

/// `s` without the white space around it.
pub fn trim(s: &str) -> (r: String)
    ensures
        r@ == trimmed(s@),
{
    let chars: Vec<char> = chars_of(s);
    string_of(trim_slice(chars.as_slice()))
}

/// How many characters `s` begins with that are not white space.
pub open spec fn word_length(s: Seq<char>) -> nat
    decreases s.len(),
{
    if s.len() > 0 && !white_space(s[0]) {
        1 + word_length(s.drop_first())
    } else {
        0
    }
}

/// The second of the words that white space divides `s` into.
pub open spec fn second_word(s: Seq<char>) -> Option<Seq<char>> {
    let first = trim_start(s);
    let rest = trim_start(first.skip(word_length(first) as int));
    if rest.len() == 0 {
        None
    } else {
        Some(rest.take(word_length(rest) as int))
    }
}

/// Where the word that `s` begins with ends.
fn word_end(s: &[char]) -> (r: usize)
    ensures
        r == word_length(s@),
        r <= s@.len(),
{
    let mut i: usize = 0;
    proof {
        assert(s@.skip(0) =~= s@);
    }
    while i < s.len() && !is_white_space(s[i])
        invariant
            i <= s@.len(),
            word_length(s@) == i + word_length(s@.skip(i as int)),
        decreases s@.len() - i,
    {
        proof {
            assert(s@.skip(i as int).drop_first() =~= s@.skip(i + 1));
        }
        i += 1;
    }
    i
}

/// The second word of `s`.
pub fn second_word_slice(s: &[char]) -> (r: Option<&[char]>)
    ensures
        match r {
            Some(word) => second_word(s@) == Some(word@),
            None => second_word(s@) is None,
        },
{
    let first: &[char] = trim_start_slice(s);
    let n: usize = word_end(first);
    proof {
        assert(first@.subrange(n as int, first@.len() as int) =~= first@.skip(n as int));
    }
    let rest: &[char] = trim_start_slice(&first[n..first.len()]);
    if rest.len() == 0 {
        return None;
    }
    let m: usize = word_end(rest);
    proof {
        assert(rest@.subrange(0, m as int) =~= rest@.take(m as int));
    }
    Some(&rest[0..m])
}

// ---------------------------------------------------------------------------------------
// Decimal numbers
// ---------------------------------------------------------------------------------------

/// The digit for `d`, which is below ten.
pub open spec fn digit(d: nat) -> char {
    (48 + d) as char
}

/// `n` in decimal, with no leading zeros.
pub open spec fn digits(n: nat) -> Seq<char>
    decreases n,
{
    if n < 10 {
        seq![digit(n)]
    } else {
        digits(n / 10).push(digit(n % 10))
    }
}

/// `n` in decimal, with a minus sign where it is negative.
pub open spec fn decimal(n: int) -> Seq<char> {
    if n < 0 {
        seq!['-'] + digits((-n) as nat)
    } else {
        digits(n as nat)
    }
}

/// `n` in decimal.
fn digits_of(n: u64) -> (r: String)
    ensures
        r@ == digits(n as nat),
    decreases n,
{
    let d: u8 = (n % 10) as u8;
    let mut out: String = String::new();
    if n >= 10 {
        out = digits_of(n / 10);
    }
    out.push((48 + d) as char);
    proof {
        assert(n < 10 ==> out@ =~= seq![digit(n as nat)]);
    }
    out
}

/// `n` in decimal.
pub fn decimal_u64(n: u64) -> (r: String)
    ensures
        r@ == decimal(n as int),
{
    digits_of(n)
}

/// `n` in decimal, with a minus sign where it is negative.
pub fn decimal_i64(n: i64) -> (r: String)
    ensures
        r@ == decimal(n as int),
{
    if n < 0 {
        let m: u64 = (-(n as i128)) as u64;
        let mut out: String = String::new();
        out.push('-');
        out.append(digits_of(m).as_str());
        proof {
            assert(out@ =~= seq!['-'] + digits(m as nat));
        }
        out
    } else {
        digits_of(n as u64)
    }
}

/// Whether `c` is one of the ten ASCII digits.
pub open spec fn is_digit(c: char) -> bool {
    48 <= c as int <= 57
}

fn is_digit_char(c: char) -> (r: bool)
    ensures
        r == is_digit(c),
{
    let n: u32 = c as u32;
    48 <= n && n <= 57
}

fn digit_of(c: char) -> (r: u8)
    requires
        is_digit(c),
    ensures
        r == c as int - 48,
        r < 10,
{
    let n: u32 = c as u32;
    (n - 48) as u8
}

/// Whether `s` is made of ASCII digits alone.
pub open spec fn all_digits(s: Seq<char>) -> bool {
    forall|i: int| 0 <= i < s.len() ==> is_digit(#[trigger] s[i])
}

/// The number that a row of decimal digits stands for.
pub open spec fn digits_value(s: Seq<char>) -> int
    decreases s.len(),
{
    if s.len() == 0 {
        0
    } else {
        10 * digits_value(s.drop_last()) + (s.last() as int - 48)
    }
}

/// What is left of `s` after the plus sign that may stand before an unsigned number.
pub open spec fn after_plus(s: Seq<char>) -> Seq<char> {
    if s.len() > 1 && s[0] == '+' {
        s.drop_first()
    } else {
        s
    }
}

/// `s` as an unsigned decimal number of at most `max`: one digit or more, with nothing else but
/// a plus sign before them.
pub open spec fn unsigned(s: Seq<char>, max: int) -> Option<int> {
    let d = after_plus(s);
    if d.len() > 0 && all_digits(d) && digits_value(d) <= max {
        Some(digits_value(d))
    } else {
        None
    }
}

pub proof fn lemma_digits_value_grows(s: Seq<char>, n: int)
    requires
        0 <= n <= s.len(),
        all_digits(s),
    ensures
        0 <= digits_value(s.take(n)) <= digits_value(s),
    decreases s.len(),
{
    if n == s.len() {
        assert(s.take(n) =~= s);
        if s.len() > 0 {
            assert(all_digits(s.drop_last()));
            lemma_digits_value_grows(s.drop_last(), s.len() - 1);
            assert(s.drop_last().take(s.len() - 1) =~= s.drop_last());
            assert(is_digit(s[s.len() - 1]));
        }
    } else {
        assert(all_digits(s.drop_last()));
        lemma_digits_value_grows(s.drop_last(), n);
        assert(s.drop_last().take(n) =~= s.take(n));
        assert(is_digit(s[s.len() - 1]));
    }
}

/// `s` as an unsigned decimal number of at most `max`.
pub fn parse_unsigned(s: &[char], max: u64) -> (r: Option<u64>)
    ensures
        match r {
            Some(n) => unsigned(s@, max as int) == Some(n as int),
            None => unsigned(s@, max as int) is None,
        },
{
    let start: usize = if s.len() > 1 && s[0] == '+' {
        1
    } else {
        0
    };
    proof {
        assert(s@.subrange(start as int, s@.len() as int) =~= after_plus(s@));
    }
    let d: &[char] = &s[start..s.len()];
    if d.len() == 0 {
        return None;
    }
    let mut value: u64 = 0;
    let mut i: usize = 0;
    while i < d.len()
        invariant
            i <= d@.len(),
            d@ == after_plus(s@),
            d@.len() > 0,
            forall|k: int| 0 <= k < i ==> is_digit(#[trigger] d@[k]),
            value == digits_value(d@.take(i as int)),
            value <= max,
        decreases d@.len() - i,
    {
        if !is_digit_char(d[i]) {
            return None;
        }
        let next: u128 = 10 * (value as u128) + digit_of(d[i]) as u128;
        proof {
            assert(d@.take(i + 1).drop_last() =~= d@.take(i as int));
            assert(d@.take(i + 1).last() == d@[i as int]);
            assert(next == digits_value(d@.take(i + 1)));
        }
        if next > max as u128 {
            proof {
                if all_digits(d@) {
                    lemma_digits_value_grows(d@, i + 1);
                }
            }
            return None;
        }
        value = next as u64;
        i += 1;
    }
    proof {
        assert(d@.take(i as int) =~= d@);
    }
    Some(value)
}

/// A number written in decimal reads back as itself.
pub proof fn law_decimal_reads_back(n: nat)
    ensures
        unsigned(decimal(n as int), n as int) == Some(n as int),
    decreases n,
{
    lemma_digits(n);
    let d = digits(n);
    assert(is_digit(d[0]));
    assert(after_plus(d) == d);
}

/// What a number is written as is digits, and they stand for it.
pub proof fn lemma_digits(n: nat)
    ensures
        digits(n).len() > 0,
        all_digits(digits(n)),
        digits_value(digits(n)) == n,
    decreases n,
{
    if n < 10 {
        assert(digits(n).drop_last() =~= Seq::<char>::empty());
        reveal_with_fuel(digits_value, 2);
    } else {
        lemma_digits(n / 10);
        assert(digits(n).drop_last() =~= digits(n / 10));
    }
}

// ---------------------------------------------------------------------------------------
// Finding one thing in another
// ---------------------------------------------------------------------------------------

/// Whether `needle` stands in `hay` at `i`.
pub open spec fn occurs_at<A>(hay: Seq<A>, needle: Seq<A>, i: int) -> bool {
    &&& 0 <= i
    &&& i + needle.len() <= hay.len()
    &&& hay.subrange(i, i + needle.len()) == needle
}

/// Whether `needle` stands anywhere in `hay`.
pub open spec fn contains<A>(hay: Seq<A>, needle: Seq<A>) -> bool {
    exists|i: int| #[trigger] occurs_at(hay, needle, i)
}

/// Whether `needle` stands in `hay` at `i`.
fn found_at(hay: &[char], needle: &[char], i: usize) -> (r: bool)
    requires
        i + needle@.len() <= hay@.len(),
    ensures
        r == occurs_at(hay@, needle@, i as int),
{
    let mut k: usize = 0;
    while k < needle.len()
        invariant
            k <= needle@.len(),
            i + needle@.len() <= hay@.len(),
            forall|j: int| 0 <= j < k ==> hay@[i + j] == #[trigger] needle@[j],
        decreases needle@.len() - k,
    {
        let n: usize = hay.len();
        if hay[i + k] != needle[k] {
            proof {
                if occurs_at(hay@, needle@, i as int) {
                    assert(hay@.subrange(i as int, i + needle@.len())[k as int] == needle@[k as int]);
                }
            }
            return false;
        }
        k += 1;
    }
    proof {
        assert(hay@.subrange(i as int, i + needle@.len()) =~= needle@);
    }
    true
}

/// Whether `needle` stands anywhere in `hay`.
pub fn has(hay: &str, needle: &str) -> (r: bool)
    ensures
        r == contains(hay@, needle@),
{
    let h: Vec<char> = chars_of(hay);
    let n: Vec<char> = chars_of(needle);
    if n.len() > h.len() {
        return false;
    }
    let last: usize = h.len() - n.len();
    let mut i: usize = 0;
    while i <= last
        invariant
            n@ == needle@,
            h@ == hay@,
            last == h@.len() - n@.len(),
            i <= last + 1,
            forall|j: int| 0 <= j < i ==> !#[trigger] occurs_at(hay@, needle@, j),
        decreases last + 1 - i,
    {
        if found_at(h.as_slice(), n.as_slice(), i) {
            return true;
        }
        if i == last {
            return false;
        }
        i += 1;
    }
    false
}

/// Where `c` first stands in `s`, or the length of `s` where it does not.
pub open spec fn position(s: Seq<char>, c: char) -> int
    decreases s.len(),
{
    if s.len() == 0 || s[0] == c {
        0
    } else {
        1 + position(s.drop_first(), c)
    }
}

/// `position` is the first of its kind.
pub proof fn lemma_position(s: Seq<char>, c: char)
    ensures
        0 <= position(s, c) <= s.len(),
        position(s, c) < s.len() ==> s[position(s, c)] == c,
        forall|i: int| 0 <= i < position(s, c) ==> s[i] != c,
    decreases s.len(),
{
    if s.len() > 0 && s[0] != c {
        let rest = s.drop_first();
        lemma_position(rest, c);
        assert forall|i: int| 0 <= i < position(s, c) implies s[i] != c by {
            if i > 0 {
                assert(rest[i - 1] == s[i]);
            }
        }
    }
}

/// Where `c` first stands in `s`, or the length of `s`.
pub fn position_of(s: &[char], c: char) -> (r: usize)
    ensures
        r == position(s@, c),
        r <= s@.len(),
{
    let mut i: usize = 0;
    proof {
        assert(s@.skip(0) =~= s@);
    }
    while i < s.len() && s[i] != c
        invariant
            i <= s@.len(),
            position(s@, c) == i + position(s@.skip(i as int), c),
        decreases s@.len() - i,
    {
        proof {
            assert(s@.skip(i as int).drop_first() =~= s@.skip(i + 1));
        }
        i += 1;
    }
    i
}

/// What stands behind `prefix` in `s`, where `s` begins with it.
pub open spec fn after_prefix(s: Seq<char>, prefix: Seq<char>) -> Option<Seq<char>> {
    if prefix.len() <= s.len() && s.take(prefix.len() as int) == prefix {
        Some(s.skip(prefix.len() as int))
    } else {
        None
    }
}

/// What stands behind `prefix` in `s`, where `s` begins with it.
pub fn strip_prefix<'a>(s: &'a [char], prefix: &str) -> (r: Option<&'a [char]>)
    ensures
        match r {
            Some(rest) => after_prefix(s@, prefix@) == Some(rest@),
            None => after_prefix(s@, prefix@) is None,
        },
{
    let p: Vec<char> = chars_of(prefix);
    if p.len() > s.len() {
        return None;
    }
    let n: usize = p.len();
    if found_at(s, p.as_slice(), 0) {
        proof {
            assert(s@.take(n as int) =~= s@.subrange(0, n as int));
            assert(s@.subrange(n as int, s@.len() as int) =~= s@.skip(n as int));
        }
        Some(&s[n..s.len()])
    } else {
        proof {
            assert(s@.take(n as int) =~= s@.subrange(0, n as int));
        }
        None
    }
}

// ---------------------------------------------------------------------------------------
// Letters of either case
// ---------------------------------------------------------------------------------------

/// `c`, with an ASCII capital made small.
pub open spec fn lower(c: char) -> char {
    if 65 <= c as int <= 90 {
        (c as int + 32) as char
    } else {
        c
    }
}

/// Whether `a` and `b` are the same but for the case of ASCII letters.
pub open spec fn same_letters(a: Seq<char>, b: Seq<char>) -> bool {
    &&& a.len() == b.len()
    &&& forall|i: int| 0 <= i < a.len() ==> lower(#[trigger] a[i]) == lower(b[i])
}

fn lower_of(c: char) -> (r: char)
    ensures
        r == lower(c),
{
    let n: u32 = c as u32;
    if 65 <= n && n <= 90 {
        ((n + 32) as u8) as char
    } else {
        c
    }
}

/// Whether `a` and `b` are the same but for the case of ASCII letters.
pub fn same_but_case(a: &[char], b: &str) -> (r: bool)
    ensures
        r == same_letters(a@, b@),
{
    let other: Vec<char> = chars_of(b);
    if a.len() != other.len() {
        return false;
    }
    let mut i: usize = 0;
    while i < a.len()
        invariant
            other@ == b@,
            a@.len() == other@.len(),
            i <= a@.len(),
            forall|k: int| 0 <= k < i ==> lower(#[trigger] a@[k]) == lower(other@[k]),
        decreases a@.len() - i,
    {
        if lower_of(a[i]) != lower_of(other[i]) {
            proof {
                assert(lower(a@[i as int]) != lower(b@[i as int]));
            }
            return false;
        }
        i += 1;
    }
    true
}

// ---------------------------------------------------------------------------------------
// Lines
// ---------------------------------------------------------------------------------------

/// `s` without the carriage return it may end with.
pub open spec fn without_return(s: Seq<char>) -> Seq<char> {
    if s.len() > 0 && s.last() == '\r' {
        s.drop_last()
    } else {
        s
    }
}

/// The lines of `s`. Each ends with a line feed, or a carriage return and a line feed, and the
/// last may end without one.
pub open spec fn lines(s: Seq<char>) -> Seq<Seq<char>>
    decreases s.len(),
    via lines_decreases
{
    if s.len() == 0 {
        Seq::empty()
    } else {
        let end = position(s, '\n');
        if end < s.len() {
            seq![without_return(s.take(end))] + lines(s.skip(end + 1))
        } else {
            seq![s]
        }
    }
}

#[via_fn]
proof fn lines_decreases(s: Seq<char>) {
    lemma_position(s, '\n');
}

/// The characters of each of several lines.
pub open spec fn line_list(v: Seq<Vec<char>>) -> Seq<Seq<char>> {
    v.map_values(|l: Vec<char>| l@)
}

/// The lines of `s`.
pub fn lines_of(s: &[char]) -> (r: Vec<Vec<char>>)
    ensures
        line_list(r@) == lines(s@),
{
    let mut out: Vec<Vec<char>> = Vec::new();
    let mut from: usize = 0;
    proof {
        assert(s@.skip(0) =~= s@);
        assert(line_list(out@) + lines(s@) =~= lines(s@));
    }
    while from < s.len()
        invariant
            from <= s@.len(),
            line_list(out@) + lines(s@.skip(from as int)) == lines(s@),
        decreases s@.len() - from,
    {
        let ghost before = line_list(out@);
        let ghost rest = s@.skip(from as int);
        proof {
            assert(s@.subrange(from as int, s@.len() as int) =~= rest);
        }
        let t: &[char] = &s[from..s.len()];
        let end: usize = position_of(t, '\n');
        if end < t.len() {
            let n: usize = if end > 0 && t[end - 1] == '\r' {
                end - 1
            } else {
                end
            };
            let line: Vec<char> = vstd::slice::slice_to_vec(&t[0..n]);
            proof {
                assert(line@ =~= without_return(rest.take(end as int)));
                assert(rest.skip(end + 1) =~= s@.skip(from + end + 1));
            }
            out.push(line);
            proof {
                assert(line_list(out@) =~= before.push(line@));
                assert(line_list(out@) + lines(rest.skip(end + 1)) =~= before + (seq![line@] + lines(
                    rest.skip(end + 1),
                )));
            }
            from = from + end + 1;
        } else {
            let line: Vec<char> = vstd::slice::slice_to_vec(t);
            out.push(line);
            proof {
                assert(line_list(out@) =~= before.push(line@));
                assert(s@.skip(s@.len() as int) =~= Seq::<char>::empty());
                assert(line_list(out@) + lines(s@.skip(s@.len() as int)) =~= before + seq![rest]);
            }
            from = s.len();
        }
    }
    proof {
        assert(s@.skip(from as int) =~= Seq::<char>::empty());
        assert(line_list(out@) + Seq::<Seq<char>>::empty() =~= line_list(out@));
    }
    out
}

} // verus!
