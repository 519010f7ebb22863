//! What the small notations mean, said without the way they are worked out: the forms that numbers,
//! bytes, lines and names have on the wire.

use vstd::prelude::*;
use crate::bytes::first;
use crate::codec::{base64_bytes, base64_text, hex_text, is_base64, octets_of, sextet, unhexed, unpadded};
use crate::text::{after_prefix, contains, decimal, is_digit, lemma_position, lines, occurs_at, position, same_letters, second_word, trim_end, trim_start, trimmed, unsigned, white_space, word_length};
use vstd::utf8::{decode_utf8, valid_utf8};

verus! {

// ---------------------------------------------------------------------------------------
// Bytes
// ---------------------------------------------------------------------------------------

/// The front of a run of bytes is its first items, as many as were asked for.
pub proof fn law_the_front_is_the_first_items(s: Seq<u8>, n: nat)
    requires
        n <= s.len(),
    ensures
        first(s, n) == s.take(n as int),
{
    assert(first(s, n) =~= s.take(n as int));
}

/// In hexadecimal each byte is two digits, the high one first: its value is sixteen times the
/// place of the one among the digits and the place of the other.
pub proof fn law_hex_is_two_digits_a_byte(bytes: Seq<u8>, i: int)
    requires
        0 <= i < bytes.len(),
    ensures
        hex_text(bytes).len() == 2 * bytes.len(),
        hex_text(bytes)[2 * i] == "0123456789abcdef"@[bytes[i] as int / 16],
        hex_text(bytes)[2 * i + 1] == "0123456789abcdef"@[bytes[i] as int % 16],
{
    reveal_strlit("0123456789abcdef");
    let (h, l) = (bytes[i] as int / 16, bytes[i] as int % 16);
    lemma_hex_digits(h);
    lemma_hex_digits(l);
    assert((2 * i) / 2 == i && (2 * i + 1) / 2 == i);
    assert((2 * i) % 2 == 0 && (2 * i + 1) % 2 == 1);
}

proof fn lemma_hex_digits(n: int)
    requires
        0 <= n < 16,
    ensures
        crate::codec::nibble(n) == "0123456789abcdef"@[n],
        crate::codec::hex_digit("0123456789abcdef"@[n]) == Some(n),
        crate::codec::hex_digit("0123456789ABCDEF"@[n]) == Some(n),
{
    reveal_strlit("0123456789abcdef");
    reveal_strlit("0123456789ABCDEF");
}

/// Hexadecimal is read in either case: a text whose every pair is two digits of one case or the
/// other stands for the bytes that the places of its digits say, and one with an odd length or
/// with a pair whose second character is no digit stands for none.
pub proof fn law_hex_is_read_in_either_case(s: Seq<char>, places: Seq<int>)
    requires
        s.len() == places.len(),
        forall|i: int|
            0 <= i < s.len() ==> 0 <= #[trigger] places[i] < 16 && (s[i]
                == "0123456789abcdef"@[places[i]] || s[i] == "0123456789ABCDEF"@[places[i]]),
    ensures
        s.len() % 2 == 1 ==> unhexed(s) is None,
        s.len() % 2 == 0 ==> unhexed(s) is Some && (unhexed(s)->0).len() == s.len() / 2,
        s.len() % 2 == 0 ==> forall|i: int|
            0 <= i < s.len() / 2 ==> #[trigger] (unhexed(s)->0)[i] == 16 * places[2 * i] + places[2 * i
                + 1],
{
    assert forall|i: int| 0 <= i < s.len() / 2 implies #[trigger] crate::codec::hex_pair(
        s[2 * i],
        s[2 * i + 1],
    ) == Some((16 * places[2 * i] + places[2 * i + 1]) as u8) by {
        lemma_hex_digits(places[2 * i]);
        lemma_hex_digits(places[2 * i + 1]);
    }
}

/// What is no hexadecimal is not read as any: a character that is neither a digit nor a letter up
/// to `f`, at the second place of a pair, has no reading.
pub proof fn law_only_hex_is_read_as_hex(s: Seq<char>, i: int)
    requires
        0 <= i < s.len() / 2,
        !("0123456789abcdef"@.contains(s[2 * i + 1]) || "0123456789ABCDEF"@.contains(s[2 * i + 1])),
    ensures
        unhexed(s) is None,
{
    lemma_no_hex_digit(s[2 * i + 1]);
    assert(crate::codec::hex_pair(s[2 * i], s[2 * i + 1]) is None);
}

/// A plus sign before one digit stands for that digit, and nothing else but a digit may stand there.
pub proof fn law_a_plus_sign_may_stand_before_a_digit(low: int, c: char)
    requires
        0 <= low < 16,
    ensures
        unhexed(seq!['+', "0123456789abcdef"@[low]]) == Some(seq![low as u8]),
        c != '+' && !"0123456789abcdef"@.contains(c) && !"0123456789ABCDEF"@.contains(c) ==> unhexed(
            seq![c, "0123456789abcdef"@[low]],
        ) is None,
{
    lemma_hex_digits(low);
    let s = seq!['+', "0123456789abcdef"@[low]];
    assert(crate::codec::hex_digit('+') is None);
    assert(crate::codec::hex_pair(s[0], s[1]) == Some(low as u8));
    assert forall|i: int| 0 <= i < s.len() / 2 implies #[trigger] crate::codec::hex_pair(
        s[2 * i],
        s[2 * i + 1],
    ) == Some(low as u8) by {
        assert(i == 0);
    }
    assert(unhexed(s)->0 =~= seq![low as u8]);
    let t = seq![c, "0123456789abcdef"@[low]];
    if c != '+' && !"0123456789abcdef"@.contains(c) && !"0123456789ABCDEF"@.contains(c) {
        lemma_no_hex_digit(c);
        let i: int = 0;
        assert(crate::codec::hex_pair(t[2 * i], t[2 * i + 1]) is None);
    }
}

proof fn lemma_no_hex_digit(c: char)
    requires
        !"0123456789abcdef"@.contains(c),
        !"0123456789ABCDEF"@.contains(c),
    ensures
        crate::codec::hex_digit(c) is None,
{
    reveal_strlit("0123456789abcdef");
    reveal_strlit("0123456789ABCDEF");
    let n = c as int;
    if crate::codec::hex_digit(c) is Some {
        if 48 <= n <= 57 {
            lemma_hex_digits(n - 48);
            assert("0123456789abcdef"@[n - 48] == c);
        } else if 97 <= n <= 102 {
            lemma_hex_digits(n - 87);
            assert("0123456789abcdef"@[n - 87] == c);
        } else {
            lemma_hex_digits(n - 55);
            assert("0123456789ABCDEF"@[n - 55] == c);
        }
    }
}

// ---------------------------------------------------------------------------------------
// Numbers
// ---------------------------------------------------------------------------------------

/// A number in decimal: its last digit is what is left of it by ten, and what stands before that
/// is the tenth of it; below zero it has a minus sign in front.
pub proof fn law_a_number_is_written_in_decimal(n: nat)
    ensures
        n < 10 ==> decimal(n as int) == seq!["0123456789"@[n as int]],
        n >= 10 ==> decimal(n as int) == decimal((n / 10) as int).push(
            "0123456789"@[(n % 10) as int],
        ),
        n > 0 ==> decimal(-n) == seq!['-'] + decimal(n as int),
{
    lemma_decimal_digit(n % 10);
}

proof fn lemma_decimal_digit(d: nat)
    requires
        d < 10,
    ensures
        crate::text::digit(d) == "0123456789"@[d as int],
        is_digit("0123456789"@[d as int]),
{
    reveal_strlit("0123456789");
}

/// A number is read as it is written, up to the largest that there is room for, with a plus sign
/// or without one.
pub proof fn law_a_number_is_read_as_it_is_written(n: nat, max: int)
    ensures
        unsigned(decimal(n as int), max) == if n <= max {
            Some(n as int)
        } else {
            None
        },
        unsigned(seq!['+'] + decimal(n as int), max) == unsigned(decimal(n as int), max),
{
    crate::text::law_decimal_reads_back(n);
    crate::text::lemma_digits(n);
    let d = decimal(n as int);
    assert(is_digit(d[0]));
    assert((seq!['+'] + d).drop_first() =~= d);
}

/// A number is read digit by digit, whatever zeros it begins with: one more digit is ten times what
/// stood before and the digit.
pub proof fn law_a_number_is_read_digit_by_digit(s: Seq<char>, v: int, d: int, max: int)
    requires
        0 <= d < 10,
        d <= max,
    ensures
        unsigned(seq!["0123456789"@[d]], max) == Some(d),
        unsigned(s, max) == Some(v) ==> unsigned(s.push("0123456789"@[d]), max) == if 10 * v + d
            <= max {
            Some(10 * v + d)
        } else {
            None
        },
{
    lemma_decimal_digit(d as nat);
    let c = "0123456789"@[d];
    let one = seq![c];
    assert(one.drop_last() =~= Seq::<char>::empty());
    reveal_with_fuel(crate::text::digits_value, 2);
    assert(crate::text::digits_value(one) == d);
    if unsigned(s, max) == Some(v) {
        let t = s.push(c);
        let (ds, dt) = (crate::text::after_plus(s), crate::text::after_plus(t));
        assert(dt =~= ds.push(c)) by {
            if s.len() == 1 {
                assert(ds == s);
                assert(is_digit(s[0]));
            }
        }
        assert(dt.drop_last() =~= ds);
        assert forall|i: int| 0 <= i < dt.len() implies is_digit(#[trigger] dt[i]) by {
            if i < ds.len() {
                assert(dt[i] == ds[i]);
            }
        }
    }
}

/// What holds anything but digits behind the sign is no number, and neither is nothing.
pub proof fn law_only_digits_are_a_number(s: Seq<char>, i: int, max: int)
    requires
        0 <= i < s.len(),
        !("0123456789"@.contains(s[i])),
        i > 0 || s[0] != '+' || s.len() == 1,
    ensures
        unsigned(s, max) is None,
        unsigned(Seq::empty(), max) is None,
{
    reveal_strlit("0123456789");
    if is_digit(s[i]) {
        lemma_decimal_digit((s[i] as int - 48) as nat);
        assert("0123456789"@[s[i] as int - 48] == s[i]);
    }
    let d = crate::text::after_plus(s);
    if d != s {
        assert(d[i - 1] == s[i]);
    }
}

// ---------------------------------------------------------------------------------------
// Text
// ---------------------------------------------------------------------------------------

/// Trimming takes the white space at both ends and nothing else: what is left has none at either
/// end, and what was taken is white space throughout.
pub proof fn law_trimming_takes_the_white_space_at_the_ends(s: Seq<char>)
    ensures
        trimmed(s).len() > 0 ==> !white_space(trimmed(s)[0]) && !white_space(trimmed(s).last()),
        exists|from: int, to: int|
            0 <= from <= to <= s.len() && trimmed(s) == #[trigger] s.subrange(from, to) && (forall|
                i: int,
            |
                (0 <= i < from || to <= i < s.len()) ==> white_space(#[trigger] s[i])),
{
    lemma_trim_start(s);
    lemma_trim_end(trim_start(s));
    let from = s.len() - trim_start(s).len();
    let to = from + trimmed(s).len();
    assert(trimmed(s) =~= s.subrange(from, to));
    assert forall|i: int| (0 <= i < from || to <= i < s.len()) implies white_space(
        #[trigger] s[i],
    ) by {
        if i >= to {
            assert(trim_start(s)[i - from] == s[i]);
        }
    }
}

proof fn lemma_trim_start(s: Seq<char>)
    ensures
        trim_start(s).len() <= s.len(),
        trim_start(s) == s.skip(s.len() - trim_start(s).len()),
        trim_start(s).len() > 0 ==> !white_space(trim_start(s)[0]),
        forall|i: int| 0 <= i < s.len() - trim_start(s).len() ==> white_space(#[trigger] s[i]),
    decreases s.len(),
{
    if s.len() > 0 && white_space(s[0]) {
        let rest = s.drop_first();
        lemma_trim_start(rest);
        assert(trim_start(s) =~= s.skip(s.len() - trim_start(s).len()));
        assert forall|i: int| 0 <= i < s.len() - trim_start(s).len() implies white_space(
            #[trigger] s[i],
        ) by {
            if i > 0 {
                assert(rest[i - 1] == s[i]);
            }
        }
    } else {
        assert(trim_start(s) =~= s.skip(s.len() - trim_start(s).len()));
    }
}

proof fn lemma_trim_end(s: Seq<char>)
    ensures
        trim_end(s).len() <= s.len(),
        trim_end(s) == s.take(trim_end(s).len() as int),
        trim_end(s).len() > 0 ==> !white_space(trim_end(s).last()),
        forall|i: int| trim_end(s).len() <= i < s.len() ==> white_space(#[trigger] s[i]),
    decreases s.len(),
{
    if s.len() > 0 && white_space(s.last()) {
        let rest = s.drop_last();
        lemma_trim_end(rest);
        assert(trim_end(s) =~= s.take(trim_end(s).len() as int));
        assert forall|i: int| trim_end(s).len() <= i < s.len() implies white_space(
            #[trigger] s[i],
        ) by {
            if i < s.len() - 1 {
                assert(rest[i] == s[i]);
            }
        }
    } else {
        assert(trim_end(s) =~= s.take(trim_end(s).len() as int));
    }
}

/// White space is what Unicode calls so: the blank, what moves the carriage, and the wider blanks.
pub proof fn law_what_is_white_space(c: char)
    ensures
        white_space(c) <==> seq![
            0x09int,
            0x0a,
            0x0b,
            0x0c,
            0x0d,
            0x20,
            0x85,
            0xa0,
            0x1680,
            0x2000,
            0x2001,
            0x2002,
            0x2003,
            0x2004,
            0x2005,
            0x2006,
            0x2007,
            0x2008,
            0x2009,
            0x200a,
            0x2028,
            0x2029,
            0x202f,
            0x205f,
            0x3000,
        ].contains(c as int),
{
    let all = seq![
        0x09int,
        0x0a,
        0x0b,
        0x0c,
        0x0d,
        0x20,
        0x85,
        0xa0,
        0x1680,
        0x2000,
        0x2001,
        0x2002,
        0x2003,
        0x2004,
        0x2005,
        0x2006,
        0x2007,
        0x2008,
        0x2009,
        0x200a,
        0x2028,
        0x2029,
        0x202f,
        0x205f,
        0x3000,
    ];
    let n = c as int;
    if 0x09 <= n <= 0x0d {
        assert(all[n - 0x09] == n);
    } else if 0x2000 <= n <= 0x200a {
        assert(all[9 + n - 0x2000] == n);
    } else {
        assert(all[5] == 0x20 && all[6] == 0x85 && all[7] == 0xa0 && all[8] == 0x1680);
        assert(all[20] == 0x2028 && all[21] == 0x2029 && all[22] == 0x202f);
        assert(all[23] == 0x205f && all[24] == 0x3000);
    }
}

/// Two names are the same but for case where each letter is the same letter: equal, or thirty-two
/// apart with the smaller one an ASCII capital.
pub proof fn law_names_differ_in_case_alone(a: Seq<char>, b: Seq<char>)
    ensures
        same_letters(a, b) <==> a.len() == b.len() && (forall|i: int|
            0 <= i < a.len() ==> #[trigger] a[i] == b[i] || (65 <= a[i] as int <= 90 && b[i] as int
                == a[i] as int + 32) || (65 <= b[i] as int <= 90 && a[i] as int == b[i] as int + 32)),
{
    if same_letters(a, b) {
        assert forall|i: int| 0 <= i < a.len() implies #[trigger] a[i] == b[i] || (65 <= a[i] as int
            <= 90 && b[i] as int == a[i] as int + 32) || (65 <= b[i] as int <= 90 && a[i] as int
            == b[i] as int + 32) by {
            assert(crate::text::lower(a[i]) == crate::text::lower(b[i]));
        }
    }
}

/// One text is found in another wherever it stands, and nowhere else.
pub proof fn law_a_text_is_found_where_it_stands(
    before: Seq<char>,
    needle: Seq<char>,
    after: Seq<char>,
    hay: Seq<char>,
)
    ensures
        contains(before + needle + after, needle),
        contains(hay, needle) ==> exists|i: int|
            0 <= i <= hay.len() - needle.len() && #[trigger] hay.skip(i).take(needle.len() as int)
                == needle,
{
    let whole = before + needle + after;
    assert(whole.subrange(before.len() as int, (before.len() + needle.len()) as int) =~= needle);
    assert(occurs_at(whole, needle, before.len() as int));
    if contains(hay, needle) {
        let i = choose|i: int| #[trigger] occurs_at(hay, needle, i);
        assert(hay.skip(i).take(needle.len() as int) =~= hay.subrange(i, i + needle.len()));
    }
}

/// What follows a prefix is the rest of the text, and a text that does not begin with it has no
/// such rest.
pub proof fn law_what_follows_a_prefix(s: Seq<char>, prefix: Seq<char>, rest: Seq<char>)
    ensures
        after_prefix(prefix + rest, prefix) == Some(rest),
        after_prefix(s, prefix) is Some ==> s == prefix + after_prefix(s, prefix)->0,
{
    assert((prefix + rest).take(prefix.len() as int) =~= prefix);
    assert((prefix + rest).subrange(0, prefix.len() as int) =~= prefix);
    assert((prefix + rest).skip(prefix.len() as int) =~= rest);
    if after_prefix(s, prefix) is Some {
        assert(s =~= prefix + after_prefix(s, prefix)->0);
    }
}

/// A line ends at a line feed, whether or not a carriage return stands before it, and the next
/// line begins behind it.
pub proof fn law_a_line_ends_at_a_line_feed(line: Seq<char>, rest: Seq<char>)
    requires
        !line.contains('\n'),
    ensures
        lines(line + seq!['\r', '\n'] + rest) == seq![line] + lines(rest),
        line.len() == 0 || line.last() != '\r' ==> lines(line + seq!['\n'] + rest) == seq![line] + lines(
            rest,
        ),
        line.len() > 0 ==> lines(line) == seq![line],
        lines(Seq::empty()) == Seq::<Seq<char>>::empty(),
{
    let a = line + seq!['\r', '\n'] + rest;
    lemma_position_at(a, '\n', line.len() as int + 1);
    assert(a.take(line.len() as int + 1).drop_last() =~= line);
    assert(a.take(line.len() as int + 1).last() == '\r');
    assert(a.skip(line.len() as int + 2) =~= rest);
    let b = line + seq!['\n'] + rest;
    lemma_position_at(b, '\n', line.len() as int);
    assert(b.take(line.len() as int) =~= line);
    assert(b.skip(line.len() as int + 1) =~= rest);
    if line.len() > 0 {
        lemma_position(line, '\n');
        if position(line, '\n') < line.len() {
            assert(line.contains(line[position(line, '\n')]));
        }
    }
}

/// A character is found at its first place.
pub proof fn lemma_position_at(s: Seq<char>, c: char, at: int)
    requires
        0 <= at < s.len(),
        s[at] == c,
        forall|i: int| 0 <= i < at ==> s[i] != c,
    ensures
        position(s, c) == at,
{
    lemma_position(s, c);
    let p = position(s, c);
    if p < at {
        assert(s[p] == c);
    } else if p > at {
        assert(s[at] != c);
    }
}

/// The second word of a line is what stands between the first white space behind its first word
/// and the next white space.
pub proof fn law_the_second_word_stands_behind_the_first_gap(
    first: Seq<char>,
    gap: Seq<char>,
    second: Seq<char>,
    rest: Seq<char>,
)
    requires
        first.len() > 0,
        gap.len() > 0,
        second.len() > 0,
        forall|i: int| 0 <= i < first.len() ==> !white_space(#[trigger] first[i]),
        forall|i: int| 0 <= i < gap.len() ==> white_space(#[trigger] gap[i]),
        forall|i: int| 0 <= i < second.len() ==> !white_space(#[trigger] second[i]),
        rest.len() > 0 ==> white_space(rest[0]),
    ensures
        second_word(first + gap + second + rest) == Some(second),
{
    let line = first + gap + second + rest;
    let tail = gap + (second + rest);
    assert(line =~= first + tail);
    assert(!white_space(line[0]));
    lemma_word_length(first, tail);
    assert(line.skip(first.len() as int) =~= tail);
    lemma_trim_gap(gap, second + rest);
    lemma_word_length(second, rest);
    assert((second + rest).take(second.len() as int) =~= second);
}

/// A line of no more than one word has no second one, whatever white space stands around it.
pub proof fn law_one_word_has_no_second(before: Seq<char>, word: Seq<char>, after: Seq<char>)
    requires
        forall|i: int| 0 <= i < before.len() ==> white_space(#[trigger] before[i]),
        forall|i: int| 0 <= i < word.len() ==> !white_space(#[trigger] word[i]),
        forall|i: int| 0 <= i < after.len() ==> white_space(#[trigger] after[i]),
    ensures
        second_word(before + word + after) is None,
{
    let line = before + word + after;
    lemma_all_white(after);
    if word.len() > 0 {
        assert(line =~= before + (word + after));
        lemma_trim_gap(before, word + after);
        lemma_word_length(word, after);
        assert((word + after).skip(word.len() as int) =~= after);
    } else {
        assert forall|i: int| 0 <= i < line.len() implies white_space(#[trigger] line[i]) by {
            if i < before.len() {
                assert(line[i] == before[i]);
            } else {
                assert(line[i] == after[i - before.len()]);
            }
        }
        lemma_all_white(line);
        assert(trim_start(line) =~= Seq::<char>::empty());
        assert(trim_start(line).skip(0) =~= Seq::<char>::empty());
    }
}

/// What stands before the first word of a line is passed over.
pub proof fn law_white_space_before_a_line_is_passed_over(before: Seq<char>, line: Seq<char>)
    requires
        forall|i: int| 0 <= i < before.len() ==> white_space(#[trigger] before[i]),
        line.len() > 0,
        !white_space(line[0]),
    ensures
        second_word(before + line) == second_word(line),
{
    lemma_trim_gap(before, line);
    lemma_trim_gap(Seq::empty(), line);
    assert(Seq::<char>::empty() + line =~= line);
}

proof fn lemma_all_white(s: Seq<char>)
    requires
        forall|i: int| 0 <= i < s.len() ==> white_space(#[trigger] s[i]),
    ensures
        trim_start(s).len() == 0,
    decreases s.len(),
{
    if s.len() > 0 {
        let rest = s.drop_first();
        assert forall|i: int| 0 <= i < rest.len() implies white_space(#[trigger] rest[i]) by {
            assert(rest[i] == s[i + 1]);
        }
        lemma_all_white(rest);
    }
}

proof fn lemma_word_length(word: Seq<char>, rest: Seq<char>)
    requires
        forall|i: int| 0 <= i < word.len() ==> !white_space(#[trigger] word[i]),
        rest.len() > 0 ==> white_space(rest[0]),
    ensures
        word_length(word + rest) == word.len(),
    decreases word.len(),
{
    if word.len() > 0 {
        lemma_word_length(word.drop_first(), rest);
        assert((word + rest).drop_first() =~= word.drop_first() + rest);
        assert((word + rest)[0] == word[0]);
    } else {
        assert(word + rest =~= rest);
    }
}

proof fn lemma_trim_gap(gap: Seq<char>, rest: Seq<char>)
    requires
        forall|i: int| 0 <= i < gap.len() ==> white_space(#[trigger] gap[i]),
        rest.len() > 0,
        !white_space(rest[0]),
    ensures
        trim_start(gap + rest) == rest,
    decreases gap.len(),
{
    if gap.len() > 0 {
        lemma_trim_gap(gap.drop_first(), rest);
        assert((gap + rest).drop_first() =~= gap.drop_first() + rest);
        assert((gap + rest)[0] == gap[0]);
    } else {
        assert(gap + rest =~= rest);
    }
}

// ---------------------------------------------------------------------------------------
// Base64
// ---------------------------------------------------------------------------------------

/// A character of base64 stands for its place in the alphabet: the capitals, the small letters,
/// the digits, the plus sign and the slash.
pub proof fn law_base64_has_its_alphabet(v: int, c: char)
    requires
        0 <= v < 64,
    ensures
        sextet(
            "ABCDEFGHIJKLMNOPQRSTUVWXYZabcdefghijklmnopqrstuvwxyz0123456789+/"@[v],
        ) == Some(v),
        sextet(c) is Some ==> 0 <= sextet(c)->0 < 64 && c
            == "ABCDEFGHIJKLMNOPQRSTUVWXYZabcdefghijklmnopqrstuvwxyz0123456789+/"@[sextet(c)->0],
{
    lemma_alphabet(v);
    if sextet(c) is Some {
        let w = sextet(c)->0;
        lemma_alphabet(w);
        assert(crate::codec::letter(w) == c);
    }
}

proof fn lemma_alphabet(v: int)
    requires
        0 <= v < 64,
    ensures
        crate::codec::letter(v)
            == "ABCDEFGHIJKLMNOPQRSTUVWXYZabcdefghijklmnopqrstuvwxyz0123456789+/"@[v],
        sextet(crate::codec::letter(v)) == Some(v),
{
    reveal_strlit("ABCDEFGHIJKLMNOPQRSTUVWXYZabcdefghijklmnopqrstuvwxyz0123456789+/");
}

/// Four characters of base64 are three bytes, with the same bits in the same order, and what is
/// left at the end is as many bytes as it fills.
pub proof fn law_four_characters_are_three_bytes(s: Seq<char>, g: int)
    requires
        is_base64(s),
        0 <= g,
        4 * g + 1 < s.len(),
    ensures
        base64_bytes(s).len() == 3 * s.len() / 4,
        ({
            let b = base64_bytes(s);
            let v = |i: int| sextet(s[4 * g + i])->0;
            &&& b[3 * g] == (v(0) * 64 + v(1)) / 16
            &&& 4 * g + 2 < s.len() ==> b[3 * g] * 0x100 + b[3 * g + 1] == (v(0) * 0x1000 + v(1) * 64
                + v(2)) / 4
            &&& 4 * g + 3 < s.len() ==> b[3 * g] * 0x1_0000 + b[3 * g + 1] * 0x100 + b[3 * g + 2]
                == v(0) * 0x4_0000 + v(1) * 0x1000 + v(2) * 64 + v(3)
        }),
{
    let b = base64_bytes(s);
    assert(sextet(s[4 * g]) is Some && sextet(s[4 * g + 1]) is Some);
    let (p, q) = (sextet(s[4 * g])->0, sextet(s[4 * g + 1])->0);
    assert(0 <= p < 64 && 0 <= q < 64);
    lemma_thirds(g);
    assert(3 * g < 3 * s.len() / 4);
    assert(b[3 * g] == (p * 4 + q / 16) as u8);
    if 4 * g + 2 < s.len() {
        assert(sextet(s[4 * g + 2]) is Some);
        let r = sextet(s[4 * g + 2])->0;
        assert(0 <= r < 64);
        assert(3 * g + 1 < 3 * s.len() / 4);
        assert(b[3 * g + 1] == (q % 16 * 16 + r / 4) as u8);
        if 4 * g + 3 < s.len() {
            assert(sextet(s[4 * g + 3]) is Some);
            let t = sextet(s[4 * g + 3])->0;
            assert(0 <= t < 64);
            assert(3 * g + 2 < 3 * s.len() / 4);
            assert(b[3 * g + 2] == (r % 4 * 64 + t) as u8);
        }
    }
}

proof fn lemma_thirds(g: int)
    requires
        0 <= g,
    ensures
        (3 * g) / 3 == g,
        (3 * g) % 3 == 0,
        (3 * g + 1) / 3 == g,
        (3 * g + 1) % 3 == 1,
        (3 * g + 2) / 3 == g,
        (3 * g + 2) % 3 == 2,
{
}

/// Padding is passed over wherever it stands, and what is not of the alphabet makes the whole no
/// name at all; otherwise the name is what the bytes encode.
pub proof fn law_base64_passes_over_its_padding(s: Seq<char>)
    ensures
        unpadded(s) == s.filter(|c: char| c != '='),
        base64_text(s) is Some <==> is_base64(s.filter(|c: char| c != '=')) && valid_utf8(
            base64_bytes(s.filter(|c: char| c != '=')),
        ),
        base64_text(s) is Some ==> base64_text(s)->0 == decode_utf8(
            base64_bytes(s.filter(|c: char| c != '=')),
        ),
{
    lemma_unpadded_is_a_filter(s);
}

proof fn lemma_unpadded_is_a_filter(s: Seq<char>)
    ensures
        unpadded(s) == s.filter(|c: char| c != '='),
    decreases s.len(),
{
    reveal(Seq::filter);
    if s.len() > 0 {
        lemma_unpadded_is_a_filter(s.drop_last());
    } else {
        assert(unpadded(s) =~= s.filter(|c: char| c != '='));
    }
}

/// A text is base64 where each of its characters is one of the alphabet.
pub proof fn law_base64_is_made_of_its_alphabet(s: Seq<char>, i: int)
    requires
        0 <= i < s.len(),
        !"ABCDEFGHIJKLMNOPQRSTUVWXYZabcdefghijklmnopqrstuvwxyz0123456789+/"@.contains(s[i]),
    ensures
        !is_base64(s),
{
    reveal_strlit("ABCDEFGHIJKLMNOPQRSTUVWXYZabcdefghijklmnopqrstuvwxyz0123456789+/");
    law_base64_has_its_alphabet(0, s[i]);
}

// ---------------------------------------------------------------------------------------
// Lists of numbers
// ---------------------------------------------------------------------------------------

/// A list of numbers is read item by item: what is no number gives nothing, a number gives its
/// low eight bits, and two lists one after the other give what each of them gives.
pub proof fn law_a_list_of_numbers_is_read_item_by_item(
    n: u64,
    before: Seq<Option<u64>>,
    after: Seq<Option<u64>>,
)
    ensures
        octets_of(seq![Some(n)]) == seq![(n % 256) as u8],
        octets_of(seq![None::<u64>]) == Seq::<u8>::empty(),
        octets_of(before + after) == octets_of(before) + octets_of(after),
{
    reveal_with_fuel(octets_of, 2);
    assert(n as u8 == (n % 256) as u8) by (bit_vector);
    assert(seq![Some(n)].drop_last() =~= Seq::<Option<u64>>::empty());
    assert(seq![None::<u64>].drop_last() =~= Seq::<Option<u64>>::empty());
    assert(octets_of(seq![Some(n)]) =~= seq![(n % 256) as u8]);
    lemma_octets_of_both(before, after);
}

proof fn lemma_octets_of_both(before: Seq<Option<u64>>, after: Seq<Option<u64>>)
    ensures
        octets_of(before + after) == octets_of(before) + octets_of(after),
    decreases after.len(),
{
    if after.len() > 0 {
        lemma_octets_of_both(before, after.drop_last());
        assert((before + after).drop_last() =~= before + after.drop_last());
        assert((before + after).last() == after.last());
        assert(octets_of(before + after) =~= octets_of(before) + octets_of(after));
    } else {
        assert(before + after =~= before);
        assert(octets_of(before) + octets_of(after) =~= octets_of(before));
    }
}

} // verus!
