//! Just enough HTTP/1.1 to carry KLAP, written by hand because the bytes are binary.
//!
//! What arrives is whatever came in during a read window rather than whole replies, so [`parse`]
//! returns `None` for "not all here yet" and the caller keeps the remainder for the next event.

use vstd::prelude::*;
use vstd::utf8::encode_utf8;
use crate::outside::{lossy_text, text_lossy};
use crate::text::{after_prefix, chars_of, decimal, decimal_u64, line_list, lines, lines_of, parse_unsigned, position, position_of, same_but_case, same_letters, second_word, second_word_slice, string_of, strip_prefix, text_option, trim_slice, trimmed, unsigned};

verus! {

/// One reply off the wire.
pub struct Reply {
    pub status: u16,
    /// `TP_SESSIONID`, when this reply set one. Handshake1 is the only one that does.
    pub session: Option<String>,
    pub body: Vec<u8>,
}

/// What a reply says.
pub struct ReplyView {
    pub status: u16,
    pub session: Option<Seq<char>>,
    pub body: Seq<u8>,
}

impl View for Reply {
    type V = ReplyView;

    open spec fn view(&self) -> ReplyView {
        ReplyView {
            status: self.status,
            session: text_option(self.session),
            body: self.body@,
        }
    }
}

// ---------------------------------------------------------------------------------------
// Requests
// ---------------------------------------------------------------------------------------

/// The line that hands the session back to the device, once there is one.
pub open spec fn cookie_line(session: Option<Seq<char>>) -> Seq<char> {
    match session {
        Some(id) => "Cookie: TP_SESSIONID="@ + id + "\r\n"@,
        None => Seq::empty(),
    }
}

/// Everything in a request before its body of `length` bytes.
pub open spec fn request_head(
    path: Seq<char>,
    host: Seq<char>,
    session: Option<Seq<char>>,
    length: nat,
) -> Seq<char> {
    "POST "@ + path + " HTTP/1.1\r\nHost: "@ + host
        + "\r\nContent-Type: application/octet-stream\r\nContent-Length: "@ + decimal(length as int)
        + "\r\nConnection: keep-alive\r\n"@ + cookie_line(session) + "\r\n"@
}

/// Build a request. `keep-alive` because one connection is held per device, and a closed one is
/// only noticed by failing to write down it.
pub fn post(path: &str, host: &str, session: Option<&str>, body: &[u8]) -> (r: Vec<u8>)
    ensures
        r@ == encode_utf8(
            request_head(
                path@,
                host@,
                match session {
                    Some(id) => Some(id@),
                    None => None,
                },
                body@.len(),
            ),
        ) + body@,
{
    let mut head: String = "POST ".to_owned();
    head.append(path);
    head.append(" HTTP/1.1\r\nHost: ");
    head.append(host);
    head.append("\r\nContent-Type: application/octet-stream\r\nContent-Length: ");
    head.append(decimal_u64(body.len() as u64).as_str());
    head.append("\r\nConnection: keep-alive\r\n");
    let ghost before = head@;
    if let Some(id) = session {
        head.append("Cookie: TP_SESSIONID=");
        head.append(id);
        head.append("\r\n");
        proof {
            assert(head@ =~= before + cookie_line(Some(id@)));
        }
    } else {
        proof {
            assert(head@ =~= before + cookie_line(None));
        }
    }
    head.append("\r\n");
    let mut out: Vec<u8> = Vec::new();
    out.extend_from_slice(head.as_str().as_bytes());
    out.extend_from_slice(body);
    proof {
        assert(out@ =~= encode_utf8(head@) + body@);
    }
    out
}

// ---------------------------------------------------------------------------------------
// Replies
// ---------------------------------------------------------------------------------------

/// Whether the line that ends a head stands at `i`: two line ends with nothing between them.
pub open spec fn blank_at(buf: Seq<u8>, i: int) -> bool {
    &&& 0 <= i
    &&& i + 4 <= buf.len()
    &&& buf[i] == 13
    &&& buf[i + 1] == 10
    &&& buf[i + 2] == 13
    &&& buf[i + 3] == 10
}

/// The first place from `i` on where a head ends.
pub open spec fn blank_from(buf: Seq<u8>, i: int) -> Option<int>
    decreases buf.len() - i,
{
    if i + 4 > buf.len() {
        None
    } else if blank_at(buf, i) {
        Some(i)
    } else {
        blank_from(buf, i + 1)
    }
}

/// How many bytes of `buf` are its head, the blank line with it, once all of that is here.
pub open spec fn head_length(buf: Seq<u8>) -> Option<int> {
    match blank_from(buf, 0) {
        Some(i) => Some(i + 4),
        None => None,
    }
}

/// The name and the value of a header line: what stands before its first colon, and what stands
/// behind it but for the white space around it.
pub open spec fn header(line: Seq<char>) -> Option<(Seq<char>, Seq<char>)> {
    let colon = position(line, ':');
    if colon < line.len() {
        Some((line.take(colon), trimmed(line.skip(colon + 1))))
    } else {
        None
    }
}

/// The length that one header line declares, if it is the one that does. A length that cannot be
/// read counts as zero.
pub open spec fn declared_length(line: Seq<char>) -> Option<int> {
    match header(line) {
        Some((name, value)) => if same_letters(name, "content-length"@) {
            Some(
                match unsigned(value, usize::MAX as int) {
                    Some(n) => n,
                    None => 0,
                },
            )
        } else {
            None
        },
        None => None,
    }
}

/// The session id in the value of a `Set-Cookie` header: in `TP_SESSIONID=ABC;TIMEOUT=1440` it is
/// `ABC`, up to the first attribute.
pub open spec fn session_id(value: Seq<char>) -> Option<Seq<char>> {
    match after_prefix(value, "TP_SESSIONID="@) {
        Some(rest) => Some(rest.take(position(rest, ';'))),
        None => None,
    }
}

/// The session that one header line sets, if it sets one.
pub open spec fn set_session(line: Seq<char>) -> Option<Seq<char>> {
    match header(line) {
        Some((name, value)) => if same_letters(name, "set-cookie"@) {
            session_id(value)
        } else {
            None
        },
        None => None,
    }
}

/// The length of the body: the last one declared, and zero where none is.
pub open spec fn body_length(headers: Seq<Seq<char>>) -> int
    decreases headers.len(),
{
    if headers.len() == 0 {
        0
    } else {
        match declared_length(headers.last()) {
            Some(n) => n,
            None => body_length(headers.drop_last()),
        }
    }
}

/// The session that the headers set: the last one, where there are several.
pub open spec fn session_of(headers: Seq<Seq<char>>) -> Option<Seq<char>>
    decreases headers.len(),
{
    if headers.len() == 0 {
        None
    } else {
        match set_session(headers.last()) {
            Some(id) => Some(id),
            None => session_of(headers.drop_last()),
        }
    }
}

/// The status in the first line of a reply, `HTTP/1.1 200 OK`: the middle field.
pub open spec fn status_of(head: Seq<Seq<char>>) -> Option<u16> {
    if head.len() == 0 {
        None
    } else {
        match second_word(head[0]) {
            Some(word) => match unsigned(word, u16::MAX as int) {
                Some(n) => Some(n as u16),
                None => None,
            },
            None => None,
        }
    }
}

/// What the head of a reply says.
#[derive(Debug)]
pub struct Head {
    pub status: u16,
    pub session: Option<String>,
    /// How many bytes of body follow.
    pub length: usize,
}

/// What the head of a reply says.
pub struct HeadView {
    pub status: u16,
    pub session: Option<Seq<char>>,
    pub length: int,
}

impl View for Head {
    type V = HeadView;

    open spec fn view(&self) -> HeadView {
        HeadView {
            status: self.status,
            session: text_option(self.session),
            length: self.length as int,
        }
    }
}

/// What the text of a head says, where its first line has a status in it.
pub open spec fn head_of(text: Seq<char>) -> Option<HeadView> {
    let head = lines(text);
    match status_of(head) {
        Some(status) => Some(
            HeadView {
                status,
                session: session_of(head.skip(1)),
                length: body_length(head.skip(1)),
            },
        ),
        None => None,
    }
}

/// The first whole reply in `buf`, and how many bytes it uses.
pub open spec fn parsed(buf: Seq<u8>) -> Option<(ReplyView, int)> {
    match head_length(buf) {
        None => None,
        Some(end) => match head_of(lossy_text(buf.take(end))) {
            None => None,
            Some(head) => if buf.len() < end + head.length {
                None
            } else {
                Some(
                    (
                        ReplyView {
                            status: head.status,
                            session: head.session,
                            body: buf.subrange(end, end + head.length),
                        },
                        end + head.length,
                    ),
                )
            },
        },
    }
}

/// The session id in the value of a `Set-Cookie` header.
pub fn read_session_id(value: &[char]) -> (r: Option<String>)
    ensures
        text_option(r) == session_id(value@),
{
    match strip_prefix(value, "TP_SESSIONID=") {
        Some(rest) => {
            let end: usize = position_of(rest, ';');
            proof {
                assert(rest@.subrange(0, end as int) =~= rest@.take(end as int));
            }
            Some(string_of(&rest[0..end]))
        },
        None => None,
    }
}

/// The first place where a head ends.
fn find_blank(buf: &[u8]) -> (r: Option<usize>)
    ensures
        match r {
            Some(i) => blank_from(buf@, 0) == Some(i as int) && i + 4 <= buf@.len(),
            None => blank_from(buf@, 0) is None,
        },
{
    if buf.len() < 4 {
        return None;
    }
    let last: usize = buf.len() - 4;
    let mut i: usize = 0;
    loop
        invariant
            last == buf@.len() - 4,
            i <= last,
            blank_from(buf@, 0) == blank_from(buf@, i as int),
        decreases last - i,
    {
        if buf[i] == 13 && buf[i + 1] == 10 && buf[i + 2] == 13 && buf[i + 3] == 10 {
            return Some(i);
        }
        if i == last {
            proof {
                assert(blank_from(buf@, i + 1) is None);
            }
            return None;
        }
        i += 1;
    }
}

/// What the text of a head says, where its first line has a status in it.
pub fn read_head(text: &str) -> (r: Option<Head>)
    ensures
        match r {
            Some(head) => head_of(text@) == Some(head@),
            None => head_of(text@) is None,
        },
{
    let chars: Vec<char> = chars_of(text);
    let head: Vec<Vec<char>> = lines_of(chars.as_slice());
    let ghost hs = lines(text@);
    proof {
        assert(line_list(head@) == hs);
        assert(head@.len() == hs.len());
    }
    if head.len() == 0 {
        return None;
    }
    proof {
        assert(head@[0]@ == hs[0]);
    }
    let status: u16 = match second_word_slice(head[0].as_slice()) {
        Some(word) => match parse_unsigned(word, 65535) {
            Some(n) => n as u16,
            None => {
                return None;
            },
        },
        None => {
            return None;
        },
    };

    let mut length: usize = 0;
    let mut session: Option<String> = None;
    let mut i: usize = 1;
    let ghost rest = hs.skip(1);
    proof {
        assert(rest.take(0) =~= Seq::<Seq<char>>::empty());
    }
    while i < head.len()
        invariant
            1 <= i <= head@.len(),
            line_list(head@) == hs,
            head@.len() == hs.len(),
            rest == hs.skip(1),
            length == body_length(rest.take(i - 1)),
            text_option(session) == session_of(rest.take(i - 1)),
        decreases head@.len() - i,
    {
        let line: &[char] = head[i].as_slice();
        proof {
            assert(line@ == hs[i as int]);
            assert(rest.take(i as int).drop_last() =~= rest.take(i - 1));
            assert(rest.take(i as int).last() == hs[i as int]);
        }
        let colon: usize = position_of(line, ':');
        if colon < line.len() {
            let name: &[char] = &line[0..colon];
            let value: &[char] = trim_slice(&line[colon + 1..line.len()]);
            proof {
                assert(name@ =~= line@.take(colon as int));
                assert(line@.subrange(colon + 1, line@.len() as int) =~= line@.skip(colon + 1));
                lemma_header_names_differ(name@);
            }
            if same_but_case(name, "content-length") {
                length = match parse_unsigned(value, usize::MAX as u64) {
                    Some(n) => n as usize,
                    None => 0,
                };
            } else if same_but_case(name, "set-cookie") {
                match read_session_id(value) {
                    Some(id) => {
                        session = Some(id);
                    },
                    None => {},
                }
            }
        }
        i += 1;
    }
    proof {
        assert(rest.take(i - 1) =~= rest);
    }
    Some(Head { status, session, length })
}

/// The first whole reply in `buf`, and how many bytes it used.
///
/// `None` means what has arrived so far is not a whole reply yet, which is ordinary rather than
/// an error: a read window cuts wherever it lands. A body that could never fit in memory is
/// never all there.
///
/// `Content-Length` only. Everything a Tapo sends is a short, counted body.
pub fn parse(buf: &[u8]) -> (r: Option<(Reply, usize)>)
    ensures
        match r {
            Some((reply, used)) => parsed(buf@) == Some((reply@, used as int)),
            None => parsed(buf@) is None,
        },
{
    let arrived: usize = buf.len();
    let end: usize = match find_blank(buf) {
        Some(i) => i + 4,
        None => {
            return None;
        },
    };
    proof {
        assert(buf@.subrange(0, end as int) =~= buf@.take(end as int));
    }
    let text: String = text_lossy(&buf[0..end]);
    let head: Head = match read_head(text.as_str()) {
        Some(head) => head,
        None => {
            return None;
        },
    };
    let length: usize = head.length;
    if length > arrived - end {
        return None;
    }
    let body: Vec<u8> = vstd::slice::slice_to_vec(&buf[end..end + length]);
    Some((Reply { status: head.status, session: head.session, body }, end + length))
}

proof fn lemma_header_names_differ(name: Seq<char>)
    ensures
        !(same_letters(name, "content-length"@) && same_letters(name, "set-cookie"@)),
{
    reveal_strlit("content-length");
    reveal_strlit("set-cookie");
}

/// Where a head ends is the first place where it can.
pub proof fn lemma_blank_from(buf: Seq<u8>, i: int)
    requires
        0 <= i,
    ensures
        match blank_from(buf, i) {
            Some(k) => i <= k && blank_at(buf, k) && (forall|j: int|
                i <= j < k ==> !#[trigger] blank_at(buf, j)),
            None => forall|j: int| i <= j ==> !#[trigger] blank_at(buf, j),
        },
    decreases buf.len() - i,
{
    if i + 4 <= buf.len() && !blank_at(buf, i) {
        lemma_blank_from(buf, i + 1);
    }
}

proof fn lemma_declared_length_is_not_negative(headers: Seq<Seq<char>>)
    ensures
        body_length(headers) >= 0,
    decreases headers.len(),
{
    if headers.len() > 0 {
        lemma_declared_length_is_not_negative(headers.drop_last());
        match header(headers.last()) {
            Some((name, value)) => {
                let d = crate::text::after_plus(value);
                if crate::text::all_digits(d) {
                    crate::text::lemma_digits_value_grows(d, 0);
                }
            },
            None => {},
        }
    }
}

/// Where the first head of `buf` ends does not depend on what comes after it.
proof fn lemma_head_is_stable(buf: Seq<u8>, more: Seq<u8>, end: int)
    requires
        head_length(buf) == Some(end),
    ensures
        head_length(buf + more) == Some(end),
        (buf + more).take(end) == buf.take(end),
        4 <= end <= buf.len(),
{
    let all = buf + more;
    lemma_blank_from(buf, 0);
    lemma_blank_from(all, 0);
    let k = end - 4;
    assert(blank_at(all, k));
    match blank_from(all, 0) {
        Some(m) => {
            if m < k {
                assert(blank_at(buf, m));
            } else if m > k {
                assert(!blank_at(all, k));
            }
        },
        None => {},
    }
    assert(all.take(end) =~= buf.take(end));
}

/// Once a whole reply is in the buffer it is read the same whatever arrives behind it, and what
/// arrives behind it is left alone: two replies in one window are read one after the other.
pub proof fn law_a_whole_reply_is_read_whatever_follows(buf: Seq<u8>, more: Seq<u8>)
    requires
        parsed(buf) is Some,
    ensures
        parsed(buf + more) == parsed(buf),
        0 < (parsed(buf)->0).1 <= buf.len(),
{
    let end = head_length(buf)->0;
    lemma_head_is_stable(buf, more, end);
    let length = body_length(lines(lossy_text(buf.take(end))).skip(1));
    lemma_declared_length_is_not_negative(lines(lossy_text(buf.take(end))).skip(1));
    assert((buf + more).subrange(end, end + length) =~= buf.subrange(end, end + length));
}

/// Every prefix short of the last byte of a reply is "not yet", never a truncated read.
pub proof fn law_a_reply_is_only_read_once_all_of_it_is_here(buf: Seq<u8>, cut: int)
    requires
        parsed(buf) is Some,
        0 <= cut < (parsed(buf)->0).1,
    ensures
        parsed(buf.take(cut)) is None,
{
    let part = buf.take(cut);
    let rest = buf.skip(cut);
    law_a_whole_reply_is_read_whatever_follows(buf, Seq::empty());
    assert(part + rest =~= buf);
    if parsed(part) is Some {
        law_a_whole_reply_is_read_whatever_follows(part, rest);
    }
}

} // verus!
