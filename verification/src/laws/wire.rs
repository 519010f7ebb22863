//! What goes over the wire and comes back, part by part: the requests, the replies, and what a
//! device says about itself in them.

use vstd::prelude::*;
use crate::host::{call_list, change_argument, change_name, cookie_among, cookie_of, posted, warning, Call, Change, HostCall, RequestView};
use crate::http::{blank_from, body_length, declared_length, head_length, head_of, header, lemma_blank_from, parsed, request_head, session_id, session_of, set_session, status_of, Head, HeadView, Reply, ReplyView};
use crate::laws::notation::{law_a_line_ends_at_a_line_feed, law_a_number_is_read_as_it_is_written, law_the_second_word_stands_behind_the_first_gap, law_what_follows_a_prefix, lemma_position_at};
use crate::outside::{json_bool, json_i64, json_member, json_of_bytes, json_of_text, json_text, json_u64, lossy_text, Json};
use crate::reading::{broadcast_from, broadcast_of, may_speak_klap, model_name, reply_of, Broadcast, BroadcastView, DeviceReply, UdpCandidate, UdpCandidateView};
use crate::text::{decimal, lemma_position, lines, position, same_letters, second_word, trimmed, unsigned, white_space};

verus! {

// ---------------------------------------------------------------------------------------
// What the controller is asked to do
// ---------------------------------------------------------------------------------------

/// A request is a POST of the body as it stands to that path on that host, with the session cookie
/// in its one header where there is a session.
pub proof fn law_a_request_is_a_post_with_the_session_cookie(
    host: Seq<char>,
    path: Seq<char>,
    id: Seq<char>,
    body: Seq<u8>,
)
    ensures
        posted(host, path, None, body).headers.len() == 0,
        posted(host, path, Some(id), body).headers == seq![("Cookie"@, "TP_SESSIONID="@ + id)],
        forall|cookie: Option<Seq<char>>| #[trigger]
            posted(host, path, cookie, body).method == "POST"@ && posted(
                host,
                path,
                cookie,
                body,
            ).url == "http://"@ + host + path && posted(host, path, cookie, body).body_bytes
                == body,
{
}

/// The controller knows each change by its name and its argument by its own.
pub proof fn law_changes_go_by_their_names(online: bool, on: bool, level: u64)
    ensures
        change_name(Change::Online(online)) == "online_changed"@,
        change_argument(Change::Online(online)) == "online"@,
        change_name(Change::Power(on)) == "power_changed"@,
        change_argument(Change::Power(on)) == "on"@,
        change_name(Change::Level(level)) == "level_changed"@,
        change_argument(Change::Level(level)) == "level"@,
{
}

/// A warning is logged as one, in the words it was given.
pub proof fn law_a_warning_is_logged_as_one(msg: Seq<char>)
    ensures
        warning(msg) == (Call::Log { level: "warn"@, msg }),
{
}

/// A list of calls asks for what each of them asks for, in order, with every part of it.
pub proof fn law_calls_are_asked_for_in_order(calls: Seq<HostCall>, i: int)
    requires
        0 <= i < calls.len(),
    ensures
        call_list(calls).len() == calls.len(),
        call_list(calls)[i] == match calls[i] {
            HostCall::Log { level, msg } => Call::Log { level: level@, msg: msg@ },
            HostCall::Http(request) => Call::Http(
                RequestView {
                    method: request.method@,
                    url: request.url@,
                    headers: request.headers@.map_values(
                        |h: (String, String)| (h.0@, h.1@),
                    ),
                    body_bytes: request.body_bytes@,
                },
            ),
            HostCall::Notify { proxy, change } => Call::Notify { proxy, change },
        },
{
    match calls[i] {
        HostCall::Http(request) => {
            assert(crate::host::pair_list(request.headers@) =~= request.headers@.map_values(
                |h: (String, String)| (h.0@, h.1@),
            ));
        },
        _ => {},
    }
}

// ---------------------------------------------------------------------------------------
// The session cookie
// ---------------------------------------------------------------------------------------

/// The session id is what stands between its name and the first attribute, and a value that does
/// not begin with the name has none.
pub proof fn law_the_session_id_ends_at_its_first_attribute(
    id: Seq<char>,
    attributes: Seq<char>,
    value: Seq<char>,
)
    requires
        !id.contains(';'),
        attributes.len() > 0 ==> attributes[0] == ';',
    ensures
        session_id("TP_SESSIONID="@ + id + attributes) == Some(id),
        session_id(value) is Some ==> "TP_SESSIONID="@.is_prefix_of(value),
{
    let name = "TP_SESSIONID="@;
    let rest = id + attributes;
    law_what_follows_a_prefix(value, name, rest);
    assert(name + id + attributes =~= name + rest);
    if attributes.len() > 0 {
        assert forall|i: int| 0 <= i < id.len() implies rest[i] != ';' by {
            assert(id.contains(id[i]));
        }
        lemma_position_at(rest, ';', id.len() as int);
        assert(rest.take(id.len() as int) =~= id);
    } else {
        lemma_position(rest, ';');
        assert(rest =~= id);
        if position(rest, ';') < rest.len() {
            assert(id.contains(id[position(rest, ';')]));
        }
        assert(rest.take(position(rest, ';')) =~= id);
    }
}

/// A reply's cookie is the first that a `Set-Cookie` header holds, whatever the case of that name
/// and whatever stands before and behind it; and where no header holds one there is none.
pub proof fn law_the_first_session_cookie_counts(
    before: Seq<(Seq<char>, Seq<char>)>,
    name: Seq<char>,
    value: Seq<char>,
    after: Seq<(Seq<char>, Seq<char>)>,
)
    requires
        forall|i: int|
            0 <= i < before.len() ==> !(same_letters((#[trigger] before[i]).0, "set-cookie"@)
                && session_id(trimmed(before[i].1)) is Some),
    ensures
        cookie_among(before) is None,
        same_letters(name, "set-cookie"@) && session_id(trimmed(value)) is Some ==> cookie_among(
            before + seq![(name, value)] + after,
        ) == session_id(trimmed(value)),
    decreases before.len(),
{
    let all = before + seq![(name, value)] + after;
    if before.len() > 0 {
        let rest = before.drop_first();
        assert forall|i: int| 0 <= i < rest.len() implies !(same_letters(
            (#[trigger] rest[i]).0,
            "set-cookie"@,
        ) && session_id(trimmed(rest[i].1)) is Some) by {
            assert(rest[i] == before[i + 1]);
        }
        law_the_first_session_cookie_counts(rest, name, value, after);
        assert(all.drop_first() =~= rest + seq![(name, value)] + after);
        assert(all[0] == before[0]);
        assert(cookie_of(before[0]) is None);
    } else {
        assert(all[0] == (name, value));
    }
}

// ---------------------------------------------------------------------------------------
// Requests over a raw connection
// ---------------------------------------------------------------------------------------

/// Several lines as they are written: each with a carriage return and a line feed behind it.
pub open spec fn written(rows: Seq<Seq<char>>) -> Seq<char>
    decreases rows.len(),
{
    if rows.len() == 0 {
        Seq::empty()
    } else {
        rows[0] + seq!['\r', '\n'] + written(rows.drop_first())
    }
}

/// A request has its lines, one after the other: where it goes, to whom, what it carries and how
/// much of it, that the connection is kept, and the session where there is one. A blank line ends
/// it.
pub proof fn law_a_request_has_its_lines(
    path: Seq<char>,
    host: Seq<char>,
    id: Seq<char>,
    length: nat,
)
    ensures
        request_head(path, host, Some(id), length) == written(
            seq![
                "POST "@ + path + " HTTP/1.1"@,
                "Host: "@ + host,
                "Content-Type: application/octet-stream"@,
                "Content-Length: "@ + decimal(length as int),
                "Connection: keep-alive"@,
                "Cookie: TP_SESSIONID="@ + id,
                Seq::<char>::empty(),
            ],
        ),
        request_head(path, host, None, length) == written(
            seq![
                "POST "@ + path + " HTTP/1.1"@,
                "Host: "@ + host,
                "Content-Type: application/octet-stream"@,
                "Content-Length: "@ + decimal(length as int),
                "Connection: keep-alive"@,
                Seq::<char>::empty(),
            ],
        ),
{
    let none = Seq::<char>::empty();
    let rows = seq![
        "POST "@ + path + " HTTP/1.1"@,
        "Host: "@ + host,
        "Content-Type: application/octet-stream"@,
        "Content-Length: "@ + decimal(length as int),
        "Connection: keep-alive"@,
    ];
    let cookie = "Cookie: TP_SESSIONID="@ + id;
    lemma_request_begins(path, host, length);
    lemma_written_push(rows, none);
    lemma_written_push(rows, cookie);
    lemma_written_push(rows.push(cookie), none);
    lemma_request_literals();
    let end = seq!['\r', '\n'];
    assert(written(rows) + none + end =~= written(rows) + Seq::<char>::empty() + end);
    assert(written(rows.push(cookie)) + none + end =~= written(rows) + (cookie + end) + end);
    assert(rows.push(none) =~= seq![
        "POST "@ + path + " HTTP/1.1"@,
        "Host: "@ + host,
        "Content-Type: application/octet-stream"@,
        "Content-Length: "@ + decimal(length as int),
        "Connection: keep-alive"@,
        none,
    ]);
    assert(rows.push(cookie).push(none) =~= seq![
        "POST "@ + path + " HTTP/1.1"@,
        "Host: "@ + host,
        "Content-Type: application/octet-stream"@,
        "Content-Length: "@ + decimal(length as int),
        "Connection: keep-alive"@,
        cookie,
        none,
    ]);
}

/// Whoever reads a request line by line finds those lines and no others, so long as no part of it
/// breaks one.
pub proof fn law_a_request_is_read_line_by_line(
    path: Seq<char>,
    host: Seq<char>,
    id: Seq<char>,
    length: nat,
)
    requires
        !path.contains('\n'),
        !host.contains('\n'),
        !id.contains('\n'),
    ensures
        lines(request_head(path, host, Some(id), length)) == seq![
            "POST "@ + path + " HTTP/1.1"@,
            "Host: "@ + host,
            "Content-Type: application/octet-stream"@,
            "Content-Length: "@ + decimal(length as int),
            "Connection: keep-alive"@,
            "Cookie: TP_SESSIONID="@ + id,
            Seq::<char>::empty(),
        ],
        lines(request_head(path, host, None, length)) == lines(
            request_head(path, host, Some(id), length),
        ).remove(5),
{
    let none = Seq::<char>::empty();
    let rows = seq![
        "POST "@ + path + " HTTP/1.1"@,
        "Host: "@ + host,
        "Content-Type: application/octet-stream"@,
        "Content-Length: "@ + decimal(length as int),
        "Connection: keep-alive"@,
        "Cookie: TP_SESSIONID="@ + id,
        none,
    ];
    let fewer = seq![
        "POST "@ + path + " HTTP/1.1"@,
        "Host: "@ + host,
        "Content-Type: application/octet-stream"@,
        "Content-Length: "@ + decimal(length as int),
        "Connection: keep-alive"@,
        none,
    ];
    law_a_request_has_its_lines(path, host, id, length);
    lemma_literals_break_no_line();
    crate::text::lemma_digits(length);
    let n = decimal(length as int);
    assert(!n.contains('\n')) by {
        if n.contains('\n') {
            let i = choose|i: int| 0 <= i < n.len() && n[i] == '\n';
            assert(crate::text::is_digit(n[i]));
        }
    }
    lemma_no_feed("POST "@, path);
    lemma_no_feed("POST "@ + path, " HTTP/1.1"@);
    lemma_no_feed("Host: "@, host);
    lemma_no_feed("Content-Length: "@, n);
    lemma_no_feed("Cookie: TP_SESSIONID="@, id);
    assert forall|i: int| 0 <= i < rows.len() implies !(#[trigger] rows[i]).contains('\n') by {
    }
    assert forall|i: int| 0 <= i < fewer.len() implies !(#[trigger] fewer[i]).contains('\n') by {
    }
    lemma_lines_of_written(rows);
    lemma_lines_of_written(fewer);
    assert(fewer =~= rows.remove(5));
}

proof fn lemma_no_feed(a: Seq<char>, b: Seq<char>)
    requires
        !a.contains('\n'),
        !b.contains('\n'),
    ensures
        !(a + b).contains('\n'),
{
    if (a + b).contains('\n') {
        let i = choose|i: int| 0 <= i < (a + b).len() && (a + b)[i] == '\n';
        if i < a.len() {
            assert(a[i] == '\n');
        } else {
            assert(b[i - a.len()] == '\n');
        }
    }
}

proof fn lemma_literals_break_no_line()
    ensures
        !"POST "@.contains('\n'),
        !" HTTP/1.1"@.contains('\n'),
        !"Host: "@.contains('\n'),
        !"Content-Type: application/octet-stream"@.contains('\n'),
        !"Content-Length: "@.contains('\n'),
        !"Connection: keep-alive"@.contains('\n'),
        !"Cookie: TP_SESSIONID="@.contains('\n'),
{
    reveal_strlit("POST ");
    reveal_strlit(" HTTP/1.1");
    reveal_strlit("Host: ");
    reveal_strlit("Content-Type: application/octet-stream");
    reveal_strlit("Content-Length: ");
    reveal_strlit("Connection: keep-alive");
    reveal_strlit("Cookie: TP_SESSIONID=");
}

/// The lines that every request begins with.
proof fn lemma_request_begins(path: Seq<char>, host: Seq<char>, length: nat)
    ensures
        "POST "@ + path + " HTTP/1.1\r\nHost: "@ + host
            + "\r\nContent-Type: application/octet-stream\r\nContent-Length: "@ + decimal(
            length as int,
        ) + "\r\nConnection: keep-alive\r\n"@ == written(
            seq![
                "POST "@ + path + " HTTP/1.1"@,
                "Host: "@ + host,
                "Content-Type: application/octet-stream"@,
                "Content-Length: "@ + decimal(length as int),
                "Connection: keep-alive"@,
            ],
        ),
{
    lemma_request_literals();
    let (a0, a1, b0) = ("POST "@, " HTTP/1.1"@, "Host: "@);
    let (c, d0, k) = (
        "Content-Type: application/octet-stream"@,
        "Content-Length: "@,
        "Connection: keep-alive"@,
    );
    let n = decimal(length as int);
    let e = seq!['\r', '\n'];
    let (r1, r2, r4) = (a0 + path + a1, b0 + host, d0 + n);
    let none = Seq::<Seq<char>>::empty();
    lemma_written_push(none, r1);
    lemma_written_push(none.push(r1), r2);
    lemma_written_push(none.push(r1).push(r2), c);
    lemma_written_push(none.push(r1).push(r2).push(c), r4);
    lemma_written_push(none.push(r1).push(r2).push(c).push(r4), k);
    assert(none.push(r1).push(r2).push(c).push(r4).push(k) =~= seq![r1, r2, c, r4, k]);
    let w1 = written(none.push(r1));
    let w2 = written(none.push(r1).push(r2));
    let w3 = written(none.push(r1).push(r2).push(c));
    let w4 = written(none.push(r1).push(r2).push(c).push(r4));
    assert(w1 =~= r1 + e);
    assert(a0 + path + (a1 + e + b0) =~= w1 + b0);
    assert(w1 + b0 + host + e =~= w2);
    assert(w1 + b0 + host + (e + c + e + d0) =~= (w1 + b0 + host + e) + c + e + d0);
    assert(w3 + d0 + n + e =~= w4);
    assert(w3 + d0 + n + (e + k + e) =~= (w3 + d0 + n + e) + k + e);
}

proof fn lemma_written_push(rows: Seq<Seq<char>>, row: Seq<char>)
    ensures
        written(rows.push(row)) == written(rows) + row + seq!['\r', '\n'],
    decreases rows.len(),
{
    let all = rows.push(row);
    let e = seq!['\r', '\n'];
    if rows.len() == 0 {
        assert(all.drop_first() =~= Seq::<Seq<char>>::empty());
        reveal_with_fuel(written, 2);
        assert(written(all) =~= row + e);
        assert(written(rows) + row + e =~= row + e);
    } else {
        lemma_written_push(rows.drop_first(), row);
        assert(all.drop_first() =~= rows.drop_first().push(row));
        assert(all[0] == rows[0]);
        let rest = written(rows.drop_first());
        assert(rows[0] + e + (rest + row + e) =~= rows[0] + e + rest + row + e);
    }
}

proof fn lemma_request_literals()
    ensures
        " HTTP/1.1\r\nHost: "@ == " HTTP/1.1"@ + seq!['\r', '\n'] + "Host: "@,
        "\r\nContent-Type: application/octet-stream\r\nContent-Length: "@ == seq!['\r', '\n']
            + "Content-Type: application/octet-stream"@ + seq!['\r', '\n'] + "Content-Length: "@,
        "\r\nConnection: keep-alive\r\n"@ == seq!['\r', '\n'] + "Connection: keep-alive"@ + seq![
            '\r',
            '\n',
        ],
        "\r\n"@ == seq!['\r', '\n'],
{
    reveal_strlit(" HTTP/1.1\r\nHost: ");
    reveal_strlit(" HTTP/1.1");
    reveal_strlit("Host: ");
    reveal_strlit("\r\nContent-Type: application/octet-stream\r\nContent-Length: ");
    reveal_strlit("Content-Type: application/octet-stream");
    reveal_strlit("Content-Length: ");
    reveal_strlit("\r\nConnection: keep-alive\r\n");
    reveal_strlit("Connection: keep-alive");
    reveal_strlit("\r\n");
    assert(" HTTP/1.1\r\nHost: "@ =~= " HTTP/1.1"@ + seq!['\r', '\n'] + "Host: "@);
    assert("\r\nContent-Type: application/octet-stream\r\nContent-Length: "@ =~= seq!['\r', '\n']
        + "Content-Type: application/octet-stream"@ + seq!['\r', '\n'] + "Content-Length: "@);
    assert("\r\nConnection: keep-alive\r\n"@ =~= seq!['\r', '\n'] + "Connection: keep-alive"@
        + seq!['\r', '\n']);
    assert("\r\n"@ =~= seq!['\r', '\n']);
}

/// Lines are read as they were written.
proof fn lemma_lines_of_written(rows: Seq<Seq<char>>)
    requires
        forall|i: int| 0 <= i < rows.len() ==> !(#[trigger] rows[i]).contains('\n'),
    ensures
        lines(written(rows)) == rows,
    decreases rows.len(),
{
    if rows.len() > 0 {
        let rest = rows.drop_first();
        assert forall|i: int| 0 <= i < rest.len() implies !(#[trigger] rest[i]).contains('\n') by {
            assert(rest[i] == rows[i + 1]);
        }
        lemma_lines_of_written(rest);
        assert(!rows[0].contains('\n'));
        law_a_line_ends_at_a_line_feed(rows[0], written(rest));
        assert(seq![rows[0]] + rest =~= rows);
    } else {
        law_a_line_ends_at_a_line_feed(Seq::empty(), Seq::empty());
        assert(rows =~= Seq::<Seq<char>>::empty());
    }
}

// ---------------------------------------------------------------------------------------
// Replies over a raw connection
// ---------------------------------------------------------------------------------------

/// A header line is a name, a colon, and a value without the white space around it; a line with no
/// colon is no header.
pub proof fn law_a_header_is_a_name_and_a_value(name: Seq<char>, value: Seq<char>, line: Seq<char>)
    requires
        !name.contains(':'),
        !line.contains(':'),
    ensures
        header(name + ":"@ + value) == Some((name, trimmed(value))),
        header(line) is None,
{
    reveal_strlit(":");
    let whole = name + ":"@ + value;
    assert forall|i: int| 0 <= i < name.len() implies whole[i] != ':' by {
        assert(name.contains(name[i]));
    }
    lemma_position_at(whole, ':', name.len() as int);
    assert(whole.take(name.len() as int) =~= name);
    assert(whole.skip(name.len() as int + 1) =~= value);
    lemma_position(line, ':');
    if position(line, ':') < line.len() {
        assert(line.contains(line[position(line, ':')]));
    }
}

/// A length is declared by the header of that name, whatever its case, and by no other; a session
/// is set by a `Set-Cookie`, and by no other.
pub proof fn law_headers_are_known_by_their_names(name: Seq<char>, value: Seq<char>, length: nat)
    requires
        !name.contains(':'),
        length <= usize::MAX,
    ensures
        declared_length(name + ":"@ + value) is Some <==> same_letters(name, "content-length"@),
        same_letters(name, "content-length"@) && trimmed(value) == decimal(length as int)
            ==> declared_length(name + ":"@ + value) == Some(length as int),
        same_letters(name, "content-length"@) && unsigned(trimmed(value), usize::MAX as int) is None
            ==> declared_length(name + ":"@ + value) == Some(0int),
        set_session(name + ":"@ + value) == if same_letters(name, "set-cookie"@) {
            session_id(trimmed(value))
        } else {
            None
        },
{
    law_a_header_is_a_name_and_a_value(name, value, Seq::empty());
    law_a_number_is_read_as_it_is_written(length, usize::MAX as int);
}

/// The last header that declares a length is the one that counts, and so is the last that sets a
/// session. Where none does, the body is empty and no session is set.
pub proof fn law_the_last_header_of_a_kind_counts(
    before: Seq<Seq<char>>,
    line: Seq<char>,
    after: Seq<Seq<char>>,
)
    ensures
        declared_length(line) is Some && (forall|i: int|
            0 <= i < after.len() ==> declared_length(#[trigger] after[i]) is None) ==> Some(
            body_length(before + seq![line] + after),
        ) == declared_length(line),
        set_session(line) is Some && (forall|i: int|
            0 <= i < after.len() ==> set_session(#[trigger] after[i]) is None) ==> session_of(
            before + seq![line] + after,
        ) == set_session(line),
        (forall|i: int| 0 <= i < after.len() ==> declared_length(#[trigger] after[i]) is None)
            ==> body_length(after) == 0,
        (forall|i: int| 0 <= i < after.len() ==> set_session(#[trigger] after[i]) is None)
            ==> session_of(after) is None,
    decreases after.len(),
{
    let all = before + seq![line] + after;
    if after.len() > 0 {
        let rest = after.drop_last();
        law_the_last_header_of_a_kind_counts(before, line, rest);
        assert(all.drop_last() =~= before + seq![line] + rest);
        assert(all.last() == after.last());
        assert(after.last() == after[after.len() - 1]);
        assert forall|i: int| 0 <= i < rest.len() implies rest[i] == after[i] by {}
    } else {
        assert(all.last() == line);
    }
}

/// The status is the number in the middle of the first line.
pub proof fn law_the_status_is_in_the_middle(
    version: Seq<char>,
    status: u16,
    rest: Seq<char>,
    headers: Seq<Seq<char>>,
)
    requires
        version.len() > 0,
        forall|i: int| 0 <= i < version.len() ==> !white_space(#[trigger] version[i]),
        rest.len() > 0 ==> white_space(rest[0]),
    ensures
        status_of(seq![version + " "@ + decimal(status as int) + rest] + headers) == Some(status),
        status_of(Seq::empty()) is None,
{
    reveal_strlit(" ");
    let word = decimal(status as int);
    crate::text::lemma_digits(status as nat);
    assert forall|i: int| 0 <= i < word.len() implies !white_space(#[trigger] word[i]) by {
        assert(crate::text::is_digit(word[i]));
    }
    law_the_second_word_stands_behind_the_first_gap(version, " "@, word, rest);
    law_a_number_is_read_as_it_is_written(status as nat, u16::MAX as int);
    assert((seq![version + " "@ + word + rest] + headers)[0] == version + " "@ + word + rest);
}

/// A first line whose second word is no number, or is too large for a status, has no status, and
/// neither has a first line with no second word.
pub proof fn law_what_is_no_number_is_no_status(head: Seq<Seq<char>>)
    requires
        head.len() > 0,
    ensures
        second_word(head[0]) is None ==> status_of(head) is None,
        second_word(head[0]) is Some && unsigned(second_word(head[0])->0, 65535) is None
            ==> status_of(head) is None,
        second_word(head[0]) is Some && unsigned(second_word(head[0])->0, 65535) is Some
            ==> status_of(head) == Some((unsigned(second_word(head[0])->0, 65535)->0) as u16),
{
}

/// A head is read line by line: the status from the first, the session and the length from the
/// others.
pub proof fn law_a_head_is_read_line_by_line(
    version: Seq<char>,
    status: u16,
    reason: Seq<char>,
    headers: Seq<Seq<char>>,
)
    requires
        version.len() > 0,
        forall|i: int| 0 <= i < version.len() ==> !white_space(#[trigger] version[i]),
        !reason.contains('\n'),
        forall|i: int| 0 <= i < headers.len() ==> !(#[trigger] headers[i]).contains('\n'),
    ensures
        head_of(
            written(
                seq![version + " "@ + decimal(status as int) + " "@ + reason] + headers + seq![
                    Seq::<char>::empty(),
                ],
            ),
        ) == Some(
            HeadView { status, session: session_of(headers), length: body_length(headers) },
        ),
{
    reveal_strlit(" ");
    let first = version + " "@ + decimal(status as int) + " "@ + reason;
    let none = Seq::<char>::empty();
    let rows = seq![first] + headers + seq![none];
    let word = decimal(status as int);
    crate::text::lemma_digits(status as nat);
    if first.contains('\n') {
        let i = choose|i: int| 0 <= i < first.len() && first[i] == '\n';
        let (v, w) = (version.len() as int, word.len() as int);
        if i < v {
            assert(version[i] == '\n');
        } else if v < i < v + 1 + w {
            assert(word[i - v - 1] == '\n');
            assert(crate::text::is_digit(word[i - v - 1]));
        } else if i > v + 1 + w {
            assert(reason[i - v - w - 2] == '\n');
            assert(reason.contains('\n'));
        }
    }
    assert forall|i: int| 0 <= i < rows.len() implies !(#[trigger] rows[i]).contains('\n') by {
        if 0 < i < rows.len() - 1 {
            assert(rows[i] == headers[i - 1]);
        }
    }
    lemma_lines_of_written(rows);
    assert(first =~= version + " "@ + word + (" "@ + reason));
    law_the_status_is_in_the_middle(version, status, " "@ + reason, headers + seq![none]);
    assert(rows =~= seq![first] + (headers + seq![none]));
    assert(rows.skip(1) =~= headers + seq![none]);
    law_a_header_is_a_name_and_a_value(none, none, none);
    assert((headers + seq![none]).drop_last() =~= headers);
}

/// What a head says is in its lines alone, however they were ended, and where the first of them has
/// no status it says nothing.
pub proof fn law_a_head_is_its_lines(a: Seq<char>, b: Seq<char>)
    ensures
        lines(a) == lines(b) ==> head_of(a) == head_of(b),
        head_of(a) is Some <==> status_of(lines(a)) is Some,
        head_of(a) is Some ==> (head_of(a)->0).status == status_of(lines(a))->0,
{
}

/// A reply is its head and as many bytes behind it as the head says, and what stands behind those
/// is not touched. As long as there are fewer, there is no reply yet.
pub proof fn law_a_reply_is_its_head_and_its_body(
    head: Seq<u8>,
    body: Seq<u8>,
    more: Seq<u8>,
    said: HeadView,
)
    requires
        head.len() >= 4,
        head.skip(head.len() - 4) == seq![13u8, 10, 13, 10],
        forall|i: int|
            0 <= i < head.len() - 4 ==> #[trigger] head.subrange(i, i + 4) != seq![13u8, 10, 13, 10],
        head_of(lossy_text(head)) == Some(said),
    ensures
        said.length == body.len() ==> parsed(head + body + more) == Some(
            (
                ReplyView { status: said.status, session: said.session, body },
                (head.len() + body.len()) as int,
            ),
        ),
        said.length > body.len() ==> parsed(head + body) is None,
{
    lemma_head_ends(head, body);
    lemma_head_ends(head, body + more);
    assert(head + body + more =~= head + (body + more));
    assert((head + body).take(head.len() as int) =~= head);
    assert((head + (body + more)).take(head.len() as int) =~= head);
    if said.length == body.len() {
        assert((head + (body + more)).subrange(
            head.len() as int,
            (head.len() + body.len()) as int,
        ) =~= body);
    }
}

/// Without a blank line there is no reply yet, and a head without a status is none.
pub proof fn law_no_head_is_no_reply(buf: Seq<u8>, head: Seq<u8>, rest: Seq<u8>)
    ensures
        (forall|i: int|
            0 <= i <= buf.len() - 4 ==> #[trigger] buf.subrange(i, i + 4) != seq![13u8, 10, 13, 10])
            ==> parsed(buf) is None,
        head.len() >= 4 && head.skip(head.len() - 4) == seq![13u8, 10, 13, 10] && (forall|i: int|
            0 <= i < head.len() - 4 ==> #[trigger] head.subrange(i, i + 4) != seq![13u8, 10, 13, 10])
            && head_of(lossy_text(head)) is None ==> parsed(head + rest) is None,
{
    if forall|i: int|
        0 <= i <= buf.len() - 4 ==> #[trigger] buf.subrange(i, i + 4) != seq![13u8, 10, 13, 10] {
        lemma_blank_from(buf, 0);
        match blank_from(buf, 0) {
            Some(k) => {
                assert(buf.subrange(k, k + 4) =~= seq![13u8, 10, 13, 10]);
            },
            None => {},
        }
    }
    if head.len() >= 4 && head.skip(head.len() - 4) == seq![13u8, 10, 13, 10] && (forall|i: int|
        0 <= i < head.len() - 4 ==> #[trigger] head.subrange(i, i + 4) != seq![13u8, 10, 13, 10]) {
        lemma_head_ends(head, rest);
        assert((head + rest).take(head.len() as int) =~= head);
    }
}

proof fn lemma_head_ends(head: Seq<u8>, rest: Seq<u8>)
    requires
        head.len() >= 4,
        head.skip(head.len() - 4) == seq![13u8, 10, 13, 10],
        forall|i: int|
            0 <= i < head.len() - 4 ==> #[trigger] head.subrange(i, i + 4) != seq![13u8, 10, 13, 10],
    ensures
        head_length(head + rest) == Some(head.len() as int),
{
    let all = head + rest;
    let k = head.len() - 4;
    assert(head.skip(k)[0] == 13 && head.skip(k)[1] == 10 && head.skip(k)[2] == 13 && head.skip(k)[3]
        == 10);
    assert(crate::http::blank_at(all, k));
    assert forall|i: int| 0 <= i < k implies !#[trigger] crate::http::blank_at(all, i) by {
        if crate::http::blank_at(all, i) {
            assert(head.subrange(i, i + 4) =~= seq![13u8, 10, 13, 10]);
        }
    }
    lemma_blank_from(all, 0);
    match blank_from(all, 0) {
        Some(m) => {
            if m < k {
                assert(!crate::http::blank_at(all, m));
            }
        },
        None => {},
    }
}

/// A reply is read field by field, and so is a head.
pub proof fn law_a_parsed_reply_is_read_field_by_field(reply: Reply, head: Head)
    ensures
        reply@.status == reply.status,
        reply@.session is Some <==> reply.session is Some,
        reply.session is Some ==> reply@.session->0 == reply.session->0@,
        reply@.body == reply.body@,
        head@.status == head.status,
        head@.session is Some <==> head.session is Some,
        head.session is Some ==> head@.session->0 == head.session->0@,
        head@.length == head.length,
{
}

// ---------------------------------------------------------------------------------------
// What a device says about itself
// ---------------------------------------------------------------------------------------

/// What a device says is read field by field, in a reply and in a broadcast.
pub proof fn law_what_a_device_says_is_read_field_by_field(
    reply: DeviceReply,
    info: Broadcast,
    row: UdpCandidate,
)
    ensures
        reply@.error_code == reply.error_code,
        reply@.device_on == reply.device_on,
        reply@.brightness == reply.brightness,
        reply@.nickname is Some <==> reply.nickname is Some,
        reply.nickname is Some ==> reply@.nickname->0 == reply.nickname->0@,
        info@.device_model is Some <==> info.device_model is Some,
        info.device_model is Some ==> info@.device_model->0 == info.device_model->0@,
        info@.encrypt_type is Some <==> info.encrypt_type is Some,
        info.encrypt_type is Some ==> info@.encrypt_type->0 == info.encrypt_type->0@,
        row@.address == row.address@,
        row@.reply == row.reply@,
{
}

/// A reply says what its members say: the error code beside the result, and the power, the
/// brightness and the name inside it. What is not JSON says nothing.
pub proof fn law_a_reply_says_what_its_members_say(
    plain: Seq<u8>,
    tree: Json,
    result: Json,
    code: i64,
    on: bool,
    brightness: u64,
    name: Seq<char>,
)
    requires
        json_of_bytes(plain) == Some(tree),
        json_member(tree, "result"@) == Some(result),
    ensures
        reply_of(plain) is Some,
        (reply_of(plain)->0).error_code == Some(code) <==> exists|t: Json|
            #![trigger json_i64(t)]
            json_member(tree, "error_code"@) == Some(t) && json_i64(t) == Some(code),
        (reply_of(plain)->0).device_on == Some(on) <==> exists|t: Json|
            #![trigger json_bool(t)]
            json_member(result, "device_on"@) == Some(t) && json_bool(t) == Some(on),
        (reply_of(plain)->0).brightness == Some(brightness) <==> exists|t: Json|
            #![trigger json_u64(t)]
            json_member(result, "brightness"@) == Some(t) && json_u64(t) == Some(brightness),
        (reply_of(plain)->0).nickname == Some(name) <==> exists|t: Json|
            #![trigger json_text(t)]
            json_member(result, "nickname"@) == Some(t) && json_text(t) == Some(name),
{
}

/// What is not JSON is not read, and JSON without a result has a code at most.
pub proof fn law_what_has_no_result_says_no_state(plain: Seq<u8>)
    ensures
        json_of_bytes(plain) is None ==> reply_of(plain) is None,
        json_of_bytes(plain) is Some && json_member(json_of_bytes(plain)->0, "result"@) is None ==> {
            &&& reply_of(plain) is Some
            &&& (reply_of(plain)->0).device_on is None
            &&& (reply_of(plain)->0).brightness is None
            &&& (reply_of(plain)->0).nickname is None
            &&& json_member(json_of_bytes(plain)->0, "error_code"@) is None ==> (reply_of(
                plain,
            )->0).error_code is None
            &&& json_member(json_of_bytes(plain)->0, "error_code"@) matches Some(t) ==> (reply_of(
                plain,
            )->0).error_code == json_i64(t)
        },
{
}

/// A broadcast reply is a header and then JSON: whatever stands before the first brace is passed
/// over, and the model and the protocol are read from the result of what begins there.
pub proof fn law_a_broadcast_is_read_from_its_first_brace(
    reply: Seq<u8>,
    before: Seq<char>,
    json: Seq<char>,
    tree: Json,
    result: Json,
    scheme: Json,
)
    requires
        lossy_text(reply) == before + json,
        !before.contains('{'),
        json.len() > 0,
        json[0] == '{',
        json_of_text(json) == Some(tree),
        json_member(tree, "result"@) == Some(result),
        json_member(result, "mgt_encrypt_schm"@) == Some(scheme),
    ensures
        broadcast_of(reply) == Some(
            BroadcastView {
                device_model: match json_member(result, "device_model"@) {
                    Some(t) => json_text(t),
                    None => None,
                },
                encrypt_type: match json_member(scheme, "encrypt_type"@) {
                    Some(t) => json_text(t),
                    None => None,
                },
            },
        ),
{
    let text = before + json;
    assert forall|i: int| 0 <= i < before.len() implies text[i] != '{' by {
        assert(before.contains(before[i]));
    }
    lemma_position_at(text, '{', before.len() as int);
    assert(text.skip(before.len() as int) =~= json);
}

/// A broadcast reply without a brace, or whose JSON cannot be read or has no result, says nothing;
/// and one whose result names no scheme leaves the protocol open.
pub proof fn law_a_broadcast_without_a_result_says_nothing(
    reply: Seq<u8>,
    before: Seq<char>,
    json: Seq<char>,
)
    requires
        lossy_text(reply) == before + json,
        !before.contains('{'),
        json.len() > 0 ==> json[0] == '{',
    ensures
        json.len() == 0 ==> broadcast_of(reply) is None,
        json.len() > 0 && json_of_text(json) is None ==> broadcast_of(reply) is None,
        json.len() > 0 && json_of_text(json) is Some && json_member(
            json_of_text(json)->0,
            "result"@,
        ) is None ==> broadcast_of(reply) is None,
        json.len() > 0 && json_of_text(json) is Some && json_member(
            json_of_text(json)->0,
            "result"@,
        ) is Some && json_member(
            json_member(json_of_text(json)->0, "result"@)->0,
            "mgt_encrypt_schm"@,
        ) is None ==> broadcast_of(reply) is Some && (broadcast_of(reply)->0).encrypt_type is None,
{
    let text = before + json;
    assert forall|i: int| 0 <= i < before.len() implies text[i] != '{' by {
        assert(before.contains(before[i]));
    }
    if json.len() > 0 {
        lemma_position_at(text, '{', before.len() as int);
        assert(text.skip(before.len() as int) =~= json);
    } else {
        assert(text =~= before);
        lemma_position(text, '{');
        if position(text, '{') < text.len() {
            assert(before.contains(text[position(text, '{')]));
        }
    }
}

/// What an address said is in its first answer, whoever answered before and behind it; an address
/// that did not answer said nothing.
pub proof fn law_the_first_answer_from_an_address_counts(
    before: Seq<UdpCandidateView>,
    row: UdpCandidateView,
    after: Seq<UdpCandidateView>,
    address: Seq<char>,
)
    requires
        forall|i: int| 0 <= i < before.len() ==> (#[trigger] before[i]).address != address,
    ensures
        broadcast_from(before, address) is None,
        row.address == address ==> broadcast_from(before + seq![row] + after, address)
            == broadcast_of(row.reply),
    decreases before.len(),
{
    let all = before + seq![row] + after;
    if before.len() > 0 {
        let rest = before.drop_first();
        assert forall|i: int| 0 <= i < rest.len() implies (#[trigger] rest[i]).address != address by {
            assert(rest[i] == before[i + 1]);
        }
        law_the_first_answer_from_an_address_counts(rest, row, after, address);
        assert(all.drop_first() =~= rest + seq![row] + after);
        assert(all[0] == before[0]);
        assert(before[0].address != address);
    } else {
        assert(all[0] == row);
    }
}

/// A device that said which model it is goes by that, and every other one by what all of them are.
pub proof fn law_a_device_goes_by_its_model(info: BroadcastView, model: Seq<char>)
    ensures
        info.device_model == Some(model) ==> model_name(Some(info)) == model,
        info.device_model is None ==> model_name(Some(info)) == "Tapo dimmer"@,
        model_name(None) == "Tapo dimmer"@,
{
}

/// A device speaks another protocol only where it said so: it named a scheme, and that is not
/// KLAP in any case.
pub proof fn law_only_a_named_scheme_is_another_protocol(info: Option<BroadcastView>)
    ensures
        !may_speak_klap(info) <==> info is Some && (info->0).encrypt_type is Some && !same_letters(
            (info->0).encrypt_type->0,
            "KLAP"@,
        ),
{
}

} // verus!
