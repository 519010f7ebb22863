//! What holds of a dimmer that was adopted.

use vstd::prelude::*;
use vstd::utf8::encode_utf8;
use crate::codec::{hex_text, law_hex_reads_back};
use crate::dimmer::steps::{applied, bound, cleared, commanded, credentials_of, flushed, gave_up, handshake1_answered, handshake2_answered, host_of, level_in, level_params, message_read, queued, request_path, requested, restarted, result_answered, set_text, started, status_in, stored_session, told, told_of, wired, with_session, Outcome};
use crate::dimmer::types::{EventView, InstanceView, Params, ScratchView, GET, HANDSHAKE1, HANDSHAKE2};
use crate::host::{cookie_among, posted, warning, Call, Change};
use crate::klap::{accepted, derived, framed, law_a_derived_session_is_well_formed, login_proof, next_seq, opened, SessionView};
use crate::reading::{reply_of, DeviceReplyView};
use crate::text::{contains, occurs_at};

verus! {

// ---------------------------------------------------------------------------------------
// One request in flight
// ---------------------------------------------------------------------------------------

/// How many of `calls` are requests to the device.
pub open spec fn requests(calls: Seq<Call>) -> nat
    decreases calls.len(),
{
    if calls.len() == 0 {
        0
    } else {
        requests(calls.drop_last()) + (if calls.last() is Http {
            1nat
        } else {
            0nat
        })
    }
}

/// At most one request goes out, and while it is out the scratch says so.
pub open spec fn one_at_a_time(o: Outcome) -> bool {
    &&& requests(o.calls) <= 1
    &&& requests(o.calls) == 1 ==> o.scratch.inflight == Some(true)
}

proof fn lemma_requests_add(a: Seq<Call>, b: Seq<Call>)
    ensures
        requests(a + b) == requests(a) + requests(b),
    decreases b.len(),
{
    if b.len() == 0 {
        assert(a + b =~= a);
    } else {
        assert((a + b).drop_last() =~= a + b.drop_last());
        lemma_requests_add(a, b.drop_last());
    }
}

proof fn lemma_requests_one(call: Call)
    ensures
        requests(seq![call]) == (if call is Http {
            1nat
        } else {
            0nat
        }),
{
    assert(seq![call].drop_last() =~= Seq::<Call>::empty());
    reveal_with_fuel(requests, 2);
}

proof fn lemma_flushed_one_at_a_time(s: ScratchView, host: Seq<char>, draw: Option<Seq<u8>>)
    ensures
        one_at_a_time(flushed(s, host, draw)),
{
    let o = flushed(s, host, draw);
    if o.calls.len() > 0 {
        assert(o.calls =~= seq![o.calls[0]]);
        lemma_requests_one(o.calls[0]);
    }
}

proof fn lemma_requested_one_at_a_time(inst: InstanceView, body: Seq<char>, draw: Option<Seq<u8>>)
    ensures
        one_at_a_time(requested(inst, body, draw)),
{
    let o = requested(inst, body, draw);
    if o.calls.len() > 0 {
        assert(o.calls =~= seq![o.calls[0]]);
        lemma_requests_one(o.calls[0]);
    }
}

proof fn lemma_applied_sends_nothing(s: ScratchView, m: DeviceReplyView, sent: Seq<char>)
    ensures
        requests(applied(s, m, sent).calls) == 0,
        applied(s, m, sent).scratch.inflight == s.inflight,
{
    if let Some(on) = m.device_on {
        let (a, b, c) = (
            seq![told(Change::Online(true))],
            crate::dimmer::steps::power_calls(s, on),
            crate::dimmer::steps::level_calls(s, level_in(m)),
        );
        lemma_requests_one(a[0]);
        if b.len() > 0 {
            lemma_requests_one(b[0]);
        }
        if c.len() > 0 {
            lemma_requests_one(c[0]);
        }
        lemma_requests_add(a, b);
        lemma_requests_add(a + b, c);
    }
}

proof fn lemma_message_one_at_a_time(
    s: ScratchView,
    host: Seq<char>,
    sent: Seq<char>,
    message: Option<DeviceReplyView>,
    draw: Option<Seq<u8>>,
)
    ensures
        one_at_a_time(message_read(s, host, sent, message, draw)),
{
    let r = restarted(s, host, sent, draw);
    lemma_requests_one(r.calls[0]);
    let w = warning("tapo: could not read the reply; reconnecting"@);
    lemma_requests_one(w);
    lemma_requests_add(seq![w], r.calls);
    if let Some(m) = message {
        let code: i64 = match m.error_code {
            Some(code) => code,
            None => 0,
        };
        let o = if code == 0 {
            applied(s, m, sent)
        } else {
            Outcome {
                scratch: s,
                calls: seq![
                    warning(
                        "tapo: the dimmer refused that ("@ + crate::text::decimal(code as int)
                            + ")"@,
                    ),
                ],
            }
        };
        lemma_applied_sends_nothing(s, m, sent);
        if code != 0 {
            lemma_requests_one(o.calls[0]);
        }
        let f = flushed(o.scratch, host, draw);
        lemma_flushed_one_at_a_time(o.scratch, host, draw);
        lemma_requests_add(o.calls, f.calls);
    }
}

/// One request in flight: whatever is asked and whatever arrives, at most one request goes out,
/// and from then on the scratch says that one is out.
pub proof fn law_one_request_in_flight(
    inst: InstanceView,
    cmd: Seq<char>,
    level: Option<u64>,
    note: Seq<char>,
    args: EventView,
    draw: Option<Seq<u8>>,
)
    ensures
        one_at_a_time(bound(inst, draw)),
        one_at_a_time(commanded(inst, cmd, level, draw)),
        one_at_a_time(told_of(inst, note, args, draw)),
{
    lemma_bound_one_at_a_time(inst, draw);
    lemma_commanded_one_at_a_time(inst, cmd, level, draw);
    lemma_told_one_at_a_time(inst, note, args, draw);
}

proof fn lemma_bound_one_at_a_time(inst: InstanceView, draw: Option<Seq<u8>>)
    ensures
        one_at_a_time(bound(inst, draw)),
{
    let reset = InstanceView {
        scratch: ScratchView {
            inflight: None,
            after_read: None,
            queue: Seq::empty(),
            ..inst.scratch
        },
        ..inst
    };
    lemma_requested_one_at_a_time(reset, GET@, draw);
}

proof fn lemma_commanded_one_at_a_time(
    inst: InstanceView,
    cmd: Seq<char>,
    level: Option<u64>,
    draw: Option<Seq<u8>>,
)
    ensures
        one_at_a_time(commanded(inst, cmd, level, draw)),
{
    let o = commanded(inst, cmd, level, draw);
    if o.calls.len() > 0 {
        assert(o.calls =~= seq![o.calls[0]]);
        lemma_requests_one(o.calls[0]);
    }
}

proof fn lemma_told_one_at_a_time(
    inst: InstanceView,
    note: Seq<char>,
    args: EventView,
    draw: Option<Seq<u8>>,
)
    ensures
        one_at_a_time(told_of(inst, note, args, draw)),
{
    let s = inst.scratch;
    let status = status_in(args.status);
    if let Some(host) = host_of(inst) {
        let a = handshake1_answered(inst, host, status, args.bytes, args.headers);
        assert(a.calls =~= seq![a.calls[0]]);
        lemma_requests_one(a.calls[0]);
        let b = handshake2_answered(s, host, status, draw);
        if b.calls.len() > 0 {
            assert(b.calls =~= seq![b.calls[0]]);
            lemma_requests_one(b.calls[0]);
        }
        lemma_result_one_at_a_time(s, host, status, args.bytes, draw);
    }
}

proof fn lemma_result_one_at_a_time(
    s: ScratchView,
    host: Seq<char>,
    status: u16,
    body: Seq<u8>,
    draw: Option<Seq<u8>>,
)
    ensures
        one_at_a_time(result_answered(s, host, status, body, draw)),
{
    let idle = ScratchView { inflight: Some(false), ..s };
    let sent = match s.last {
        Some(text) => text,
        None => Seq::empty(),
    };
    let r = restarted(idle, host, sent, draw);
    lemma_requests_one(r.calls[0]);
    let g = gave_up(idle, "tapo: a reply arrived with no session to open it"@);
    lemma_requests_one(g.calls[0]);
    if let Some(session) = stored_session(idle) {
        lemma_message_one_at_a_time(
            idle,
            host,
            sent,
            match opened(session, session.seq, body) {
                Some(plain) => reply_of(plain),
                None => None,
            },
            draw,
        );
    }
}

/// While a request is out, whatever a command asks for waits: nothing is sent, nothing is lost,
/// and what was waiting stays where it was.
pub proof fn law_a_command_waits_while_a_request_is_out(
    inst: InstanceView,
    cmd: Seq<char>,
    level: Option<u64>,
    draw: Option<Seq<u8>>,
)
    requires
        inst.scratch.inflight == Some(true),
    ensures
        requests(commanded(inst, cmd, level, draw).calls) == 0,
        inst.scratch.queue.is_prefix_of(commanded(inst, cmd, level, draw).scratch.queue),
{
    let o = commanded(inst, cmd, level, draw);
    if o.calls.len() > 0 {
        assert(o.calls =~= seq![o.calls[0]]);
        lemma_requests_one(o.calls[0]);
    }
}

/// What is asked for while a request is out, or while a handshake can be started for it, is in the
/// queue afterwards.
pub proof fn law_what_is_asked_for_is_kept(inst: InstanceView, body: Seq<char>, draw: Option<Seq<u8>>)
    requires
        host_of(inst) is Some,
        credentials_of(inst) is Some,
        inst.scratch.inflight == Some(true) || inst.scratch.ready != Some(true) && draw is Some,
    ensures
        requested(inst, body, draw).scratch.queue.contains(body),
{
    lemma_queued(inst.scratch, body);
}

proof fn lemma_queued(s: ScratchView, body: Seq<char>)
    ensures
        queued(s, body).queue.contains(body),
        s.queue.no_duplicates() ==> queued(s, body).queue.no_duplicates(),
{
    if !s.queue.contains(body) {
        assert(s.queue.push(body)[s.queue.len() as int] == body);
    }
}

// ---------------------------------------------------------------------------------------
// The queue
// ---------------------------------------------------------------------------------------

/// The queue never holds the same request twice.
pub open spec fn each_once(s: ScratchView) -> bool {
    s.queue.no_duplicates()
}

proof fn lemma_wired_each_once(s: ScratchView, host: Seq<char>, body: Seq<char>, draw: Option<Seq<u8>>)
    requires
        each_once(s),
    ensures
        each_once(wired(s, host, body, draw).scratch),
{
    lemma_queued(s, body);
}

proof fn lemma_flushed_each_once(s: ScratchView, host: Seq<char>, draw: Option<Seq<u8>>)
    requires
        each_once(s),
    ensures
        each_once(flushed(s, host, draw).scratch),
{
    if s.queue.len() > 0 {
        let popped = ScratchView { queue: s.queue.drop_first(), ..s };
        lemma_wired_each_once(popped, host, s.queue[0], draw);
    }
}

proof fn lemma_requested_each_once(inst: InstanceView, body: Seq<char>, draw: Option<Seq<u8>>)
    requires
        each_once(inst.scratch),
    ensures
        each_once(requested(inst, body, draw).scratch),
{
    lemma_queued(inst.scratch, body);
}

proof fn lemma_restarted_each_once(s: ScratchView, host: Seq<char>, sent: Seq<char>, draw: Option<Seq<u8>>)
    requires
        each_once(s),
    ensures
        each_once(restarted(s, host, sent, draw).scratch),
{
    lemma_queued(cleared(s), sent);
}

proof fn lemma_message_each_once(
    s: ScratchView,
    host: Seq<char>,
    sent: Seq<char>,
    message: Option<DeviceReplyView>,
    draw: Option<Seq<u8>>,
)
    requires
        each_once(s),
    ensures
        each_once(message_read(s, host, sent, message, draw).scratch),
{
    lemma_restarted_each_once(s, host, sent, draw);
    lemma_flushed_each_once(s, host, draw);
    if let Some(m) = message {
        let a = applied(s, m, sent);
        assert(each_once(a.scratch)) by {
            lemma_queued(s, GET@);
            if let Some(on) = m.device_on {
                let read = ScratchView {
                    level: match level_in(m) {
                        Some(level) => Some(level),
                        None => s.level,
                    },
                    on: Some(on),
                    after_read: None,
                    ..s
                };
                lemma_queued(read, set_text(Params::Power(!on)));
            }
        }
        lemma_flushed_each_once(a.scratch, host, draw);
    }
}

/// The queue holds each request once, whatever is asked and whatever arrives: a poll behind a
/// command behind a poll would be three round trips to say one thing.
pub proof fn law_the_queue_holds_each_request_once(
    inst: InstanceView,
    cmd: Seq<char>,
    level: Option<u64>,
    note: Seq<char>,
    args: EventView,
    draw: Option<Seq<u8>>,
)
    requires
        each_once(inst.scratch),
    ensures
        each_once(bound(inst, draw).scratch),
        each_once(commanded(inst, cmd, level, draw).scratch),
        each_once(told_of(inst, note, args, draw).scratch),
{
    let s = inst.scratch;
    let reset = InstanceView {
        scratch: ScratchView { inflight: None, after_read: None, queue: Seq::empty(), ..s },
        ..inst
    };
    lemma_requested_each_once(reset, GET@, draw);
    assert(each_once(bound(inst, draw).scratch));

    lemma_requested_each_once(inst, set_text(Params::Power(true)), draw);
    lemma_requested_each_once(inst, set_text(Params::Power(false)), draw);
    if let Some(level) = level {
        lemma_requested_each_once(inst, set_text(level_params(level)), draw);
    }
    let toggling = InstanceView {
        scratch: ScratchView { after_read: Some("toggle"@), ..s },
        ..inst
    };
    lemma_requested_each_once(toggling, GET@, draw);
    assert(each_once(commanded(inst, cmd, level, draw).scratch));

    let idle = ScratchView { inflight: Some(false), ..s };
    let status = status_in(args.status);
    if let Some(host) = host_of(inst) {
        lemma_flushed_each_once(ScratchView { ready: Some(true), ..idle }, host, draw);
        assert(each_once(handshake2_answered(s, host, status, draw).scratch));
        let sent = match s.last {
            Some(text) => text,
            None => Seq::empty(),
        };
        lemma_restarted_each_once(idle, host, sent, draw);
        if let Some(session) = stored_session(idle) {
            lemma_message_each_once(
                idle,
                host,
                sent,
                match opened(session, session.seq, args.bytes) {
                    Some(plain) => reply_of(plain),
                    None => None,
                },
                draw,
            );
        }
        assert(each_once(result_answered(s, host, status, args.bytes, draw).scratch));
    }
}

// ---------------------------------------------------------------------------------------
// The session
// ---------------------------------------------------------------------------------------

/// A session that was saved is the session that is read back.
pub proof fn law_a_saved_session_is_read_back(s: ScratchView, session: SessionView)
    requires
        session.well_formed(),
    ensures
        stored_session(with_session(s, session)) == Some(session),
{
    law_hex_reads_back(session.key);
    law_hex_reads_back(session.iv);
    law_hex_reads_back(session.sig);
}

/// A stored session has parts of the right lengths.
pub proof fn law_a_stored_session_is_well_formed(s: ScratchView)
    requires
        stored_session(s) is Some,
    ensures
        stored_session(s)->0.well_formed(),
{
}

/// The reply to a request is opened at the number that the request went out under: sending one
/// advances the stored session by one and changes nothing else about it.
pub proof fn law_the_session_counts_each_request(
    s: ScratchView,
    host: Seq<char>,
    body: Seq<char>,
    draw: Option<Seq<u8>>,
    session: SessionView,
)
    requires
        stored_session(s) == Some(session),
    ensures
        stored_session(wired(s, host, body, draw).scratch) == Some(
            SessionView { seq: next_seq(session.seq), ..session },
        ),
        wired(s, host, body, draw).calls == seq![
            Call::Http(
                posted(
                    host,
                    request_path(next_seq(session.seq)),
                    s.cookie,
                    framed(session, next_seq(session.seq), encode_utf8(body)),
                ),
            ),
        ],
{
    let next = SessionView { seq: next_seq(session.seq), ..session };
    law_a_saved_session_is_read_back(s, next);
}

/// Binding keeps the session: an established one asks where the device stands at once, under the
/// next number, whatever was waiting and whatever was out.
pub proof fn law_binding_keeps_the_session(
    inst: InstanceView,
    session: SessionView,
    draw: Option<Seq<u8>>,
)
    requires
        host_of(inst) is Some,
        credentials_of(inst) is Some,
        inst.scratch.ready == Some(true),
        stored_session(inst.scratch) == Some(session),
    ensures
        bound(inst, draw).calls == seq![
            Call::Http(
                posted(
                    host_of(inst)->0,
                    request_path(next_seq(session.seq)),
                    inst.scratch.cookie,
                    framed(session, next_seq(session.seq), encode_utf8(GET@)),
                ),
            ),
        ],
        stored_session(bound(inst, draw).scratch) == Some(
            SessionView { seq: next_seq(session.seq), ..session },
        ),
        bound(inst, draw).scratch.queue.len() == 0,
        bound(inst, draw).scratch.after_read is None,
{
    let s = ScratchView {
        inflight: None,
        after_read: None,
        queue: Seq::empty(),
        ..inst.scratch
    };
    assert(stored_session(s) == stored_session(inst.scratch));
    law_the_session_counts_each_request(s, host_of(inst)->0, GET@, draw, session);
}

/// Binding recovers a stalled exchange: without a session to use, it starts a handshake even
/// though a request was out, and only the question of this bind waits for it.
pub proof fn law_binding_recovers_a_stalled_exchange(inst: InstanceView, seed: Seq<u8>)
    requires
        host_of(inst) is Some,
        credentials_of(inst) is Some,
        inst.scratch.ready != Some(true),
    ensures
        bound(inst, Some(seed)).calls == seq![
            Call::Http(posted(host_of(inst)->0, HANDSHAKE1@, None, seed)),
        ],
        bound(inst, Some(seed)).scratch.queue == seq![GET@],
        bound(inst, Some(seed)).scratch.local_seed == Some(hex_text(seed)),
{
    assert(Seq::<Seq<char>>::empty().push(GET@) =~= seq![GET@]);
}

/// A switch that was set up with the same account is logged in to: its answer to the first
/// handshake is believed, our half of the proof goes out, and the session that both sides derive
/// is the one that is stored.
pub proof fn law_the_same_account_logs_in(
    inst: InstanceView,
    host: Seq<char>,
    seed: Seq<u8>,
    remote: Seq<u8>,
    auth: Seq<u8>,
    hash: Seq<u8>,
    headers: Seq<(Seq<char>, Seq<char>)>,
)
    requires
        seed.len() == 16,
        remote.len() == 16,
        hash.len() == 32,
        inst.scratch.local_seed == Some(hex_text(seed)),
        credentials_of(inst) == Some(auth),
        hash == crate::outside::sha256_of(seed + remote + auth),
    ensures
        ({
            let o = handshake1_answered(inst, host, 200, remote + hash, headers);
            let cookie = match cookie_among(headers) {
                Some(id) => Some(id),
                None => inst.scratch.cookie,
            };
            &&& o.calls == seq![
                Call::Http(posted(host, HANDSHAKE2@, cookie, login_proof(seed, remote, auth))),
            ]
            &&& stored_session(o.scratch) == Some(derived(seed, remote, auth))
            &&& o.scratch.cookie == cookie
            &&& o.scratch.queue == inst.scratch.queue
        }),
{
    let body = remote + hash;
    assert(body.subrange(0, 16) =~= remote);
    assert(body.subrange(16, 48) =~= hash);
    assert(accepted(seed, auth, body) == Some(remote));
    law_hex_reads_back(seed);
    law_a_derived_session_is_well_formed(seed, remote, auth);
    let s = ScratchView { inflight: Some(false), ..inst.scratch };
    let cookie = match cookie_among(headers) {
        Some(id) => Some(id),
        None => s.cookie,
    };
    law_a_saved_session_is_read_back(
        ScratchView { cookie, inflight: Some(true), ..s },
        derived(seed, remote, auth),
    );
}

/// An account that the switch does not hold is named rather than retried: nothing goes out, the
/// queue is not left holding anything, and no session is left half-open.
pub proof fn law_a_wrong_account_stops(
    inst: InstanceView,
    host: Seq<char>,
    seed: Seq<u8>,
    auth: Seq<u8>,
    body: Seq<u8>,
    headers: Seq<(Seq<char>, Seq<char>)>,
)
    requires
        seed.len() == 16,
        inst.scratch.local_seed == Some(hex_text(seed)),
        credentials_of(inst) == Some(auth),
        accepted(seed, auth, body) is None,
    ensures
        ({
            let o = handshake1_answered(inst, host, 200, body, headers);
            &&& o.calls == seq![
                warning(
                    "tapo: the dimmer did not accept this TP-Link account — check the Email and Password, which are the account's, not the Wi-Fi's"@,
                ),
            ]
            &&& requests(o.calls) == 0
            &&& o.scratch.queue.len() == 0
            &&& stored_session(o.scratch) is None
            &&& o.scratch.inflight == Some(false)
        }),
{
    law_hex_reads_back(seed);
    let o = handshake1_answered(inst, host, 200, body, headers);
    lemma_requests_one(o.calls[0]);
}

/// Giving up, for whatever reason, leaves nothing half-open: one warning, no request, no queue
/// and no session. The next bind starts clean.
pub proof fn law_giving_up_leaves_nothing_open(s: ScratchView, why: Seq<char>)
    ensures
        gave_up(s, why).calls == seq![warning(why)],
        requests(gave_up(s, why).calls) == 0,
        gave_up(s, why).scratch.queue.len() == 0,
        gave_up(s, why).scratch.ready is None,
        gave_up(s, why).scratch.inflight == Some(false),
        stored_session(gave_up(s, why).scratch) is None,
{
    lemma_requests_one(warning(why));
}

/// The switch answered as one that has forgotten the session: with anything but a 200, with the
/// code for an expired session, or with something that cannot be read.
pub open spec fn forgotten(s: ScratchView, status: u16, body: Seq<u8>) -> bool {
    status != 200 || (stored_session(s) matches Some(session) && ({
        let message = match opened(session, session.seq, body) {
            Some(plain) => reply_of(plain),
            None => None,
        };
        message is None || message->0.error_code == Some(9999i64)
    }))
}

/// Without a seed no handshake starts: nothing goes out, and nothing that could be guessed is kept
/// in a seed's place.
pub proof fn law_without_a_seed_no_handshake_starts(s: ScratchView, host: Seq<char>)
    ensures
        started(s, host, None).calls == seq![
            warning("tapo: no random numbers to start a handshake with"@),
        ],
        requests(started(s, host, None).calls) == 0,
        started(s, host, None).scratch.local_seed is None,
        started(s, host, None).scratch.inflight == Some(false),
        stored_session(started(s, host, None).scratch) is None,
{
    law_giving_up_leaves_nothing_open(s, "tapo: no random numbers to start a handshake with"@);
}

/// A session the switch has forgotten is rebuilt, and the request that found out is not lost on
/// the way: a new handshake starts with the request in the queue.
pub proof fn law_a_forgotten_session_is_rebuilt(
    s: ScratchView,
    host: Seq<char>,
    status: u16,
    body: Seq<u8>,
    sent: Seq<char>,
    seed: Seq<u8>,
)
    requires
        s.last == Some(sent),
        sent.len() > 0,
        forgotten(s, status, body),
    ensures
        ({
            let o = result_answered(s, host, status, body, Some(seed));
            &&& requests(o.calls) == 1
            &&& o.calls.last() == Call::Http(posted(host, HANDSHAKE1@, None, seed))
            &&& o.scratch.queue.contains(sent)
            &&& s.queue.is_prefix_of(o.scratch.queue)
            &&& o.scratch.local_seed == Some(hex_text(seed))
            &&& o.scratch.cookie is None
            &&& o.scratch.inflight == Some(true)
            &&& stored_session(o.scratch) is None
        }),
{
    let idle = ScratchView { inflight: Some(false), ..s };
    assert(stored_session(idle) == stored_session(s));
    lemma_queued(cleared(idle), sent);
    let r = restarted(idle, host, sent, Some(seed));
    lemma_requests_one(r.calls[0]);
    assert(s.queue.is_prefix_of(r.scratch.queue));
    let w = warning("tapo: could not read the reply; reconnecting"@);
    lemma_requests_one(w);
    lemma_requests_add(seq![w], r.calls);
}

/// The request that a forgotten session refused is retried: once the two handshakes are through,
/// the new session sends what has waited longest, and unless that was the refused request itself,
/// the refused request is still waiting behind it.
pub proof fn law_the_refused_request_is_retried(
    inst: InstanceView,
    host: Seq<char>,
    status: u16,
    body: Seq<u8>,
    sent: Seq<char>,
    local: Seq<u8>,
    remote: Seq<u8>,
    auth: Seq<u8>,
    hash: Seq<u8>,
    headers: Seq<(Seq<char>, Seq<char>)>,
    draw: Option<Seq<u8>>,
)
    requires
        inst.scratch.last == Some(sent),
        sent.len() > 0,
        forgotten(inst.scratch, status, body),
        credentials_of(inst) == Some(auth),
        local.len() == 16,
        remote.len() == 16,
        hash.len() == 32,
        hash == crate::outside::sha256_of(local + remote + auth),
    ensures
        ({
            let refused = result_answered(inst.scratch, host, status, body, Some(local));
            let greeted = handshake1_answered(
                InstanceView { scratch: refused.scratch, ..inst },
                host,
                200,
                remote + hash,
                headers,
            );
            let up = handshake2_answered(greeted.scratch, host, 200, draw);
            let session = derived(local, remote, auth);
            let next = if inst.scratch.queue.len() > 0 {
                inst.scratch.queue[0]
            } else {
                sent
            };
            &&& up.calls == seq![
                Call::Http(
                    posted(
                        host,
                        request_path(next_seq(session.seq)),
                        cookie_among(headers),
                        framed(session, next_seq(session.seq), encode_utf8(next)),
                    ),
                ),
            ]
            &&& next == sent || up.scratch.queue.contains(sent)
        }),
{
    let refused = result_answered(inst.scratch, host, status, body, Some(local));
    law_a_forgotten_session_is_rebuilt(inst.scratch, host, status, body, sent, local);
    let waiting = InstanceView { scratch: refused.scratch, ..inst };
    law_the_same_account_logs_in(waiting, host, local, remote, auth, hash, headers);
    let greeted = handshake1_answered(waiting, host, 200, remote + hash, headers);
    let session = derived(local, remote, auth);
    let ready = ScratchView { inflight: Some(false), ready: Some(true), ..greeted.scratch };
    let queue = ready.queue;
    let popped = ScratchView { queue: queue.drop_first(), ..ready };
    assert(stored_session(popped) == stored_session(greeted.scratch));
    law_the_session_counts_each_request(popped, host, queue[0], draw, session);
    if inst.scratch.queue.len() > 0 {
        assert(queue[0] == inst.scratch.queue[0]);
    } else {
        assert(queue =~= seq![sent]);
    }
    if queue[0] != sent {
        let i = choose|i: int| 0 <= i < queue.len() && queue[i] == sent;
        assert(popped.queue[i - 1] == sent);
    }
}

// ---------------------------------------------------------------------------------------
// Commands
// ---------------------------------------------------------------------------------------

/// Zero is off: a brightness of zero is the same command as `off`.
pub proof fn law_level_zero_is_off(inst: InstanceView, other: Option<u64>, draw: Option<Seq<u8>>)
    ensures
        commanded(inst, "set_level"@, Some(0), draw) == commanded(inst, "off"@, other, draw),
{
    reveal_strlit("on");
    reveal_strlit("off");
    reveal_strlit("toggle");
    reveal_strlit("set_level");
    assert("set_level"@.len() == 9);
    assert("off"@.len() == 3);
}

/// A brightness above a hundred is a hundred.
pub proof fn law_no_level_is_above_a_hundred(inst: InstanceView, level: u64, draw: Option<Seq<u8>>)
    requires
        level > 100,
    ensures
        commanded(inst, "set_level"@, Some(level), draw) == commanded(
            inst,
            "set_level"@,
            Some(100),
            draw,
        ),
{
}

/// A `toggle` on a light whose state is known is the command for the other state.
pub proof fn law_toggle_goes_the_other_way(
    inst: InstanceView,
    on: bool,
    level: Option<u64>,
    draw: Option<Seq<u8>>,
)
    requires
        inst.scratch.on == Some(on),
    ensures
        commanded(inst, "toggle"@, level, draw) == commanded(
            inst,
            if on {
                "off"@
            } else {
                "on"@
            },
            level,
            draw,
        ),
{
    reveal_strlit("on");
    reveal_strlit("off");
    reveal_strlit("toggle");
    assert("toggle"@.len() == 6);
    assert("off"@.len() == 3);
    assert("on"@.len() == 2);
}

/// A `toggle` that arrives before anything is known asks first, and the answer decides: once a
/// state has been read the write for the other state is in the queue, and no toggle is left over.
pub proof fn law_a_toggle_waits_for_the_state(
    s: ScratchView,
    m: DeviceReplyView,
    on: bool,
    sent: Seq<char>,
)
    requires
        s.after_read == Some("toggle"@),
        m.device_on == Some(on),
    ensures
        applied(s, m, sent).scratch.queue.contains(set_text(Params::Power(!on))),
        applied(s, m, sent).scratch.after_read is None,
{
    let read = ScratchView {
        level: match level_in(m) {
            Some(level) => Some(level),
            None => s.level,
        },
        on: Some(on),
        after_read: None,
        ..s
    };
    lemma_queued(read, set_text(Params::Power(!on)));
}

/// Every write can be told from a read by its text.
pub proof fn law_a_write_says_what_it_is(params: Params)
    ensures
        contains(set_text(params), "set_device_info"@),
        !contains(GET@, "set_device_info"@),
{
    let text = set_text(params);
    reveal_strlit("{\"method\":\"set_device_info\",\"params\":");
    reveal_strlit("set_device_info");
    assert(text.subrange(11, 26) =~= "set_device_info"@);
    assert(occurs_at(text, "set_device_info"@, 11));
    reveal_strlit("{\"method\":\"get_device_info\",\"requestTimeMils\":0}");
    assert forall|i: int| !occurs_at(GET@, "set_device_info"@, i) by {
        if occurs_at(GET@, "set_device_info"@, i) {
            let w = GET@.subrange(i, i + 15);
            assert(w[3] == '_');
            assert(w[3] == GET@[i + 3]);
            assert(w[0] == 's');
            assert(w[0] == GET@[i]);
        }
    }
}

/// A command reads back rather than assuming: the bare acknowledgement of a write is followed by
/// a read, and changes nothing that is known of the light. The read goes out at once where nothing
/// else waits before it, and otherwise it waits behind what does.
pub proof fn law_a_command_reads_back(
    s: ScratchView,
    host: Seq<char>,
    params: Params,
    m: DeviceReplyView,
    session: SessionView,
    draw: Option<Seq<u8>>,
)
    requires
        s.ready == Some(true),
        s.inflight != Some(true),
        stored_session(s) == Some(session),
        m.error_code is None || m.error_code == Some(0i64),
        m.device_on is None,
    ensures
        ({
            let o = message_read(s, host, set_text(params), Some(m), draw);
            let seq = next_seq(session.seq);
            &&& s.queue.len() == 0 || s.queue[0] == GET@ ==> o.calls == seq![
                Call::Http(
                    posted(
                        host,
                        request_path(seq),
                        s.cookie,
                        framed(session, seq, encode_utf8(GET@)),
                    ),
                ),
            ]
            &&& s.queue.len() > 0 && s.queue[0] != GET@ ==> o.scratch.queue.contains(GET@)
            &&& requests(o.calls) == 1
            &&& o.scratch.on == s.on
            &&& o.scratch.level == s.level
        }),
{
    law_a_write_says_what_it_is(params);
    let asked = queued(s, GET@);
    lemma_queued(s, GET@);
    let popped = ScratchView { queue: asked.queue.drop_first(), ..asked };
    assert(stored_session(popped) == stored_session(s));
    law_the_session_counts_each_request(popped, host, asked.queue[0], draw, session);
    let o = message_read(s, host, set_text(params), Some(m), draw);
    let f = flushed(asked, host, draw);
    assert(o.calls =~= f.calls);
    assert(o.calls =~= seq![o.calls[0]]);
    lemma_requests_one(o.calls[0]);
    if s.queue.len() == 0 {
        assert(asked.queue =~= seq![GET@]);
    } else if s.queue[0] != GET@ {
        let i = choose|i: int| 0 <= i < asked.queue.len() && asked.queue[i] == GET@;
        assert(popped.queue[i - 1] == GET@);
    }
}

// ---------------------------------------------------------------------------------------
// What is reported
// ---------------------------------------------------------------------------------------

/// Nothing is said twice: the same reply again says only that the device is there.
pub proof fn law_the_same_reply_says_nothing_new(
    s: ScratchView,
    m: DeviceReplyView,
    first: Seq<char>,
    second: Seq<char>,
)
    requires
        m.device_on is Some,
    ensures
        applied(applied(s, m, first).scratch, m, second).calls == seq![told(Change::Online(true))],
{
    let o = applied(applied(s, m, first).scratch, m, second);
    assert(o.calls =~= seq![told(Change::Online(true))]);
}

/// What is reported is what was read: after a reply with a state in it the scratch holds that
/// state, with a brightness of at most a hundred, and every change to it was told.
pub proof fn law_what_is_read_is_what_is_kept(
    s: ScratchView,
    m: DeviceReplyView,
    on: bool,
    sent: Seq<char>,
)
    requires
        m.device_on == Some(on),
    ensures
        applied(s, m, sent).scratch.on == Some(on),
        s.on != Some(on) ==> applied(s, m, sent).calls.contains(told(Change::Power(on))),
        m.brightness matches Some(b) ==> ({
            let level: u64 = if b > 100 {
                100
            } else {
                b
            };
            &&& applied(s, m, sent).scratch.level == Some(level)
            &&& s.level != Some(level) ==> applied(s, m, sent).calls.contains(
                told(Change::Level(level)),
            )
        }),
        m.brightness is None ==> applied(s, m, sent).scratch.level == s.level,
{
    let o = applied(s, m, sent);
    let p = crate::dimmer::steps::power_calls(s, on);
    let l = crate::dimmer::steps::level_calls(s, level_in(m));
    if p.len() > 0 {
        assert(o.calls[1] == told(Change::Power(on)));
    }
    if l.len() > 0 {
        assert(o.calls[1 + p.len() as int] == l[0]);
    }
}

} // verus!
