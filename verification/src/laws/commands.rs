//! What a dimmer does with each command and each reply, said in what goes out, what is told and
//! what is kept.

use vstd::prelude::*;
use vstd::utf8::encode_utf8;
use crate::codec::{hex_text, unhexed};
use crate::dimmer::steps::{applied, bound, cleared, commanded, credentials_of, flushed, gave_up, handshake1_answered, handshake2_answered, host_of, message_read, reached, request_path, requested, restarted, result_answered, set_text, status_in, stored_session, told_of, with_session, Outcome};
use crate::dimmer::types::{blank, EventArgs, EventView, Instance, InstanceView, Params, Scratch, ScratchView, GET, HANDSHAKE1, HANDSHAKE2, LIGHT, REQUEST};
use crate::host::{cookie_among, posted, Call, Change, HostCall};
use crate::klap::{accepted, derived, framed, login_proof, next_seq, opened, SessionView};
use crate::outside::{sha1_of, sha256_of};
use crate::reading::{reply_of, DeviceReplyView};
use crate::text::{contains, decimal, trimmed};

verus! {

// ---------------------------------------------------------------------------------------
// What is read of a dimmer
// ---------------------------------------------------------------------------------------

/// A scratch is read field by field, each for what it is.
pub proof fn law_a_scratch_is_read_field_by_field(s: Scratch)
    ensures
        s@.ready == s.ready,
        s@.seq == s.seq,
        s@.inflight == s.inflight,
        s@.level == s.level,
        s@.on == s.on,
        s@.local_seed is Some <==> s.local_seed is Some,
        s.local_seed is Some ==> s@.local_seed->0 == s.local_seed->0@,
        s@.cookie is Some <==> s.cookie is Some,
        s.cookie is Some ==> s@.cookie->0 == s.cookie->0@,
        s@.key is Some <==> s.key is Some,
        s.key is Some ==> s@.key->0 == s.key->0@,
        s@.iv is Some <==> s.iv is Some,
        s.iv is Some ==> s@.iv->0 == s.iv->0@,
        s@.sig is Some <==> s.sig is Some,
        s.sig is Some ==> s@.sig->0 == s.sig->0@,
        s@.last is Some <==> s.last is Some,
        s.last is Some ==> s@.last->0 == s.last->0@,
        s@.after_read is Some <==> s.after_read is Some,
        s.after_read is Some ==> s@.after_read->0 == s.after_read->0@,
        s@.queue.len() == s.queue@.len(),
        forall|i: int| 0 <= i < s.queue@.len() ==> #[trigger] s@.queue[i] == s.queue@[i]@,
{
}

/// A scratch that nothing was written to holds nothing.
pub proof fn law_a_blank_scratch_holds_nothing()
    ensures
        blank() == (ScratchView {
            ready: None,
            local_seed: None,
            cookie: None,
            key: None,
            iv: None,
            sig: None,
            seq: None,
            queue: Seq::empty(),
            inflight: None,
            last: None,
            level: None,
            on: None,
            after_read: None,
        }),
{
}

/// An instance is read field by field, and so is an event.
pub proof fn law_an_instance_and_an_event_are_read_field_by_field(inst: Instance, args: EventArgs)
    ensures
        inst@.address is Some <==> inst.address is Some,
        inst.address is Some ==> inst@.address->0 == inst.address->0@,
        inst@.email is Some <==> inst.email is Some,
        inst.email is Some ==> inst@.email->0 == inst.email->0@,
        inst@.password is Some <==> inst.password is Some,
        inst.password is Some ==> inst@.password->0 == inst.password->0@,
        inst@.scratch == inst.scratch@,
        args@.url is Some <==> args.url is Some,
        args.url is Some ==> args@.url->0 == args.url->0@,
        args@.status == args.status,
        args@.bytes == args.bytes@,
        args@.headers.len() == args.headers@.len(),
        forall|i: int|
            0 <= i < args.headers@.len() ==> #[trigger] args@.headers[i] == (
                args.headers@[i].0@,
                args.headers@[i].1@,
            ),
{
}

/// A call that came to an outcome left the scratch there, asked for those calls in that order, and
/// wrote to none of the properties.
pub proof fn law_a_call_leaves_its_outcome(
    before: InstanceView,
    after: InstanceView,
    calls: Seq<HostCall>,
    outcome: Outcome,
)
    requires
        reached(before, after, calls, outcome),
    ensures
        after.scratch == outcome.scratch,
        after.address == before.address,
        after.email == before.email,
        after.password == before.password,
        calls.len() == outcome.calls.len(),
        forall|i: int| 0 <= i < calls.len() ==> (#[trigger] calls[i])@ == outcome.calls[i],
{
    let list = crate::host::call_list(calls);
    assert forall|i: int| 0 <= i < calls.len() implies (#[trigger] calls[i])@
        == outcome.calls[i] by {
        assert(list[i] == calls[i]@);
    }
}

/// A dimmer is reached at its address without the white space around it, and not at all where that
/// leaves nothing.
pub proof fn law_a_dimmer_is_reached_at_its_address(inst: InstanceView)
    ensures
        host_of(inst) is Some <==> inst.address is Some && trimmed(inst.address->0).len() > 0,
        host_of(inst) is Some ==> host_of(inst)->0 == trimmed(inst.address->0),
{
}

/// A dimmer logs in with the email without the white space around it and the password as it
/// stands, and not at all where either of them is missing.
pub proof fn law_a_dimmer_logs_in_with_its_account(inst: InstanceView)
    ensures
        credentials_of(inst) is Some <==> inst.email is Some && trimmed(inst.email->0).len() > 0
            && inst.password is Some && (inst.password->0).len() > 0,
        credentials_of(inst) is Some ==> credentials_of(inst)->0 == sha256_of(
            sha1_of(encode_utf8(trimmed(inst.email->0))) + sha1_of(encode_utf8(inst.password->0)),
        ),
{
}

/// A session is stored as the hexadecimal of its three parts and its number, and nothing else in
/// the scratch is touched by that.
pub proof fn law_a_session_is_stored_in_hexadecimal(s: ScratchView, session: SessionView)
    ensures
        with_session(s, session) == (ScratchView {
            ready: s.ready,
            local_seed: s.local_seed,
            cookie: s.cookie,
            key: Some(hex_text(session.key)),
            iv: Some(hex_text(session.iv)),
            sig: Some(hex_text(session.sig)),
            seq: Some(session.seq as i64),
            queue: s.queue,
            inflight: s.inflight,
            last: s.last,
            level: s.level,
            on: s.on,
            after_read: s.after_read,
        }),
{
}

/// A stored session is there where all four of its parts are, each of its length, and it is made
/// of them.
pub proof fn law_a_stored_session_is_its_four_parts(s: ScratchView, session: SessionView)
    ensures
        stored_session(s) == Some(session) <==> {
            &&& s.key is Some
            &&& s.iv is Some
            &&& s.sig is Some
            &&& s.seq is Some
            &&& unhexed(s.key->0) == Some(session.key)
            &&& unhexed(s.iv->0) == Some(session.iv)
            &&& unhexed(s.sig->0) == Some(session.sig)
            &&& (s.seq->0 - session.seq) % 0x1_0000_0000 == 0
            &&& session.key.len() == 16
            &&& session.iv.len() == 12
            &&& session.sig.len() == 28
        },
{
    if s.seq is Some {
        lemma_low_bits(s.seq->0, session.seq);
    }
}

/// A number kept in fewer bits is what it was but for a multiple of what those count to.
pub proof fn lemma_low_bits(n: i64, low: i32)
    ensures
        n as i32 == low <==> (n - low) % 0x1_0000_0000 == 0,
{
    assert(((n as i32) == low) == ((n - low) % 0x1_0000_0000 == 0)) by (bit_vector);
}

// ---------------------------------------------------------------------------------------
// Commands
// ---------------------------------------------------------------------------------------

/// The requests go to the paths of the protocol, a dimmer has the one proxy, and the question where
/// it stands is one text.
pub proof fn law_the_protocol_has_its_paths(seq: i32)
    ensures
        HANDSHAKE1@ == "/app/handshake1"@,
        HANDSHAKE2@ == "/app/handshake2"@,
        REQUEST@ == "/app/request"@,
        request_path(seq) == "/app/request?seq="@ + decimal(seq as int),
        GET@ == "{\"method\":\"get_device_info\",\"requestTimeMils\":0}"@,
        LIGHT == 1,
{
    reveal_strlit("/app/request");
    reveal_strlit("?seq=");
    reveal_strlit("/app/request?seq=");
    assert("/app/request"@ + "?seq="@ =~= "/app/request?seq="@);
}

/// Each write is one text: the power alone, or the brightness together with the power on.
pub proof fn law_a_write_is_one_text(level: u64)
    ensures
        set_text(Params::Power(true))
            == "{\"method\":\"set_device_info\",\"params\":{\"device_on\":true},\"requestTimeMils\":0}"@,
        set_text(Params::Power(false))
            == "{\"method\":\"set_device_info\",\"params\":{\"device_on\":false},\"requestTimeMils\":0}"@,
        set_text(Params::Level(level))
            == "{\"method\":\"set_device_info\",\"params\":{\"brightness\":"@ + decimal(level as int)
            + ",\"device_on\":true},\"requestTimeMils\":0}"@,
{
    let n = decimal(level as int);
    reveal_strlit("{\"method\":\"set_device_info\",\"params\":");
    reveal_strlit(",\"requestTimeMils\":0}");
    reveal_strlit("{\"device_on\":");
    reveal_strlit("}");
    reveal_strlit("true");
    reveal_strlit("false");
    reveal_strlit("{\"brightness\":");
    reveal_strlit(",\"device_on\":true}");
    reveal_strlit("{\"method\":\"set_device_info\",\"params\":{\"device_on\":true},\"requestTimeMils\":0}");
    reveal_strlit("{\"method\":\"set_device_info\",\"params\":{\"device_on\":false},\"requestTimeMils\":0}");
    reveal_strlit("{\"method\":\"set_device_info\",\"params\":{\"brightness\":");
    reveal_strlit(",\"device_on\":true},\"requestTimeMils\":0}");
    assert(set_text(Params::Power(true))
        =~= "{\"method\":\"set_device_info\",\"params\":{\"device_on\":true},\"requestTimeMils\":0}"@);
    assert(set_text(Params::Power(false))
        =~= "{\"method\":\"set_device_info\",\"params\":{\"device_on\":false},\"requestTimeMils\":0}"@);
    assert(set_text(Params::Level(level))
        =~= "{\"method\":\"set_device_info\",\"params\":{\"brightness\":"@ + n
        + ",\"device_on\":true},\"requestTimeMils\":0}"@);
}

/// No two commands go by the same name.
proof fn lemma_commands()
    ensures
        "on"@.len() == 2,
        "off"@.len() == 3,
        "toggle"@.len() == 6,
        "set_level"@.len() == 9,
        "ramp_start"@.len() == 10,
        "ramp_stop"@.len() == 9,
        "ramp_stop"@ != "set_level"@,
{
    reveal_strlit("on");
    reveal_strlit("off");
    reveal_strlit("toggle");
    reveal_strlit("set_level");
    reveal_strlit("ramp_start");
    reveal_strlit("ramp_stop");
    assert("ramp_stop"@[0] == 'r');
    assert("set_level"@[0] == 's');
}

/// A brightness is asked for as it is given: each from one to a hundred as itself, zero as off, and
/// anything above a hundred as a hundred.
pub proof fn law_a_brightness_is_asked_for_as_it_is_given(
    inst: InstanceView,
    level: u64,
    draw: Option<Seq<u8>>,
)
    ensures
        1 <= level <= 100 ==> commanded(inst, "set_level"@, Some(level), draw) == requested(
            inst,
            set_text(Params::Level(level)),
            draw,
        ),
        1 <= level <= 100 ==> commanded(inst, "set_level"@, Some(level), draw) == requested(
            inst,
            "{\"method\":\"set_device_info\",\"params\":{\"brightness\":"@ + decimal(level as int)
                + ",\"device_on\":true},\"requestTimeMils\":0}"@,
            draw,
        ),
        level == 0 ==> commanded(inst, "set_level"@, Some(level), draw) == requested(
            inst,
            "{\"method\":\"set_device_info\",\"params\":{\"device_on\":false},\"requestTimeMils\":0}"@,
            draw,
        ),
        level > 100 ==> commanded(inst, "set_level"@, Some(level), draw) == commanded(
            inst,
            "set_level"@,
            Some(100),
            draw,
        ),
{
    lemma_commands();
    law_a_write_is_one_text(level);
}

/// `on` and `off` ask for the power alone, whatever brightness came with them, and `toggle` asks
/// for the other power, or for the state where that is not known.
pub proof fn law_the_power_is_asked_for_alone(
    inst: InstanceView,
    level: Option<u64>,
    draw: Option<Seq<u8>>,
)
    ensures
        commanded(inst, "on"@, level, draw) == requested(
            inst,
            "{\"method\":\"set_device_info\",\"params\":{\"device_on\":true},\"requestTimeMils\":0}"@,
            draw,
        ),
        commanded(inst, "off"@, level, draw) == requested(
            inst,
            "{\"method\":\"set_device_info\",\"params\":{\"device_on\":false},\"requestTimeMils\":0}"@,
            draw,
        ),
        inst.scratch.on == Some(true) ==> commanded(inst, "toggle"@, level, draw) == commanded(
            inst,
            "off"@,
            level,
            draw,
        ),
        inst.scratch.on == Some(false) ==> commanded(inst, "toggle"@, level, draw) == commanded(
            inst,
            "on"@,
            level,
            draw,
        ),
        inst.scratch.on is None ==> commanded(inst, "toggle"@, level, draw) == requested(
            InstanceView {
                address: inst.address,
                email: inst.email,
                password: inst.password,
                scratch: ScratchView { after_read: Some("toggle"@), ..inst.scratch },
            },
            "{\"method\":\"get_device_info\",\"requestTimeMils\":0}"@,
            draw,
        ),
{
    lemma_commands();
    law_a_write_is_one_text(0);
}

/// What a dimmer cannot do is said and nothing else happens: a brightness without a number, a ramp,
/// and any other command, by its name.
pub proof fn law_what_cannot_be_done_is_said(
    inst: InstanceView,
    cmd: Seq<char>,
    level: Option<u64>,
    draw: Option<Seq<u8>>,
)
    ensures
        commanded(inst, "set_level"@, None, draw).calls == seq![
            Call::Log { level: "warn"@, msg: "tapo: set_level needs a level"@ },
        ],
        commanded(inst, "set_level"@, None, draw).scratch == inst.scratch,
        cmd == "ramp_start"@ || cmd == "ramp_stop"@ ==> commanded(inst, cmd, level, draw) == (
        Outcome {
            scratch: inst.scratch,
            calls: seq![
                Call::Log {
                    level: "warn"@,
                    msg: "tapo: this dimmer has no continuous ramp — use set_level"@,
                },
            ],
        }),
        cmd != "on"@ && cmd != "off"@ && cmd != "toggle"@ && cmd != "set_level"@ && cmd
            != "ramp_start"@ && cmd != "ramp_stop"@ ==> commanded(inst, cmd, level, draw) == (
        Outcome {
            scratch: inst.scratch,
            calls: seq![Call::Log { level: "warn"@, msg: "tapo: unhandled `"@ + cmd + "`"@ }],
        }),
{
    lemma_commands();
}

// ---------------------------------------------------------------------------------------
// Asking
// ---------------------------------------------------------------------------------------

/// Without an address or without an account nothing is asked for: what is missing is said, and
/// nothing is kept for later.
pub proof fn law_what_is_not_set_is_named(
    inst: InstanceView,
    body: Seq<char>,
    draw: Option<Seq<u8>>,
)
    ensures
        host_of(inst) is None ==> requested(inst, body, draw) == (Outcome {
            scratch: inst.scratch,
            calls: seq![
                Call::Log {
                    level: "warn"@,
                    msg: "tapo: set the Address on this dimmer first"@,
                },
            ],
        }),
        host_of(inst) is Some && credentials_of(inst) is None ==> requested(inst, body, draw) == (
        Outcome {
            scratch: inst.scratch,
            calls: seq![
                Call::Log {
                    level: "warn"@,
                    msg: "tapo: set the Email and Password on this dimmer first — local control is checked against the TP-Link account it was set up with"@,
                },
            ],
        }),
{
}

/// An idle session sends at once what is asked for: under the next number, to the path of that
/// number, with the cookie of the session, framed by the session. The request is kept as the one
/// that is out, the number is stored, and nothing else changes.
pub proof fn law_an_idle_session_sends_at_once(
    inst: InstanceView,
    host: Seq<char>,
    session: SessionView,
    body: Seq<char>,
    draw: Option<Seq<u8>>,
)
    requires
        host_of(inst) == Some(host),
        credentials_of(inst) is Some,
        inst.scratch.ready == Some(true),
        inst.scratch.inflight != Some(true),
        stored_session(inst.scratch) == Some(session),
    ensures
        requested(inst, body, draw).calls == seq![
            Call::Http(
                posted(
                    host,
                    request_path(next_seq(session.seq)),
                    inst.scratch.cookie,
                    framed(session, next_seq(session.seq), encode_utf8(body)),
                ),
            ),
        ],
        requested(inst, body, draw).scratch == (ScratchView {
            ready: Some(true),
            local_seed: inst.scratch.local_seed,
            cookie: inst.scratch.cookie,
            key: Some(hex_text(session.key)),
            iv: Some(hex_text(session.iv)),
            sig: Some(hex_text(session.sig)),
            seq: Some(next_seq(session.seq) as i64),
            queue: inst.scratch.queue,
            inflight: Some(true),
            last: Some(body),
            level: inst.scratch.level,
            on: inst.scratch.on,
            after_read: inst.scratch.after_read,
        }),
{
}

/// While something is out, what is asked for waits behind all that waits already, once, and nothing
/// else changes and nothing goes out.
pub proof fn law_what_is_asked_for_waits_at_the_end(
    inst: InstanceView,
    body: Seq<char>,
    draw: Option<Seq<u8>>,
)
    requires
        host_of(inst) is Some,
        credentials_of(inst) is Some,
        inst.scratch.inflight == Some(true),
    ensures
        requested(inst, body, draw).calls.len() == 0,
        requested(inst, body, draw).scratch == (ScratchView {
            queue: if inst.scratch.queue.contains(body) {
                inst.scratch.queue
            } else {
                inst.scratch.queue + seq![body]
            },
            ..inst.scratch
        }),
{
    assert(inst.scratch.queue.push(body) =~= inst.scratch.queue + seq![body]);
}

/// Where no session can be used, what is asked for waits and a handshake starts: the seed goes out
/// as it was drawn, without a cookie, and is kept for the reply.
pub proof fn law_without_a_session_a_handshake_starts(
    inst: InstanceView,
    host: Seq<char>,
    body: Seq<char>,
    seed: Seq<u8>,
)
    requires
        host_of(inst) == Some(host),
        credentials_of(inst) is Some,
        inst.scratch.inflight != Some(true),
        inst.scratch.ready != Some(true) || stored_session(inst.scratch) is None,
    ensures
        requested(inst, body, Some(seed)).calls == seq![
            Call::Http(posted(host, "/app/handshake1"@, None, seed)),
        ],
        requested(inst, body, Some(seed)).scratch == (ScratchView {
            ready: Some(false),
            local_seed: Some(hex_text(seed)),
            cookie: None,
            key: inst.scratch.key,
            iv: inst.scratch.iv,
            sig: inst.scratch.sig,
            seq: inst.scratch.seq,
            queue: if inst.scratch.queue.contains(body) {
                inst.scratch.queue
            } else {
                inst.scratch.queue + seq![body]
            },
            inflight: Some(true),
            last: inst.scratch.last,
            level: inst.scratch.level,
            on: inst.scratch.on,
            after_read: inst.scratch.after_read,
        }),
        requested(inst, body, None) == gave_up(
            inst.scratch,
            "tapo: no random numbers to start a handshake with"@,
        ),
{
    assert(inst.scratch.queue.push(body) =~= inst.scratch.queue + seq![body]);
}

/// Giving up says why, forgets the session and all that was waiting, and keeps only what is known
/// of the light and of a toggle.
pub proof fn law_giving_up_keeps_only_the_light(s: ScratchView, why: Seq<char>)
    ensures
        gave_up(s, why).calls == seq![Call::Log { level: "warn"@, msg: why }],
        gave_up(s, why).scratch == (ScratchView {
            ready: None,
            local_seed: None,
            cookie: None,
            key: None,
            iv: None,
            sig: None,
            seq: None,
            queue: Seq::empty(),
            inflight: Some(false),
            last: None,
            level: s.level,
            on: s.on,
            after_read: s.after_read,
        }),
{
}

/// Starting again forgets the session and keeps what was waiting, with the request that was out
/// behind it, and the new seed goes out.
pub proof fn law_starting_again_keeps_what_was_out(
    s: ScratchView,
    host: Seq<char>,
    sent: Seq<char>,
    seed: Seq<u8>,
)
    ensures
        restarted(s, host, sent, Some(seed)).calls == seq![
            Call::Http(posted(host, "/app/handshake1"@, None, seed)),
        ],
        restarted(s, host, sent, Some(seed)).scratch == (ScratchView {
            ready: Some(false),
            local_seed: Some(hex_text(seed)),
            cookie: None,
            key: None,
            iv: None,
            sig: None,
            seq: None,
            queue: if sent.len() == 0 || s.queue.contains(sent) {
                s.queue
            } else {
                s.queue + seq![sent]
            },
            inflight: Some(true),
            last: None,
            level: s.level,
            on: s.on,
            after_read: s.after_read,
        }),
        restarted(s, host, sent, None) == gave_up(
            s,
            "tapo: no random numbers to start a handshake with"@,
        ),
{
    assert(s.queue.push(sent) =~= s.queue + seq![sent]);
}

/// The queue is served from its front: an idle session sends what has waited longest and keeps the
/// rest in order, and a session that is not idle, or has nothing waiting, does nothing.
pub proof fn law_what_waited_longest_goes_first(
    s: ScratchView,
    host: Seq<char>,
    draw: Option<Seq<u8>>,
    session: SessionView,
    body: Seq<char>,
    rest: Seq<Seq<char>>,
)
    requires
        s.queue == seq![body] + rest,
        stored_session(s) == Some(session),
    ensures
        s.ready == Some(true) && s.inflight != Some(true) ==> {
            let next = next_seq(session.seq);
            let o = flushed(s, host, draw);
            &&& o.calls == seq![
                Call::Http(
                    posted(
                        host,
                        request_path(next),
                        s.cookie,
                        framed(session, next, encode_utf8(body)),
                    ),
                ),
            ]
            &&& o.scratch == with_session(
                ScratchView { queue: rest, inflight: Some(true), last: Some(body), ..s },
                SessionView { key: session.key, iv: session.iv, sig: session.sig, seq: next },
            )
        },
        s.ready != Some(true) || s.inflight == Some(true) ==> flushed(s, host, draw).scratch == s
            && flushed(s, host, draw).calls.len() == 0,
        flushed(ScratchView { queue: Seq::empty(), ..s }, host, draw).scratch == (ScratchView {
            queue: Seq::empty(),
            ..s
        }),
        flushed(ScratchView { queue: Seq::empty(), ..s }, host, draw).calls.len() == 0,
{
    assert(s.queue.drop_first() =~= rest);
    assert(s.queue[0] == body);
    let rested = ScratchView { queue: s.queue.drop_first(), ..s };
    assert(stored_session(rested) == stored_session(s));
}

/// Where the session to send with is gone, what has waited longest waits again, behind the rest, and
/// a handshake starts.
pub proof fn law_without_a_session_the_queue_waits(
    s: ScratchView,
    host: Seq<char>,
    seed: Seq<u8>,
    body: Seq<char>,
    rest: Seq<Seq<char>>,
)
    requires
        s.queue == seq![body] + rest,
        s.ready == Some(true),
        s.inflight != Some(true),
        stored_session(s) is None,
    ensures
        flushed(s, host, Some(seed)).calls == seq![
            Call::Http(posted(host, "/app/handshake1"@, None, seed)),
        ],
        flushed(s, host, Some(seed)).scratch == (ScratchView {
            ready: Some(false),
            local_seed: Some(hex_text(seed)),
            cookie: None,
            queue: if rest.contains(body) {
                rest
            } else {
                rest + seq![body]
            },
            inflight: Some(true),
            ..s
        }),
        flushed(s, host, None) == gave_up(s, "tapo: no random numbers to start a handshake with"@),
{
    assert(s.queue.drop_first() =~= rest);
    assert(s.queue[0] == body);
    assert(rest.push(body) =~= rest + seq![body]);
    let rested = ScratchView { queue: s.queue.drop_first(), ..s };
    assert(stored_session(rested) == stored_session(s));
}

/// Binding asks where the device stands, with nothing waiting and nothing out from before; the
/// account, which has no address, is asked nothing.
pub proof fn law_binding_asks_where_it_stands(inst: InstanceView, draw: Option<Seq<u8>>)
    ensures
        host_of(inst) is None && inst.email is Some ==> bound(inst, draw).scratch == inst.scratch
            && bound(inst, draw).calls.len() == 0,
        host_of(inst) is Some || inst.email is None ==> bound(inst, draw) == requested(
            InstanceView {
                address: inst.address,
                email: inst.email,
                password: inst.password,
                scratch: ScratchView {
                    inflight: None,
                    after_read: None,
                    queue: Seq::empty(),
                    ..inst.scratch
                },
            },
            "{\"method\":\"get_device_info\",\"requestTimeMils\":0}"@,
            draw,
        ),
{
}

// ---------------------------------------------------------------------------------------
// Replies
// ---------------------------------------------------------------------------------------

/// The status of a reply is its low sixteen bits, and zero where there is none.
pub proof fn law_a_status_is_sixteen_bits(n: u64)
    ensures
        status_in(Some(n)) as int == n as int % 0x1_0000,
        status_in(None) == 0,
{
    assert(n as u16 == n % 0x1_0000) by (bit_vector);
}

/// A reply is taken for what its URL says: the first handshake, the second, or a request. Anything
/// else, and any other event, changes nothing, and so does whatever reaches a dimmer without an
/// address.
pub proof fn law_a_reply_is_taken_for_what_its_url_says(
    inst: InstanceView,
    host: Seq<char>,
    note: Seq<char>,
    url: Seq<char>,
    args: EventView,
    draw: Option<Seq<u8>>,
)
    requires
        args.url == Some(url),
    ensures
        host_of(inst) == Some(host) && contains(url, "/app/handshake1"@) ==> told_of(
            inst,
            "http_response"@,
            args,
            draw,
        ) == handshake1_answered(inst, host, status_in(args.status), args.bytes, args.headers),
        host_of(inst) == Some(host) && contains(url, "/app/handshake2"@) && !contains(
            url,
            "/app/handshake1"@,
        ) ==> told_of(inst, "http_response"@, args, draw) == handshake2_answered(
            inst.scratch,
            host,
            status_in(args.status),
            draw,
        ),
        host_of(inst) == Some(host) && contains(url, "/app/request"@) && !contains(
            url,
            "/app/handshake1"@,
        ) && !contains(url, "/app/handshake2"@) ==> told_of(inst, "http_response"@, args, draw)
            == result_answered(inst.scratch, host, status_in(args.status), args.bytes, draw),
        host_of(inst) is None || note != "http_response"@ || !(contains(url, "/app/handshake1"@)
            || contains(url, "/app/handshake2"@) || contains(url, "/app/request"@)) ==> told_of(
            inst,
            note,
            args,
            draw,
        ).scratch == inst.scratch && told_of(inst, note, args, draw).calls.len() == 0,
        told_of(inst, note, EventView { url: None, ..args }, draw).scratch == inst.scratch,
        told_of(inst, note, EventView { url: None, ..args }, draw).calls.len() == 0,
{
    reveal_strlit("/app/handshake1");
    reveal_strlit("/app/handshake2");
    reveal_strlit("/app/request");
    let none = Seq::<char>::empty();
    assert(!contains(none, "/app/handshake1"@));
    assert(!contains(none, "/app/handshake2"@));
    assert(!contains(none, "/app/request"@));
}

/// The first handshake is judged by the seed that was kept and the account. Without either of them,
/// with a seed of another length, with a status that is not 200, or with a reply that the account
/// does not vouch for, it is given up, and the reason is said.
pub proof fn law_a_first_handshake_that_fails_is_given_up(
    inst: InstanceView,
    host: Seq<char>,
    status: u16,
    body: Seq<u8>,
    headers: Seq<(Seq<char>, Seq<char>)>,
)
    ensures
        inst.scratch.local_seed is None || unhexed(inst.scratch.local_seed->0) is None
            || credentials_of(inst) is None ==> handshake1_answered(
            inst,
            host,
            status,
            body,
            headers,
        ) == gave_up(inst.scratch, "tapo: no local seed to check the handshake against"@),
        inst.scratch.local_seed is Some && credentials_of(inst) is Some ==> (match unhexed(
            inst.scratch.local_seed->0,
        ) {
            Some(seed) => {
                let r = handshake1_answered(inst, host, status, body, headers);
                &&& seed.len() != 16 ==> r == gave_up(
                    inst.scratch,
                    "tapo: the stored local seed is the wrong size"@,
                )
                &&& seed.len() == 16 && status != 200 ==> r == gave_up(
                    inst.scratch,
                    "tapo: the dimmer refused the handshake ("@ + decimal(status as int) + ")"@,
                )
                &&& seed.len() == 16 && status == 200 && accepted(
                    seed,
                    credentials_of(inst)->0,
                    body,
                ) is None ==> r == gave_up(
                    inst.scratch,
                    "tapo: the dimmer did not accept this TP-Link account — check the Email and Password, which are the account's, not the Wi-Fi's"@,
                )
            },
            None => true,
        }),
{
}

/// A first handshake that the account vouches for is answered: our proof goes out with the cookie
/// that came, or with the one from before, and the session of the two seeds is stored.
pub proof fn law_a_first_handshake_that_holds_is_answered(
    inst: InstanceView,
    host: Seq<char>,
    text: Seq<char>,
    seed: Seq<u8>,
    auth: Seq<u8>,
    remote: Seq<u8>,
    body: Seq<u8>,
    headers: Seq<(Seq<char>, Seq<char>)>,
)
    requires
        inst.scratch.local_seed == Some(text),
        unhexed(text) == Some(seed),
        seed.len() == 16,
        credentials_of(inst) == Some(auth),
        accepted(seed, auth, body) == Some(remote),
    ensures
        ({
            let s = inst.scratch;
            let cookie = if cookie_among(headers) is Some {
                cookie_among(headers)
            } else {
                s.cookie
            };
            let session = derived(seed, remote, auth);
            let o = handshake1_answered(inst, host, 200, body, headers);
            &&& o.calls == seq![
                Call::Http(
                    posted(
                        host,
                        "/app/handshake2"@,
                        cookie,
                        login_proof(seed, remote, auth),
                    ),
                ),
            ]
            &&& o.scratch == (ScratchView {
                cookie,
                inflight: Some(true),
                key: Some(hex_text(session.key)),
                iv: Some(hex_text(session.iv)),
                sig: Some(hex_text(session.sig)),
                seq: Some(session.seq as i64),
                ..s
            })
        }),
{
}

/// A second handshake that is taken makes the session ready, and what waits goes out; one that is
/// not is given up.
pub proof fn law_a_second_handshake_opens_the_session(
    s: ScratchView,
    host: Seq<char>,
    status: u16,
    draw: Option<Seq<u8>>,
)
    ensures
        status == 200 ==> handshake2_answered(s, host, status, draw) == flushed(
            ScratchView { ready: Some(true), inflight: Some(false), ..s },
            host,
            draw,
        ),
        status != 200 ==> handshake2_answered(s, host, status, draw) == gave_up(
            s,
            "tapo: the dimmer rejected the login ("@ + decimal(status as int) + ")"@,
        ),
{
}

/// A state that was read is told, whatever waits in the queue: the notifications come first, all of
/// them and in order, and what was waiting goes out behind them.
pub proof fn law_a_state_is_told_whatever_waits(
    s: ScratchView,
    host: Seq<char>,
    sent: Seq<char>,
    m: DeviceReplyView,
    on: bool,
    draw: Option<Seq<u8>>,
)
    requires
        m.error_code is None || m.error_code == Some(0i64),
        m.device_on == Some(on),
    ensures
        applied(s, m, sent).calls.is_prefix_of(message_read(s, host, sent, Some(m), draw).calls),
        message_read(s, host, sent, Some(m), draw).calls == applied(s, m, sent).calls + flushed(
            applied(s, m, sent).scratch,
            host,
            draw,
        ).calls,
        message_read(s, host, sent, Some(m), draw).scratch == flushed(
            applied(s, m, sent).scratch,
            host,
            draw,
        ).scratch,
        applied(s, m, sent).scratch == (ScratchView {
            on: Some(on),
            level: match m.brightness {
                Some(b) => Some(
                    if b < 100 {
                        b
                    } else {
                        100
                    },
                ),
                None => s.level,
            },
            after_read: None,
            queue: if s.after_read == Some("toggle"@) && !s.queue.contains(
                set_text(Params::Power(!on)),
            ) {
                s.queue + seq![set_text(Params::Power(!on))]
            } else {
                s.queue
            },
            ..s
        }),
{
    let q = set_text(Params::Power(!on));
    assert(s.queue.push(q) =~= s.queue + seq![q]);
    let (a, f) = (
        applied(s, m, sent).calls,
        flushed(applied(s, m, sent).scratch, host, draw).calls,
    );
    assert((a + f).take(a.len() as int) =~= a);
    assert(a.is_prefix_of(a + f));
}

/// A reply that carries a state is told, whatever waits in the queue: that the device is there comes
/// first, the power behind it if and only if it is not what was known, the brightness, at most a
/// hundred, behind that if and only if one was read that was not known, and nothing else is told.
pub proof fn law_the_reply_to_a_request_is_told(
    inst: InstanceView,
    host: Seq<char>,
    args: EventView,
    session: SessionView,
    plain: Seq<u8>,
    m: DeviceReplyView,
    on: bool,
    draw: Option<Seq<u8>>,
)
    requires
        host_of(inst) == Some(host),
        args.url is Some,
        contains(args.url->0, "/app/request"@),
        !contains(args.url->0, "/app/handshake1"@),
        !contains(args.url->0, "/app/handshake2"@),
        args.status == Some(200u64),
        stored_session(inst.scratch) == Some(session),
        opened(session, session.seq, args.bytes) == Some(plain),
        reply_of(plain) == Some(m),
        m.error_code is None || m.error_code == Some(0i64),
        m.device_on == Some(on),
    ensures
        ({
            let s = inst.scratch;
            let o = told_of(inst, "http_response"@, args, draw);
            let kept: u64 = if m.brightness is Some && m.brightness->0 < 100 {
                m.brightness->0
            } else {
                100
            };
            let power: int = if s.on == Some(on) {
                0
            } else {
                1
            };
            let level: int = if m.brightness is None || s.level == Some(kept) {
                0
            } else {
                1
            };
            &&& o.calls.len() >= 1 + power + level
            &&& o.calls[0] == (Call::Notify { proxy: 1, change: Change::Online(true) })
            &&& power == 1 ==> o.calls[1] == (Call::Notify { proxy: 1, change: Change::Power(on) })
            &&& level == 1 ==> o.calls[1 + power] == (Call::Notify {
                proxy: 1,
                change: Change::Level(kept),
            })
            &&& forall|i: int|
                1 + power + level <= i < o.calls.len() ==> !(#[trigger] o.calls[i] is Notify)
            &&& o.scratch.on == Some(on)
            &&& o.scratch.level == if m.brightness is None {
                s.level
            } else {
                Some(kept)
            }
        }),
{
    law_a_status_is_sixteen_bits(200);
    law_a_reply_is_taken_for_what_its_url_says(
        inst,
        host,
        "http_response"@,
        args.url->0,
        args,
        draw,
    );
    let s = ScratchView { inflight: Some(false), ..inst.scratch };
    let sent = match s.last {
        Some(text) => text,
        None => Seq::empty(),
    };
    assert(stored_session(s) == stored_session(inst.scratch));
    law_a_state_is_told_whatever_waits(s, host, sent, m, on, draw);
    let a = applied(s, m, sent);
    let f = flushed(a.scratch, host, draw);
    lemma_sending_tells_nothing(a.scratch, host, draw);
    let o = told_of(inst, "http_response"@, args, draw);
    assert(o.calls == a.calls + f.calls);
    assert forall|i: int| a.calls.len() <= i < o.calls.len() implies !(
    #[trigger] o.calls[i] is Notify) by {
        assert(o.calls[i] == f.calls[i - a.calls.len()]);
    }
}

proof fn lemma_sending_tells_nothing(s: ScratchView, host: Seq<char>, draw: Option<Seq<u8>>)
    ensures
        forall|i: int|
            0 <= i < flushed(s, host, draw).calls.len() ==> !(#[trigger] flushed(
                s,
                host,
                draw,
            ).calls[i] is Notify),
        flushed(s, host, draw).scratch.on == s.on,
        flushed(s, host, draw).scratch.level == s.level,
{
}

/// A reply that says nothing of the state tells nothing and changes nothing that is known; where it
/// acknowledges a write, the question for the state is waiting behind it.
pub proof fn law_an_acknowledgement_asks_for_the_state(
    s: ScratchView,
    m: DeviceReplyView,
    sent: Seq<char>,
)
    requires
        m.device_on is None,
    ensures
        applied(s, m, sent).calls.len() == 0,
        !contains(sent, "set_device_info"@) ==> applied(s, m, sent).scratch == s,
        contains(sent, "set_device_info"@) ==> applied(s, m, sent).scratch == (ScratchView {
            queue: if s.queue.contains("{\"method\":\"get_device_info\",\"requestTimeMils\":0}"@) {
                s.queue
            } else {
                s.queue + seq!["{\"method\":\"get_device_info\",\"requestTimeMils\":0}"@]
            },
            ..s
        }),
{
    let q = "{\"method\":\"get_device_info\",\"requestTimeMils\":0}"@;
    assert(s.queue.push(q) =~= s.queue + seq![q]);
}

/// Such a reply is followed by what waits.
pub proof fn law_an_acknowledgement_is_followed_by_what_waits(
    s: ScratchView,
    host: Seq<char>,
    sent: Seq<char>,
    m: DeviceReplyView,
    draw: Option<Seq<u8>>,
)
    requires
        m.error_code is None || m.error_code == Some(0i64),
        m.device_on is None,
    ensures
        message_read(s, host, sent, Some(m), draw).calls == flushed(
            applied(s, m, sent).scratch,
            host,
            draw,
        ).calls,
        message_read(s, host, sent, Some(m), draw).scratch == flushed(
            applied(s, m, sent).scratch,
            host,
            draw,
        ).scratch,
{
    let f = flushed(applied(s, m, sent).scratch, host, draw);
    assert(applied(s, m, sent).calls + f.calls =~= f.calls);
}

/// A refusal is said with its code, changes nothing that is known, and holds nothing up; the code
/// for a forgotten session is no refusal, and starts the session again in silence.
pub proof fn law_a_refusal_is_said_and_the_rest_goes_on(
    s: ScratchView,
    host: Seq<char>,
    sent: Seq<char>,
    m: DeviceReplyView,
    code: i64,
    draw: Option<Seq<u8>>,
)
    requires
        m.error_code == Some(code),
        code != 0,
    ensures
        code != 9999 ==> message_read(s, host, sent, Some(m), draw).calls == seq![
            Call::Log {
                level: "warn"@,
                msg: "tapo: the dimmer refused that ("@ + decimal(code as int) + ")"@,
            },
        ] + flushed(s, host, draw).calls,
        code != 9999 ==> message_read(s, host, sent, Some(m), draw).scratch == flushed(
            s,
            host,
            draw,
        ).scratch,
        code == 9999 ==> message_read(s, host, sent, Some(m), draw) == restarted(
            s,
            host,
            sent,
            draw,
        ),
{
}

/// A reply that cannot be read is said to be one, and the session starts again.
pub proof fn law_what_cannot_be_read_starts_the_session_again(
    s: ScratchView,
    host: Seq<char>,
    sent: Seq<char>,
    draw: Option<Seq<u8>>,
)
    ensures
        message_read(s, host, sent, None, draw).calls == seq![
            Call::Log { level: "warn"@, msg: "tapo: could not read the reply; reconnecting"@ },
        ] + restarted(s, host, sent, draw).calls,
        message_read(s, host, sent, None, draw).scratch == restarted(s, host, sent, draw).scratch,
{
}

/// The reply to a request is opened with the session that is stored, at the number that is stored
/// with it; any status but 200 starts the session again with the request that was out, and where no
/// session is stored it is given up.
pub proof fn law_a_reply_is_opened_with_the_stored_session(
    s: ScratchView,
    host: Seq<char>,
    status: u16,
    body: Seq<u8>,
    sent: Seq<char>,
    draw: Option<Seq<u8>>,
)
    requires
        s.last == Some(sent) || (s.last is None && sent.len() == 0),
    ensures
        status != 200 ==> result_answered(s, host, status, body, draw) == restarted(
            s,
            host,
            sent,
            draw,
        ),
        status == 200 && stored_session(s) is None ==> result_answered(s, host, status, body, draw)
            == gave_up(s, "tapo: a reply arrived with no session to open it"@),
        status == 200 && stored_session(s) is Some ==> result_answered(s, host, status, body, draw)
            == message_read(
            ScratchView { inflight: Some(false), ..s },
            host,
            sent,
            match opened(stored_session(s)->0, (stored_session(s)->0).seq, body) {
                Some(plain) => reply_of(plain),
                None => None,
            },
            draw,
        ),
{
    let t = ScratchView { inflight: Some(false), ..s };
    assert(stored_session(t) == stored_session(s));
    if s.last is None {
        assert(sent =~= Seq::<char>::empty());
    }
    assert(cleared(t) == cleared(s));
}

} // verus!
