//! What each step comes to, as a function of what there was before it.

use vstd::prelude::*;
use vstd::utf8::encode_utf8;
use crate::codec::{hex_text, unhexed};
use crate::dimmer::types::{EventView, InstanceView, Params, ScratchView, GET, HANDSHAKE1, HANDSHAKE2, LIGHT, REQUEST};
use crate::host::{call_list, cookie_among, posted, warning, Call, Change, HostCall};
use crate::klap::{accepted, auth_of, derived, framed, login_proof, next_seq, opened, SessionView};
use crate::reading::{reply_of, DeviceReplyView};
use crate::text::{contains, decimal, trimmed};

verus! {

/// Where a call leaves the scratch, and what it asks the controller to do.
pub struct Outcome {
    pub scratch: ScratchView,
    pub calls: Seq<Call>,
}

/// A call took an instance from `before` to `after` and asked for `calls`, as `outcome` says.
/// Nothing but the scratch is ever written.
pub open spec fn reached(
    before: InstanceView,
    after: InstanceView,
    calls: Seq<HostCall>,
    outcome: Outcome,
) -> bool {
    &&& after == InstanceView { scratch: outcome.scratch, ..before }
    &&& call_list(calls) == outcome.calls
}

/// The address of a device, where one is set.
pub open spec fn host_of(inst: InstanceView) -> Option<Seq<char>> {
    match inst.address {
        Some(address) => if trimmed(address).len() > 0 {
            Some(trimmed(address))
        } else {
            None
        },
        None => None,
    }
}

/// The credential hash of a device, where both halves of the account are set.
pub open spec fn credentials_of(inst: InstanceView) -> Option<Seq<u8>> {
    match (inst.email, inst.password) {
        (Some(email), Some(password)) => if trimmed(email).len() > 0 && password.len() > 0 {
            Some(auth_of(trimmed(email), password))
        } else {
            None
        },
        _ => None,
    }
}

/// A truth value in JSON.
pub open spec fn bool_text(b: bool) -> Seq<char> {
    if b {
        "true"@
    } else {
        "false"@
    }
}

/// The parameters of a write, in JSON.
pub open spec fn params_text(params: Params) -> Seq<char> {
    match params {
        Params::Power(on) => "{\"device_on\":"@ + bool_text(on) + "}"@,
        Params::Level(level) => "{\"brightness\":"@ + decimal(level as int)
            + ",\"device_on\":true}"@,
    }
}

/// The request that writes `params`.
pub open spec fn set_text(params: Params) -> Seq<char> {
    "{\"method\":\"set_device_info\",\"params\":"@ + params_text(params)
        + ",\"requestTimeMils\":0}"@
}

/// What to write for a brightness. Zero is off, and has to be said that way: the switch refuses
/// a brightness of zero and would leave the light at whatever it was, reporting success.
pub open spec fn level_params(level: u64) -> Params {
    if level == 0 {
        Params::Power(false)
    } else if level > 100 {
        Params::Level(100)
    } else {
        Params::Level(level)
    }
}

/// `body` waits its turn, once: the same request twice in the queue is the same answer twice.
pub open spec fn queued(s: ScratchView, body: Seq<char>) -> ScratchView {
    ScratchView {
        queue: if s.queue.contains(body) {
            s.queue
        } else {
            s.queue.push(body)
        },
        ..s
    }
}

/// The session is gone, and whatever was out with it.
pub open spec fn cleared(s: ScratchView) -> ScratchView {
    ScratchView {
        ready: None,
        key: None,
        iv: None,
        sig: None,
        seq: None,
        cookie: None,
        local_seed: None,
        last: None,
        inflight: Some(false),
        ..s
    }
}

/// `n` bytes out of the hexadecimal text they are stored as.
pub open spec fn stored_bytes(text: Option<Seq<char>>, n: nat) -> Option<Seq<u8>> {
    match text {
        Some(t) => match unhexed(t) {
            Some(bytes) => if bytes.len() == n {
                Some(bytes)
            } else {
                None
            },
            None => None,
        },
        None => None,
    }
}

/// The session that is stored, where all of it is.
pub open spec fn stored_session(s: ScratchView) -> Option<SessionView> {
    match (stored_bytes(s.key, 16), stored_bytes(s.iv, 12), stored_bytes(s.sig, 28), s.seq) {
        (Some(key), Some(iv), Some(sig), Some(seq)) => Some(
            SessionView { key, iv, sig, seq: seq as i32 },
        ),
        _ => None,
    }
}

/// The scratch with `session` stored in it.
pub open spec fn with_session(s: ScratchView, session: SessionView) -> ScratchView {
    ScratchView {
        key: Some(hex_text(session.key)),
        iv: Some(hex_text(session.iv)),
        sig: Some(hex_text(session.sig)),
        seq: Some(session.seq as i64),
        ..s
    }
}

/// The path of the request at `seq`.
pub open spec fn request_path(seq: i32) -> Seq<char> {
    REQUEST@ + "?seq="@ + decimal(seq as int)
}

/// A handshake starts, with `seed` for our half of it.
pub open spec fn greeted(s: ScratchView, host: Seq<char>, seed: Seq<u8>) -> Outcome {
    Outcome {
        scratch: ScratchView {
            local_seed: Some(hex_text(seed)),
            inflight: Some(true),
            ready: Some(false),
            cookie: None,
            ..s
        },
        calls: seq![Call::Http(posted(host, HANDSHAKE1@, None, seed))],
    }
}

/// A handshake starts with the seed that was drawn. Without one it does not: a seed that can be
/// guessed is no seed.
pub open spec fn started(s: ScratchView, host: Seq<char>, draw: Option<Seq<u8>>) -> Outcome {
    match draw {
        Some(seed) => greeted(s, host, seed),
        None => gave_up(s, "tapo: no random numbers to start a handshake with"@),
    }
}

/// `body` goes out under the stored session, or waits for the handshake to a new one.
pub open spec fn wired(s: ScratchView, host: Seq<char>, body: Seq<char>, draw: Option<Seq<u8>>) -> Outcome {
    match stored_session(s) {
        None => started(queued(s, body), host, draw),
        Some(session) => {
            let seq = next_seq(session.seq);
            Outcome {
                scratch: ScratchView {
                    inflight: Some(true),
                    last: Some(body),
                    ..with_session(s, SessionView { seq, ..session })
                },
                calls: seq![
                    Call::Http(
                        posted(
                            host,
                            request_path(seq),
                            s.cookie,
                            framed(session, seq, encode_utf8(body)),
                        ),
                    ),
                ],
            }
        },
    }
}

/// `body` is asked for: it goes out, or waits until there is a session to put it on.
pub open spec fn requested(inst: InstanceView, body: Seq<char>, draw: Option<Seq<u8>>) -> Outcome {
    let s = inst.scratch;
    match host_of(inst) {
        None => Outcome {
            scratch: s,
            calls: seq![warning("tapo: set the Address on this dimmer first"@)],
        },
        Some(host) => if credentials_of(inst) is None {
            Outcome {
                scratch: s,
                calls: seq![
                    warning(
                        "tapo: set the Email and Password on this dimmer first — local control is checked against the TP-Link account it was set up with"@,
                    ),
                ],
            }
        } else if s.inflight == Some(true) {
            Outcome { scratch: queued(s, body), calls: Seq::empty() }
        } else if s.ready != Some(true) {
            started(queued(s, body), host, draw)
        } else {
            wired(s, host, body, draw)
        },
    }
}

/// The next request in the queue goes out, if the session is idle.
pub open spec fn flushed(s: ScratchView, host: Seq<char>, draw: Option<Seq<u8>>) -> Outcome {
    if s.ready != Some(true) || s.inflight == Some(true) || s.queue.len() == 0 {
        Outcome { scratch: s, calls: Seq::empty() }
    } else {
        wired(ScratchView { queue: s.queue.drop_first(), ..s }, host, s.queue[0], draw)
    }
}

/// It stops, says why, and leaves nothing half-open.
pub open spec fn gave_up(s: ScratchView, why: Seq<char>) -> Outcome {
    Outcome {
        scratch: ScratchView { queue: Seq::empty(), ..cleared(s) },
        calls: seq![warning(why)],
    }
}

/// The session is gone; `sent` is kept, and a new handshake starts.
pub open spec fn restarted(
    s: ScratchView,
    host: Seq<char>,
    sent: Seq<char>,
    draw: Option<Seq<u8>>,
) -> Outcome {
    started(
        if sent.len() > 0 {
            queued(cleared(s), sent)
        } else {
            cleared(s)
        },
        host,
        draw,
    )
}

/// The reply to the first handshake.
pub open spec fn handshake1_answered(
    inst: InstanceView,
    host: Seq<char>,
    status: u16,
    body: Seq<u8>,
    headers: Seq<(Seq<char>, Seq<char>)>,
) -> Outcome {
    let s = ScratchView { inflight: Some(false), ..inst.scratch };
    let seed = match s.local_seed {
        Some(text) => unhexed(text),
        None => None,
    };
    match (seed, credentials_of(inst)) {
        (Some(seed), Some(auth)) => if seed.len() != 16 {
            gave_up(s, "tapo: the stored local seed is the wrong size"@)
        } else if status != 200 {
            gave_up(
                s,
                "tapo: the dimmer refused the handshake ("@ + decimal(status as int) + ")"@,
            )
        } else {
            handshake1_judged(s, host, seed, auth, accepted(seed, auth, body), headers)
        },
        _ => gave_up(s, "tapo: no local seed to check the handshake against"@),
    }
}

/// The first handshake was answered with `remote`, or with nothing that vouches for the account.
///
/// In the latter case the device computed its half from the credentials it was set up with and
/// got a different answer. Nothing about retrying helps.
pub open spec fn handshake1_judged(
    s: ScratchView,
    host: Seq<char>,
    local: Seq<u8>,
    auth: Seq<u8>,
    remote: Option<Seq<u8>>,
    headers: Seq<(Seq<char>, Seq<char>)>,
) -> Outcome {
    match remote {
        None => gave_up(
            s,
            "tapo: the dimmer did not accept this TP-Link account — check the Email and Password, which are the account's, not the Wi-Fi's"@,
        ),
        Some(remote) => {
            let cookie = match cookie_among(headers) {
                Some(id) => Some(id),
                None => s.cookie,
            };
            Outcome {
                scratch: with_session(
                    ScratchView { cookie, inflight: Some(true), ..s },
                    derived(local, remote, auth),
                ),
                calls: seq![
                    Call::Http(posted(host, HANDSHAKE2@, cookie, login_proof(local, remote, auth))),
                ],
            }
        },
    }
}

/// The reply to the second handshake.
pub open spec fn handshake2_answered(
    s: ScratchView,
    host: Seq<char>,
    status: u16,
    draw: Option<Seq<u8>>,
) -> Outcome {
    let s = ScratchView { inflight: Some(false), ..s };
    if status != 200 {
        gave_up(s, "tapo: the dimmer rejected the login ("@ + decimal(status as int) + ")"@)
    } else {
        flushed(ScratchView { ready: Some(true), ..s }, host, draw)
    }
}

/// The reply to a request.
pub open spec fn result_answered(
    s: ScratchView,
    host: Seq<char>,
    status: u16,
    body: Seq<u8>,
    draw: Option<Seq<u8>>,
) -> Outcome {
    let s = ScratchView { inflight: Some(false), ..s };
    let sent = match s.last {
        Some(text) => text,
        None => Seq::empty(),
    };
    if status != 200 {
        restarted(s, host, sent, draw)
    } else {
        match stored_session(s) {
            None => gave_up(s, "tapo: a reply arrived with no session to open it"@),
            Some(session) => message_read(
                s,
                host,
                sent,
                match opened(session, session.seq, body) {
                    Some(plain) => reply_of(plain),
                    None => None,
                },
                draw,
            ),
        }
    }
}

/// What was read out of the reply to `sent`, or nothing where it could not be read.
pub open spec fn message_read(
    s: ScratchView,
    host: Seq<char>,
    sent: Seq<char>,
    message: Option<DeviceReplyView>,
    draw: Option<Seq<u8>>,
) -> Outcome {
    match message {
        None => {
            let o = restarted(s, host, sent, draw);
            Outcome {
                scratch: o.scratch,
                calls: seq![warning("tapo: could not read the reply; reconnecting"@)] + o.calls,
            }
        },
        Some(m) => {
            let code: i64 = match m.error_code {
                Some(code) => code,
                None => 0,
            };
            if code == 9999 {
                restarted(s, host, sent, draw)
            } else {
                let o = if code == 0 {
                    applied(s, m, sent)
                } else {
                    Outcome {
                        scratch: s,
                        calls: seq![
                            warning(
                                "tapo: the dimmer refused that ("@ + decimal(code as int) + ")"@,
                            ),
                        ],
                    }
                };
                let f = flushed(o.scratch, host, draw);
                Outcome { scratch: f.scratch, calls: o.calls + f.calls }
            }
        },
    }
}

/// The call that tells the controller of a change to the light.
pub open spec fn told(change: Change) -> Call {
    Call::Notify { proxy: LIGHT, change }
}

/// The brightness that a reply reports.
pub open spec fn level_in(m: DeviceReplyView) -> Option<u64> {
    match m.brightness {
        Some(b) => Some(
            if b > 100 {
                100
            } else {
                b
            },
        ),
        None => None,
    }
}

/// A reply without a complaint in it: the state that it reports, or, for the bare
/// acknowledgement that a write gives, a read queued behind it.
pub open spec fn applied(s: ScratchView, m: DeviceReplyView, sent: Seq<char>) -> Outcome {
    match m.device_on {
        None => Outcome {
            scratch: if contains(sent, "set_device_info"@) {
                queued(s, GET@)
            } else {
                s
            },
            calls: Seq::empty(),
        },
        Some(on) => {
            let read = ScratchView {
                level: match level_in(m) {
                    Some(level) => Some(level),
                    None => s.level,
                },
                on: Some(on),
                after_read: None,
                ..s
            };
            Outcome {
                scratch: if s.after_read == Some("toggle"@) {
                    queued(read, set_text(Params::Power(!on)))
                } else {
                    read
                },
                calls: seq![told(Change::Online(true))] + power_calls(s, on) + level_calls(
                    s,
                    level_in(m),
                ),
            }
        },
    }
}

/// What is said of the power: nothing, where it is what it was.
pub open spec fn power_calls(s: ScratchView, on: bool) -> Seq<Call> {
    if s.on != Some(on) {
        seq![told(Change::Power(on))]
    } else {
        Seq::empty()
    }
}

/// What is said of the brightness: nothing, where it is what it was or was not reported.
pub open spec fn level_calls(s: ScratchView, level: Option<u64>) -> Seq<Call> {
    match level {
        Some(level) => if s.level != Some(level) {
            seq![told(Change::Level(level))]
        } else {
            Seq::empty()
        },
        None => Seq::empty(),
    }
}

/// Somebody asks where the device stands.
pub open spec fn bound(inst: InstanceView, draw: Option<Seq<u8>>) -> Outcome {
    if host_of(inst) is None && inst.email is Some {
        Outcome { scratch: inst.scratch, calls: Seq::empty() }
    } else {
        requested(
            InstanceView {
                scratch: ScratchView {
                    inflight: None,
                    after_read: None,
                    queue: Seq::empty(),
                    ..inst.scratch
                },
                ..inst
            },
            GET@,
            draw,
        )
    }
}

/// Somebody wants the light to do something.
pub open spec fn commanded(
    inst: InstanceView,
    cmd: Seq<char>,
    level: Option<u64>,
    draw: Option<Seq<u8>>,
) -> Outcome {
    let s = inst.scratch;
    if cmd == "on"@ {
        requested(inst, set_text(Params::Power(true)), draw)
    } else if cmd == "off"@ {
        requested(inst, set_text(Params::Power(false)), draw)
    } else if cmd == "toggle"@ {
        match s.on {
            Some(on) => requested(inst, set_text(Params::Power(!on)), draw),
            None => requested(
                InstanceView {
                    scratch: ScratchView { after_read: Some("toggle"@), ..s },
                    ..inst
                },
                GET@,
                draw,
            ),
        }
    } else if cmd == "set_level"@ {
        match level {
            Some(level) => requested(inst, set_text(level_params(level)), draw),
            None => Outcome {
                scratch: s,
                calls: seq![warning("tapo: set_level needs a level"@)],
            },
        }
    } else if cmd == "ramp_start"@ || cmd == "ramp_stop"@ {
        Outcome {
            scratch: s,
            calls: seq![warning("tapo: this dimmer has no continuous ramp — use set_level"@)],
        }
    } else {
        Outcome { scratch: s, calls: seq![warning("tapo: unhandled `"@ + cmd + "`"@)] }
    }
}

/// The status of a reply.
pub open spec fn status_in(status: Option<u64>) -> u16 {
    match status {
        Some(n) => n as u16,
        None => 0,
    }
}

/// Something arrived.
pub open spec fn told_of(
    inst: InstanceView,
    note: Seq<char>,
    args: EventView,
    draw: Option<Seq<u8>>,
) -> Outcome {
    let s = inst.scratch;
    let nothing = Outcome { scratch: s, calls: Seq::empty() };
    let url = match args.url {
        Some(url) => url,
        None => Seq::empty(),
    };
    let status = status_in(args.status);
    match host_of(inst) {
        Some(host) => if note != "http_response"@ {
            nothing
        } else if contains(url, HANDSHAKE1@) {
            handshake1_answered(inst, host, status, args.bytes, args.headers)
        } else if contains(url, HANDSHAKE2@) {
            handshake2_answered(s, host, status, draw)
        } else if contains(url, REQUEST@) {
            result_answered(s, host, status, args.bytes, draw)
        } else {
            nothing
        },
        None => nothing,
    }
}

} // verus!
