//! The driver: requests, replies, and what the controller calls.

use vstd::prelude::*;
use vstd::utf8::encode_utf8;
use crate::bytes::exactly;
use crate::codec::{hex, unhex};
use crate::dimmer::steps::{applied, bound, cleared, commanded, credentials_of, flushed, gave_up, handshake1_answered, handshake1_judged, handshake2_answered, host_of, level_calls, level_in, message_read, power_calls, queued, reached, request_path, requested, restarted, result_answered, set_text, started, stored_bytes, stored_session, told, told_of, wired, with_session};
use crate::dimmer::types::{CommandArgs, EventArgs, Instance, InstanceView, Params, ScratchView, Tapo, GET, HANDSHAKE1, HANDSHAKE2, LIGHT, REQUEST};
use crate::host::{add_call, add_calls, call_list, cookie_among, cookie_in, no_calls, one_call, posted, Call, Change, HostCall, HttpRequest, LocalId};
use crate::klap::{accept_handshake1, auth_hash, framed, handshake2, is_draw, local_seed, next_seq, opened, seed_option, Session, SessionView};
use crate::reading::{read_reply, reply_option, DeviceReply};
use crate::text::{decimal, decimal_i64, decimal_u64, has, text_list, text_option, trim};

verus! {

/// Whether `body` is already waiting.
fn waiting(queue: &Vec<String>, body: &str) -> (r: bool)
    ensures
        r == text_list(queue@).contains(body@),
{
    let ghost all = text_list(queue@);
    let mut i: usize = 0;
    while i < queue.len()
        invariant
            all == text_list(queue@),
            i <= queue@.len(),
            forall|k: int| 0 <= k < i ==> all[k] != body@,
        decreases queue@.len() - i,
    {
        proof {
            assert(all[i as int] == queue@[i as int]@);
        }
        if *queue[i].as_str() == *body {
            return true;
        }
        i += 1;
    }
    false
}

/// The text inside, where there is one.
fn borrowed(text: &Option<String>) -> (r: Option<&str>)
    ensures
        match r {
            Some(t) => text_option(*text) == Some(t@),
            None => text_option(*text) is None,
        },
{
    match text {
        Some(t) => Some(t.as_str()),
        None => None,
    }
}

/// `N` bytes out of the hexadecimal text they are stored as.
pub fn stored<const N: usize>(text: &Option<String>) -> (r: Option<[u8; N]>)
    ensures
        match r {
            Some(bytes) => stored_bytes(text_option(*text), N as nat) == Some(bytes@),
            None => stored_bytes(text_option(*text), N as nat) is None,
        },
{
    match text {
        Some(t) => match unhex(t.as_str()) {
            Some(bytes) => exactly(bytes.as_slice()),
            None => None,
        },
        None => None,
    }
}

/// `before`, a status or a code, and `after`.
pub fn numbered(before: &str, number: i64, after: &str) -> (r: String)
    ensures
        r@ == before@ + decimal(number as int) + after@,
{
    let mut r: String = before.to_owned();
    r.append(decimal_i64(number).as_str());
    r.append(after);
    r
}

/// The path of the request at `seq`.
pub fn path_of(seq: i32) -> (r: String)
    ensures
        r@ == request_path(seq),
{
    let mut path: String = REQUEST.to_owned();
    path.append("?seq=");
    path.append(decimal_i64(seq as i64).as_str());
    path
}

impl Tapo {
    /// The address of a device, where one is set.
    pub fn host(inst: &Instance) -> (r: Option<String>)
        ensures
            text_option(r) == host_of(inst@),
    {
        match &inst.address {
            Some(address) => {
                let address: String = trim(address.as_str());
                if address.as_str().is_empty() {
                    None
                } else {
                    Some(address)
                }
            },
            None => None,
        }
    }

    /// The credential hash of a device, where both halves of the account are set.
    pub fn auth(inst: &Instance) -> (r: Option<[u8; 32]>)
        ensures
            match r {
                Some(auth) => credentials_of(inst@) == Some(auth@),
                None => credentials_of(inst@) is None,
            },
    {
        match (&inst.email, &inst.password) {
            (Some(email), Some(password)) => {
                let email: String = trim(email.as_str());
                if email.as_str().is_empty() || password.as_str().is_empty() {
                    None
                } else {
                    Some(auth_hash(email.as_str(), password.as_str()))
                }
            },
            _ => None,
        }
    }

    /// The request that writes `params`.
    pub fn set(params: Params) -> (r: String)
        ensures
            r@ == set_text(params),
    {
        let inner: String = match params {
            Params::Power(on) => {
                let mut t: String = "{\"device_on\":".to_owned();
                t.append(
                    if on {
                        "true"
                    } else {
                        "false"
                    },
                );
                t.append("}");
                t
            },
            Params::Level(level) => {
                let mut t: String = "{\"brightness\":".to_owned();
                t.append(decimal_u64(level).as_str());
                t.append(",\"device_on\":true}");
                t
            },
        };
        let mut r: String = "{\"method\":\"set_device_info\",\"params\":".to_owned();
        r.append(inner.as_str());
        r.append(",\"requestTimeMils\":0}");
        r
    }

    /// One POST, with the session cookie if there is one yet.
    pub fn post(host: &str, path: &str, cookie: Option<&str>, body: Vec<u8>) -> (r: HostCall)
        ensures
            r@ == Call::Http(
                posted(
                    host@,
                    path@,
                    match cookie {
                        Some(id) => Some(id@),
                        None => None,
                    },
                    body@,
                ),
            ),
    {
        HostCall::Http(HttpRequest::post(host, path, cookie, body))
    }

    // -- scratch -----------------------------------------------------------------------

    /// Put `body` in the queue, unless it is there already.
    pub fn push(inst: &mut Instance, body: String)
        ensures
            final(inst)@ == (InstanceView {
                scratch: queued(old(inst)@.scratch, body@),
                ..old(inst)@
            }),
    {
        if !waiting(&inst.scratch.queue, body.as_str()) {
            inst.scratch.queue.push(body);
            proof {
                assert(inst@.scratch.queue =~= old(inst)@.scratch.queue.push(body@));
            }
        }
    }

    /// Take the request at the head of the queue.
    pub fn pop(inst: &mut Instance) -> (r: Option<String>)
        ensures
            match r {
                Some(body) => {
                    &&& old(inst)@.scratch.queue.len() > 0
                    &&& body@ == old(inst)@.scratch.queue[0]
                    &&& final(inst)@ == (InstanceView {
                        scratch: ScratchView {
                            queue: old(inst)@.scratch.queue.drop_first(),
                            ..old(inst)@.scratch
                        },
                        ..old(inst)@
                    })
                },
                None => old(inst)@.scratch.queue.len() == 0 && final(inst)@ == old(inst)@,
            },
    {
        if inst.scratch.queue.len() == 0 {
            return None;
        }
        let head: String = inst.scratch.queue.remove(0);
        proof {
            assert(inst@.scratch.queue =~= old(inst)@.scratch.queue.drop_first());
        }
        Some(head)
    }

    /// The session that is stored, where all of it is.
    pub fn session(inst: &Instance) -> (r: Option<Session>)
        ensures
            match r {
                Some(session) => {
                    &&& stored_session(inst@.scratch) == Some(session@)
                    &&& session@.well_formed()
                },
                None => stored_session(inst@.scratch) is None,
            },
    {
        let key: Option<[u8; 16]> = stored(&inst.scratch.key);
        let iv: Option<[u8; 12]> = stored(&inst.scratch.iv);
        let sig: Option<[u8; 28]> = stored(&inst.scratch.sig);
        match (key, iv, sig, inst.scratch.seq) {
            (Some(key), Some(iv), Some(sig), Some(seq)) => Some(
                Session::restore(key, iv, sig, seq as i32),
            ),
            _ => None,
        }
    }

    /// Store a session.
    pub fn save_session(inst: &mut Instance, session: &Session)
        ensures
            final(inst)@ == (InstanceView {
                scratch: with_session(old(inst)@.scratch, session@),
                ..old(inst)@
            }),
    {
        let (key, iv, sig): ([u8; 16], [u8; 12], [u8; 28]) = session.parts();
        inst.scratch.key = Some(hex(key.as_slice()));
        inst.scratch.iv = Some(hex(iv.as_slice()));
        inst.scratch.sig = Some(hex(sig.as_slice()));
        inst.scratch.seq = Some(session.sequence() as i64);
    }

    /// Forget the session, and whatever was out with it.
    pub fn clear_session(inst: &mut Instance)
        ensures
            final(inst)@ == (InstanceView { scratch: cleared(old(inst)@.scratch), ..old(inst)@ }),
    {
        inst.scratch.ready = None;
        inst.scratch.key = None;
        inst.scratch.iv = None;
        inst.scratch.sig = None;
        inst.scratch.seq = None;
        inst.scratch.cookie = None;
        inst.scratch.local_seed = None;
        inst.scratch.last = None;
        inst.scratch.inflight = Some(false);
    }

    // -- requests ----------------------------------------------------------------------

    /// Start a handshake with the seed that was drawn, or say that there is none.
    pub fn greet_with(inst: &mut Instance, host: &str, seed: Option<[u8; 16]>) -> (r: Vec<HostCall>)
        ensures
            reached(
                old(inst)@,
                final(inst)@,
                r@,
                started(old(inst)@.scratch, host@, seed_option(seed)),
            ),
    {
        let seed: [u8; 16] = match seed {
            Some(seed) => seed,
            None => {
                return Self::give_up(
                    inst,
                    "tapo: no random numbers to start a handshake with".to_owned(),
                );
            },
        };
        inst.scratch.local_seed = Some(hex(seed.as_slice()));
        inst.scratch.inflight = Some(true);
        inst.scratch.ready = Some(false);
        inst.scratch.cookie = None;
        one_call(
            Self::post(host, HANDSHAKE1, None, vstd::slice::slice_to_vec(seed.as_slice())),
        )
    }

    /// Start a handshake with a fresh seed.
    pub fn handshake(inst: &mut Instance, host: &str) -> (r: Vec<HostCall>)
        ensures
            exists|draw: Option<Seq<u8>>|
                is_draw(draw) && reached(
                    old(inst)@,
                    final(inst)@,
                    r@,
                    #[trigger] started(old(inst)@.scratch, host@, draw),
                ),
    {
        Self::greet_with(inst, host, local_seed())
    }

    /// Encrypt and send. The session is read from the scratch each time because a reply may have
    /// replaced it since the last one.
    ///
    /// A switch that holds the same key and vector reads `body` out of what is sent.
    pub fn wire(inst: &mut Instance, host: &str, body: String) -> (r: Vec<HostCall>)
        ensures
            exists|draw: Option<Seq<u8>>|
                is_draw(draw) && reached(
                    old(inst)@,
                    final(inst)@,
                    r@,
                    #[trigger] wired(old(inst)@.scratch, host@, body@, draw),
                ),
            stored_session(old(inst)@.scratch) matches Some(session) ==> (forall|
                peer: SessionView,
            |
                peer.key == session.key && peer.iv == session.iv ==> #[trigger] opened(
                    peer,
                    next_seq(session.seq),
                    framed(session, next_seq(session.seq), encode_utf8(body@)),
                ) == Some(encode_utf8(body@))),
    {
        let ghost before = inst@;
        match Self::session(inst) {
            None => {
                // Ready without a session is not a state that should happen; treating it as "no
                // session" rather than dropping the request is the recovery.
                Self::push(inst, body);
                let r: Vec<HostCall> = Self::handshake(inst, host);
                proof {
                    let draw = choose|draw: Option<Seq<u8>>|
                        is_draw(draw) && reached(
                            before,
                            inst@,
                            r@,
                            #[trigger] started(queued(before.scratch, body@), host@, draw),
                        );
                    assert(reached(before, inst@, r@, wired(before.scratch, host@, body@, draw)));
                }
                r
            },
            Some(session) => {
                let mut session: Session = session;
                let (seq, frame): (i32, Vec<u8>) = session.encrypt(body.as_str().as_bytes());
                Self::save_session(inst, &session);
                inst.scratch.inflight = Some(true);
                inst.scratch.last = Some(body);
                let path: String = path_of(seq);
                let r: Vec<HostCall> = one_call(
                    Self::post(host, path.as_str(), borrowed(&inst.scratch.cookie), frame),
                );
                proof {
                    assert(reached(
                        before,
                        inst@,
                        r@,
                        wired(before.scratch, host@, body@, None),
                    ));
                }
                r
            },
        }
    }

    /// Put one request on the wire, or hold it until there is a session to put it on.
    pub fn request(inst: &mut Instance, body: String) -> (r: Vec<HostCall>)
        ensures
            exists|draw: Option<Seq<u8>>|
                is_draw(draw) && reached(
                    old(inst)@,
                    final(inst)@,
                    r@,
                    #[trigger] requested(old(inst)@, body@, draw),
                ),
    {
        let ghost before = inst@;
        let host: String = match Self::host(inst) {
            Some(host) => host,
            None => {
                let r: Vec<HostCall> = one_call(
                    HostCall::warn("tapo: set the Address on this dimmer first".to_owned()),
                );
                proof {
                    assert(reached(before, inst@, r@, requested(before, body@, None)));
                }
                return r;
            },
        };
        if Self::auth(inst).is_none() {
            let r: Vec<HostCall> = one_call(
                HostCall::warn(
                    "tapo: set the Email and Password on this dimmer first — local control is checked against the TP-Link account it was set up with".to_owned(),
                ),
            );
            proof {
                assert(reached(before, inst@, r@, requested(before, body@, None)));
            }
            return r;
        }
        let ready: bool = inst.scratch.ready == Some(true);
        let busy: bool = inst.scratch.inflight == Some(true);
        if busy {
            Self::push(inst, body);
            let r: Vec<HostCall> = no_calls();
            proof {
                assert(reached(before, inst@, r@, requested(before, body@, None)));
            }
            r
        } else if !ready {
            // No session and nothing on its way to getting one: this is the request that starts
            // the handshake.
            Self::push(inst, body);
            let r: Vec<HostCall> = Self::handshake(inst, host.as_str());
            proof {
                let draw = choose|draw: Option<Seq<u8>>|
                    is_draw(draw) && reached(
                        before,
                        inst@,
                        r@,
                        #[trigger] started(queued(before.scratch, body@), host@, draw),
                    );
                assert(reached(before, inst@, r@, requested(before, body@, draw)));
            }
            r
        } else {
            let r: Vec<HostCall> = Self::wire(inst, host.as_str(), body);
            proof {
                let draw = choose|draw: Option<Seq<u8>>|
                    is_draw(draw) && reached(
                        before,
                        inst@,
                        r@,
                        #[trigger] wired(before.scratch, host@, body@, draw),
                    );
                assert(reached(before, inst@, r@, requested(before, body@, draw)));
            }
            r
        }
    }

    /// Send the next queued request, if the session is idle.
    pub fn flush(inst: &mut Instance, host: &str) -> (r: Vec<HostCall>)
        ensures
            exists|draw: Option<Seq<u8>>|
                is_draw(draw) && reached(
                    old(inst)@,
                    final(inst)@,
                    r@,
                    #[trigger] flushed(old(inst)@.scratch, host@, draw),
                ),
    {
        let ghost before = inst@;
        if inst.scratch.ready != Some(true) || inst.scratch.inflight == Some(true) {
            let r: Vec<HostCall> = no_calls();
            proof {
                assert(reached(before, inst@, r@, flushed(before.scratch, host@, None)));
            }
            return r;
        }
        match Self::pop(inst) {
            Some(body) => {
                let ghost popped = inst@;
                let r: Vec<HostCall> = Self::wire(inst, host, body);
                proof {
                    let draw = choose|draw: Option<Seq<u8>>|
                        is_draw(draw) && reached(
                            popped,
                            inst@,
                            r@,
                            #[trigger] wired(popped.scratch, host@, body@, draw),
                        );
                    assert(reached(before, inst@, r@, flushed(before.scratch, host@, draw)));
                }
                r
            },
            None => {
                let r: Vec<HostCall> = no_calls();
                proof {
                    assert(reached(before, inst@, r@, flushed(before.scratch, host@, None)));
                }
                r
            },
        }
    }

    /// Stop, say why, and leave nothing half-open. The next poll starts clean.
    pub fn give_up(inst: &mut Instance, why: String) -> (r: Vec<HostCall>)
        ensures
            reached(old(inst)@, final(inst)@, r@, gave_up(old(inst)@.scratch, why@)),
    {
        Self::clear_session(inst);
        inst.scratch.queue = Vec::new();
        proof {
            assert(inst@.scratch.queue =~= Seq::<Seq<char>>::empty());
        }
        one_call(HostCall::warn(why))
    }

    /// Forget the session, keep `sent`, and start a new handshake.
    pub fn restart(inst: &mut Instance, host: &str, sent: String) -> (r: Vec<HostCall>)
        ensures
            exists|draw: Option<Seq<u8>>|
                is_draw(draw) && reached(
                    old(inst)@,
                    final(inst)@,
                    r@,
                    #[trigger] restarted(old(inst)@.scratch, host@, sent@, draw),
                ),
    {
        let ghost before = inst@;
        Self::clear_session(inst);
        if !sent.as_str().is_empty() {
            Self::push(inst, sent);
        }
        let ghost kept = inst@;
        let r: Vec<HostCall> = Self::handshake(inst, host);
        proof {
            let draw = choose|draw: Option<Seq<u8>>|
                is_draw(draw) && reached(
                    kept,
                    inst@,
                    r@,
                    #[trigger] started(kept.scratch, host@, draw),
                );
            assert(reached(before, inst@, r@, restarted(before.scratch, host@, sent@, draw)));
        }
        r
    }
}

// ---------------------------------------------------------------------------------------
// What a reply means
// ---------------------------------------------------------------------------------------

/// `TP_SESSIONID` out of a response's headers, which is where a Tapo issues it.
pub fn session_cookie(args: &EventArgs) -> (r: Option<String>)
    ensures
        text_option(r) == cookie_among(args@.headers),
{
    cookie_in(&args.headers)
}

impl Tapo {
    /// The reply to the first handshake: check that the device holds the account, derive the
    /// session, and send our half of the proof.
    pub fn on_handshake1(
        inst: &mut Instance,
        host: &str,
        status: u16,
        body: &[u8],
        args: &EventArgs,
    ) -> (r: Vec<HostCall>)
        ensures
            reached(
                old(inst)@,
                final(inst)@,
                r@,
                handshake1_answered(old(inst)@, host@, status, body@, args@.headers),
            ),
    {
        inst.scratch.inflight = Some(false);
        let seed: Option<Vec<u8>> = match &inst.scratch.local_seed {
            Some(text) => unhex(text.as_str()),
            None => None,
        };
        let (seed, auth): (Vec<u8>, [u8; 32]) = match (seed, Self::auth(inst)) {
            (Some(seed), Some(auth)) => (seed, auth),
            _ => {
                return Self::give_up(
                    inst,
                    "tapo: no local seed to check the handshake against".to_owned(),
                );
            },
        };
        let seed: [u8; 16] = match exactly(seed.as_slice()) {
            Some(seed) => seed,
            None => {
                return Self::give_up(
                    inst,
                    "tapo: the stored local seed is the wrong size".to_owned(),
                );
            },
        };
        if status != 200 {
            return Self::give_up(
                inst,
                numbered("tapo: the dimmer refused the handshake (", status as i64, ")"),
            );
        }
        let remote: Option<[u8; 16]> = accept_handshake1(&seed, &auth, body);
        Self::on_remote(inst, host, &seed, &auth, remote, args)
    }

    /// The first handshake was answered with `remote`, or with nothing that vouches for the
    /// account: derive the session and send our half of the proof, or stop.
    pub fn on_remote(
        inst: &mut Instance,
        host: &str,
        local: &[u8; 16],
        auth: &[u8; 32],
        remote: Option<[u8; 16]>,
        args: &EventArgs,
    ) -> (r: Vec<HostCall>)
        ensures
            reached(
                old(inst)@,
                final(inst)@,
                r@,
                handshake1_judged(
                    old(inst)@.scratch,
                    host@,
                    local@,
                    auth@,
                    seed_option(remote),
                    args@.headers,
                ),
            ),
    {
        let remote: [u8; 16] = match remote {
            Some(remote) => remote,
            None => {
                return Self::give_up(
                    inst,
                    "tapo: the dimmer did not accept this TP-Link account — check the Email and Password, which are the account's, not the Wi-Fi's".to_owned(),
                );
            },
        };
        if let Some(id) = session_cookie(args) {
            inst.scratch.cookie = Some(id);
        }
        Self::save_session(inst, &Session::derive(local, &remote, auth));
        inst.scratch.inflight = Some(true);
        let login: [u8; 32] = handshake2(local, &remote, auth);
        one_call(
            Self::post(
                host,
                HANDSHAKE2,
                borrowed(&inst.scratch.cookie),
                vstd::slice::slice_to_vec(login.as_slice()),
            ),
        )
    }

    /// The reply to the second handshake: the session is up, so whatever waits for it goes out.
    pub fn on_handshake2(inst: &mut Instance, host: &str, status: u16) -> (r: Vec<HostCall>)
        ensures
            exists|draw: Option<Seq<u8>>|
                is_draw(draw) && reached(
                    old(inst)@,
                    final(inst)@,
                    r@,
                    #[trigger] handshake2_answered(old(inst)@.scratch, host@, status, draw),
                ),
    {
        let ghost before = inst@;
        inst.scratch.inflight = Some(false);
        if status != 200 {
            let r: Vec<HostCall> = Self::give_up(
                inst,
                numbered("tapo: the dimmer rejected the login (", status as i64, ")"),
            );
            proof {
                assert(reached(
                    before,
                    inst@,
                    r@,
                    handshake2_answered(before.scratch, host@, status, None),
                ));
            }
            return r;
        }
        inst.scratch.ready = Some(true);
        let ghost up = inst@;
        let r: Vec<HostCall> = Self::flush(inst, host);
        proof {
            let draw = choose|draw: Option<Seq<u8>>|
                is_draw(draw) && reached(
                    up,
                    inst@,
                    r@,
                    #[trigger] flushed(up.scratch, host@, draw),
                );
            assert(reached(
                before,
                inst@,
                r@,
                handshake2_answered(before.scratch, host@, status, draw),
            ));
        }
        r
    }

    /// The reply to a request.
    ///
    /// Anything but a 200 is what a Tapo says when it has forgotten the session: a reboot, or a
    /// long enough silence. Handshake again and send the same thing, rather than losing it.
    ///
    /// The JSON parse is the integrity check, not the decryption, as [`Session::decrypt`] says.
    /// A reply matched to the wrong number comes back as noise, so this is where a session that
    /// has slipped out of step is caught, and every reply after it would slip too.
    pub fn on_result(inst: &mut Instance, host: &str, status: u16, body: &[u8]) -> (r: Vec<
        HostCall,
    >)
        ensures
            exists|draw: Option<Seq<u8>>|
                is_draw(draw) && reached(
                    old(inst)@,
                    final(inst)@,
                    r@,
                    #[trigger] result_answered(old(inst)@.scratch, host@, status, body@, draw),
                ),
    {
        let ghost before = inst@;
        inst.scratch.inflight = Some(false);
        let sent: String = match &inst.scratch.last {
            Some(text) => text.clone(),
            None => String::new(),
        };
        let ghost idle = inst@;
        proof {
            assert(idle.scratch.last is None ==> sent@ =~= Seq::<char>::empty());
        }
        if status != 200 {
            let r: Vec<HostCall> = Self::restart(inst, host, sent);
            proof {
                let draw = choose|draw: Option<Seq<u8>>|
                    is_draw(draw) && reached(
                        idle,
                        inst@,
                        r@,
                        #[trigger] restarted(idle.scratch, host@, sent@, draw),
                    );
                assert(reached(
                    before,
                    inst@,
                    r@,
                    result_answered(before.scratch, host@, status, body@, draw),
                ));
            }
            return r;
        }
        let session: Session = match Self::session(inst) {
            Some(session) => session,
            None => {
                let r: Vec<HostCall> = Self::give_up(
                    inst,
                    "tapo: a reply arrived with no session to open it".to_owned(),
                );
                proof {
                    assert(reached(
                        before,
                        inst@,
                        r@,
                        result_answered(before.scratch, host@, status, body@, None),
                    ));
                }
                return r;
            },
        };
        let message: Option<DeviceReply> = match session.decrypt(session.sequence(), body) {
            Some(plain) => read_reply(plain.as_slice()),
            None => None,
        };
        let r: Vec<HostCall> = Self::on_message(inst, host, sent, message);
        proof {
            let draw = choose|draw: Option<Seq<u8>>|
                is_draw(draw) && reached(
                    idle,
                    inst@,
                    r@,
                    #[trigger] message_read(
                        idle.scratch,
                        host@,
                        sent@,
                        reply_option(message),
                        draw,
                    ),
                );
            assert(reached(
                before,
                inst@,
                r@,
                result_answered(before.scratch, host@, status, body@, draw),
            ));
        }
        r
    }

    /// What was read out of the reply to `sent`, or nothing where it could not be read.
    pub fn on_message(
        inst: &mut Instance,
        host: &str,
        sent: String,
        message: Option<DeviceReply>,
    ) -> (r: Vec<HostCall>)
        ensures
            exists|draw: Option<Seq<u8>>|
                is_draw(draw) && reached(
                    old(inst)@,
                    final(inst)@,
                    r@,
                    #[trigger] message_read(
                        old(inst)@.scratch,
                        host@,
                        sent@,
                        reply_option(message),
                        draw,
                    ),
                ),
    {
        let ghost before = inst@;
        let ghost read = reply_option(message);
        let message: DeviceReply = match message {
            Some(message) => message,
            None => {
                let mut r: Vec<HostCall> = one_call(
                    HostCall::warn("tapo: could not read the reply; reconnecting".to_owned()),
                );
                let more: Vec<HostCall> = Self::restart(inst, host, sent);
                let ghost ms = more@;
                add_calls(&mut r, more);
                proof {
                    let draw = choose|draw: Option<Seq<u8>>|
                        is_draw(draw) && reached(
                            before,
                            inst@,
                            ms,
                            #[trigger] restarted(before.scratch, host@, sent@, draw),
                        );
                    assert(reached(
                        before,
                        inst@,
                        r@,
                        message_read(before.scratch, host@, sent@, read, draw),
                    ));
                }
                return r;
            },
        };
        let code: i64 = match message.error_code {
            Some(code) => code,
            None => 0,
        };
        if code == 9999 {
            // The session expired between the handshake and now.
            let r: Vec<HostCall> = Self::restart(inst, host, sent);
            proof {
                let draw = choose|draw: Option<Seq<u8>>|
                    is_draw(draw) && reached(
                        before,
                        inst@,
                        r@,
                        #[trigger] restarted(before.scratch, host@, sent@, draw),
                    );
                assert(reached(
                    before,
                    inst@,
                    r@,
                    message_read(before.scratch, host@, sent@, read, draw),
                ));
            }
            return r;
        }
        let mut r: Vec<HostCall> = if code == 0 {
            Self::apply(inst, &message, sent.as_str())
        } else {
            one_call(HostCall::warn(numbered("tapo: the dimmer refused that (", code, ")")))
        };
        let ghost settled = inst@;
        let more: Vec<HostCall> = Self::flush(inst, host);
        let ghost ms = more@;
        add_calls(&mut r, more);
        proof {
            let draw = choose|draw: Option<Seq<u8>>|
                is_draw(draw) && reached(
                    settled,
                    inst@,
                    ms,
                    #[trigger] flushed(settled.scratch, host@, draw),
                );
            assert(reached(
                before,
                inst@,
                r@,
                message_read(before.scratch, host@, sent@, read, draw),
            ));
        }
        r
    }

    /// What a read said, turned into notifications, or, for the bare acknowledgement that a
    /// write gives, a read queued behind it.
    ///
    /// Power and brightness are both told, because this hardware keeps them apart: a Tapo
    /// remembers the brightness it will return to while it is off. That it is online is only ever
    /// told, never the other half: "stopped answering" is not something that shows here.
    pub fn apply(inst: &mut Instance, message: &DeviceReply, sent: &str) -> (r: Vec<HostCall>)
        ensures
            reached(old(inst)@, final(inst)@, r@, applied(old(inst)@.scratch, message@, sent@)),
    {
        let ghost before = inst@;
        let on: bool = match message.device_on {
            Some(on) => on,
            None => {
                // A write's acknowledgement carries no state. Ask, rather than assume the switch
                // did exactly what it was told.
                if has(sent, "set_device_info") {
                    Self::push(inst, GET.to_owned());
                }
                return no_calls();
            },
        };
        let level: Option<u64> = match message.brightness {
            Some(b) => Some(
                if b > 100 {
                    100
                } else {
                    b
                },
            ),
            None => None,
        };
        let mut r: Vec<HostCall> = one_call(
            HostCall::Notify { proxy: LIGHT, change: Change::Online(true) },
        );
        if inst.scratch.on != Some(on) {
            add_call(&mut r, HostCall::Notify { proxy: LIGHT, change: Change::Power(on) });
        }
        proof {
            assert(call_list(r@) =~= seq![told(Change::Online(true))] + power_calls(
                before.scratch,
                on,
            ));
        }
        if let Some(level) = level {
            if inst.scratch.level != Some(level) {
                add_call(&mut r, HostCall::Notify { proxy: LIGHT, change: Change::Level(level) });
                inst.scratch.level = Some(level);
            }
        }
        proof {
            assert(call_list(r@) =~= seq![told(Change::Online(true))] + power_calls(
                before.scratch,
                on,
            ) + level_calls(before.scratch, level_in(message@)));
        }
        inst.scratch.on = Some(on);
        // A `toggle` that had nothing to go on when it arrived. Now it does.
        let toggle: bool = match &inst.scratch.after_read {
            Some(text) => *text.as_str() == *"toggle",
            None => false,
        };
        inst.scratch.after_read = None;
        if toggle {
            Self::push(inst, Self::set(Params::Power(!on)));
        }
        r
    }

    // -- what the controller calls -------------------------------------------------------

    /// Ask where it stands: at adoption, at every reconnect, and at every poll.
    ///
    /// Also the reset: half an exchange that never finished is cleared here rather than left to
    /// wedge the queue, which is the only recovery a driver with no clock has. The queue is
    /// dropped rather than carried over: a light that turns on by itself long after somebody gave
    /// up on the switch is worse than one that did nothing. The session is kept: it may well
    /// still be good, and if the switch has forgotten it the reply says so.
    ///
    /// An account has no address because it is not a thing on the network, and its answer to
    /// "where do you stand" is that there is nowhere to ask.
    pub fn on_bind(&self, inst: &mut Instance) -> (r: Vec<HostCall>)
        ensures
            exists|draw: Option<Seq<u8>>|
                is_draw(draw) && reached(
                    old(inst)@,
                    final(inst)@,
                    r@,
                    #[trigger] bound(old(inst)@, draw),
                ),
    {
        let ghost before = inst@;
        if Self::host(inst).is_none() && inst.email.is_some() {
            let r: Vec<HostCall> = no_calls();
            proof {
                assert(reached(before, inst@, r@, bound(before, None)));
            }
            return r;
        }
        inst.scratch.inflight = None;
        inst.scratch.after_read = None;
        inst.scratch.queue = Vec::new();
        proof {
            assert(inst@.scratch.queue =~= Seq::<Seq<char>>::empty());
        }
        let ghost reset = inst@;
        let r: Vec<HostCall> = Self::request(inst, GET.to_owned());
        proof {
            let draw = choose|draw: Option<Seq<u8>>|
                is_draw(draw) && reached(
                    reset,
                    inst@,
                    r@,
                    #[trigger] requested(reset, GET@, draw),
                );
            assert(reached(before, inst@, r@, bound(before, draw)));
        }
        r
    }

    /// Somebody wants the light to do something.
    ///
    /// There is no local command for a ramp: the switch fades on its own schedule and has no
    /// "start going up until I say stop". So this says so rather than doing nothing.
    pub fn on_command(
        &self,
        inst: &mut Instance,
        _proxy: LocalId,
        cmd: &str,
        args: &CommandArgs,
    ) -> (r: Vec<HostCall>)
        ensures
            exists|draw: Option<Seq<u8>>|
                is_draw(draw) && reached(
                    old(inst)@,
                    final(inst)@,
                    r@,
                    #[trigger] commanded(old(inst)@, cmd@, args.level, draw),
                ),
    {
        let ghost before = inst@;
        let body: String = if *cmd == *"on" {
            Self::set(Params::Power(true))
        } else if *cmd == *"off" {
            Self::set(Params::Power(false))
        } else if *cmd == *"toggle" {
            match inst.scratch.on {
                Some(on) => Self::set(Params::Power(!on)),
                // Nothing has been read back yet: adopted seconds ago, or the switch was
                // unreachable at the last poll. Ask, and act on the answer.
                None => {
                    inst.scratch.after_read = Some("toggle".to_owned());
                    GET.to_owned()
                },
            }
        } else if *cmd == *"set_level" {
            match args.level {
                Some(level) => Self::set(
                    if level == 0 {
                        Params::Power(false)
                    } else if level > 100 {
                        Params::Level(100)
                    } else {
                        Params::Level(level)
                    },
                ),
                None => {
                    let r: Vec<HostCall> = one_call(
                        HostCall::warn("tapo: set_level needs a level".to_owned()),
                    );
                    proof {
                        assert(reached(
                            before,
                            inst@,
                            r@,
                            commanded(before, cmd@, args.level, None),
                        ));
                    }
                    return r;
                },
            }
        } else {
            let msg: String = if *cmd == *"ramp_start" || *cmd == *"ramp_stop" {
                "tapo: this dimmer has no continuous ramp — use set_level".to_owned()
            } else {
                let mut msg: String = "tapo: unhandled `".to_owned();
                msg.append(cmd);
                msg.append("`");
                msg
            };
            let r: Vec<HostCall> = one_call(HostCall::warn(msg));
            proof {
                assert(reached(
                    before,
                    inst@,
                    r@,
                    commanded(before, cmd@, args.level, None),
                ));
            }
            return r;
        };
        let ghost asked = inst@;
        let r: Vec<HostCall> = Self::request(inst, body);
        proof {
            let draw = choose|draw: Option<Seq<u8>>|
                is_draw(draw) && reached(
                    asked,
                    inst@,
                    r@,
                    #[trigger] requested(asked, body@, draw),
                );
            assert(reached(before, inst@, r@, commanded(before, cmd@, args.level, draw)));
        }
        r
    }

    /// What a dimmer of the general kind can do and this one cannot.
    pub fn unsupported(&self) -> (r: Vec<String>)
        ensures
            text_list(r@) == seq![
                "ramp_start/ramp_stop — the hardware has no continuous ramp"@,
            ],
    {
        let mut r: Vec<String> = Vec::new();
        r.push("ramp_start/ramp_stop — the hardware has no continuous ramp".to_owned());
        proof {
            assert(text_list(r@) =~= seq![
                "ramp_start/ramp_stop — the hardware has no continuous ramp"@,
            ]);
        }
        r
    }

    /// A reply came back. Which one it answers is read off the URL that came with it.
    pub fn on_event(
        &self,
        inst: &mut Instance,
        _control: LocalId,
        note: &str,
        args: &EventArgs,
    ) -> (r: Vec<HostCall>)
        ensures
            exists|draw: Option<Seq<u8>>|
                is_draw(draw) && reached(
                    old(inst)@,
                    final(inst)@,
                    r@,
                    #[trigger] told_of(old(inst)@, note@, args@, draw),
                ),
    {
        let ghost before = inst@;
        let host: Option<String> = if *note == *"http_response" {
            Self::host(inst)
        } else {
            None
        };
        let host: String = match host {
            Some(host) => host,
            None => {
                let r: Vec<HostCall> = no_calls();
                proof {
                    assert(reached(before, inst@, r@, told_of(before, note@, args@, None)));
                }
                return r;
            },
        };
        let url: String = match &args.url {
            Some(url) => url.clone(),
            None => String::new(),
        };
        proof {
            assert(args@.url is None ==> url@ =~= Seq::<char>::empty());
        }
        let status: u16 = match args.status {
            Some(n) => n as u16,
            None => 0,
        };
        let body: &[u8] = args.bytes.as_slice();
        if has(url.as_str(), HANDSHAKE1) {
            let r: Vec<HostCall> = Self::on_handshake1(inst, host.as_str(), status, body, args);
            proof {
                assert(reached(before, inst@, r@, told_of(before, note@, args@, None)));
            }
            r
        } else if has(url.as_str(), HANDSHAKE2) {
            let r: Vec<HostCall> = Self::on_handshake2(inst, host.as_str(), status);
            proof {
                let draw = choose|draw: Option<Seq<u8>>|
                    is_draw(draw) && reached(
                        before,
                        inst@,
                        r@,
                        #[trigger] handshake2_answered(before.scratch, host@, status, draw),
                    );
                assert(reached(before, inst@, r@, told_of(before, note@, args@, draw)));
            }
            r
        } else if has(url.as_str(), REQUEST) {
            let r: Vec<HostCall> = Self::on_result(inst, host.as_str(), status, body);
            proof {
                let draw = choose|draw: Option<Seq<u8>>|
                    is_draw(draw) && reached(
                        before,
                        inst@,
                        r@,
                        #[trigger] result_answered(before.scratch, host@, status, body@, draw),
                    );
                assert(reached(before, inst@, r@, told_of(before, note@, args@, draw)));
            }
            r
        } else {
            let r: Vec<HostCall> = no_calls();
            proof {
                assert(reached(before, inst@, r@, told_of(before, note@, args@, None)));
            }
            r
        }
    }
}

} // verus!
