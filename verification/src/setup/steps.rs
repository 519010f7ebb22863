//! What each step of a flow comes to, as a function of what there was before it.

use vstd::prelude::*;
use vstd::utf8::encode_utf8;
use crate::codec::{base64_text, hex_text};
use crate::dimmer::steps::{request_path, status_in, stored_bytes};
use crate::dimmer::types::{GET, HANDSHAKE1, HANDSHAKE2};
use crate::host::{cookie_among, posted};
use crate::klap::{accepted, auth_of, derived, framed, login_proof, next_seq, opened, SessionView};
use crate::reading::{broadcast_from, may_speak_klap, model_name, reply_of, DeviceReplyView, UdpCandidateView};
use crate::setup::types::{fresh, no_texts, AdoptedView, CandidateView, FieldView, InputView, StateView, StepView, TextsView, Turn};
use crate::text::{decimal, trimmed};

verus! {

/// A text with something in it. Empty is absent: a field somebody left blank arrives as nothing
/// but white space, and that is no answer.
pub open spec fn answer(text: Option<Seq<char>>) -> Option<Seq<char>> {
    match text {
        Some(t) => if trimmed(t).len() > 0 {
            Some(trimmed(t))
        } else {
            None
        },
        None => None,
    }
}

/// What was typed, or else what was put aside.
pub open spec fn said(typed: Option<Seq<char>>, kept: Option<Seq<char>>) -> Option<Seq<char>> {
    match answer(typed) {
        Some(t) => Some(t),
        None => answer(kept),
    }
}

/// The bytes behind a hexadecimal text, where it is `n` of them.
pub open spec fn said_bytes(
    typed: Option<Seq<char>>,
    kept: Option<Seq<char>>,
    n: nat,
) -> Option<Seq<u8>> {
    stored_bytes(said(typed, kept), n)
}

/// A failure, with nothing to come back to.
pub open spec fn failed(reason: Seq<char>) -> Turn {
    Turn { step: StepView::Failed { reason }, state: None }
}

/// The pieces of a handshake are not where they were put.
pub open spec fn lost_track() -> Turn {
    failed("Lost track of the handshake part-way through. Start setup again."@)
}

/// A form, with the phase to come back in.
pub open spec fn asked(
    title: Seq<char>,
    body: Seq<char>,
    fields: Seq<FieldView>,
    phase: Seq<char>,
) -> Turn {
    Turn {
        step: StepView::Form { title, body, fields },
        state: Some(StateView { phase: Some(phase), ..fresh() }),
    }
}

/// The one field of the form for a dimmer.
pub open spec fn address_asked() -> FieldView {
    FieldView {
        name: "address"@,
        label: "Address"@,
        kind: "string"@,
        help: "Tapo app → the dimmer → Settings → Device Info"@,
        required: true,
    }
}

/// The two fields of the form for an account.
pub open spec fn account_fields() -> Seq<FieldView> {
    seq![
        FieldView {
            name: "email"@,
            label: "Email"@,
            kind: "string"@,
            help: Seq::empty(),
            required: true,
        },
        FieldView {
            name: "password"@,
            label: "Password"@,
            kind: "password"@,
            help: Seq::empty(),
            required: true,
        },
    ]
}

/// The form for an account: two fields and one sentence.
pub open spec fn account_asked(problem: Option<Seq<char>>) -> Turn {
    asked(
        "TP-Link account"@,
        match problem {
            Some(problem) => problem,
            None => "The account your Tapo devices are paired to — the one you sign in to the Tapo app with. Every device shares it, so it is asked once."@,
        },
        account_fields(),
        "account"@,
    )
}

/// A dimmer to adopt. Its address is all it carries: the credentials are the account's.
pub open spec fn dimmer_candidate(
    address: Seq<char>,
    label: Seq<char>,
    verified: Seq<char>,
) -> CandidateView {
    CandidateView {
        label,
        driver_id: "tapo.dimmer"@,
        properties: seq![("Address"@, address)],
        verified,
    }
}

/// The account to adopt. Its label is not the email address, which would put it on every screen
/// that lists hardware.
pub open spec fn account_candidate(email: Seq<char>, password: Seq<char>) -> CandidateView {
    CandidateView {
        label: "TP-Link Account"@,
        driver_id: "tapo.account"@,
        properties: seq![("Email"@, email), ("Password"@, password)],
        verified: "saved — checked when its devices are added"@,
    }
}

/// Every address that answered the discovery broadcast, or the one that somebody picked, as it
/// stands. A blank is no pick.
pub open spec fn addresses(state: StateView) -> Seq<Seq<char>> {
    if answer(state.texts.chosen_address) is Some {
        seq![state.texts.chosen_address->0]
    } else {
        state.udp_candidates.map_values(|c: UdpCandidateView| c.address)
    }
}

/// The same, minus anything that said it speaks a protocol this driver does not.
///
/// Left out rather than refused: one legacy plug answering the same broadcast must not be the
/// reason the dimmers beside it cannot be added.
pub open spec fn usable_addresses(state: StateView) -> Seq<Seq<char>> {
    addresses(state).filter(
        |address: Seq<char>| may_speak_klap(broadcast_from(state.udp_candidates, address)),
    )
}

/// What was taken out of it: the addresses that said so.
pub open spec fn left_out_addresses(state: StateView) -> Seq<Seq<char>> {
    addresses(state).filter(
        |address: Seq<char>| !may_speak_klap(broadcast_from(state.udp_candidates, address)),
    )
}

/// Why each of several addresses was left out.
pub open spec fn left_out_reasons(left_out: Seq<Seq<char>>) -> Seq<Seq<char>> {
    left_out.map_values(
        |address: Seq<char>| address + " speaks a protocol this driver does not"@,
    )
}

/// What the device at `address` called itself.
pub open spec fn model_at(state: StateView, address: Seq<char>) -> Seq<char> {
    model_name(broadcast_from(state.udp_candidates, address))
}

/// One dimmer at a known address.
pub open spec fn dimmer_found(state: StateView, address: Seq<char>) -> Turn {
    Turn {
        step: StepView::Done {
            devices: seq![
                dimmer_candidate(
                    address,
                    model_at(state, address) + " at "@ + address,
                    "found on the network"@,
                ),
            ],
            skipped: Seq::empty(),
        },
        state: None,
    }
}

/// Several texts with `between` between them.
pub open spec fn joined_by(texts: Seq<Seq<char>>, between: Seq<char>) -> Seq<char>
    decreases texts.len(),
{
    if texts.len() == 0 {
        Seq::empty()
    } else if texts.len() == 1 {
        texts[0]
    } else {
        joined_by(texts.drop_last(), between) + between + texts.last()
    }
}

/// Everything that logged in, and what did not; or, where nothing did, why.
///
/// Nothing to adopt would read as "there is nothing out there", which is the one thing it is not.
pub open spec fn finished(state: StateView) -> Turn {
    if state.adopted.len() > 0 {
        Turn {
            step: StepView::Done {
                devices: state.adopted.map_values(
                    |a: AdoptedView| dimmer_candidate(a.address, a.label, a.verified),
                ),
                skipped: left_out_reasons(state.left_out) + state.skipped,
            },
            state: None,
        }
    } else if state.skipped.len() == 0 {
        failed(explained("Nothing answered."@, state.left_out))
    } else {
        failed(
            "Nothing could be added. "@ + joined_by(
                state.skipped + left_out_reasons(state.left_out),
                "; "@,
            ),
        )
    }
}

/// `text`, and behind it why each of `left_out` was left out.
pub open spec fn explained(text: Seq<char>, left_out: Seq<Seq<char>>) -> Seq<char> {
    if left_out.len() == 0 {
        text
    } else {
        text + " "@ + joined_by(left_out_reasons(left_out), "; "@)
    }
}

/// Hello to the device whose turn it is, with `seed` for our half of the handshake.
///
/// What belongs to the previous device goes. A stale piece is worse than none: it would decrypt
/// the next device's reply into noise rather than failing.
pub open spec fn device_greeted(state: StateView, seed: Seq<u8>) -> Turn {
    Turn {
        step: StepView::Fetch {
            request: posted(here(state), HANDSHAKE1@, None, seed),
            note: "signing in to "@ + here(state),
        },
        state: Some(
            StateView {
                phase: Some("hs1"@),
                texts: TextsView {
                    local_seed: Some(hex_text(seed)),
                    remote_seed: None,
                    cookie: None,
                    key: None,
                    iv: None,
                    sig: None,
                    ..state.texts
                },
                seq: None,
                ..state
            },
        ),
    }
}

/// Why each of several addresses is not signed in to where no seed could be drawn.
pub open spec fn unseeded_reasons(queue: Seq<Seq<char>>) -> Seq<Seq<char>> {
    queue.map_values(|address: Seq<char>| address + " was not tried: no random numbers"@)
}

/// The rest of the list is passed over, and the walk is over.
pub open spec fn cut_short(state: StateView) -> StateView {
    StateView {
        skipped: state.skipped + unseeded_reasons(state.queue.skip(state.at as int)),
        ..state
    }
}

/// Hello to the device whose turn it is with the seed that was drawn, or the end of the list.
///
/// Without a seed no device can be signed in to, for one that can be guessed is no seed. What was
/// adopted until then is not lost.
pub open spec fn next_greeted(state: StateView, draw: Option<Seq<u8>>) -> Turn {
    if state.at >= state.queue.len() {
        finished(state)
    } else {
        match draw {
            Some(seed) => device_greeted(state, seed),
            None => finished(cut_short(state)),
        }
    }
}

/// The place after `at`. There is none past the last that a machine can count to, and no queue
/// reaches there.
pub open spec fn place_after(at: usize) -> usize {
    if at < usize::MAX {
        (at + 1) as usize
    } else {
        at
    }
}

/// A walk along `queue` begins, logging in to each, with `left_out` noted.
pub open spec fn walked(
    state: StateView,
    queue: Seq<Seq<char>>,
    left_out: Seq<Seq<char>>,
    email: Seq<char>,
    password: Seq<char>,
    draw: Option<Seq<u8>>,
) -> Turn {
    next_greeted(
        StateView {
            texts: TextsView { email: Some(email), password: Some(password), ..no_texts() },
            queue,
            left_out,
            udp_candidates: state.udp_candidates,
            ..fresh()
        },
        draw,
    )
}

/// This one is not going to work: the reason is noted, and the next one is greeted.
pub open spec fn passed_over(state: StateView, why: Seq<char>, draw: Option<Seq<u8>>) -> Turn {
    next_greeted(
        StateView { skipped: state.skipped.push(why), at: place_after(state.at), ..state },
        draw,
    )
}

/// The device whose turn it is.
pub open spec fn here(state: StateView) -> Seq<char> {
    if state.at < state.queue.len() {
        state.queue[state.at as int]
    } else {
        Seq::empty()
    }
}

/// A dimmer on its own. Where the account it belongs to came along, the device is logged in to,
/// so that it has the name from the Tapo app.
pub open spec fn dimmer_started(state: StateView, input: InputView, draw: Option<Seq<u8>>) -> Turn {
    let found = addresses(state);
    let address = match said(input.texts.chosen_address, state.texts.chosen_address) {
        Some(address) => Some(address),
        None => if found.len() > 0 {
            Some(found[0])
        } else {
            None
        },
    };
    match address {
        Some(address) => match (
            said(input.texts.saved_email, state.texts.saved_email),
            said(input.texts.saved_password, state.texts.saved_password),
        ) {
            (Some(email), Some(password)) => walked(
                state,
                seq![address],
                Seq::empty(),
                email,
                password,
                draw,
            ),
            _ => dimmer_found(state, address),
        },
        None => asked(
            "Add a dimmer"@,
            "Nothing answered the discovery broadcast — it does not cross a router, so a dimmer on another network has to be named."@,
            seq![address_asked()],
            "typed"@,
        ),
    }
}

/// An address that somebody typed.
pub open spec fn address_typed(state: StateView, input: InputView) -> Turn {
    match said(input.texts.address, state.texts.address) {
        Some(address) => dimmer_found(state, address),
        None => asked(
            "Add a dimmer"@,
            "An address is needed. It is under Settings → Device Info in the Tapo app."@,
            seq![address_asked()],
            "typed"@,
        ),
    }
}

/// A saved account is browsed: the credentials are already in hand.
pub open spec fn account_browsed(state: StateView, input: InputView, draw: Option<Seq<u8>>) -> Turn {
    match (
        said(input.texts.saved_email, state.texts.saved_email),
        said(input.texts.saved_password, state.texts.saved_password),
    ) {
        (Some(email), Some(password)) => if usable_addresses(state).len() == 0 {
            failed(
                explained(
                    "No Tapo devices answered on this network. They have to be set up in the Tapo app first, and on the same network as the controller — a discovery broadcast does not cross a router."@,
                    left_out_addresses(state),
                ),
            )
        } else {
            walked(
                state,
                usable_addresses(state),
                left_out_addresses(state),
                email,
                password,
                draw,
            )
        },
        _ => failed(
            "This account has no email and password saved. Edit it, or remove it and add it again."@,
        ),
    }
}

/// An account that somebody typed. Saved without being checked: an account has nothing to ask on
/// its own, and browsing it checks every device it finds.
pub open spec fn account_typed(state: StateView, input: InputView) -> Turn {
    match (
        said(input.texts.email, state.texts.email),
        said(input.texts.password, state.texts.password),
    ) {
        (Some(email), Some(password)) => Turn {
            step: StepView::Done {
                devices: seq![account_candidate(email, password)],
                skipped: Seq::empty(),
            },
            state: None,
        },
        (None, None) => account_asked(Some("Both are needed."@)),
        (None, Some(_)) => account_asked(Some("The email is needed."@)),
        (Some(_), None) => account_asked(Some("The password is needed."@)),
    }
}

/// The reason that came with a request which was not answered.
pub open spec fn detail(error: Option<Seq<char>>) -> Seq<char> {
    match answer(error) {
        Some(error) => ": "@ + error,
        None => Seq::empty(),
    }
}

/// The session cookie, where there is one to send.
pub open spec fn cookie_to_send(cookie: Seq<char>) -> Option<Seq<char>> {
    if cookie.len() > 0 {
        Some(cookie)
    } else {
        None
    }
}

/// The reply to the first handshake with a device.
pub open spec fn first_reply(state: StateView, input: InputView, draw: Option<Seq<u8>>) -> Turn {
    let status = status_in(input.status);
    match (
        said_bytes(input.texts.local_seed, state.texts.local_seed, 16),
        said(input.texts.email, state.texts.email),
        said(input.texts.password, state.texts.password),
    ) {
        (Some(local), Some(email), Some(password)) => if status != 200 {
            passed_over(
                state,
                here(state) + " did not answer (HTTP "@ + decimal(status as int) + ")"@ + detail(
                    input.error,
                ),
                draw,
            )
        } else {
            let auth = auth_of(email, password);
            first_judged(
                state,
                input,
                local,
                auth,
                accepted(local, auth, input.response_bytes),
                draw,
            )
        },
        _ => lost_track(),
    }
}

/// The first handshake was answered with `remote`, or with nothing that vouches for the account.
pub open spec fn first_judged(
    state: StateView,
    input: InputView,
    local: Seq<u8>,
    auth: Seq<u8>,
    remote: Option<Seq<u8>>,
    draw: Option<Seq<u8>>,
) -> Turn {
    match remote {
        None => passed_over(
            state,
            here(state)
                + " did not accept the saved TP-Link email/password — edit the account credentials and try again"@,
            draw,
        ),
        Some(remote) => {
            let cookie = match cookie_among(input.response_headers) {
                Some(id) => id,
                None => Seq::empty(),
            };
            Turn {
                step: StepView::Fetch {
                    request: posted(
                        here(state),
                        HANDSHAKE2@,
                        cookie_to_send(cookie),
                        login_proof(local, remote, auth),
                    ),
                    note: "signing in to "@ + here(state),
                },
                state: Some(
                    StateView {
                        phase: Some("hs2"@),
                        texts: TextsView {
                            remote_seed: Some(hex_text(remote)),
                            cookie: Some(cookie),
                            ..state.texts
                        },
                        ..state
                    },
                ),
            }
        },
    }
}

/// The reply to the second handshake with a device.
pub open spec fn second_reply(state: StateView, input: InputView, draw: Option<Seq<u8>>) -> Turn {
    let status = status_in(input.status);
    if status != 200 {
        passed_over(
            state,
            here(state) + " rejected the login (HTTP "@ + decimal(status as int) + ")"@,
            draw,
        )
    } else {
        match (
            said_bytes(input.texts.local_seed, state.texts.local_seed, 16),
            said_bytes(input.texts.remote_seed, state.texts.remote_seed, 16),
            said(input.texts.email, state.texts.email),
            said(input.texts.password, state.texts.password),
        ) {
            (Some(local), Some(remote), Some(email), Some(password)) => {
                let session = derived(local, remote, auth_of(email, password));
                let seq = next_seq(session.seq);
                let cookie = match said(input.texts.cookie, state.texts.cookie) {
                    Some(cookie) => cookie,
                    None => Seq::empty(),
                };
                Turn {
                    step: StepView::Fetch {
                        request: posted(
                            here(state),
                            request_path(seq),
                            cookie_to_send(cookie),
                            framed(session, seq, encode_utf8(GET@)),
                        ),
                        note: "asking "@ + here(state) + " what it is"@,
                    },
                    state: Some(
                        StateView {
                            phase: Some("info"@),
                            texts: TextsView {
                                key: Some(hex_text(session.key)),
                                iv: Some(hex_text(session.iv)),
                                sig: Some(hex_text(session.sig)),
                                ..state.texts
                            },
                            seq: Some(seq as i64),
                            ..state
                        },
                    ),
                }
            },
            _ => lost_track(),
        }
    }
}

/// The session that a walk put aside, where all of it is there.
pub open spec fn session_aside(state: StateView, input: InputView) -> Option<SessionView> {
    match (
        said_bytes(input.texts.key, state.texts.key, 16),
        said_bytes(input.texts.iv, state.texts.iv, 12),
        said_bytes(input.texts.sig, state.texts.sig, 28),
        state.seq,
    ) {
        (Some(key), Some(iv), Some(sig), Some(seq)) => Some(
            SessionView { key, iv, sig, seq: seq as i32 },
        ),
        _ => None,
    }
}

/// The name that somebody gave a device in the Tapo app, which is the only thing that tells eight
/// identical dimmers apart. It comes in base64, always.
pub open spec fn nickname_in(reply: Option<DeviceReplyView>) -> Option<Seq<char>> {
    match reply {
        Some(m) => match m.nickname {
            Some(encoded) => match base64_text(encoded) {
                Some(name) => if trimmed(name).len() > 0 {
                    Some(name)
                } else {
                    None
                },
                None => None,
            },
            None => None,
        },
        None => None,
    }
}

/// What is known of a device that was logged in to, whether or not its reply could be read.
pub open spec fn introduced(state: StateView, reply: Option<DeviceReplyView>) -> AdoptedView {
    let model = model_at(state, here(state));
    let device_on = match reply {
        Some(m) => m.device_on,
        None => None,
    };
    AdoptedView {
        address: here(state),
        label: match nickname_in(reply) {
            Some(name) => name,
            None => model + " at "@ + here(state),
        },
        verified: match device_on {
            None => model + ", signed in"@,
            Some(true) => model + ", on"@,
            Some(false) => model + ", off"@,
        },
    }
}

/// A device said what it is, or something that could not be read: either way it is adopted, and
/// the next one is greeted.
pub open spec fn taken_in(
    state: StateView,
    reply: Option<DeviceReplyView>,
    draw: Option<Seq<u8>>,
) -> Turn {
    next_greeted(
        StateView {
            adopted: state.adopted.push(introduced(state, reply)),
            at: place_after(state.at),
            ..state
        },
        draw,
    )
}

/// The reply to the request that asks a device what it is.
pub open spec fn info_reply(state: StateView, input: InputView, draw: Option<Seq<u8>>) -> Turn {
    match session_aside(state, input) {
        Some(session) => taken_in(
            state,
            match opened(session, session.seq, input.response_bytes) {
                Some(plain) => reply_of(plain),
                None => None,
            },
            draw,
        ),
        None => lost_track(),
    }
}

/// One step of setup.
pub open spec fn flowed(
    driver_id: Seq<char>,
    state: StateView,
    input: InputView,
    draw: Option<Seq<u8>>,
) -> Turn {
    let phase = match state.phase {
        Some(phase) => phase,
        None => "start"@,
    };
    if phase == "start"@ && driver_id == "tapo.dimmer"@ {
        dimmer_started(state, input, draw)
    } else if phase == "typed"@ {
        address_typed(state, input)
    } else if phase == "start"@ && state.browse == Some(true) {
        account_browsed(state, input, draw)
    } else if phase == "start"@ {
        account_asked(None)
    } else if phase == "account"@ {
        account_typed(state, input)
    } else if phase == "hs1"@ {
        first_reply(state, input, draw)
    } else if phase == "hs2"@ {
        second_reply(state, input, draw)
    } else if phase == "info"@ {
        info_reply(state, input, draw)
    } else {
        failed("unknown setup phase `"@ + phase + "`"@)
    }
}

/// No two phases go by the same name.
pub proof fn lemma_phases()
    ensures
        "hs1"@ != "hs2"@,
        "start"@ != "typed"@,
        "hs1"@.len() == 3,
        "hs2"@.len() == 3,
        "info"@.len() == 4,
        "start"@.len() == 5,
        "typed"@.len() == 5,
        "account"@.len() == 7,
{
    reveal_strlit("hs1");
    reveal_strlit("hs2");
    reveal_strlit("info");
    reveal_strlit("start");
    reveal_strlit("typed");
    reveal_strlit("account");
    assert("hs1"@[2] == '1');
    assert("hs2"@[2] == '2');
    assert("start"@[0] == 's');
    assert("typed"@[0] == 't');
}

} // verus!
