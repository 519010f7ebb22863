//! The flow, one step at a time.

use vstd::prelude::*;
use crate::codec::{from_base64, hex};
use crate::dimmer::driver::{path_of, stored};
use crate::dimmer::steps::status_in;
use crate::dimmer::types::{Tapo, GET, HANDSHAKE1, HANDSHAKE2};
use crate::host::{cookie_among, cookie_in, pair_list, HttpRequest};
use crate::klap::{accept_handshake1, accepted, auth_hash, handshake2, is_draw, local_seed, seed_option, Session};
use crate::reading::{broadcast_from, broadcast_option, candidate_list, from_broadcast, may_speak_klap, model_of, read_reply, reply_option, speaks_klap, Broadcast, DeviceReply};
use crate::setup::steps::{account_asked, account_browsed, account_fields, account_typed, address_asked, addresses, answer, asked, cookie_to_send, cut_short, detail, dimmer_candidate, dimmer_found, dimmer_started, explained, failed, finished, first_judged, first_reply, flowed, here, info_reply, introduced, joined_by, left_out_addresses, left_out_reasons, lemma_phases, lost_track, model_at, next_greeted, passed_over, said, said_bytes, second_reply, taken_in, unseeded_reasons, usable_addresses, walked};
use crate::setup::types::{came_to, copy_candidates, copy_texts, device_list, field_list, Adopted, AdoptedView, Candidate, Field, SetupInput, SetupState, SetupStep, StateView, StepView, Turn};
use crate::text::{decimal_u64, joined, text_list, text_option, trim};

verus! {

/// A text with something in it.
fn answered(text: &Option<String>) -> (r: Option<String>)
    ensures
        text_option(r) == answer(text_option(*text)),
{
    match text {
        Some(t) => {
            let t: String = trim(t.as_str());
            if t.as_str().is_empty() {
                None
            } else {
                Some(t)
            }
        },
        None => None,
    }
}

/// What was typed, or else what was put aside.
fn either(typed: &Option<String>, kept: &Option<String>) -> (r: Option<String>)
    ensures
        text_option(r) == said(text_option(*typed), text_option(*kept)),
{
    match answered(typed) {
        Some(t) => Some(t),
        None => answered(kept),
    }
}

/// The bytes behind a hexadecimal text, where it is `N` of them.
fn either_bytes<const N: usize>(typed: &Option<String>, kept: &Option<String>) -> (r: Option<
    [u8; N],
>)
    ensures
        match r {
            Some(bytes) => said_bytes(text_option(*typed), text_option(*kept), N as nat) == Some(
                bytes@,
            ),
            None => said_bytes(text_option(*typed), text_option(*kept), N as nat) is None,
        },
{
    stored(&either(typed, kept))
}

/// The status of a reply.
fn status_of(input: &SetupInput) -> (r: u16)
    ensures
        r == status_in(input@.status),
{
    match input.status {
        Some(n) => n as u16,
        None => 0,
    }
}

/// The device whose turn it is.
fn current(state: &SetupState) -> (r: String)
    ensures
        r@ == here(state@),
{
    if state.at < state.queue.len() {
        state.queue[state.at].clone()
    } else {
        let r: String = String::new();
        proof {
            assert(r@ =~= Seq::<char>::empty());
        }
        r
    }
}

/// `a`, `b` and `c` in a row.
fn three(a: &str, b: &str, c: &str) -> (r: String)
    ensures
        r@ == a@ + b@ + c@,
{
    let mut r: String = a.to_owned();
    r.append(b);
    r.append(c);
    r
}

/// Several texts with `between` between them.
fn join(texts: &Vec<String>, between: &str) -> (r: String)
    ensures
        r@ == joined_by(text_list(texts@), between@),
{
    let ghost all = text_list(texts@);
    let mut r: String = String::new();
    let mut i: usize = 0;
    proof {
        assert(all.take(0) =~= Seq::<Seq<char>>::empty());
        assert(r@ =~= Seq::<char>::empty());
    }
    while i < texts.len()
        invariant
            all == text_list(texts@),
            i <= texts@.len(),
            r@ == joined_by(all.take(i as int), between@),
        decreases texts@.len() - i,
    {
        proof {
            assert(all.take(i + 1).drop_last() =~= all.take(i as int));
            assert(all.take(i + 1).last() == texts@[i as int]@);
            if i == 0 {
                assert(r@ + all[0] =~= all[0]);
            }
        }
        if i > 0 {
            r.append(between);
        }
        r.append(texts[i].as_str());
        i += 1;
    }
    proof {
        assert(all.take(i as int) =~= all);
    }
    r
}

/// Why each of `left_out` was left out.
fn reasons_of(left_out: &Vec<String>) -> (r: Vec<String>)
    ensures
        text_list(r@) == left_out_reasons(text_list(left_out@)),
{
    let mut r: Vec<String> = Vec::new();
    let mut i: usize = 0;
    while i < left_out.len()
        invariant
            i <= left_out@.len(),
            r@.len() == i,
            forall|k: int|
                0 <= k < i ==> (#[trigger] r@[k])@ == left_out@[k]@
                    + " speaks a protocol this driver does not"@,
        decreases left_out@.len() - i,
    {
        r.push(joined(left_out[i].as_str(), " speaks a protocol this driver does not"));
        i += 1;
    }
    proof {
        assert(text_list(r@) =~= left_out_reasons(text_list(left_out@)));
    }
    r
}

/// `text`, and behind it why each of `left_out` was left out.
fn explain(text: &str, left_out: &Vec<String>) -> (r: String)
    ensures
        r@ == explained(text@, text_list(left_out@)),
{
    proof {
        assert(text_list(left_out@).len() == left_out@.len());
    }
    let mut r: String = text.to_owned();
    if left_out.len() > 0 {
        r.append(" ");
        r.append(join(&reasons_of(left_out), "; ").as_str());
    }
    r
}

/// `TP_SESSIONID` out of the headers of a reply that a flow fetched.
pub fn setup_cookie(input: &SetupInput) -> (r: Option<String>)
    ensures
        text_option(r) == cookie_among(input@.response_headers),
{
    cookie_in(&input.response_headers)
}

/// The session cookie, where there is one to send.
fn to_send(cookie: &str) -> (r: Option<&str>)
    ensures
        match r {
            Some(id) => cookie_to_send(cookie@) == Some(id@),
            None => cookie_to_send(cookie@) is None,
        },
{
    if cookie.is_empty() {
        None
    } else {
        Some(cookie)
    }
}

/// A failure, with nothing to come back to.
fn fail(reason: String) -> (r: (SetupStep, Option<SetupState>))
    ensures
        came_to(r, failed(reason@)),
{
    (SetupStep::Failed { reason }, None)
}

/// A dimmer to adopt.
fn dimmer(address: &str, label: String, verified: String) -> (r: Candidate)
    ensures
        r@ == dimmer_candidate(address@, label@, verified@),
{
    let mut properties: Vec<(String, String)> = Vec::new();
    properties.push(("Address".to_owned(), address.to_owned()));
    proof {
        assert(pair_list(properties@) =~= seq![("Address"@, address@)]);
    }
    Candidate { label, driver_id: "tapo.dimmer".to_owned(), properties, verified }
}

/// One device and nothing else.
fn done_with(device: Candidate) -> (r: (SetupStep, Option<SetupState>))
    ensures
        came_to(
            r,
            Turn {
                step: StepView::Done { devices: seq![device@], skipped: Seq::empty() },
                state: None,
            },
        ),
{
    let mut devices: Vec<Candidate> = Vec::new();
    devices.push(device);
    proof {
        assert(device_list(devices@) =~= seq![device@]);
    }
    let skipped: Vec<String> = Vec::new();
    proof {
        assert(text_list(skipped@) =~= Seq::<Seq<char>>::empty());
    }
    (SetupStep::Done { devices, skipped }, None)
}

impl Tapo {
    // -- the account ---------------------------------------------------------------------

    /// Ask for the account. Two fields and one sentence.
    pub fn ask_account(problem: Option<&str>) -> (r: (SetupStep, Option<SetupState>))
        ensures
            came_to(
                r,
                account_asked(
                    match problem {
                        Some(problem) => Some(problem@),
                        None => None,
                    },
                ),
            ),
    {
        let body: &str = match problem {
            Some(problem) => problem,
            None => "The account your Tapo devices are paired to — the one you sign in to the Tapo app with. Every device shares it, so it is asked once.",
        };
        let mut fields: Vec<Field> = Vec::new();
        fields.push(
            Field {
                name: "email".to_owned(),
                label: "Email".to_owned(),
                kind: "string".to_owned(),
                help: String::new(),
                required: true,
            },
        );
        fields.push(
            Field {
                name: "password".to_owned(),
                label: "Password".to_owned(),
                kind: "password".to_owned(),
                help: String::new(),
                required: true,
            },
        );
        proof {
            assert(fields@[0]@.help =~= Seq::<char>::empty());
            assert(fields@[1]@.help =~= Seq::<char>::empty());
            assert(field_list(fields@) =~= account_fields());
        }
        Self::needs("TP-Link account", body, fields, "account")
    }

    // -- the dimmers ---------------------------------------------------------------------

    /// One dimmer at a known address, with no credentials asked for: they are the account's.
    pub fn one_dimmer(state: &SetupState, address: &str) -> (r: (SetupStep, Option<SetupState>))
        ensures
            came_to(r, dimmer_found(state@, address@)),
    {
        let model: String = Self::model(state, address);
        done_with(
            dimmer(
                address,
                three(model.as_str(), " at ", address),
                "found on the network".to_owned(),
            ),
        )
    }

    /// Begin walking a list of addresses, logging in to each, with those that were left out of it
    /// noted for the end.
    pub fn walk(
        state: &SetupState,
        queue: Vec<String>,
        left_out: Vec<String>,
        email: &str,
        password: &str,
    ) -> (r: (SetupStep, Option<SetupState>))
        ensures
            exists|draw: Option<Seq<u8>>|
                is_draw(draw) && came_to(
                    r,
                    #[trigger] walked(
                        state@,
                        text_list(queue@),
                        text_list(left_out@),
                        email@,
                        password@,
                        draw,
                    ),
                ),
    {
        let mut next: SetupState = SetupState::default();
        next.texts.email = Some(email.to_owned());
        next.texts.password = Some(password.to_owned());
        next.queue = queue;
        next.left_out = left_out;
        next.udp_candidates = copy_candidates(&state.udp_candidates);
        let ghost begun = next@;
        let r: (SetupStep, Option<SetupState>) = Self::greet(next);
        proof {
            let draw = choose|draw: Option<Seq<u8>>|
                is_draw(draw) && came_to(r, #[trigger] next_greeted(begun, draw));
            assert(came_to(
                r,
                walked(
                    state@,
                    text_list(queue@),
                    text_list(left_out@),
                    email@,
                    password@,
                    draw,
                ),
            ));
        }
        r
    }

    /// Say hello to the device whose turn it is with the seed that was drawn, or finish if there is
    /// none or the list is done.
    pub fn greet_next_with(state: SetupState, seed: Option<[u8; 16]>) -> (r: (
        SetupStep,
        Option<SetupState>,
    ))
        ensures
            came_to(r, next_greeted(state@, seed_option(seed))),
    {
        let mut state: SetupState = state;
        if state.at >= state.queue.len() {
            return Self::finish(&state);
        }
        let seed: [u8; 16] = match seed {
            Some(seed) => seed,
            None => {
                let ghost before = state@;
                let mut i: usize = state.at;
                proof {
                    assert(before.skipped + unseeded_reasons(
                        before.queue.subrange(before.at as int, i as int),
                    ) =~= before.skipped);
                }
                while i < state.queue.len()
                    invariant
                        state@ == (StateView { skipped: state@.skipped, ..before }),
                        before.at <= i <= state.queue@.len(),
                        state@.skipped == before.skipped + unseeded_reasons(
                            before.queue.subrange(before.at as int, i as int),
                        ),
                    decreases state.queue@.len() - i,
                {
                    let ghost so_far = state@.skipped;
                    let why: String = joined(
                        state.queue[i].as_str(),
                        " was not tried: no random numbers",
                    );
                    state.skipped.push(why);
                    proof {
                        assert(why@ == before.queue[i as int]
                            + " was not tried: no random numbers"@);
                        assert(state@.skipped =~= so_far.push(why@));
                        assert(before.queue.subrange(before.at as int, i + 1)
                            =~= before.queue.subrange(before.at as int, i as int).push(
                            before.queue[i as int],
                        ));
                        assert(state@.skipped =~= before.skipped + unseeded_reasons(
                            before.queue.subrange(before.at as int, i + 1),
                        ));
                    }
                    i += 1;
                }
                proof {
                    assert(before.queue.subrange(before.at as int, i as int)
                        =~= before.queue.skip(before.at as int));
                    assert(state@ == cut_short(before));
                }
                return Self::finish(&state);
            },
        };
        let address: String = state.queue[state.at].clone();
        state.phase = Some("hs1".to_owned());
        state.texts.local_seed = Some(hex(seed.as_slice()));
        state.texts.remote_seed = None;
        state.texts.cookie = None;
        state.texts.key = None;
        state.texts.iv = None;
        state.texts.sig = None;
        state.seq = None;
        let request: HttpRequest = HttpRequest::post(
            address.as_str(),
            HANDSHAKE1,
            None,
            vstd::slice::slice_to_vec(seed.as_slice()),
        );
        let mut note: String = "signing in to ".to_owned();
        note.append(address.as_str());
        (SetupStep::Fetch { request, note }, Some(state))
    }

    /// Say hello to the device whose turn it is, or finish if the list is done.
    pub fn greet(state: SetupState) -> (r: (SetupStep, Option<SetupState>))
        ensures
            exists|draw: Option<Seq<u8>>|
                is_draw(draw) && came_to(r, #[trigger] next_greeted(state@, draw)),
    {
        if state.at >= state.queue.len() {
            let r: (SetupStep, Option<SetupState>) = Self::finish(&state);
            proof {
                assert(came_to(r, next_greeted(state@, None)));
            }
            return r;
        }
        Self::greet_next_with(state, local_seed())
    }

    /// This one is not going to work. Note why, and go on to the next.
    pub fn skip(state: &SetupState, why: String) -> (r: (SetupStep, Option<SetupState>))
        ensures
            exists|draw: Option<Seq<u8>>|
                is_draw(draw) && came_to(r, #[trigger] passed_over(state@, why@, draw)),
    {
        let mut next: SetupState = state.copy();
        next.skipped.push(why);
        next.at = if state.at < usize::MAX {
            state.at + 1
        } else {
            state.at
        };
        let ghost noted = next@;
        proof {
            assert(noted.skipped =~= state@.skipped.push(why@));
        }
        let r: (SetupStep, Option<SetupState>) = Self::greet(next);
        proof {
            let draw = choose|draw: Option<Seq<u8>>|
                is_draw(draw) && came_to(r, #[trigger] next_greeted(noted, draw));
            assert(came_to(r, passed_over(state@, why@, draw)));
        }
        r
    }

    /// Everything that logged in, and what did not; or, where nothing did, why.
    pub fn finish(state: &SetupState) -> (r: (SetupStep, Option<SetupState>))
        ensures
            came_to(r, finished(state@)),
    {
        if state.adopted.len() == 0 {
            if state.skipped.len() == 0 {
                return fail(explain("Nothing answered.", &state.left_out));
            }
            let mut reasons: Vec<String> = copy_texts(&state.skipped);
            let ghost first = reasons@;
            let mut more: Vec<String> = reasons_of(&state.left_out);
            let ghost second = more@;
            reasons.append(&mut more);
            proof {
                assert(text_list(reasons@) =~= text_list(first) + text_list(second));
            }
            let mut reason: String = "Nothing could be added. ".to_owned();
            reason.append(join(&reasons, "; ").as_str());
            return fail(reason);
        }
        let mut devices: Vec<Candidate> = Vec::new();
        let mut i: usize = 0;
        while i < state.adopted.len()
            invariant
                i <= state.adopted@.len(),
                devices@.len() == i,
                forall|k: int|
                    0 <= k < i ==> (#[trigger] devices@[k])@ == dimmer_candidate(
                        state.adopted@[k]@.address,
                        state.adopted@[k]@.label,
                        state.adopted@[k]@.verified,
                    ),
            decreases state.adopted@.len() - i,
        {
            let row: &Adopted = &state.adopted[i];
            devices.push(dimmer(row.address.as_str(), row.label.clone(), row.verified.clone()));
            i += 1;
        }
        proof {
            assert(device_list(devices@) =~= state@.adopted.map_values(
                |a: AdoptedView| dimmer_candidate(a.address, a.label, a.verified),
            ));
        }
        let mut skipped: Vec<String> = reasons_of(&state.left_out);
        let ghost first = skipped@;
        let mut more: Vec<String> = copy_texts(&state.skipped);
        let ghost second = more@;
        skipped.append(&mut more);
        proof {
            assert(text_list(skipped@) =~= text_list(first) + text_list(second));
        }
        (SetupStep::Done { devices, skipped }, None)
    }

    // -- what the broadcast found --------------------------------------------------------

    /// Every address that answered the discovery broadcast, or the one that somebody picked.
    pub fn discovered(state: &SetupState) -> (r: Vec<String>)
        ensures
            text_list(r@) == addresses(state@),
    {
        let mut r: Vec<String> = Vec::new();
        if answered(&state.texts.chosen_address).is_some() {
            if let Some(one) = &state.texts.chosen_address {
                r.push(one.clone());
                proof {
                    assert(text_list(r@) =~= addresses(state@));
                }
                return r;
            }
        }
        let mut i: usize = 0;
        while i < state.udp_candidates.len()
            invariant
                i <= state.udp_candidates@.len(),
                r@.len() == i,
                forall|k: int|
                    0 <= k < i ==> (#[trigger] r@[k])@ == state.udp_candidates@[k]@.address,
            decreases state.udp_candidates@.len() - i,
        {
            r.push(state.udp_candidates[i].address.clone());
            i += 1;
        }
        proof {
            assert(text_list(r@) =~= addresses(state@));
        }
        r
    }

    /// The same, minus anything that said it speaks a protocol this driver does not.
    pub fn usable(state: &SetupState) -> (r: Vec<String>)
        ensures
            text_list(r@) == usable_addresses(state@),
    {
        let r: Vec<String> = Self::sort_out(state, true);
        proof {
            lemma_same_filter(
                addresses(state@),
                |a: Seq<char>| may_speak_klap(broadcast_from(state@.udp_candidates, a)) == true,
                |a: Seq<char>| may_speak_klap(broadcast_from(state@.udp_candidates, a)),
            );
        }
        r
    }

    /// What was taken out of it.
    pub fn left_out(state: &SetupState) -> (r: Vec<String>)
        ensures
            text_list(r@) == left_out_addresses(state@),
    {
        let r: Vec<String> = Self::sort_out(state, false);
        proof {
            lemma_same_filter(
                addresses(state@),
                |a: Seq<char>| may_speak_klap(broadcast_from(state@.udp_candidates, a)) == false,
                |a: Seq<char>| !may_speak_klap(broadcast_from(state@.udp_candidates, a)),
            );
        }
        r
    }

    /// The addresses that may speak this protocol, or those that said they do not.
    fn sort_out(state: &SetupState, speaks: bool) -> (r: Vec<String>)
        ensures
            text_list(r@) == addresses(state@).filter(
                |a: Seq<char>| may_speak_klap(broadcast_from(state@.udp_candidates, a)) == speaks,
            ),
    {
        let found: Vec<String> = Self::discovered(state);
        let ghost all = text_list(found@);
        let ghost rows = state@.udp_candidates;
        let ghost keep = |a: Seq<char>| may_speak_klap(broadcast_from(rows, a)) == speaks;
        let mut r: Vec<String> = Vec::new();
        let mut i: usize = 0;
        proof {
            reveal(Seq::filter);
            assert(all.take(0).filter(keep) =~= Seq::<Seq<char>>::empty());
            assert(text_list(r@) =~= Seq::<Seq<char>>::empty());
        }
        while i < found.len()
            invariant
                all == text_list(found@),
                rows == candidate_list(state.udp_candidates@),
                keep == (|a: Seq<char>| may_speak_klap(broadcast_from(rows, a)) == speaks),
                i <= found@.len(),
                text_list(r@) == all.take(i as int).filter(keep),
            decreases found@.len() - i,
        {
            let ghost before = r@;
            proof {
                reveal(Seq::filter);
                assert(all.take(i + 1).drop_last() =~= all.take(i as int));
                assert(all.take(i + 1).last() == found@[i as int]@);
            }
            let info: Option<Broadcast> = Self::from_broadcast(state, found[i].as_str());
            if speaks_klap(&info) == speaks {
                r.push(found[i].clone());
                proof {
                    assert(text_list(r@) =~= text_list(before).push(found@[i as int]@));
                }
            }
            i += 1;
        }
        proof {
            assert(all.take(i as int) =~= all);
        }
        r
    }

    /// What the device called itself in its broadcast reply.
    pub fn model(state: &SetupState, address: &str) -> (r: String)
        ensures
            r@ == model_at(state@, address@),
    {
        model_of(Self::from_broadcast(state, address))
    }

    /// What the device said when it answered the discovery broadcast, for one address.
    pub fn from_broadcast(state: &SetupState, address: &str) -> (r: Option<Broadcast>)
        ensures
            broadcast_option(r) == broadcast_from(state@.udp_candidates, address@),
    {
        from_broadcast(&state.udp_candidates, address)
    }

    /// The one field of the form for a dimmer.
    pub fn address_field() -> (r: Field)
        ensures
            r@ == address_asked(),
    {
        Field {
            name: "address".to_owned(),
            label: "Address".to_owned(),
            kind: "string".to_owned(),
            help: "Tapo app → the dimmer → Settings → Device Info".to_owned(),
            required: true,
        }
    }

    /// Ask, or ask again, saying what was missing. Nothing but the driver enforces `required`,
    /// and not doing it would make a filled-in form look like a dead button.
    pub fn needs(title: &str, body: &str, fields: Vec<Field>, phase: &str) -> (r: (
        SetupStep,
        Option<SetupState>,
    ))
        ensures
            came_to(r, asked(title@, body@, field_list(fields@), phase@)),
    {
        let mut next: SetupState = SetupState::default();
        next.phase = Some(phase.to_owned());
        (
            SetupStep::Form { title: title.to_owned(), body: body.to_owned(), fields },
            Some(next),
        )
    }

    /// The pieces of a handshake are not where they were put. That is this flow's fault and not
    /// the hardware's, so it says so rather than blaming the dimmer.
    pub fn lost() -> (r: (SetupStep, Option<SetupState>))
        ensures
            came_to(r, lost_track()),
    {
        fail("Lost track of the handshake part-way through. Start setup again.".to_owned())
    }

    // -- one step at a time --------------------------------------------------------------

    /// The form that asks for an address, and why.
    fn ask_address(body: &str) -> (r: (SetupStep, Option<SetupState>))
        ensures
            came_to(r, asked("Add a dimmer"@, body@, seq![address_asked()], "typed"@)),
    {
        let mut fields: Vec<Field> = Vec::new();
        fields.push(Self::address_field());
        proof {
            assert(field_list(fields@) =~= seq![address_asked()]);
        }
        Self::needs("Add a dimmer", body, fields, "typed")
    }

    /// A dimmer on its own.
    pub fn start_dimmer(state: &SetupState, input: &SetupInput) -> (r: (
        SetupStep,
        Option<SetupState>,
    ))
        ensures
            exists|draw: Option<Seq<u8>>|
                is_draw(draw) && came_to(r, #[trigger] dimmer_started(state@, input@, draw)),
    {
        let found: Vec<String> = Self::discovered(state);
        proof {
            assert(found@.len() > 0 ==> text_list(found@)[0] == found@[0]@);
        }
        let address: Option<String> = match either(
            &input.texts.chosen_address,
            &state.texts.chosen_address,
        ) {
            Some(address) => Some(address),
            None => if found.len() > 0 {
                Some(found[0].clone())
            } else {
                None
            },
        };
        let address: String = match address {
            Some(address) => address,
            None => {
                let r: (SetupStep, Option<SetupState>) = Self::ask_address(
                    "Nothing answered the discovery broadcast — it does not cross a router, so a dimmer on another network has to be named.",
                );
                proof {
                    assert(came_to(r, dimmer_started(state@, input@, None)));
                }
                return r;
            },
        };
        let email: Option<String> = either(&input.texts.saved_email, &state.texts.saved_email);
        let password: Option<String> = either(
            &input.texts.saved_password,
            &state.texts.saved_password,
        );
        match (email, password) {
            (Some(email), Some(password)) => {
                let mut queue: Vec<String> = Vec::new();
                queue.push(address);
                let left_out: Vec<String> = Vec::new();
                let ghost q = text_list(queue@);
                let ghost l = text_list(left_out@);
                proof {
                    assert(q =~= seq![address@]);
                    assert(l =~= Seq::<Seq<char>>::empty());
                }
                let r: (SetupStep, Option<SetupState>) = Self::walk(
                    state,
                    queue,
                    left_out,
                    email.as_str(),
                    password.as_str(),
                );
                proof {
                    let draw = choose|draw: Option<Seq<u8>>|
                        is_draw(draw) && came_to(
                            r,
                            #[trigger] walked(state@, q, l, email@, password@, draw),
                        );
                    assert(came_to(r, dimmer_started(state@, input@, draw)));
                }
                r
            },
            _ => {
                let r: (SetupStep, Option<SetupState>) = Self::one_dimmer(state, address.as_str());
                proof {
                    assert(came_to(r, dimmer_started(state@, input@, None)));
                }
                r
            },
        }
    }

    /// A saved account is browsed.
    pub fn browse(state: &SetupState, input: &SetupInput) -> (r: (SetupStep, Option<SetupState>))
        ensures
            exists|draw: Option<Seq<u8>>|
                is_draw(draw) && came_to(r, #[trigger] account_browsed(state@, input@, draw)),
    {
        let email: Option<String> = either(&input.texts.saved_email, &state.texts.saved_email);
        let password: Option<String> = either(
            &input.texts.saved_password,
            &state.texts.saved_password,
        );
        let (email, password): (String, String) = match (email, password) {
            (Some(email), Some(password)) => (email, password),
            _ => {
                let r: (SetupStep, Option<SetupState>) = fail(
                    "This account has no email and password saved. Edit it, or remove it and add it again.".to_owned(),
                );
                proof {
                    assert(came_to(r, account_browsed(state@, input@, None)));
                }
                return r;
            },
        };
        let found: Vec<String> = Self::usable(state);
        proof {
            assert(text_list(found@).len() == found@.len());
        }
        if found.len() == 0 {
            let r: (SetupStep, Option<SetupState>) = fail(
                explain(
                    "No Tapo devices answered on this network. They have to be set up in the Tapo app first, and on the same network as the controller — a discovery broadcast does not cross a router.",
                    &Self::left_out(state),
                ),
            );
            proof {
                assert(came_to(r, account_browsed(state@, input@, None)));
            }
            return r;
        }
        let r: (SetupStep, Option<SetupState>) = Self::walk(
            state,
            found,
            Self::left_out(state),
            email.as_str(),
            password.as_str(),
        );
        proof {
            let draw = choose|draw: Option<Seq<u8>>|
                is_draw(draw) && came_to(
                    r,
                    #[trigger] walked(
                        state@,
                        usable_addresses(state@),
                        left_out_addresses(state@),
                        email@,
                        password@,
                        draw,
                    ),
                );
            assert(came_to(r, account_browsed(state@, input@, draw)));
        }
        r
    }

    /// An account that somebody typed, or which half of it is missing.
    pub fn account(state: &SetupState, input: &SetupInput) -> (r: (SetupStep, Option<SetupState>))
        ensures
            came_to(r, account_typed(state@, input@)),
    {
        let email: Option<String> = either(&input.texts.email, &state.texts.email);
        let password: Option<String> = either(&input.texts.password, &state.texts.password);
        match (email, password) {
            (Some(email), Some(password)) => {
                let mut properties: Vec<(String, String)> = Vec::new();
                properties.push(("Email".to_owned(), email));
                properties.push(("Password".to_owned(), password));
                proof {
                    assert(pair_list(properties@) =~= seq![
                        ("Email"@, email@),
                        ("Password"@, password@),
                    ]);
                }
                done_with(
                    Candidate {
                        label: "TP-Link Account".to_owned(),
                        driver_id: "tapo.account".to_owned(),
                        properties,
                        verified: "saved — checked when its devices are added".to_owned(),
                    },
                )
            },
            (None, None) => Self::ask_account(Some("Both are needed.")),
            (None, Some(_)) => Self::ask_account(Some("The email is needed.")),
            (Some(_), None) => Self::ask_account(Some("The password is needed.")),
        }
    }

    /// The reply to the first handshake with a device.
    pub fn hs1(state: &SetupState, input: &SetupInput) -> (r: (SetupStep, Option<SetupState>))
        ensures
            exists|draw: Option<Seq<u8>>|
                is_draw(draw) && came_to(r, #[trigger] first_reply(state@, input@, draw)),
    {
        let local: Option<[u8; 16]> = either_bytes(
            &input.texts.local_seed,
            &state.texts.local_seed,
        );
        let email: Option<String> = either(&input.texts.email, &state.texts.email);
        let password: Option<String> = either(&input.texts.password, &state.texts.password);
        let (local, email, password): ([u8; 16], String, String) = match (local, email, password) {
            (Some(local), Some(email), Some(password)) => (local, email, password),
            _ => {
                let r: (SetupStep, Option<SetupState>) = Self::lost();
                proof {
                    assert(came_to(r, first_reply(state@, input@, None)));
                }
                return r;
            },
        };
        let address: String = current(state);
        let status: u16 = status_of(input);
        if status != 200 {
            let mut why: String = address;
            why.append(" did not answer (HTTP ");
            why.append(decimal_u64(status as u64).as_str());
            why.append(")");
            let ghost head = why@;
            if let Some(error) = answered(&input.error) {
                why.append(": ");
                why.append(error.as_str());
                proof {
                    assert(why@ =~= head + (": "@ + error@));
                }
            }
            proof {
                assert(why@ =~= head + detail(input@.error));
            }
            let ghost reason = why@;
            let r: (SetupStep, Option<SetupState>) = Self::skip(state, why);
            proof {
                let draw = choose|draw: Option<Seq<u8>>|
                    is_draw(draw) && came_to(r, #[trigger] passed_over(state@, reason, draw));
                assert(came_to(r, first_reply(state@, input@, draw)));
            }
            return r;
        }
        let auth: [u8; 32] = auth_hash(email.as_str(), password.as_str());
        let remote: Option<[u8; 16]> = accept_handshake1(
            &local,
            &auth,
            input.response_bytes.as_slice(),
        );
        let r: (SetupStep, Option<SetupState>) = Self::sign_in(state, input, &local, &auth, remote);
        proof {
            let draw = choose|draw: Option<Seq<u8>>|
                is_draw(draw) && came_to(
                    r,
                    #[trigger] first_judged(
                        state@,
                        input@,
                        local@,
                        auth@,
                        accepted(local@, auth@, input@.response_bytes),
                        draw,
                    ),
                );
            assert(came_to(r, first_reply(state@, input@, draw)));
        }
        r
    }

    /// The first handshake was answered with `remote`, or with nothing that vouches for the
    /// account: send our half of the proof, or go on to the next device.
    pub fn sign_in(
        state: &SetupState,
        input: &SetupInput,
        local: &[u8; 16],
        auth: &[u8; 32],
        remote: Option<[u8; 16]>,
    ) -> (r: (SetupStep, Option<SetupState>))
        ensures
            exists|draw: Option<Seq<u8>>|
                is_draw(draw) && came_to(
                    r,
                    #[trigger] first_judged(
                        state@,
                        input@,
                        local@,
                        auth@,
                        seed_option(remote),
                        draw,
                    ),
                ),
    {
        let ghost judged = seed_option(remote);
        let address: String = current(state);
        let remote: [u8; 16] = match remote {
            Some(remote) => remote,
            None => {
                let mut why: String = address;
                why.append(
                    " did not accept the saved TP-Link email/password — edit the account credentials and try again",
                );
                let ghost reason = why@;
                let r: (SetupStep, Option<SetupState>) = Self::skip(state, why);
                proof {
                    let draw = choose|draw: Option<Seq<u8>>|
                        is_draw(draw) && came_to(
                            r,
                            #[trigger] passed_over(state@, reason, draw),
                        );
                    assert(came_to(
                        r,
                        first_judged(state@, input@, local@, auth@, judged, draw),
                    ));
                }
                return r;
            },
        };
        let cookie: String = match setup_cookie(input) {
            Some(id) => id,
            None => String::new(),
        };
        proof {
            assert(cookie_among(input@.response_headers) is None ==> cookie@ =~= Seq::<
                char,
            >::empty());
        }
        let login: [u8; 32] = handshake2(local, &remote, auth);
        let request: HttpRequest = HttpRequest::post(
            address.as_str(),
            HANDSHAKE2,
            to_send(cookie.as_str()),
            vstd::slice::slice_to_vec(login.as_slice()),
        );
        let mut note: String = "signing in to ".to_owned();
        note.append(address.as_str());
        let mut next: SetupState = state.copy();
        next.phase = Some("hs2".to_owned());
        next.texts.remote_seed = Some(hex(remote.as_slice()));
        next.texts.cookie = Some(cookie);
        let r: (SetupStep, Option<SetupState>) = (SetupStep::Fetch { request, note }, Some(next));
        proof {
            assert(came_to(
                r,
                first_judged(state@, input@, local@, auth@, judged, None),
            ));
        }
        r
    }

    /// The reply to the second handshake with a device: ask it what it is.
    pub fn hs2(state: &SetupState, input: &SetupInput) -> (r: (SetupStep, Option<SetupState>))
        ensures
            exists|draw: Option<Seq<u8>>|
                is_draw(draw) && came_to(r, #[trigger] second_reply(state@, input@, draw)),
    {
        let address: String = current(state);
        let status: u16 = status_of(input);
        if status != 200 {
            let mut why: String = address;
            why.append(" rejected the login (HTTP ");
            why.append(decimal_u64(status as u64).as_str());
            why.append(")");
            let ghost reason = why@;
            let r: (SetupStep, Option<SetupState>) = Self::skip(state, why);
            proof {
                let draw = choose|draw: Option<Seq<u8>>|
                    is_draw(draw) && came_to(r, #[trigger] passed_over(state@, reason, draw));
                assert(came_to(r, second_reply(state@, input@, draw)));
            }
            return r;
        }
        let local: Option<[u8; 16]> = either_bytes(
            &input.texts.local_seed,
            &state.texts.local_seed,
        );
        let remote: Option<[u8; 16]> = either_bytes(
            &input.texts.remote_seed,
            &state.texts.remote_seed,
        );
        let email: Option<String> = either(&input.texts.email, &state.texts.email);
        let password: Option<String> = either(&input.texts.password, &state.texts.password);
        match (local, remote, email, password) {
            (Some(local), Some(remote), Some(email), Some(password)) => {
                let auth: [u8; 32] = auth_hash(email.as_str(), password.as_str());
                let mut session: Session = Session::derive(&local, &remote, &auth);
                let (seq, frame): (i32, Vec<u8>) = session.encrypt(GET.as_bytes());
                let (key, iv, sig): ([u8; 16], [u8; 12], [u8; 28]) = session.parts();
                let cookie: String = match either(&input.texts.cookie, &state.texts.cookie) {
                    Some(cookie) => cookie,
                    None => String::new(),
                };
                proof {
                    assert(said(input@.texts.cookie, state@.texts.cookie) is None ==> cookie@
                        =~= Seq::<char>::empty());
                }
                let path: String = path_of(seq);
                let request: HttpRequest = HttpRequest::post(
                    address.as_str(),
                    path.as_str(),
                    to_send(cookie.as_str()),
                    frame,
                );
                let note: String = three("asking ", address.as_str(), " what it is");
                let mut next: SetupState = state.copy();
                next.phase = Some("info".to_owned());
                next.texts.key = Some(hex(key.as_slice()));
                next.texts.iv = Some(hex(iv.as_slice()));
                next.texts.sig = Some(hex(sig.as_slice()));
                next.seq = Some(seq as i64);
                let r: (SetupStep, Option<SetupState>) = (
                    SetupStep::Fetch { request, note },
                    Some(next),
                );
                proof {
                    assert(came_to(r, second_reply(state@, input@, None)));
                }
                r
            },
            _ => {
                let r: (SetupStep, Option<SetupState>) = Self::lost();
                proof {
                    assert(came_to(r, second_reply(state@, input@, None)));
                }
                r
            },
        }
    }

    /// The reply to the request that asks a device what it is.
    pub fn info(state: &SetupState, input: &SetupInput) -> (r: (SetupStep, Option<SetupState>))
        ensures
            exists|draw: Option<Seq<u8>>|
                is_draw(draw) && came_to(r, #[trigger] info_reply(state@, input@, draw)),
    {
        let key: Option<[u8; 16]> = either_bytes(&input.texts.key, &state.texts.key);
        let iv: Option<[u8; 12]> = either_bytes(&input.texts.iv, &state.texts.iv);
        let sig: Option<[u8; 28]> = either_bytes(&input.texts.sig, &state.texts.sig);
        match (key, iv, sig, state.seq) {
            (Some(key), Some(iv), Some(sig), Some(seq)) => {
                let session: Session = Session::restore(key, iv, sig, seq as i32);
                let reply: Option<DeviceReply> = match session.decrypt(
                    seq as i32,
                    input.response_bytes.as_slice(),
                ) {
                    Some(plain) => read_reply(plain.as_slice()),
                    None => None,
                };
                let r: (SetupStep, Option<SetupState>) = Self::take_in(state, reply);
                proof {
                    let draw = choose|draw: Option<Seq<u8>>|
                        is_draw(draw) && came_to(
                            r,
                            #[trigger] taken_in(state@, reply_option(reply), draw),
                        );
                    assert(came_to(r, info_reply(state@, input@, draw)));
                }
                r
            },
            _ => {
                let r: (SetupStep, Option<SetupState>) = Self::lost();
                proof {
                    assert(came_to(r, info_reply(state@, input@, None)));
                }
                r
            },
        }
    }

    /// What is known of the device whose turn it is, from its reply if that could be read.
    pub fn introduce(state: &SetupState, reply: Option<DeviceReply>) -> (r: Adopted)
        ensures
            r@ == introduced(state@, reply_option(reply)),
    {
        let address: String = current(state);
        let model: String = Self::model(state, address.as_str());
        let (device_on, encoded): (Option<bool>, Option<String>) = match reply {
            Some(m) => (m.device_on, m.nickname),
            None => (None, None),
        };
        let nickname: Option<String> = match encoded {
            Some(encoded) => match from_base64(encoded.as_str()) {
                Some(name) => if trim(name.as_str()).as_str().is_empty() {
                    None
                } else {
                    Some(name)
                },
                None => None,
            },
            None => None,
        };
        let mut verified: String = model.clone();
        match device_on {
            None => verified.append(", signed in"),
            Some(on) => if on {
                verified.append(", on")
            } else {
                verified.append(", off")
            },
        }
        let label: String = match nickname {
            Some(name) => name,
            None => three(model.as_str(), " at ", address.as_str()),
        };
        Adopted { address, label, verified }
    }

    /// Adopt the device whose turn it is, and go on to the next.
    pub fn take_in(state: &SetupState, reply: Option<DeviceReply>) -> (r: (
        SetupStep,
        Option<SetupState>,
    ))
        ensures
            exists|draw: Option<Seq<u8>>|
                is_draw(draw) && came_to(
                    r,
                    #[trigger] taken_in(state@, reply_option(reply), draw),
                ),
    {
        let ghost read = reply_option(reply);
        let mut next: SetupState = state.copy();
        next.adopted.push(Self::introduce(state, reply));
        next.at = if state.at < usize::MAX {
            state.at + 1
        } else {
            state.at
        };
        let ghost settled = next@;
        proof {
            assert(settled.adopted =~= state@.adopted.push(introduced(state@, read)));
        }
        let r: (SetupStep, Option<SetupState>) = Self::greet(next);
        proof {
            let draw = choose|draw: Option<Seq<u8>>|
                is_draw(draw) && came_to(r, #[trigger] next_greeted(settled, draw));
            assert(came_to(r, taken_in(state@, read, draw)));
        }
        r
    }

    /// One step of setup.
    pub fn flow(&self, driver_id: &str, state: &SetupState, input: &SetupInput) -> (r: (
        SetupStep,
        Option<SetupState>,
    ))
        ensures
            exists|draw: Option<Seq<u8>>|
                is_draw(draw) && came_to(
                    r,
                    #[trigger] flowed(driver_id@, state@, input@, draw),
                ),
    {
        let phase: String = match &state.phase {
            Some(phase) => phase.clone(),
            None => "start".to_owned(),
        };
        let phase: &str = phase.as_str();
        if *phase == *"start" && *driver_id == *"tapo.dimmer" {
            let r: (SetupStep, Option<SetupState>) = Self::start_dimmer(state, input);
            proof {
                let draw = choose|draw: Option<Seq<u8>>|
                    is_draw(draw) && came_to(
                        r,
                        #[trigger] dimmer_started(state@, input@, draw),
                    );
                assert(came_to(r, flowed(driver_id@, state@, input@, draw)));
            }
            return r;
        }
        if *phase == *"start" && state.browse == Some(true) {
            let r: (SetupStep, Option<SetupState>) = Self::browse(state, input);
            proof {
                lemma_phases();
                let draw = choose|draw: Option<Seq<u8>>|
                    is_draw(draw) && came_to(
                        r,
                        #[trigger] account_browsed(state@, input@, draw),
                    );
                assert(came_to(r, flowed(driver_id@, state@, input@, draw)));
            }
            return r;
        }
        if *phase == *"hs1" || *phase == *"hs2" || *phase == *"info" {
            proof {
                lemma_phases();
            }
            if *phase == *"hs1" {
                let r: (SetupStep, Option<SetupState>) = Self::hs1(state, input);
                proof {
                    let draw = choose|draw: Option<Seq<u8>>|
                        is_draw(draw) && came_to(
                            r,
                            #[trigger] first_reply(state@, input@, draw),
                        );
                    assert(came_to(r, flowed(driver_id@, state@, input@, draw)));
                }
                return r;
            }
            if *phase == *"hs2" {
                let r: (SetupStep, Option<SetupState>) = Self::hs2(state, input);
                proof {
                    let draw = choose|draw: Option<Seq<u8>>|
                        is_draw(draw) && came_to(
                            r,
                            #[trigger] second_reply(state@, input@, draw),
                        );
                    assert(came_to(r, flowed(driver_id@, state@, input@, draw)));
                }
                return r;
            }
            let r: (SetupStep, Option<SetupState>) = Self::info(state, input);
            proof {
                let draw = choose|draw: Option<Seq<u8>>|
                    is_draw(draw) && came_to(r, #[trigger] info_reply(state@, input@, draw));
                assert(came_to(r, flowed(driver_id@, state@, input@, draw)));
            }
            return r;
        }
        let r: (SetupStep, Option<SetupState>) = if *phase == *"typed" {
            match either(&input.texts.address, &state.texts.address) {
                Some(address) => Self::one_dimmer(state, address.as_str()),
                None => Self::ask_address(
                    "An address is needed. It is under Settings → Device Info in the Tapo app.",
                ),
            }
        } else if *phase == *"start" {
            Self::ask_account(None)
        } else if *phase == *"account" {
            Self::account(state, input)
        } else {
            fail(three("unknown setup phase `", phase, "`"))
        };
        proof {
            assert(came_to(r, flowed(driver_id@, state@, input@, None)));
        }
        r
    }

    /// What is out there to add.
    pub fn discover(&self, driver_id: &str, state: &SetupState, input: &SetupInput) -> (r: (
        SetupStep,
        Option<SetupState>,
    ))
        ensures
            exists|draw: Option<Seq<u8>>|
                is_draw(draw) && came_to(
                    r,
                    #[trigger] flowed(driver_id@, state@, input@, draw),
                ),
    {
        self.flow(driver_id, state, input)
    }

    /// How to add it.
    pub fn setup(&self, driver_id: &str, state: &SetupState, input: &SetupInput) -> (r: (
        SetupStep,
        Option<SetupState>,
    ))
        ensures
            exists|draw: Option<Seq<u8>>|
                is_draw(draw) && came_to(
                    r,
                    #[trigger] flowed(driver_id@, state@, input@, draw),
                ),
    {
        self.flow(driver_id, state, input)
    }
}

proof fn lemma_same_filter(
    s: Seq<Seq<char>>,
    f: spec_fn(Seq<char>) -> bool,
    g: spec_fn(Seq<char>) -> bool,
)
    requires
        forall|a: Seq<char>| #[trigger] f(a) == g(a),
    ensures
        s.filter(f) == s.filter(g),
    decreases s.len(),
{
    reveal(Seq::filter);
    if s.len() > 0 {
        lemma_same_filter(s.drop_last(), f, g);
        assert(f(s.last()) == g(s.last()));
    }
}

} // verus!
