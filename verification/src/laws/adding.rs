//! What setup does with what somebody said and what the network answered, said in the forms, the
//! requests and the devices that come of it.

use vstd::prelude::*;
use vstd::utf8::encode_utf8;
use crate::codec::{base64_text, hex_text, unhexed};
use crate::dimmer::steps::{request_path, status_in};
use crate::host::{cookie_among, posted};
use crate::klap::{accepted, auth_of, derived, framed, login_proof, next_seq, opened, SessionView};
use crate::laws::setup::{all_hold_account, follows, law_browsing_adds_every_dimmer, visited_all, Visit};
use crate::outside::{sha1_of, sha256_of};
use crate::reading::{broadcast_from, may_speak_klap, model_name, reply_of, DeviceReplyView};
use crate::setup::steps::{account_browsed, account_typed, address_typed, addresses, answer, detail, dimmer_found, dimmer_started, explained, finished, first_reply, flowed, here, info_reply, introduced, joined_by, left_out_addresses, left_out_reasons, lemma_phases, model_at, next_greeted, nickname_in, passed_over, said, said_bytes, second_reply, taken_in, usable_addresses, walked};
use crate::setup::types::{came_to, fresh, AdoptedView, Candidate, CandidateView, FieldView, InputView, SetupInput, SetupState, SetupStep, StateView, StepView, Texts, TextsView, Turn};
use crate::text::{decimal, trimmed};

verus! {

// ---------------------------------------------------------------------------------------
// What is read of a flow
// ---------------------------------------------------------------------------------------

/// The texts of a flow are read one by one, each for what it is.
pub proof fn law_texts_are_read_one_by_one(t: Texts)
    ensures
        t@.chosen_address is Some <==> t.chosen_address is Some,
        t.chosen_address is Some ==> t@.chosen_address->0 == t.chosen_address->0@,
        t@.saved_email is Some <==> t.saved_email is Some,
        t.saved_email is Some ==> t@.saved_email->0 == t.saved_email->0@,
        t@.saved_password is Some <==> t.saved_password is Some,
        t.saved_password is Some ==> t@.saved_password->0 == t.saved_password->0@,
        t@.address is Some <==> t.address is Some,
        t.address is Some ==> t@.address->0 == t.address->0@,
        t@.email is Some <==> t.email is Some,
        t.email is Some ==> t@.email->0 == t.email->0@,
        t@.password is Some <==> t.password is Some,
        t.password is Some ==> t@.password->0 == t.password->0@,
        t@.local_seed is Some <==> t.local_seed is Some,
        t.local_seed is Some ==> t@.local_seed->0 == t.local_seed->0@,
        t@.remote_seed is Some <==> t.remote_seed is Some,
        t.remote_seed is Some ==> t@.remote_seed->0 == t.remote_seed->0@,
        t@.cookie is Some <==> t.cookie is Some,
        t.cookie is Some ==> t@.cookie->0 == t.cookie->0@,
        t@.key is Some <==> t.key is Some,
        t.key is Some ==> t@.key->0 == t.key->0@,
        t@.iv is Some <==> t.iv is Some,
        t.iv is Some ==> t@.iv->0 == t.iv->0@,
        t@.sig is Some <==> t.sig is Some,
        t.sig is Some ==> t@.sig->0 == t.sig->0@,
{
}

/// The state of a flow is read field by field, and each of its lists item by item.
pub proof fn law_a_state_is_read_field_by_field(s: SetupState)
    ensures
        s@.phase is Some <==> s.phase is Some,
        s.phase is Some ==> s@.phase->0 == s.phase->0@,
        s@.texts == s.texts@,
        s@.browse == s.browse,
        s@.at == s.at,
        s@.seq == s.seq,
        s@.queue.len() == s.queue@.len(),
        forall|i: int| 0 <= i < s.queue@.len() ==> #[trigger] s@.queue[i] == s.queue@[i]@,
        s@.left_out.len() == s.left_out@.len(),
        forall|i: int| 0 <= i < s.left_out@.len() ==> #[trigger] s@.left_out[i] == s.left_out@[i]@,
        s@.skipped.len() == s.skipped@.len(),
        forall|i: int| 0 <= i < s.skipped@.len() ==> #[trigger] s@.skipped[i] == s.skipped@[i]@,
        s@.adopted.len() == s.adopted@.len(),
        forall|i: int|
            0 <= i < s.adopted@.len() ==> #[trigger] s@.adopted[i] == (AdoptedView {
                address: s.adopted@[i].address@,
                label: s.adopted@[i].label@,
                verified: s.adopted@[i].verified@,
            }),
        s@.udp_candidates.len() == s.udp_candidates@.len(),
        forall|i: int|
            0 <= i < s.udp_candidates@.len() ==> (#[trigger] s@.udp_candidates[i]).address
                == s.udp_candidates@[i].address@ && s@.udp_candidates[i].reply
                == s.udp_candidates@[i].reply@,
{
}

/// A flow that has not begun has nothing in its state.
pub proof fn law_a_fresh_state_has_nothing_in_it()
    ensures
        fresh() == (StateView {
            phase: None,
            texts: TextsView {
                chosen_address: None,
                saved_email: None,
                saved_password: None,
                address: None,
                email: None,
                password: None,
                local_seed: None,
                remote_seed: None,
                cookie: None,
                key: None,
                iv: None,
                sig: None,
            },
            browse: None,
            at: 0,
            seq: None,
            queue: Seq::empty(),
            left_out: Seq::empty(),
            skipped: Seq::empty(),
            adopted: Seq::empty(),
            udp_candidates: Seq::empty(),
        }),
{
}

/// An input is read field by field.
pub proof fn law_an_input_is_read_field_by_field(input: SetupInput)
    ensures
        input@.texts == input.texts@,
        input@.status == input.status,
        input@.response_bytes == input.response_bytes@,
        input@.error is Some <==> input.error is Some,
        input.error is Some ==> input@.error->0 == input.error->0@,
        input@.response_headers.len() == input.response_headers@.len(),
        forall|i: int|
            0 <= i < input.response_headers@.len() ==> #[trigger] input@.response_headers[i] == (
                input.response_headers@[i].0@,
                input.response_headers@[i].1@,
            ),
{
}

/// A flow that came to a turn returned its step, part by part, and its state, or none where the
/// flow is over.
pub proof fn law_a_turn_is_what_is_returned(r: (SetupStep, Option<SetupState>), turn: Turn)
    requires
        came_to(r, turn),
    ensures
        r.1 is Some <==> turn.state is Some,
        r.1 is Some ==> r.1->0@ == turn.state->0,
        match r.0 {
            SetupStep::Form { title, body, fields } => {
                &&& turn.step is Form
                &&& turn.step->title == title@
                &&& turn.step->body == body@
                &&& turn.step->fields.len() == fields@.len()
                &&& forall|i: int|
                    0 <= i < fields@.len() ==> #[trigger] turn.step->fields[i] == (FieldView {
                        name: fields@[i].name@,
                        label: fields@[i].label@,
                        kind: fields@[i].kind@,
                        help: fields@[i].help@,
                        required: fields@[i].required,
                    })
            },
            SetupStep::Failed { reason } => turn.step == (StepView::Failed { reason: reason@ }),
            SetupStep::Fetch { request, note } => {
                &&& turn.step is Fetch
                &&& turn.step->note == note@
                &&& turn.step->request.method == request.method@
                &&& turn.step->request.url == request.url@
                &&& turn.step->request.body_bytes == request.body_bytes@
                &&& turn.step->request.headers.len() == request.headers@.len()
                &&& forall|i: int|
                    0 <= i < request.headers@.len() ==> #[trigger] turn.step->request.headers[i] == (
                        request.headers@[i].0@,
                        request.headers@[i].1@,
                    )
            },
            SetupStep::Done { devices, skipped } => {
                &&& turn.step is Done
                &&& turn.step->devices.len() == devices@.len()
                &&& forall|i: int|
                    0 <= i < devices@.len() ==> #[trigger] turn.step->devices[i] == devices@[i]@
                &&& turn.step->skipped.len() == skipped@.len()
                &&& forall|i: int|
                    0 <= i < skipped@.len() ==> #[trigger] turn.step->skipped[i] == skipped@[i]@
            },
        },
{
}

/// A candidate is read field by field.
pub proof fn law_a_candidate_is_read_field_by_field(c: Candidate)
    ensures
        c@.label == c.label@,
        c@.driver_id == c.driver_id@,
        c@.verified == c.verified@,
        c@.properties.len() == c.properties@.len(),
        forall|i: int|
            0 <= i < c.properties@.len() ==> #[trigger] c@.properties[i] == (
                c.properties@[i].0@,
                c.properties@[i].1@,
            ),
{
}

/// A text counts without the white space around it, and not at all where that leaves nothing; what
/// was typed counts before what was put aside.
pub proof fn law_what_was_typed_counts_first(typed: Option<Seq<char>>, kept: Option<Seq<char>>)
    ensures
        answer(typed) is Some <==> typed is Some && trimmed(typed->0).len() > 0,
        answer(typed) is Some ==> answer(typed)->0 == trimmed(typed->0),
        said(typed, kept) == if answer(typed) is Some {
            answer(typed)
        } else {
            answer(kept)
        },
        forall|n: nat| #[trigger]
            said_bytes(typed, kept, n) is Some <==> said(typed, kept) is Some && unhexed(
                said(typed, kept)->0,
            ) is Some && (unhexed(said(typed, kept)->0)->0).len() == n,
        forall|n: nat| #[trigger]
            said_bytes(typed, kept, n) is Some ==> said_bytes(typed, kept, n) == unhexed(
                said(typed, kept)->0,
            ),
{
}

// ---------------------------------------------------------------------------------------
// What the broadcast found
// ---------------------------------------------------------------------------------------

/// Where nobody picked a row, every device that answered is an address, in the order they answered
/// and however many they are; where somebody did, that row is the only one, as it stands.
pub proof fn law_every_device_that_answered_is_an_address(state: StateView)
    ensures
        answer(state.texts.chosen_address) is None ==> addresses(state).len()
            == state.udp_candidates.len(),
        answer(state.texts.chosen_address) is None ==> forall|i: int|
            0 <= i < state.udp_candidates.len() ==> #[trigger] addresses(state)[i]
                == state.udp_candidates[i].address,
        answer(state.texts.chosen_address) is Some ==> addresses(state) == seq![
            state.texts.chosen_address->0,
        ],
{
}

/// Each device that answered is either walked to or left out, and none is lost: as many as answered
/// are in the two lists together, and each list keeps the order of the answers.
pub proof fn law_no_device_that_answered_is_lost(state: StateView, i: int)
    requires
        answer(state.texts.chosen_address) is None,
        0 <= i < state.udp_candidates.len(),
    ensures
        usable_addresses(state).len() + left_out_addresses(state).len()
            == state.udp_candidates.len(),
        may_speak_klap(broadcast_from(state.udp_candidates, state.udp_candidates[i].address))
            ==> usable_addresses(state).contains(state.udp_candidates[i].address),
        !may_speak_klap(broadcast_from(state.udp_candidates, state.udp_candidates[i].address))
            ==> left_out_addresses(state).contains(state.udp_candidates[i].address),
        usable_addresses(state) == Seq::new(
            state.udp_candidates.len(),
            |k: int| state.udp_candidates[k].address,
        ).filter(|a: Seq<char>| may_speak_klap(broadcast_from(state.udp_candidates, a))),
        left_out_addresses(state) == Seq::new(
            state.udp_candidates.len(),
            |k: int| state.udp_candidates[k].address,
        ).filter(|a: Seq<char>| !may_speak_klap(broadcast_from(state.udp_candidates, a))),
{
    let all = Seq::new(state.udp_candidates.len(), |k: int| state.udp_candidates[k].address);
    let keep = |a: Seq<char>| may_speak_klap(broadcast_from(state.udp_candidates, a));
    let drop = |a: Seq<char>| !may_speak_klap(broadcast_from(state.udp_candidates, a));
    assert(addresses(state) =~= all);
    lemma_halves(all, keep, drop);
    assert(addresses(state)[i] == state.udp_candidates[i].address);
    crate::laws::setup::law_only_another_protocol_is_left_out(
        state,
        state.udp_candidates[i].address,
    );
}

proof fn lemma_halves<A>(s: Seq<A>, keep: spec_fn(A) -> bool, drop: spec_fn(A) -> bool)
    requires
        forall|a: A| #[trigger] keep(a) != drop(a),
    ensures
        s.filter(keep).len() + s.filter(drop).len() == s.len(),
    decreases s.len(),
{
    reveal(Seq::filter);
    if s.len() > 0 {
        lemma_halves(s.drop_last(), keep, drop);
        assert(keep(s.last()) != drop(s.last()));
    }
}

/// Browsing a saved account walks to every device that answered and may speak the protocol, in
/// order, and notes every other: the first is greeted with the account in hand and nothing adopted
/// or skipped yet.
pub proof fn law_browsing_walks_to_every_device_that_answered(
    driver_id: Seq<char>,
    state: StateView,
    input: InputView,
    email: Seq<char>,
    password: Seq<char>,
    seed: Seq<u8>,
)
    requires
        driver_id != "tapo.dimmer"@,
        state.phase is None || state.phase == Some("start"@),
        state.browse == Some(true),
        said(input.texts.saved_email, state.texts.saved_email) == Some(email),
        said(input.texts.saved_password, state.texts.saved_password) == Some(password),
        usable_addresses(state).len() > 0,
    ensures
        ({
            let turn = flowed(driver_id, state, input, Some(seed));
            &&& turn.state is Some
            &&& answer(state.texts.chosen_address) is None ==> turn.state->0.queue.len()
                + turn.state->0.left_out.len() == state.udp_candidates.len()
            &&& answer(state.texts.chosen_address) is None ==> forall|i: int|
                0 <= i < state.udp_candidates.len() ==> turn.state->0.queue.contains(
                    (#[trigger] state.udp_candidates[i]).address,
                ) || turn.state->0.left_out.contains(state.udp_candidates[i].address)
            &&& turn.state->0.queue == usable_addresses(state)
            &&& turn.state->0.left_out == left_out_addresses(state)
            &&& turn.state->0.texts.email == Some(email)
            &&& turn.state->0.texts.password == Some(password)
            &&& turn.state->0.at == 0
            &&& turn.state->0.adopted.len() == 0
            &&& turn.state->0.skipped.len() == 0
            &&& turn.state->0.udp_candidates == state.udp_candidates
            &&& turn.step == (StepView::Fetch {
                request: posted(usable_addresses(state)[0], "/app/handshake1"@, None, seed),
                note: "signing in to "@ + usable_addresses(state)[0],
            })
        }),
{
    lemma_phases();
    let turn = flowed(driver_id, state, input, Some(seed));
    assert(turn == account_browsed(state, input, Some(seed)));
    if answer(state.texts.chosen_address) is None {
        assert forall|i: int|
            0 <= i < state.udp_candidates.len() implies turn.state->0.queue.contains(
            (#[trigger] state.udp_candidates[i]).address,
        ) || turn.state->0.left_out.contains(state.udp_candidates[i].address) by {
            law_no_device_that_answered_is_lost(state, i);
        }
        if state.udp_candidates.len() > 0 {
            law_no_device_that_answered_is_lost(state, 0);
        } else {
            reveal(Seq::filter);
            law_every_device_that_answered_is_an_address(state);
        }
    }
}

/// One dimmer is added for each device that answered, however many there are: where all that
/// answered may speak the protocol and hold the account, the dimmers are theirs one for one, in the
/// order they answered, each with the address it answered from, and nobody is skipped.
pub proof fn law_one_dimmer_is_added_for_each_that_answered(
    driver_id: Seq<char>,
    state: StateView,
    input: InputView,
    email: Seq<char>,
    password: Seq<char>,
    visits: Seq<Visit>,
    end: Turn,
)
    requires
        driver_id != "tapo.dimmer"@,
        state.phase is None,
        state.browse == Some(true),
        answer(state.texts.chosen_address) is None,
        said(input.texts.saved_email, state.texts.saved_email) == Some(email),
        said(input.texts.saved_password, state.texts.saved_password) == Some(password),
        0 < state.udp_candidates.len() <= usize::MAX,
        forall|i: int|
            0 <= i < state.udp_candidates.len() ==> may_speak_klap(
                broadcast_from(state.udp_candidates, (#[trigger] state.udp_candidates[i]).address),
            ),
        visits.len() == state.udp_candidates.len(),
        follows(driver_id, state, input, visits[0].greeted),
        visited_all(driver_id, visits, end),
        all_hold_account(
            visits,
            sha256_of(sha1_of(encode_utf8(email)) + sha1_of(encode_utf8(password))),
        ),
    ensures
        end.state is None,
        end.step is Done,
        end.step->devices.len() == state.udp_candidates.len(),
        end.step->Done_skipped.len() == 0,
        forall|i: int|
            0 <= i < state.udp_candidates.len() ==> (#[trigger] end.step->devices[i]).properties
                == seq![("Address"@, state.udp_candidates[i].address)] && end.step->devices[i].driver_id
                == "tapo.dimmer"@,
{
    let all = addresses(state);
    let keep = |a: Seq<char>| may_speak_klap(broadcast_from(state.udp_candidates, a));
    law_every_device_that_answered_is_an_address(state);
    assert forall|i: int| 0 <= i < all.len() implies keep(#[trigger] all[i]) by {
        assert(all[i] == state.udp_candidates[i].address);
    }
    lemma_all_kept(all, keep);
    law_no_device_that_answered_is_lost(state, 0);
    assert(usable_addresses(state) == all);
    assert(left_out_reasons(left_out_addresses(state)).len() == 0);
    law_browsing_adds_every_dimmer(driver_id, state, input, email, password, visits, end);
}

proof fn lemma_all_kept<A>(s: Seq<A>, keep: spec_fn(A) -> bool)
    requires
        forall|i: int| 0 <= i < s.len() ==> keep(#[trigger] s[i]),
    ensures
        s.filter(keep) == s,
    decreases s.len(),
{
    reveal(Seq::filter);
    if s.len() > 0 {
        let rest = s.drop_last();
        assert forall|i: int| 0 <= i < rest.len() implies keep(#[trigger] rest[i]) by {
            assert(rest[i] == s[i]);
        }
        lemma_all_kept(rest, keep);
        assert(keep(s[s.len() - 1]));
        assert(rest.push(s.last()) =~= s);
    } else {
        assert(s.filter(keep) =~= s);
    }
}

/// The row that somebody picked is walked to, unless it said that it speaks another protocol.
pub proof fn law_the_row_that_was_picked_is_walked_to(state: StateView, picked: Seq<char>)
    requires
        state.texts.chosen_address == Some(picked),
        trimmed(picked).len() > 0,
    ensures
        may_speak_klap(broadcast_from(state.udp_candidates, picked)) ==> usable_addresses(state)
            == seq![picked] && left_out_addresses(state).len() == 0,
        !may_speak_klap(broadcast_from(state.udp_candidates, picked)) ==> usable_addresses(
            state,
        ).len() == 0 && left_out_addresses(state) == seq![picked],
{
    reveal_with_fuel(Seq::filter, 2);
    assert(addresses(state).drop_last() =~= Seq::<Seq<char>>::empty());
    assert(addresses(state).last() == picked);
    if may_speak_klap(broadcast_from(state.udp_candidates, picked)) {
        assert(usable_addresses(state) =~= seq![picked]);
    } else {
        assert(left_out_addresses(state) =~= seq![picked]);
    }
}

/// Browsing says what is missing: the account, or anybody to walk to, with why the others were left
/// out. Where nothing is, the walk goes to all that can be walked to.
pub proof fn law_browsing_says_what_is_missing(
    state: StateView,
    input: InputView,
    draw: Option<Seq<u8>>,
)
    ensures
        said(input.texts.saved_email, state.texts.saved_email) is None || said(
            input.texts.saved_password,
            state.texts.saved_password,
        ) is None ==> account_browsed(state, input, draw) == (Turn {
            step: StepView::Failed {
                reason: "This account has no email and password saved. Edit it, or remove it and add it again."@,
            },
            state: None,
        }),
        said(input.texts.saved_email, state.texts.saved_email) is Some && said(
            input.texts.saved_password,
            state.texts.saved_password,
        ) is Some && usable_addresses(state).len() == 0 ==> account_browsed(state, input, draw) == (
        Turn {
            step: StepView::Failed {
                reason: explained(
                    "No Tapo devices answered on this network. They have to be set up in the Tapo app first, and on the same network as the controller — a discovery broadcast does not cross a router."@,
                    left_out_addresses(state),
                ),
            },
            state: None,
        }),
        said(input.texts.saved_email, state.texts.saved_email) is Some && said(
            input.texts.saved_password,
            state.texts.saved_password,
        ) is Some && usable_addresses(state).len() > 0 ==> account_browsed(state, input, draw)
            == walked(
            state,
            usable_addresses(state),
            left_out_addresses(state),
            said(input.texts.saved_email, state.texts.saved_email)->0,
            said(input.texts.saved_password, state.texts.saved_password)->0,
            draw,
        ),
{
}

// ---------------------------------------------------------------------------------------
// Texts
// ---------------------------------------------------------------------------------------

/// Texts are joined in order with the same thing between each two of them.
pub proof fn law_texts_are_joined_in_order(
    first: Seq<char>,
    rest: Seq<Seq<char>>,
    more: Seq<char>,
    between: Seq<char>,
)
    ensures
        joined_by(Seq::empty(), between).len() == 0,
        joined_by(seq![first], between) == first,
        joined_by(seq![first] + rest + seq![more], between) == joined_by(
            seq![first] + rest,
            between,
        ) + between + more,
{
    let all = seq![first] + rest + seq![more];
    assert(all.drop_last() =~= seq![first] + rest);
    assert(all.last() == more);
}

/// Every address that was left out is named, with the reason, in order; and where any was, that is
/// said behind the failure.
pub proof fn law_what_was_left_out_is_named(
    left_out: Seq<Seq<char>>,
    i: int,
    text: Seq<char>,
)
    ensures
        left_out_reasons(left_out).len() == left_out.len(),
        0 <= i < left_out.len() ==> left_out_reasons(left_out)[i] == left_out[i]
            + " speaks a protocol this driver does not"@,
        left_out.len() == 0 ==> explained(text, left_out) == text,
        left_out.len() > 0 ==> explained(text, left_out) == text + " "@ + joined_by(
            left_out_reasons(left_out),
            "; "@,
        ),
{
}

/// The error that came with a request is said behind a colon, and nothing is where there was none.
pub proof fn law_an_error_is_said_behind_a_colon(error: Option<Seq<char>>)
    ensures
        answer(error) is None ==> detail(error).len() == 0,
        answer(error) is Some ==> detail(error) == ": "@ + trimmed(error->0),
{
}

// ---------------------------------------------------------------------------------------
// One dimmer
// ---------------------------------------------------------------------------------------

/// A dimmer is found under what it calls itself and where it is, with its address and nothing else.
pub proof fn law_a_dimmer_is_found_under_its_model(state: StateView, address: Seq<char>)
    ensures
        dimmer_found(state, address) == (Turn {
            step: StepView::Done {
                devices: seq![
                    CandidateView {
                        label: model_name(broadcast_from(state.udp_candidates, address)) + " at "@
                            + address,
                        driver_id: "tapo.dimmer"@,
                        properties: seq![("Address"@, address)],
                        verified: "found on the network"@,
                    },
                ],
                skipped: Seq::empty(),
            },
            state: None,
        }),
{
}

/// A dimmer is looked for where somebody picked, or else where the first answer came from; it is
/// logged in to where the account came along, and found as it is where not. Where there is nowhere
/// to look, its address is asked for.
pub proof fn law_a_dimmer_is_looked_for_where_it_was_picked(
    state: StateView,
    input: InputView,
    draw: Option<Seq<u8>>,
    address: Seq<char>,
)
    requires
        match said(input.texts.chosen_address, state.texts.chosen_address) {
            Some(picked) => address == picked,
            None => state.udp_candidates.len() > 0 && address == state.udp_candidates[0].address,
        },
    ensures
        ({
            let email = said(input.texts.saved_email, state.texts.saved_email);
            let password = said(input.texts.saved_password, state.texts.saved_password);
            &&& email is Some && password is Some ==> dimmer_started(state, input, draw) == walked(
                state,
                seq![address],
                Seq::empty(),
                email->0,
                password->0,
                draw,
            )
            &&& email is None || password is None ==> dimmer_started(state, input, draw)
                == dimmer_found(state, address)
        }),
{
}

/// An address is asked for where nobody picked a row and nothing answered, and again where what was
/// typed is blank; what was typed is where the dimmer is.
pub proof fn law_an_address_is_asked_for_until_one_is_typed(
    state: StateView,
    input: InputView,
    draw: Option<Seq<u8>>,
)
    ensures
        said(input.texts.chosen_address, state.texts.chosen_address) is None
            && state.udp_candidates.len() == 0 ==> dimmer_started(state, input, draw) == (Turn {
            step: StepView::Form {
                title: "Add a dimmer"@,
                body: "Nothing answered the discovery broadcast — it does not cross a router, so a dimmer on another network has to be named."@,
                fields: seq![
                    FieldView {
                        name: "address"@,
                        label: "Address"@,
                        kind: "string"@,
                        help: "Tapo app → the dimmer → Settings → Device Info"@,
                        required: true,
                    },
                ],
            },
            state: Some(StateView { phase: Some("typed"@), ..fresh() }),
        }),
        said(input.texts.address, state.texts.address) is None ==> address_typed(state, input) == (
        Turn {
            step: StepView::Form {
                title: "Add a dimmer"@,
                body: "An address is needed. It is under Settings → Device Info in the Tapo app."@,
                fields: seq![
                    FieldView {
                        name: "address"@,
                        label: "Address"@,
                        kind: "string"@,
                        help: "Tapo app → the dimmer → Settings → Device Info"@,
                        required: true,
                    },
                ],
            },
            state: Some(StateView { phase: Some("typed"@), ..fresh() }),
        }),
        said(input.texts.address, state.texts.address) matches Some(address) ==> address_typed(
            state,
            input,
        ) == dimmer_found(state, address),
{
}

// ---------------------------------------------------------------------------------------
// An account
// ---------------------------------------------------------------------------------------

/// What is missing of an account is asked for with the form that an account is first asked for with,
/// and one sentence that names it in place of the first.
pub proof fn law_what_is_missing_of_an_account_is_asked_for(
    driver_id: Seq<char>,
    start: StateView,
    state: StateView,
    input: InputView,
    draw: Option<Seq<u8>>,
)
    requires
        start.phase is None,
        start.browse != Some(true),
        driver_id != "tapo.dimmer"@,
        said(input.texts.email, state.texts.email) is None || said(
            input.texts.password,
            state.texts.password,
        ) is None,
    ensures
        account_typed(state, input).step is Form,
        account_typed(state, input).step->title == "TP-Link account"@,
        account_typed(state, input).step->fields == flowed(
            driver_id,
            start,
            input,
            draw,
        ).step->fields,
        account_typed(state, input).state == flowed(driver_id, start, input, draw).state,
        account_typed(state, input).step->body == if said(
            input.texts.email,
            state.texts.email,
        ) is Some {
            "The password is needed."@
        } else if said(input.texts.password, state.texts.password) is Some {
            "The email is needed."@
        } else {
            "Both are needed."@
        },
{
    lemma_phases();
}

/// An account that was typed is added as it was typed, the email under its name and the password
/// under its own.
pub proof fn law_an_account_is_added_as_it_was_typed(
    state: StateView,
    input: InputView,
    email: Option<Seq<char>>,
    password: Option<Seq<char>>,
)
    requires
        email == said(input.texts.email, state.texts.email),
        password == said(input.texts.password, state.texts.password),
    ensures
        email is Some && password is Some ==> account_typed(state, input) == (Turn {
            step: StepView::Done {
                devices: seq![
                    CandidateView {
                        label: "TP-Link Account"@,
                        driver_id: "tapo.account"@,
                        properties: seq![("Email"@, email->0), ("Password"@, password->0)],
                        verified: "saved — checked when its devices are added"@,
                    },
                ],
                skipped: Seq::empty(),
            },
            state: None,
        }),
{
}

// ---------------------------------------------------------------------------------------
// Which step comes
// ---------------------------------------------------------------------------------------

/// Each step is taken for what the phase says, and a phase that nobody knows is named.
pub proof fn law_a_step_is_taken_for_its_phase(
    driver_id: Seq<char>,
    state: StateView,
    input: InputView,
    draw: Option<Seq<u8>>,
    phase: Seq<char>,
)
    requires
        state.phase == Some(phase) || (state.phase is None && phase == "start"@),
    ensures
        ({
            let turn = flowed(driver_id, state, input, draw);
            &&& phase == "start"@ && driver_id == "tapo.dimmer"@ ==> turn == dimmer_started(
                state,
                input,
                draw,
            )
            &&& phase == "start"@ && driver_id != "tapo.dimmer"@ && state.browse == Some(true)
                ==> turn == account_browsed(state, input, draw)
            &&& phase == "start"@ && driver_id != "tapo.dimmer"@ && state.browse != Some(true)
                ==> turn == (Turn {
                step: StepView::Form {
                    title: "TP-Link account"@,
                    body: "The account your Tapo devices are paired to — the one you sign in to the Tapo app with. Every device shares it, so it is asked once."@,
                    fields: seq![
                        FieldView {
                            name: "email"@,
                            label: "Email"@,
                            kind: "string"@,
                            help: Seq::empty(),
                            required: true,
                        },
                        FieldView {
                            name: "password"@,
                            label: "Password"@,
                            kind: "password"@,
                            help: Seq::empty(),
                            required: true,
                        },
                    ],
                },
                state: Some(StateView { phase: Some("account"@), ..fresh() }),
            })
            &&& phase == "typed"@ ==> turn == address_typed(state, input)
            &&& phase == "account"@ ==> turn == account_typed(state, input)
            &&& phase == "hs1"@ ==> turn == first_reply(state, input, draw)
            &&& phase == "hs2"@ ==> turn == second_reply(state, input, draw)
            &&& phase == "info"@ ==> turn == info_reply(state, input, draw)
            &&& phase != "start"@ && phase != "typed"@ && phase != "account"@ && phase != "hs1"@
                && phase != "hs2"@ && phase != "info"@ ==> turn == (Turn {
                step: StepView::Failed { reason: "unknown setup phase `"@ + phase + "`"@ },
                state: None,
            })
        }),
{
    lemma_phases();
}

// ---------------------------------------------------------------------------------------
// A walk
// ---------------------------------------------------------------------------------------

/// The device whose turn it is, is the one at its place in the queue.
pub proof fn law_the_turn_is_the_place_in_the_queue(state: StateView)
    ensures
        state.at < state.queue.len() ==> here(state) == state.queue[state.at as int],
        state.at >= state.queue.len() ==> here(state).len() == 0,
        model_at(state, here(state)) == model_name(
            broadcast_from(state.udp_candidates, here(state)),
        ),
{
}

/// A device is greeted with the seed that was drawn, at its own address and without a cookie; the
/// account and all that was settled is kept, and what belongs to one login is not.
pub proof fn law_a_device_is_greeted_at_its_own_address(state: StateView, seed: Seq<u8>)
    requires
        state.at < state.queue.len(),
    ensures
        next_greeted(state, Some(seed)) == (Turn {
            step: StepView::Fetch {
                request: posted(state.queue[state.at as int], "/app/handshake1"@, None, seed),
                note: "signing in to "@ + state.queue[state.at as int],
            },
            state: Some(
                StateView {
                    phase: Some("hs1"@),
                    texts: TextsView {
                        chosen_address: state.texts.chosen_address,
                        saved_email: state.texts.saved_email,
                        saved_password: state.texts.saved_password,
                        address: state.texts.address,
                        email: state.texts.email,
                        password: state.texts.password,
                        local_seed: Some(hex_text(seed)),
                        remote_seed: None,
                        cookie: None,
                        key: None,
                        iv: None,
                        sig: None,
                    },
                    browse: state.browse,
                    at: state.at,
                    seq: None,
                    queue: state.queue,
                    left_out: state.left_out,
                    skipped: state.skipped,
                    adopted: state.adopted,
                    udp_candidates: state.udp_candidates,
                },
            ),
        }),
{
}

/// Where no seed can be drawn every device from here on is passed over, each named, and what was
/// adopted is what is added; past the last device the walk is over.
pub proof fn law_without_a_seed_the_rest_is_passed_over(state: StateView, draw: Option<Seq<u8>>)
    ensures
        state.at >= state.queue.len() ==> next_greeted(state, draw) == finished(state),
        state.at < state.queue.len() ==> next_greeted(state, None) == finished(
            StateView {
                skipped: state.skipped + Seq::new(
                    (state.queue.len() - state.at) as nat,
                    |i: int| state.queue[state.at + i] + " was not tried: no random numbers"@,
                ),
                ..state
            },
        ),
{
    if state.at < state.queue.len() {
        let named = Seq::new(
            (state.queue.len() - state.at) as nat,
            |i: int| state.queue[state.at + i] + " was not tried: no random numbers"@,
        );
        let rest = state.queue.skip(state.at as int);
        assert(crate::setup::steps::unseeded_reasons(rest) =~= named);
    }
}

/// A walk begins with the account in hand, at the first of its devices, with nothing settled.
pub proof fn law_a_walk_begins_with_nothing_settled(
    state: StateView,
    queue: Seq<Seq<char>>,
    left_out: Seq<Seq<char>>,
    email: Seq<char>,
    password: Seq<char>,
    seed: Seq<u8>,
)
    requires
        queue.len() > 0,
    ensures
        walked(state, queue, left_out, email, password, Some(seed)) == (Turn {
            step: StepView::Fetch {
                request: posted(queue[0], "/app/handshake1"@, None, seed),
                note: "signing in to "@ + queue[0],
            },
            state: Some(
                StateView {
                    phase: Some("hs1"@),
                    texts: TextsView {
                        chosen_address: None,
                        saved_email: None,
                        saved_password: None,
                        address: None,
                        email: Some(email),
                        password: Some(password),
                        local_seed: Some(hex_text(seed)),
                        remote_seed: None,
                        cookie: None,
                        key: None,
                        iv: None,
                        sig: None,
                    },
                    browse: None,
                    at: 0,
                    seq: None,
                    queue,
                    left_out,
                    skipped: Seq::empty(),
                    adopted: Seq::empty(),
                    udp_candidates: state.udp_candidates,
                },
            ),
        }),
{
}

/// A walk that cannot draw its first seed fails, and names every device that was not tried and every
/// one that was left out.
pub proof fn law_a_walk_without_a_seed_fails(
    state: StateView,
    queue: Seq<Seq<char>>,
    left_out: Seq<Seq<char>>,
    email: Seq<char>,
    password: Seq<char>,
)
    requires
        queue.len() > 0,
    ensures
        walked(state, queue, left_out, email, password, None) == (Turn {
            step: StepView::Failed {
                reason: "Nothing could be added. "@ + joined_by(
                    Seq::new(
                        queue.len(),
                        |i: int| queue[i] + " was not tried: no random numbers"@,
                    ) + left_out_reasons(left_out),
                    "; "@,
                ),
            },
            state: None,
        }),
{
    let named = Seq::new(queue.len(), |i: int| queue[i] + " was not tried: no random numbers"@);
    let rest = queue.skip(0);
    assert(crate::setup::steps::unseeded_reasons(rest) =~= named);
    assert(Seq::<Seq<char>>::empty() + named =~= named);
}

/// Passing over a device notes why and goes on to the next, and so does taking one in with what is
/// known of it; neither touches the other list.
pub proof fn law_settling_a_device_goes_on_to_the_next(
    state: StateView,
    why: Seq<char>,
    reply: Option<DeviceReplyView>,
    draw: Option<Seq<u8>>,
)
    requires
        state.at < state.queue.len(),
        state.queue.len() <= usize::MAX,
    ensures
        passed_over(state, why, draw) == next_greeted(
            StateView {
                at: (state.at + 1) as usize,
                skipped: state.skipped + seq![why],
                ..state
            },
            draw,
        ),
        taken_in(state, reply, draw) == next_greeted(
            StateView {
                at: (state.at + 1) as usize,
                adopted: state.adopted + seq![introduced(state, reply)],
                ..state
            },
            draw,
        ),
{
    assert(state.skipped.push(why) =~= state.skipped + seq![why]);
    assert(state.adopted.push(introduced(state, reply)) =~= state.adopted + seq![
        introduced(state, reply),
    ]);
}

/// The end of a walk: each device that was adopted is added, in order, under its label and with its
/// address and nothing else, and all that were not are named beside them; where none was adopted,
/// the walk failed, and says why.
pub proof fn law_the_end_of_a_walk(state: StateView)
    ensures
        finished(state).state is None,
        state.adopted.len() > 0 ==> {
            &&& finished(state).step is Done
            &&& finished(state).step->devices.len() == state.adopted.len()
            &&& forall|i: int|
                0 <= i < state.adopted.len() ==> #[trigger] finished(state).step->devices[i] == (
                CandidateView {
                    label: state.adopted[i].label,
                    driver_id: "tapo.dimmer"@,
                    properties: seq![("Address"@, state.adopted[i].address)],
                    verified: state.adopted[i].verified,
                })
            &&& finished(state).step->skipped == left_out_reasons(state.left_out) + state.skipped
        },
        state.adopted.len() == 0 && state.skipped.len() == 0 ==> finished(state).step == (
        StepView::Failed { reason: explained("Nothing answered."@, state.left_out) }),
        state.adopted.len() == 0 && state.skipped.len() > 0 ==> finished(state).step == (
        StepView::Failed {
            reason: "Nothing could be added. "@ + joined_by(
                state.skipped + left_out_reasons(state.left_out),
                "; "@,
            ),
        }),
{
}

/// The reply to a greeting that cannot be judged, because the seed or the account is gone, ends the
/// flow; one with another status than 200 passes the device over with the status and the error; one
/// that the account does not vouch for passes it over and names the account.
pub proof fn law_a_greeting_that_fails_passes_the_device_over(
    state: StateView,
    input: InputView,
    draw: Option<Seq<u8>>,
    local: Option<Seq<u8>>,
    email: Option<Seq<char>>,
    password: Option<Seq<char>>,
)
    requires
        local == said_bytes(input.texts.local_seed, state.texts.local_seed, 16),
        email == said(input.texts.email, state.texts.email),
        password == said(input.texts.password, state.texts.password),
    ensures
        local is None || email is None || password is None ==> first_reply(state, input, draw) == (
        Turn {
            step: StepView::Failed {
                reason: "Lost track of the handshake part-way through. Start setup again."@,
            },
            state: None,
        }),
        local is Some && email is Some && password is Some && status_in(input.status) != 200
            ==> first_reply(state, input, draw) == passed_over(
            state,
            here(state) + " did not answer (HTTP "@ + decimal(status_in(input.status) as int) + ")"@
                + detail(input.error),
            draw,
        ),
        local is Some && email is Some && password is Some && status_in(input.status) == 200
            && accepted(local->0, auth_of(email->0, password->0), input.response_bytes) is None
            ==> first_reply(state, input, draw) == passed_over(
            state,
            here(state)
                + " did not accept the saved TP-Link email/password — edit the account credentials and try again"@,
            draw,
        ),
{
}

/// A greeting that the account vouches for is answered with our proof, under the cookie that came
/// with it; the seed of the device and the cookie are put aside and nothing else changes.
pub proof fn law_a_greeting_that_holds_is_answered(
    state: StateView,
    input: InputView,
    draw: Option<Seq<u8>>,
    local: Seq<u8>,
    email: Seq<char>,
    password: Seq<char>,
    remote: Seq<u8>,
)
    requires
        said_bytes(input.texts.local_seed, state.texts.local_seed, 16) == Some(local),
        said(input.texts.email, state.texts.email) == Some(email),
        said(input.texts.password, state.texts.password) == Some(password),
        input.status == Some(200u64),
        accepted(local, auth_of(email, password), input.response_bytes) == Some(remote),
    ensures
        first_reply(state, input, draw) == (Turn {
            step: StepView::Fetch {
                request: posted(
                    here(state),
                    "/app/handshake2"@,
                    match cookie_among(input.response_headers) {
                        Some(id) => if id.len() > 0 {
                            Some(id)
                        } else {
                            None
                        },
                        None => None,
                    },
                    login_proof(local, remote, auth_of(email, password)),
                ),
                note: "signing in to "@ + here(state),
            },
            state: Some(
                StateView {
                    phase: Some("hs2"@),
                    texts: TextsView {
                        remote_seed: Some(hex_text(remote)),
                        cookie: Some(
                            match cookie_among(input.response_headers) {
                                Some(id) => id,
                                None => Seq::empty(),
                            },
                        ),
                        ..state.texts
                    },
                    ..state
                },
            ),
        }),
{
    crate::laws::commands::law_a_status_is_sixteen_bits(200);
}

/// A login that a device rejects passes it over with the status; one whose pieces are gone ends the
/// flow.
pub proof fn law_a_login_that_is_rejected_passes_the_device_over(
    state: StateView,
    input: InputView,
    draw: Option<Seq<u8>>,
)
    ensures
        status_in(input.status) != 200 ==> second_reply(state, input, draw) == passed_over(
            state,
            here(state) + " rejected the login (HTTP "@ + decimal(status_in(input.status) as int)
                + ")"@,
            draw,
        ),
        status_in(input.status) == 200 && (said_bytes(
            input.texts.local_seed,
            state.texts.local_seed,
            16,
        ) is None || said_bytes(input.texts.remote_seed, state.texts.remote_seed, 16) is None
            || said(input.texts.email, state.texts.email) is None || said(
            input.texts.password,
            state.texts.password,
        ) is None) ==> second_reply(state, input, draw) == (Turn {
            step: StepView::Failed {
                reason: "Lost track of the handshake part-way through. Start setup again."@,
            },
            state: None,
        }),
{
}

/// A login that is taken is followed by the question what the device is, under the session of the
/// two seeds and the account, at its first number; the session is put aside for the answer.
pub proof fn law_a_login_that_is_taken_asks_what_it_is(
    state: StateView,
    input: InputView,
    draw: Option<Seq<u8>>,
    local: Seq<u8>,
    remote: Seq<u8>,
    email: Seq<char>,
    password: Seq<char>,
)
    requires
        input.status == Some(200u64),
        said_bytes(input.texts.local_seed, state.texts.local_seed, 16) == Some(local),
        said_bytes(input.texts.remote_seed, state.texts.remote_seed, 16) == Some(remote),
        said(input.texts.email, state.texts.email) == Some(email),
        said(input.texts.password, state.texts.password) == Some(password),
    ensures
        ({
            let session = derived(local, remote, auth_of(email, password));
            let seq = next_seq(session.seq);
            second_reply(state, input, draw) == (Turn {
                step: StepView::Fetch {
                    request: posted(
                        here(state),
                        request_path(seq),
                        said(input.texts.cookie, state.texts.cookie),
                        framed(
                            session,
                            seq,
                            encode_utf8("{\"method\":\"get_device_info\",\"requestTimeMils\":0}"@),
                        ),
                    ),
                    note: "asking "@ + here(state) + " what it is"@,
                },
                state: Some(
                    StateView {
                        phase: Some("info"@),
                        texts: TextsView {
                            key: Some(hex_text(session.key)),
                            iv: Some(hex_text(session.iv)),
                            sig: Some(hex_text(session.sig)),
                            ..state.texts
                        },
                        seq: Some(seq as i64),
                        ..state
                    },
                ),
            })
        }),
{
    crate::laws::commands::law_a_status_is_sixteen_bits(200);
}

/// What a device is, is read with the session that was put aside, at its number, and the device is
/// taken in whether or not it can be; where the session is gone the flow ends.
pub proof fn law_what_a_device_is_is_read_with_its_session(
    state: StateView,
    input: InputView,
    draw: Option<Seq<u8>>,
    key: Seq<u8>,
    iv: Seq<u8>,
    sig: Seq<u8>,
    seq: i32,
)
    ensures
        said_bytes(input.texts.key, state.texts.key, 16) == Some(key) && said_bytes(
            input.texts.iv,
            state.texts.iv,
            12,
        ) == Some(iv) && said_bytes(input.texts.sig, state.texts.sig, 28) == Some(sig) && state.seq
            is Some && (state.seq->0 - seq) % 0x1_0000_0000 == 0 ==> info_reply(state, input, draw) == taken_in(
            state,
            match opened(SessionView { key, iv, sig, seq }, seq, input.response_bytes) {
                Some(plain) => reply_of(plain),
                None => None,
            },
            draw,
        ),
        said_bytes(input.texts.key, state.texts.key, 16) is None || said_bytes(
            input.texts.iv,
            state.texts.iv,
            12,
        ) is None || said_bytes(input.texts.sig, state.texts.sig, 28) is None || state.seq is None
            ==> info_reply(state, input, draw) == (Turn {
            step: StepView::Failed {
                reason: "Lost track of the handshake part-way through. Start setup again."@,
            },
            state: None,
        }),
{
    if state.seq is Some {
        crate::laws::commands::lemma_low_bits(state.seq->0, seq);
    }
}

/// A device is introduced at its address, under the name that was given to it or else under its
/// model and its address, with its power where it said so.
pub proof fn law_a_device_is_introduced_by_its_name(
    state: StateView,
    reply: Option<DeviceReplyView>,
)
    ensures
        introduced(state, reply).address == here(state),
        nickname_in(reply) is Some ==> introduced(state, reply).label == nickname_in(reply)->0,
        nickname_in(reply) is None ==> introduced(state, reply).label == model_name(
            broadcast_from(state.udp_candidates, here(state)),
        ) + " at "@ + here(state),
        reply is None || (reply->0).device_on is None ==> introduced(state, reply).verified
            == model_name(broadcast_from(state.udp_candidates, here(state))) + ", signed in"@,
        reply is Some && (reply->0).device_on == Some(true) ==> introduced(state, reply).verified
            == model_name(broadcast_from(state.udp_candidates, here(state))) + ", on"@,
        reply is Some && (reply->0).device_on == Some(false) ==> introduced(state, reply).verified
            == model_name(broadcast_from(state.udp_candidates, here(state))) + ", off"@,
{
}

/// The name of a device is what its nickname encodes, as it stands, unless that is blank.
pub proof fn law_a_name_is_what_the_nickname_encodes(reply: Option<DeviceReplyView>)
    ensures
        nickname_in(reply) is Some <==> reply is Some && (reply->0).nickname is Some && base64_text(
            (reply->0).nickname->0,
        ) is Some && trimmed(base64_text((reply->0).nickname->0)->0).len() > 0,
        nickname_in(reply) is Some ==> nickname_in(reply) == base64_text((reply->0).nickname->0),
{
}

} // verus!
