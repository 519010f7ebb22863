//! What holds of setup, whoever answers and whoever does not.

use vstd::prelude::*;
use vstd::utf8::encode_utf8;
use crate::codec::{base64_of, hex_text, law_base64_reads_back, law_hex_reads_back, nibble};
use crate::dimmer::steps::{request_path, status_in};
use crate::dimmer::types::{GET, HANDSHAKE1, HANDSHAKE2};
use crate::host::{cookie_among, posted};
use crate::klap::{accepted, auth_of, derived, framed, is_draw, law_a_derived_session_is_well_formed, login_proof, next_seq, opened, SessionView};
use crate::reading::{broadcast_from, may_speak_klap, reply_of, DeviceReplyView};
use crate::setup::steps::{account_asked, account_browsed, addresses, answer, cookie_to_send, cut_short, device_greeted, dimmer_candidate, dimmer_started, explained, failed, finished, first_reply, flowed, here, info_reply, introduced, joined_by, left_out_addresses, left_out_reasons, lemma_phases, lost_track, model_at, next_greeted, nickname_in, passed_over, place_after, said, said_bytes, second_reply, session_aside, taken_in, usable_addresses, walked};
use crate::setup::types::{fresh, no_texts, AdoptedView, InputView, StateView, StepView, TextsView, Turn};
use crate::text::{trim_end, trim_start, trimmed, white_space};

verus! {

// ---------------------------------------------------------------------------------------
// The walk
// ---------------------------------------------------------------------------------------

/// How far a login has come: the first handshake is out, the second is out, the question is out.
pub open spec fn stage(state: StateView) -> int {
    if state.phase == Some("hs1"@) {
        1
    } else if state.phase == Some("hs2"@) {
        2
    } else if state.phase == Some("info"@) {
        3
    } else {
        0
    }
}

/// A walk is under way and it is some device's turn.
pub open spec fn walking(state: StateView) -> bool {
    stage(state) > 0 && state.at < state.queue.len()
}

/// Every device whose turn has been was adopted or skipped, and none was both.
pub open spec fn accounted(state: StateView) -> bool {
    state.at == state.adopted.len() + state.skipped.len()
}

/// A step that asks something of the device at `address`.
pub open spec fn asks(step: StepView, address: Seq<char>) -> bool {
    step matches StepView::Fetch { request, note } && request.method == "POST"@ && "http://"@.add(
        address,
    ).is_prefix_of(request.url)
}

/// `next` is `state` with one more device behind it: adopted, or skipped.
pub open spec fn one_settled(state: StateView, next: StateView) -> bool {
    &&& next.at == state.at + 1
    &&& next.queue == state.queue
    &&& {
        ||| next.skipped == state.skipped && next.adopted.len() == state.adopted.len() + 1
            && next.adopted.drop_last() == state.adopted && next.adopted.last().address == here(
            state,
        )
        ||| next.adopted == state.adopted && next.skipped.len() == state.skipped.len() + 1
            && next.skipped.drop_last() == state.skipped
    }
}

/// One turn of a walk: the login with this device goes one stage on; or the device is settled and
/// the next one is greeted; or it was the last and the walk is over; or there is no seed for the
/// next one and the walk is cut short; or the flow lost its notes.
pub open spec fn goes_on(state: StateView, turn: Turn, draw: Option<Seq<u8>>) -> bool {
    ||| turn == lost_track()
    ||| turn.state matches Some(next) && asks(turn.step, here(next)) && next.at < next.queue.len() && ({
        ||| stage(next) == stage(state) + 1 && next.at == state.at && next.queue == state.queue
            && next.adopted == state.adopted && next.skipped == state.skipped
        ||| stage(next) == 1 && one_settled(state, next)
    })
    ||| state.at + 1 == state.queue.len() && (exists|last: StateView|
        one_settled(state, last) && turn == #[trigger] finished(last))
    ||| draw is None && (exists|last: StateView|
        one_settled(state, last) && last.at < last.queue.len() && turn == finished(
            #[trigger] cut_short(last),
        ))
}

proof fn lemma_settled_goes_on(state: StateView, settled: StateView, draw: Option<Seq<u8>>)
    requires
        state.at < state.queue.len(),
        one_settled(state, settled),
    ensures
        goes_on(state, next_greeted(settled, draw), draw),
{
    let turn = next_greeted(settled, draw);
    lemma_phases();
    if settled.at < settled.queue.len() {
        match draw {
            Some(seed) => {
                let next = turn.state->0;
                assert(one_settled(state, next));
                assert("http://"@.add(here(next)).is_prefix_of(
                    posted(here(next), HANDSHAKE1@, None, seed).url,
                ));
            },
            None => {
                assert(turn == finished(cut_short(settled)));
            },
        }
    } else {
        assert(turn == finished(settled));
    }
}

proof fn lemma_skip_goes_on(state: StateView, why: Seq<char>, draw: Option<Seq<u8>>)
    requires
        state.at < state.queue.len() <= usize::MAX,
    ensures
        goes_on(state, passed_over(state, why, draw), draw),
{
    let settled = StateView {
        skipped: state.skipped.push(why),
        at: place_after(state.at),
        ..state
    };
    assert(settled.skipped.drop_last() =~= state.skipped);
    lemma_settled_goes_on(state, settled, draw);
}

/// The walk goes down its list in order and never turns back: each reply either takes the login
/// with the current device one stage on, or settles that device and greets the next, or ends the
/// walk. One device that does not work never costs the others.
#[verifier::rlimit(40)]
pub proof fn law_a_walk_goes_on(
    driver_id: Seq<char>,
    state: StateView,
    input: InputView,
    draw: Option<Seq<u8>>,
)
    requires
        walking(state),
        state.queue.len() <= usize::MAX,
    ensures
        goes_on(state, flowed(driver_id, state, input, draw), draw),
{
    lemma_phases();
    let turn = flowed(driver_id, state, input, draw);
    let status = status_in(input.status);
    if stage(state) == 1 {
        assert(turn == first_reply(state, input, draw));
        if turn.state is Some && stage(turn.state->0) == 2 {
            assert("http://"@.add(here(state)).is_prefix_of((turn.step->request).url));
        } else if turn != lost_track() {
            if status != 200 {
                lemma_skip_goes_on(
                    state,
                    here(state) + " did not answer (HTTP "@ + crate::text::decimal(status as int)
                        + ")"@ + crate::setup::steps::detail(input.error),
                    draw,
                );
            } else {
                lemma_skip_goes_on(
                    state,
                    here(state)
                        + " did not accept the saved TP-Link email/password — edit the account credentials and try again"@,
                    draw,
                );
            }
        }
    } else if stage(state) == 2 {
        assert(turn == second_reply(state, input, draw));
        if status != 200 {
            lemma_skip_goes_on(
                state,
                here(state) + " rejected the login (HTTP "@ + crate::text::decimal(status as int)
                    + ")"@,
                draw,
            );
        } else if turn.state is Some {
            assert("http://"@.add(here(state)).is_prefix_of((turn.step->request).url));
        }
    } else {
        assert(turn == info_reply(state, input, draw));
        if let Some(session) = session_aside(state, input) {
            let reply = match opened(session, session.seq, input.response_bytes) {
                Some(plain) => reply_of(plain),
                None => None,
            };
            let settled = StateView {
                adopted: state.adopted.push(introduced(state, reply)),
                at: place_after(state.at),
                ..state
            };
            assert(settled.adopted.drop_last() =~= state.adopted);
            assert(settled.adopted.last() == introduced(state, reply));
            lemma_settled_goes_on(state, settled, draw);
        }
    }
}

/// A walk starts with nothing settled, at the first device of its list.
pub proof fn law_a_walk_starts_at_the_first_device(
    state: StateView,
    queue: Seq<Seq<char>>,
    left_out: Seq<Seq<char>>,
    email: Seq<char>,
    password: Seq<char>,
    seed: Seq<u8>,
)
    requires
        queue.len() > 0,
    ensures
        ({
            let turn = walked(state, queue, left_out, email, password, Some(seed));
            &&& turn.step == (StepView::Fetch {
                request: posted(queue[0], HANDSHAKE1@, None, seed),
                note: "signing in to "@ + queue[0],
            })
            &&& turn.state is Some
            &&& walking(turn.state->0)
            &&& accounted(turn.state->0)
            &&& turn.state->0.queue == queue
        }),
{
}

/// No device is passed over in silence: through the whole walk, as many devices have been adopted
/// or skipped as have had their turn, and at the end that is all of them.
pub proof fn law_every_device_is_adopted_or_skipped(
    driver_id: Seq<char>,
    state: StateView,
    input: InputView,
    draw: Option<Seq<u8>>,
)
    requires
        walking(state),
        accounted(state),
        state.queue.len() <= usize::MAX,
    ensures
        ({
            let turn = flowed(driver_id, state, input, draw);
            &&& turn.state matches Some(next) ==> walking(next) && accounted(next)
            &&& turn.state is None && turn != lost_track() ==> exists|last: StateView|
                turn == #[trigger] finished(last) && last.adopted.len() + last.skipped.len()
                    == state.queue.len() && state.adopted.is_prefix_of(last.adopted)
                    && state.skipped.is_prefix_of(last.skipped)
        }),
{
    law_a_walk_goes_on(driver_id, state, input, draw);
    let turn = flowed(driver_id, state, input, draw);
    if turn.state is None && turn != lost_track() {
        if exists|last: StateView| one_settled(state, last) && turn == #[trigger] finished(last)
            && last.at == last.queue.len() {
            let last = choose|last: StateView|
                one_settled(state, last) && turn == #[trigger] finished(last) && last.at
                    == last.queue.len();
            lemma_settled_keeps(state, last);
            assert(turn == finished(last));
        } else {
            let settled = choose|last: StateView|
                one_settled(state, last) && last.at < last.queue.len() && turn == finished(
                    #[trigger] cut_short(last),
                );
            lemma_settled_keeps(state, settled);
            assert(turn == finished(cut_short(settled)));
        }
    }
}

proof fn lemma_settled_keeps(state: StateView, next: StateView)
    requires
        one_settled(state, next),
    ensures
        state.adopted.is_prefix_of(next.adopted),
        state.skipped.is_prefix_of(next.skipped),
        next.adopted.len() + next.skipped.len() == state.adopted.len() + state.skipped.len() + 1,
{
    if next.adopted == state.adopted {
        assert(next.skipped =~= next.skipped.drop_last().push(next.skipped.last()));
    } else {
        assert(next.adopted =~= next.adopted.drop_last().push(next.adopted.last()));
    }
}

/// A device that does not answer is skipped: the next one is greeted with all that was adopted
/// kept, and where there is no next one, what was adopted is what is added.
pub proof fn law_a_dead_device_is_skipped(
    driver_id: Seq<char>,
    state: StateView,
    input: InputView,
    seed: Seq<u8>,
)
    requires
        state.phase == Some("hs1"@),
        state.at < state.queue.len() <= usize::MAX,
        said_bytes(input.texts.local_seed, state.texts.local_seed, 16) is Some,
        said(input.texts.email, state.texts.email) is Some,
        said(input.texts.password, state.texts.password) is Some,
        status_in(input.status) != 200,
    ensures
        ({
            let turn = flowed(driver_id, state, input, Some(seed));
            &&& state.at + 1 < state.queue.len() ==> {
                &&& turn.step == (StepView::Fetch {
                    request: posted(state.queue[state.at + 1], HANDSHAKE1@, None, seed),
                    note: "signing in to "@ + state.queue[state.at + 1],
                })
                &&& turn.state is Some
                &&& turn.state->0.adopted == state.adopted
                &&& turn.state->0.queue == state.queue
                &&& turn.state->0.at == state.at + 1
            }
            &&& state.at + 1 == state.queue.len() && state.adopted.len() > 0 ==> {
                &&& turn.step is Done
                &&& turn.step->devices == finished(state).step->devices
                &&& turn.step->Done_skipped.len() == finished(state).step->Done_skipped.len() + 1
            }
        }),
{
    lemma_phases();
}

/// What logged in is what is added: one dimmer for each adopted device, in order, under its
/// label, with its address and nothing else. What did not work is named beside them.
pub proof fn law_what_was_adopted_is_what_is_added(state: StateView)
    requires
        state.adopted.len() > 0,
    ensures
        finished(state).step matches StepView::Done { devices, skipped } && devices.len()
            == state.adopted.len() && skipped == left_out_reasons(state.left_out) + state.skipped && (forall|i: int|
            0 <= i < devices.len() ==> (#[trigger] devices[i]) == dimmer_candidate(
                state.adopted[i].address,
                state.adopted[i].label,
                state.adopted[i].verified,
            )),
        finished(state).state is None,
{
}

/// Nothing adopted is a failure, never an empty success, and every reason that was noted is in it.
pub proof fn law_nothing_adopted_is_a_failure(state: StateView)
    requires
        state.adopted.len() == 0,
    ensures
        finished(state) == failed(
            if state.skipped.len() == 0 {
                explained("Nothing answered."@, state.left_out)
            } else {
                "Nothing could be added. "@ + joined_by(
                    state.skipped + left_out_reasons(state.left_out),
                    "; "@,
                )
            },
        ),
{
}

/// An account that the only device refuses fails with the reason, and with why the others were left
/// out.
pub proof fn law_a_refused_account_is_named(
    driver_id: Seq<char>,
    state: StateView,
    input: InputView,
    local: Seq<u8>,
    email: Seq<char>,
    password: Seq<char>,
    draw: Option<Seq<u8>>,
)
    requires
        state.phase == Some("hs1"@),
        state.at == 0,
        state.queue.len() == 1,
        state.adopted.len() == 0,
        state.skipped.len() == 0,
        said_bytes(input.texts.local_seed, state.texts.local_seed, 16) == Some(local),
        said(input.texts.email, state.texts.email) == Some(email),
        said(input.texts.password, state.texts.password) == Some(password),
        status_in(input.status) == 200,
        accepted(local, auth_of(email, password), input.response_bytes) is None,
    ensures
        flowed(driver_id, state, input, draw) == failed(
            "Nothing could be added. "@ + joined_by(
                seq![
                    state.queue[0]
                        + " did not accept the saved TP-Link email/password — edit the account credentials and try again"@,
                ] + left_out_reasons(state.left_out),
                "; "@,
            ),
        ),
{
    lemma_phases();
    let why = state.queue[0]
        + " did not accept the saved TP-Link email/password — edit the account credentials and try again"@;
    assert(state.skipped.push(why) =~= seq![why]);
}

/// The credentials are the account's and stay there: whatever setup adds is either the account
/// that somebody just typed, or dimmers that carry an address and nothing else.
pub proof fn law_only_the_account_carries_credentials(
    driver_id: Seq<char>,
    state: StateView,
    input: InputView,
    draw: Option<Seq<u8>>,
)
    ensures
        flowed(driver_id, state, input, draw).step matches StepView::Done { devices, skipped } ==> (forall|
            i: int,
        |
            0 <= i < devices.len() ==> {
                ||| (#[trigger] devices[i]).driver_id == "tapo.dimmer"@
                    && devices[i].properties.len() == 1 && (devices[i].properties[0]).0
                    == "Address"@
                ||| state.phase == Some("account"@) && devices[i].driver_id == "tapo.account"@
            }),
{
    lemma_phases();
}

/// What belongs to one device never reaches the next: a device is greeted with no session, no
/// cookie and no seed of another.
pub proof fn law_nothing_stale_is_carried_over(state: StateView, input: InputView, seed: Seq<u8>)
    requires
        state.at < state.queue.len(),
        input.texts == no_texts(),
    ensures
        next_greeted(state, Some(seed)).state matches Some(next) && session_aside(next, input) is None
            && next.texts.remote_seed is None && next.texts.cookie is None
            && next.texts.local_seed == Some(hex_text(seed)),
{
}

// ---------------------------------------------------------------------------------------
// What the broadcast found
// ---------------------------------------------------------------------------------------

proof fn lemma_kept_came_from<A>(s: Seq<A>, keep: spec_fn(A) -> bool)
    ensures
        forall|a: A| #[trigger] s.filter(keep).contains(a) <==> s.contains(a) && keep(a),
    decreases s.len(),
{
    reveal(Seq::filter);
    if s.len() > 0 {
        lemma_kept_came_from(s.drop_last(), keep);
        let rest = s.drop_last().filter(keep);
        let all = s.filter(keep);
        assert forall|a: A| all.contains(a) <==> s.contains(a) && keep(a) by {
            if s.contains(a) && keep(a) {
                if a == s.last() {
                    assert(all.last() == a);
                } else {
                    let i = choose|i: int| 0 <= i < s.len() && s[i] == a;
                    assert(s.drop_last()[i] == a);
                    assert(rest.contains(a));
                    let j = choose|j: int| 0 <= j < rest.len() && rest[j] == a;
                    assert(all[j] == a);
                }
            }
            if all.contains(a) {
                let j = choose|j: int| 0 <= j < all.len() && all[j] == a;
                if keep(s.last()) && j == all.len() - 1 {
                    assert(s[s.len() - 1] == a);
                } else {
                    assert(rest[j] == a);
                    assert(rest.contains(a));
                    assert(s.drop_last().contains(a));
                    let i = choose|i: int| 0 <= i < s.drop_last().len() && s.drop_last()[i] == a;
                    assert(s[i] == a);
                }
            }
        }
    }
}

/// A device on an older protocol is left out, and nothing else is: an address is walked to if and
/// only if it answered and did not say that it speaks something else. Every other address that
/// answered is noted as left out.
pub proof fn law_only_another_protocol_is_left_out(state: StateView, address: Seq<char>)
    ensures
        usable_addresses(state).contains(address) <==> addresses(state).contains(address)
            && may_speak_klap(broadcast_from(state.udp_candidates, address)),
        left_out_addresses(state).contains(address) <==> addresses(state).contains(address)
            && !may_speak_klap(broadcast_from(state.udp_candidates, address)),
{
    lemma_kept_came_from(
        addresses(state),
        |address: Seq<char>| !may_speak_klap(broadcast_from(state.udp_candidates, address)),
    );
    lemma_kept_came_from(
        addresses(state),
        |address: Seq<char>| may_speak_klap(broadcast_from(state.udp_candidates, address)),
    );
}

/// Empty is absent: a choice of nothing but white space is no choice, on either way in.
pub proof fn law_a_blank_choice_is_no_choice(
    state: StateView,
    input: InputView,
    draw: Option<Seq<u8>>,
)
    requires
        answer(state.texts.chosen_address) is None,
    ensures
        ({
            let unchosen = StateView {
                texts: TextsView { chosen_address: None, ..state.texts },
                ..state
            };
            &&& dimmer_started(state, input, draw) == dimmer_started(unchosen, input, draw)
            &&& account_browsed(state, input, draw) == account_browsed(unchosen, input, draw)
        }),
{
    let unchosen = StateView {
        texts: TextsView { chosen_address: None, ..state.texts },
        ..state
    };
    assert(addresses(state) == addresses(unchosen));
}

/// An address is asked for only when nothing answered the broadcast and nobody picked a row.
pub proof fn law_an_address_is_asked_for_only_when_nothing_answered(
    state: StateView,
    input: InputView,
    draw: Option<Seq<u8>>,
)
    ensures
        dimmer_started(state, input, draw).step is Form <==> addresses(state).len() == 0 && said(
            input.texts.chosen_address,
            state.texts.chosen_address,
        ) is None,
{
}

/// The account screen touches nothing: what is shown for a fresh account is the same whatever
/// answered the broadcast and whatever came with it.
pub proof fn law_the_account_screen_touches_nothing(
    driver_id: Seq<char>,
    state: StateView,
    input: InputView,
    draw: Option<Seq<u8>>,
)
    requires
        driver_id != "tapo.dimmer"@,
        state.phase is None,
        state.browse != Some(true),
    ensures
        flowed(driver_id, state, input, draw) == account_asked(None),
{
    lemma_phases();
}

// ---------------------------------------------------------------------------------------
// Logging in
// ---------------------------------------------------------------------------------------

proof fn lemma_trimming_keeps(s: Seq<char>)
    requires
        s.len() > 0,
        !white_space(s[0]),
        !white_space(s.last()),
    ensures
        trimmed(s) == s,
{
    assert(trim_start(s) == s);
    assert(trim_end(s) == s);
}

proof fn lemma_hex_is_an_answer(bytes: Seq<u8>)
    requires
        bytes.len() > 0,
    ensures
        answer(Some(hex_text(bytes))) == Some(hex_text(bytes)),
{
    let text = hex_text(bytes);
    let n = bytes.len() as int;
    assert(text.len() == 2 * n);
    assert(text[0] == nibble(bytes[0] as int / 16));
    assert(text.last() == nibble(bytes[n - 1] as int % 16));
    lemma_trimming_keeps(text);
}

proof fn lemma_said_hex(bytes: Seq<u8>)
    requires
        bytes.len() > 0,
    ensures
        said_bytes(None, Some(hex_text(bytes)), bytes.len()) == Some(bytes),
{
    lemma_hex_is_an_answer(bytes);
    law_hex_reads_back(bytes);
}

/// A walk logs in to a switch that holds the account. Its answer to the first handshake is
/// believed and our half of the proof goes out; once that is taken, the question what it is goes
/// out under the session that both sides derive; and that session, at the number of the question,
/// is what its answer is opened with.
#[verifier::rlimit(40)]
pub proof fn law_a_walk_logs_in(
    driver_id: Seq<char>,
    state: StateView,
    first: InputView,
    second: InputView,
    third: InputView,
    local: Seq<u8>,
    remote: Seq<u8>,
    email: Seq<char>,
    password: Seq<char>,
    hash: Seq<u8>,
    draw: Option<Seq<u8>>,
    other: Option<Seq<u8>>,
)
    requires
        state.phase == Some("hs1"@),
        state.texts.local_seed == Some(hex_text(local)),
        answer(state.texts.email) == Some(email),
        answer(state.texts.password) == Some(password),
        local.len() == 16,
        remote.len() == 16,
        hash.len() == 32,
        hash == crate::outside::sha256_of(local + remote + auth_of(email, password)),
        first.texts == no_texts(),
        second.texts == no_texts(),
        third.texts == no_texts(),
        status_in(first.status) == 200,
        status_in(second.status) == 200,
        first.response_bytes == remote + hash,
    ensures
        ({
            let auth = auth_of(email, password);
            let session = derived(local, remote, auth);
            let seq = next_seq(session.seq);
            let cookie = match cookie_among(first.response_headers) {
                Some(id) => id,
                None => Seq::empty(),
            };
            let one = flowed(driver_id, state, first, draw);
            let two = flowed(driver_id, one.state->0, second, other);
            &&& one.step == (StepView::Fetch {
                request: posted(
                    here(state),
                    HANDSHAKE2@,
                    cookie_to_send(cookie),
                    login_proof(local, remote, auth),
                ),
                note: "signing in to "@ + here(state),
            })
            &&& one.state is Some
            &&& two.step == (StepView::Fetch {
                request: posted(
                    here(state),
                    request_path(seq),
                    answer(Some(cookie)),
                    framed(session, seq, encode_utf8(GET@)),
                ),
                note: "asking "@ + here(state) + " what it is"@,
            })
            &&& two.state is Some
            &&& session_aside(two.state->0, third) == Some(SessionView { seq, ..session })
            &&& two.state->0 == StateView {
                phase: Some("info"@),
                texts: two.state->0.texts,
                seq: Some(seq as i64),
                ..state
            }
            &&& two.state->0.texts.email == state.texts.email
            &&& two.state->0.texts.password == state.texts.password
        }),
{
    lemma_phases();
    let auth = auth_of(email, password);
    let session = derived(local, remote, auth);
    let body = remote + hash;
    assert(body.subrange(0, 16) =~= remote);
    assert(body.subrange(16, 48) =~= hash);
    assert(accepted(local, auth, body) == Some(remote));
    lemma_said_hex(local);
    lemma_said_hex(remote);
    law_a_derived_session_is_well_formed(local, remote, auth);
    lemma_said_hex(session.key);
    lemma_said_hex(session.iv);
    lemma_said_hex(session.sig);
    let one = flowed(driver_id, state, first, draw);
    assert(one == first_reply(state, first, draw));
    let two = flowed(driver_id, one.state->0, second, other);
    assert(two == second_reply(one.state->0, second, other));
}

// ---------------------------------------------------------------------------------------
// The whole walk
// ---------------------------------------------------------------------------------------

/// `turn` is what a call of [`Tapo::flow`](crate::dimmer::types::Tapo::flow) may come to, which is
/// what its contract says: what some draw of a seed makes of the state and the input.
#[verifier::opaque]
pub open spec fn follows(
    driver_id: Seq<char>,
    state: StateView,
    input: InputView,
    turn: Turn,
) -> bool {
    exists|draw: Option<Seq<u8>>|
        is_draw(draw) && turn == #[trigger] flowed(driver_id, state, input, draw)
}

/// Whatever a call of the flow comes to follows from its state and its input.
pub proof fn law_a_call_of_the_flow_follows(
    driver_id: Seq<char>,
    state: StateView,
    input: InputView,
    draw: Option<Seq<u8>>,
)
    requires
        is_draw(draw),
    ensures
        follows(driver_id, state, input, flowed(driver_id, state, input, draw)),
{
    reveal(follows);
}

/// One device's visit in a walk: the turn in which it was greeted, and its three replies with the
/// turns that the first two of them led to.
pub struct Visit {
    pub greeted: Turn,
    pub first: InputView,
    pub proved: Turn,
    pub second: InputView,
    pub asked: Turn,
    pub third: InputView,
    /// The device's own seed, and its proof that it holds the account.
    pub remote: Seq<u8>,
    pub hash: Seq<u8>,
}

/// The seed that a device was greeted with, which is the body of what was sent to it.
pub open spec fn seed_sent(visit: Visit) -> Seq<u8> {
    visit.greeted.step->request.body_bytes
}

/// The flow was called with each reply and the state it last returned, and ended up at `after`.
pub open spec fn visited(driver_id: Seq<char>, visit: Visit, after: Turn) -> bool {
    &&& visit.greeted.state is Some
    &&& follows(driver_id, visit.greeted.state->0, visit.first, visit.proved)
    &&& follows(driver_id, visit.proved.state->0, visit.second, visit.asked)
    &&& follows(driver_id, visit.asked.state->0, visit.third, after)
}

/// Each device had its visit, one after the other, and the walk ended up at `end`.
pub open spec fn visited_all(driver_id: Seq<char>, visits: Seq<Visit>, end: Turn) -> bool {
    forall|i: int|
        0 <= i < visits.len() ==> visited(
            driver_id,
            #[trigger] visits[i],
            if i + 1 < visits.len() {
                visits[i + 1].greeted
            } else {
                end
            },
        )
}

/// The device holds the account and takes both handshakes. Nothing is asked of its last reply.
pub open spec fn holds_account(visit: Visit, auth: Seq<u8>) -> bool {
    &&& visit.remote.len() == 16
    &&& visit.hash.len() == 32
    &&& visit.hash == crate::outside::sha256_of(seed_sent(visit) + visit.remote + auth)
    &&& visit.first.texts == no_texts()
    &&& visit.second.texts == no_texts()
    &&& visit.third.texts == no_texts()
    &&& status_in(visit.first.status) == 200
    &&& status_in(visit.second.status) == 200
    &&& visit.first.response_bytes == visit.remote + visit.hash
}

/// Every device of a walk does.
pub open spec fn all_hold_account(visits: Seq<Visit>, auth: Seq<u8>) -> bool {
    forall|i: int| 0 <= i < visits.len() ==> holds_account(#[trigger] visits[i], auth)
}

/// What the last reply of a device says, opened with the session of its login.
pub open spec fn said_of_itself(visit: Visit, auth: Seq<u8>) -> Option<DeviceReplyView> {
    let session = derived(seed_sent(visit), visit.remote, auth);
    match opened(session, next_seq(session.seq), visit.third.response_bytes) {
        Some(plain) => reply_of(plain),
        None => None,
    }
}

/// What is known of each device from its turn in `state` on.
pub open spec fn introductions(
    state: StateView,
    visits: Seq<Visit>,
    auth: Seq<u8>,
) -> Seq<AdoptedView> {
    Seq::new(
        visits.len(),
        |i: int|
            introduced(
                StateView { at: (state.at + i) as usize, ..state },
                said_of_itself(visits[i], auth),
            ),
    )
}

/// The device of `visit` was greeted in `state`, with a seed of sixteen bytes.
spec fn greeted_in(visit: Visit, state: StateView) -> bool {
    &&& visit.greeted.state == Some(state)
    &&& seed_sent(visit).len() == 16
    &&& state.phase == Some("hs1"@)
    &&& state.texts.local_seed == Some(hex_text(seed_sent(visit)))
}

#[verifier::rlimit(40)]
proof fn lemma_visited(
    driver_id: Seq<char>,
    state: StateView,
    visit: Visit,
    email: Seq<char>,
    password: Seq<char>,
    after: Turn,
) -> (settled: StateView)
    requires
        greeted_in(visit, state),
        answer(state.texts.email) == Some(email),
        answer(state.texts.password) == Some(password),
        visited(driver_id, visit, after),
        holds_account(visit, auth_of(email, password)),
    ensures
        exists|draw: Option<Seq<u8>>|
            is_draw(draw) && after == #[trigger] next_greeted(settled, draw),
        settled.adopted == state.adopted.push(
            introduced(state, said_of_itself(visit, auth_of(email, password))),
        ),
        settled.at == place_after(state.at),
        settled.queue == state.queue,
        settled.left_out == state.left_out,
        settled.skipped == state.skipped,
        settled.udp_candidates == state.udp_candidates,
        settled.texts.email == state.texts.email,
        settled.texts.password == state.texts.password,
{
    reveal(follows);
    let auth = auth_of(email, password);
    let local = seed_sent(visit);
    let a = choose|draw: Option<Seq<u8>>|
        is_draw(draw) && visit.proved == #[trigger] flowed(driver_id, state, visit.first, draw);
    let b = choose|draw: Option<Seq<u8>>|
        is_draw(draw) && visit.asked == #[trigger] flowed(
            driver_id,
            visit.proved.state->0,
            visit.second,
            draw,
        );
    let c = choose|draw: Option<Seq<u8>>|
        is_draw(draw) && after == #[trigger] flowed(
            driver_id,
            visit.asked.state->0,
            visit.third,
            draw,
        );
    law_a_walk_logs_in(
        driver_id,
        state,
        visit.first,
        visit.second,
        visit.third,
        local,
        visit.remote,
        email,
        password,
        visit.hash,
        a,
        b,
    );
    let asked = visit.asked.state->0;
    lemma_phases();
    let reply = said_of_itself(visit, auth);
    assert(after == info_reply(asked, visit.third, c));
    let session = derived(local, visit.remote, auth);
    let aside = SessionView { seq: next_seq(session.seq), ..session };
    assert(opened(aside, aside.seq, visit.third.response_bytes) == opened(
        session,
        aside.seq,
        visit.third.response_bytes,
    ));
    assert(after == taken_in(asked, reply, c));
    assert(introduced(asked, reply) == introduced(state, reply));
    let settled = StateView {
        adopted: asked.adopted.push(introduced(asked, reply)),
        at: place_after(asked.at),
        ..asked
    };
    assert(after == next_greeted(settled, c));
    settled
}

proof fn lemma_greeted(visit: Visit, settled: StateView)
    requires
        visit.greeted.state is Some,
        exists|draw: Option<Seq<u8>>|
            is_draw(draw) && visit.greeted == #[trigger] next_greeted(settled, draw),
    ensures
        greeted_in(visit, visit.greeted.state->0),
        visit.greeted == device_greeted(settled, seed_sent(visit)),
{
    let draw = choose|draw: Option<Seq<u8>>|
        is_draw(draw) && visit.greeted == #[trigger] next_greeted(settled, draw);
    assert(draw is Some);
    assert(visit.greeted == device_greeted(settled, draw->0));
}

/// What holds of a walk holds of what is left of it.
proof fn lemma_rest_visited(driver_id: Seq<char>, visits: Seq<Visit>, auth: Seq<u8>, end: Turn)
    requires
        visits.len() > 1,
        visited_all(driver_id, visits, end),
        all_hold_account(visits, auth),
    ensures
        visited(driver_id, visits[0], visits[1].greeted),
        visits[1].greeted.state is Some,
        visited_all(driver_id, visits.drop_first(), end),
        all_hold_account(visits.drop_first(), auth),
{
    let rest = visits.drop_first();
    assert(visited(driver_id, visits[0], visits[1].greeted));
    let third = if 2 < visits.len() {
        visits[2].greeted
    } else {
        end
    };
    assert(visited(driver_id, visits[1], third));
    assert forall|i: int| 0 <= i < rest.len() implies visited(
        driver_id,
        #[trigger] rest[i],
        if i + 1 < rest.len() {
            rest[i + 1].greeted
        } else {
            end
        },
    ) by {
        assert(rest[i] == visits[i + 1]);
        if i + 1 < rest.len() {
            assert(rest[i + 1] == visits[i + 2]);
        }
    }
    assert forall|i: int| 0 <= i < rest.len() implies holds_account(#[trigger] rest[i], auth) by {
        assert(holds_account(visits[i + 1], auth));
    }
}

/// Adopting one device and introducing the rest is introducing them all.
proof fn lemma_introductions(
    state: StateView,
    next: StateView,
    visits: Seq<Visit>,
    auth: Seq<u8>,
)
    requires
        visits.len() > 0,
        state.at + visits.len() <= usize::MAX,
        next.at == state.at + 1,
        next.queue == state.queue,
        next.udp_candidates == state.udp_candidates,
        next.adopted == state.adopted.push(introduced(state, said_of_itself(visits[0], auth))),
    ensures
        next.adopted + introductions(next, visits.drop_first(), auth) == state.adopted
            + introductions(state, visits, auth),
{
    let rest = visits.drop_first();
    let all = introductions(state, visits, auth);
    let others = introductions(next, rest, auth);
    assert(StateView { at: (state.at + 0) as usize, ..state } == state);
    assert(all[0] == introduced(state, said_of_itself(visits[0], auth)));
    assert forall|i: int| 0 <= i < others.len() implies #[trigger] others[i] == all[i + 1] by {
        assert(rest[i] == visits[i + 1]);
        assert(next.at + i == state.at + (i + 1));
    }
    assert(next.adopted + others =~= state.adopted + all);
}

#[verifier::rlimit(40)]
proof fn lemma_visited_all(
    driver_id: Seq<char>,
    state: StateView,
    visits: Seq<Visit>,
    email: Seq<char>,
    password: Seq<char>,
    end: Turn,
)
    requires
        visits.len() > 0,
        greeted_in(visits[0], state),
        state.at + visits.len() == state.queue.len() <= usize::MAX,
        answer(state.texts.email) == Some(email),
        answer(state.texts.password) == Some(password),
        visited_all(driver_id, visits, end),
        all_hold_account(visits, auth_of(email, password)),
    ensures
        end == finished(
            StateView {
                adopted: state.adopted + introductions(state, visits, auth_of(email, password)),
                ..state
            },
        ),
    decreases visits.len(),
{
    let auth = auth_of(email, password);
    let rest = visits.drop_first();
    if visits.len() == 1 {
        assert(visited(driver_id, visits[0], end));
        let settled = lemma_visited(driver_id, state, visits[0], email, password, end);
        lemma_introductions(state, settled, visits, auth);
        assert(settled.adopted + introductions(settled, rest, auth) =~= settled.adopted);
    } else {
        lemma_rest_visited(driver_id, visits, auth, end);
        let settled = lemma_visited(
            driver_id,
            state,
            visits[0],
            email,
            password,
            visits[1].greeted,
        );
        lemma_greeted(visits[1], settled);
        let next = visits[1].greeted.state->0;
        assert(rest[0] == visits[1]);
        lemma_visited_all(driver_id, next, rest, email, password, end);
        lemma_introductions(state, next, visits, auth);
    }
}

proof fn lemma_trim_start(s: Seq<char>)
    ensures
        trim_start(s).len() > 0 ==> !white_space(trim_start(s)[0]),
    decreases s.len(),
{
    if s.len() > 0 && white_space(s[0]) {
        lemma_trim_start(s.drop_first());
    }
}

proof fn lemma_trim_end(s: Seq<char>)
    ensures
        trim_end(s).len() > 0 ==> !white_space(trim_end(s).last()) && trim_end(s)[0] == s[0],
    decreases s.len(),
{
    if s.len() > 0 && white_space(s.last()) {
        lemma_trim_end(s.drop_last());
    }
}

proof fn lemma_an_answer_is_an_answer(text: Option<Seq<char>>, t: Seq<char>)
    requires
        answer(text) == Some(t),
    ensures
        answer(Some(t)) == Some(t),
{
    let s = text->0;
    lemma_trim_start(s);
    lemma_trim_end(trim_start(s));
    assert(trim_start(s).len() > 0) by {
        if trim_start(s).len() == 0 {
            assert(trim_end(trim_start(s)) == trim_start(s));
        }
    }
    lemma_trimming_keeps(t);
}

proof fn lemma_begun(
    driver_id: Seq<char>,
    state: StateView,
    input: InputView,
    email: Seq<char>,
    password: Seq<char>,
    turn: Turn,
) -> (begun: StateView)
    requires
        driver_id != "tapo.dimmer"@,
        state.phase is None,
        state.browse == Some(true),
        said(input.texts.saved_email, state.texts.saved_email) == Some(email),
        said(input.texts.saved_password, state.texts.saved_password) == Some(password),
        0 < usable_addresses(state).len(),
        follows(driver_id, state, input, turn),
    ensures
        exists|draw: Option<Seq<u8>>|
            is_draw(draw) && turn == #[trigger] next_greeted(begun, draw),
        begun == (StateView {
            texts: TextsView { email: Some(email), password: Some(password), ..no_texts() },
            queue: usable_addresses(state),
            left_out: left_out_addresses(state),
            udp_candidates: state.udp_candidates,
            ..fresh()
        }),
{
    reveal(follows);
    lemma_phases();
    let draw = choose|draw: Option<Seq<u8>>|
        is_draw(draw) && turn == #[trigger] flowed(driver_id, state, input, draw);
    assert(turn == account_browsed(state, input, draw));
    let begun = StateView {
        texts: TextsView { email: Some(email), password: Some(password), ..no_texts() },
        queue: usable_addresses(state),
        left_out: left_out_addresses(state),
        udp_candidates: state.udp_candidates,
        ..fresh()
    };
    assert(turn == next_greeted(begun, draw));
    begun
}

/// Browsing a saved account adds every dimmer that answered the broadcast and holds the account,
/// however many there are: in the order they answered, each under the name that somebody gave it
/// in the Tapo app, each with its address and nothing else. Whatever answered and speaks another
/// protocol is named beside them.
///
/// It holds of every sequence of calls of the flow, each with a device's reply and the state that
/// the call before it returned, in which each device was greeted.
#[verifier::rlimit(40)]
pub proof fn law_browsing_adds_every_dimmer(
    driver_id: Seq<char>,
    state: StateView,
    input: InputView,
    email: Seq<char>,
    password: Seq<char>,
    visits: Seq<Visit>,
    end: Turn,
)
    requires
        driver_id != "tapo.dimmer"@,
        state.phase is None,
        state.browse == Some(true),
        said(input.texts.saved_email, state.texts.saved_email) == Some(email),
        said(input.texts.saved_password, state.texts.saved_password) == Some(password),
        0 < usable_addresses(state).len() <= usize::MAX,
        visits.len() == usable_addresses(state).len(),
        follows(driver_id, state, input, visits[0].greeted),
        visited_all(driver_id, visits, end),
        all_hold_account(visits, auth_of(email, password)),
    ensures
        end.state is None,
        end.step is Done,
        end.step->devices.len() == usable_addresses(state).len(),
        end.step->Done_skipped == left_out_reasons(left_out_addresses(state)),
        forall|i: int|
            0 <= i < visits.len() ==> ({
                let device = #[trigger] end.step->devices[i];
                let address = usable_addresses(state)[i];
                &&& device.driver_id == "tapo.dimmer"@
                &&& device.properties == seq![("Address"@, address)]
                &&& device.label == match nickname_in(
                    said_of_itself(visits[i], auth_of(email, password)),
                ) {
                    Some(name) => name,
                    None => model_at(state, address) + " at "@ + address,
                }
            }),
{
    let auth = auth_of(email, password);
    let queue = usable_addresses(state);
    let begun = lemma_begun(driver_id, state, input, email, password, visits[0].greeted);
    assert(visited(
        driver_id,
        visits[0],
        if 1 < visits.len() {
            visits[1].greeted
        } else {
            end
        },
    ));
    lemma_greeted(visits[0], begun);
    let first = visits[0].greeted.state->0;
    if answer(input.texts.saved_email) is Some {
        lemma_an_answer_is_an_answer(input.texts.saved_email, email);
    } else {
        lemma_an_answer_is_an_answer(state.texts.saved_email, email);
    }
    if answer(input.texts.saved_password) is Some {
        lemma_an_answer_is_an_answer(input.texts.saved_password, password);
    } else {
        lemma_an_answer_is_an_answer(state.texts.saved_password, password);
    }
    lemma_visited_all(driver_id, first, visits, email, password, end);
    let all = introductions(first, visits, auth);
    assert(first.adopted + all =~= all);
    assert(left_out_reasons(left_out_addresses(state)) + first.skipped =~= left_out_reasons(
        left_out_addresses(state),
    ));
    assert forall|i: int| 0 <= i < visits.len() implies ({
        let device = #[trigger] end.step->devices[i];
        let address = usable_addresses(state)[i];
        &&& device.driver_id == "tapo.dimmer"@
        &&& device.properties == seq![("Address"@, address)]
        &&& device.label == match nickname_in(said_of_itself(visits[i], auth)) {
            Some(name) => name,
            None => model_at(state, address) + " at "@ + address,
        }
    }) by {
        let turn = StateView { at: (first.at + i) as usize, ..first };
        assert(all[i] == introduced(turn, said_of_itself(visits[i], auth)));
        assert(here(turn) == queue[i]);
    }
}

/// A reply carries `name` in base64, and the name is not blank.
#[verifier::opaque]
pub open spec fn named(reply: Option<DeviceReplyView>, name: Seq<char>) -> bool {
    &&& trimmed(name).len() > 0
    &&& reply is Some
    &&& reply->0.nickname == Some(base64_of(encode_utf8(name)))
}

/// The name of a device is the one that somebody gave it: a reply that carries it in base64
/// introduces the device under that name.
pub proof fn law_a_nickname_is_the_name(reply: Option<DeviceReplyView>, name: Seq<char>)
    requires
        named(reply, name),
    ensures
        nickname_in(reply) == Some(name),
{
    reveal(named);
    law_base64_reads_back(name);
}

/// Browsing a saved account, where a device said its name in base64: its label is that name, its
/// address is the one that answered, and it carries nothing else.
pub proof fn law_browsing_adds_a_dimmer_under_its_own_name(
    driver_id: Seq<char>,
    state: StateView,
    input: InputView,
    email: Seq<char>,
    password: Seq<char>,
    visits: Seq<Visit>,
    end: Turn,
    i: int,
    name: Seq<char>,
)
    requires
        driver_id != "tapo.dimmer"@,
        state.phase is None,
        state.browse == Some(true),
        said(input.texts.saved_email, state.texts.saved_email) == Some(email),
        said(input.texts.saved_password, state.texts.saved_password) == Some(password),
        0 < usable_addresses(state).len() <= usize::MAX,
        visits.len() == usable_addresses(state).len(),
        follows(driver_id, state, input, visits[0].greeted),
        visited_all(driver_id, visits, end),
        all_hold_account(visits, auth_of(email, password)),
        0 <= i < visits.len(),
        named(said_of_itself(visits[i], auth_of(email, password)), name),
    ensures
        end.step is Done,
        end.step->devices.len() == visits.len(),
        end.step->devices[i].label == name,
        end.step->devices[i].driver_id == "tapo.dimmer"@,
        end.step->devices[i].properties == seq![("Address"@, usable_addresses(state)[i])],
{
    law_browsing_adds_every_dimmer(driver_id, state, input, email, password, visits, end);
    law_a_nickname_is_the_name(said_of_itself(visits[i], auth_of(email, password)), name);
}

} // verus!
