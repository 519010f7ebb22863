use tapo::dimmer::types::{Tapo, GET};
use tapo::klap::{auth_hash, sha256, Session};
use tapo::reading::{from_broadcast, json_part, read_broadcast, read_reply, UdpCandidate};
use tapo::setup::types::{Adopted, Candidate, SetupInput, SetupState, SetupStep, Texts};

const EMAIL: &str = "someone@example.com";
const PASSWORD: &str = "hunter2";

/// The switch's half of handshake1, computed the way the device computes it.
fn hs1_reply(local: &[u8; 16], remote: &[u8; 16], auth: &[u8; 32]) -> Vec<u8> {
    let mut out = remote.to_vec();
    out.extend_from_slice(&sha256(&[local, remote, auth]));
    out
}

/// The switch's answer to the request at `seq`.
fn answer(device: &mut Session, seq: i32, plain: &[u8]) -> Vec<u8> {
    device.seq = seq - 1;
    let (used, body) = device.encrypt(plain);
    assert_eq!(used, seq);
    body
}

/// The discovery reply a wizard is handed: a sixteen-byte vendor header, then JSON.
fn broadcast_reply(model: &str, scheme: &str) -> Vec<u8> {
    let mut reply = vec![0x02, 0x00, 0x00, 0x01, 0x02, 0, 0, 0, 0, 0, 0, 0, 0x46, 0x3c, 0xb5, 0xd3];
    reply.extend_from_slice(
        format!(
            r#"{{"result":{{"device_model":"{model}","mgt_encrypt_schm":{{"encrypt_type":"{scheme}"}}}}}}"#
        )
        .as_bytes(),
    );
    reply
}

fn seen(devices: &[(&str, &str, &str)]) -> SetupState {
    SetupState {
        udp_candidates: devices
            .iter()
            .map(|(address, model, scheme)| UdpCandidate {
                address: address.to_string(),
                reply: broadcast_reply(model, scheme),
            })
            .collect(),
        ..SetupState::default()
    }
}

/// An account that is being browsed.
fn browsing(devices: &[(&str, &str, &str)], password: &str) -> SetupState {
    let mut state = seen(devices);
    state.browse = Some(true);
    state.texts.saved_email = Some(EMAIL.into());
    state.texts.saved_password = Some(password.into());
    state
}

/// What a fetch comes back with.
fn fetched(status: u16, bytes: &[u8], cookie: bool) -> SetupInput {
    SetupInput {
        status: Some(u64::from(status)),
        response_bytes: bytes.to_vec(),
        response_headers: if cookie {
            vec![("set-cookie".into(), "TP_SESSIONID=SID;TIMEOUT=1440".into())]
        } else {
            Vec::new()
        },
        ..SetupInput::default()
    }
}

fn typed(texts: Texts) -> SetupInput {
    SetupInput { texts, ..SetupInput::default() }
}

fn property<'a>(device: &'a Candidate, name: &str) -> Option<&'a str> {
    device.properties.iter().find(|(n, _)| n == name).map(|(_, v)| v.as_str())
}

/// Play the device's half of one login, from the handshake it was just sent through to the
/// device-info reply. Returns the step the flow moved on to.
fn log_in(
    tapo: &Tapo,
    state: SetupState,
    step: SetupStep,
    auth: &[u8; 32],
    remote: [u8; 16],
    nickname: Option<&str>,
) -> (SetupStep, Option<SetupState>) {
    let SetupStep::Fetch { request, .. } = &step else {
        panic!("expected a handshake, got {step:?}");
    };
    let local: [u8; 16] = request.body_bytes.clone().try_into().expect("a 16-byte seed");

    let (_, state) = tapo.setup(
        "tapo.account",
        &state,
        &fetched(200, &hs1_reply(&local, &remote, auth), true),
    );
    let (step, state) =
        tapo.setup("tapo.account", &state.expect("a state"), &fetched(200, b"", false));
    let SetupStep::Fetch { request, .. } = &step else {
        panic!("expected get_device_info, got {step:?}");
    };

    let mut device = Session::derive(&local, &remote, auth);
    let seq = device.seq + 1;
    assert_eq!(
        device.decrypt(seq, &request.body_bytes).as_deref(),
        Some(GET.as_bytes()),
        "the walk asks each device where it stands"
    );
    let name = nickname.map(base64).unwrap_or_default();
    let info = format!(
        r#"{{"error_code":0,"result":{{"device_on":true,"brightness":60,"nickname":"{name}","model":"S500D"}}}}"#
    );
    let framed = answer(&mut device, seq, info.as_bytes());
    tapo.setup("tapo.account", &state.expect("a state"), &fetched(200, &framed, false))
}

/// The account screen is two fields and asks the network nothing.
#[test]
fn the_account_screen_is_two_fields_and_touches_nothing() {
    let tapo = Tapo;
    // Deliberately no candidates: this screen must not need them.
    let (step, state) =
        tapo.discover("tapo.account", &SetupState::default(), &SetupInput::default());
    let SetupStep::Form { title, body, fields } = &step else {
        panic!("expected a form, got {step:?}");
    };
    assert_eq!(title, "TP-Link account");
    assert_eq!(
        fields.iter().map(|f| f.name.as_str()).collect::<Vec<_>>(),
        vec!["email", "password"],
        "no address: the broadcast knows where everything is"
    );
    assert!(body.len() < 160, "one sentence, not a wall: {body}");

    let input = typed(Texts {
        email: Some(EMAIL.into()),
        password: Some(PASSWORD.into()),
        ..Texts::default()
    });
    let (step, _) = tapo.setup("tapo.account", &state.unwrap(), &input);
    let SetupStep::Done { devices, .. } = step else {
        panic!("expected the account straight away, got {step:?}");
    };
    // The account, not the person. An email as a device name would put it on every screen in the
    // house that lists hardware.
    assert_eq!(devices[0].label, "TP-Link Account");
    assert_eq!(devices[0].driver_id, "tapo.account");
    assert_eq!(property(&devices[0], "Email"), Some(EMAIL));
    assert_eq!(property(&devices[0], "Password"), Some(PASSWORD));
}

/// A wrong password is caught the moment its devices are added, and named as such.
#[test]
fn an_account_every_device_refuses_fails_with_the_reason() {
    let tapo = Tapo;
    let state = browsing(&[("10.0.0.4", "S500D", "KLAP")], "not the password");

    let (step, state) = tapo.discover("tapo.account", &state, &SetupInput::default());
    let SetupStep::Fetch { request, .. } = &step else { panic!("{step:?}") };
    let local: [u8; 16] = request.body_bytes.clone().try_into().unwrap();

    // The device computed its half from the account it was really set up with.
    let real = auth_hash(EMAIL, PASSWORD);
    let (step, _) = tapo.setup(
        "tapo.account",
        &state.unwrap(),
        &fetched(200, &hs1_reply(&local, &[9u8; 16], &real), true),
    );
    let SetupStep::Failed { reason } = step else {
        panic!("expected a refusal, got {step:?}");
    };
    assert!(reason.contains("saved TP-Link email/password"), "{reason}");
}

/// A form submitted with a field empty must not redisplay itself with no explanation, which reads
/// as a dead button.
#[test]
fn a_form_submitted_empty_says_what_is_missing() {
    let tapo = Tapo;
    let (_, state) = tapo.discover("tapo.account", &seen(&[]), &SetupInput::default());
    let state = state.unwrap();

    let input = typed(Texts {
        email: Some(EMAIL.into()),
        password: Some("".into()),
        ..Texts::default()
    });
    let (step, _) = tapo.setup("tapo.account", &state, &input);
    let SetupStep::Form { body, .. } = &step else {
        panic!("expected the form again, got {step:?}");
    };
    assert_eq!(body, "The password is needed.");

    let (step, _) = tapo.setup("tapo.account", &state, &SetupInput::default());
    let SetupStep::Form { body, .. } = &step else { panic!("{step:?}") };
    assert_eq!(body, "Both are needed.");

    let input = typed(Texts {
        email: Some(" \t".into()),
        password: Some(PASSWORD.into()),
        ..Texts::default()
    });
    let (step, state) = tapo.setup("tapo.account", &state, &input);
    let SetupStep::Form { body, .. } = &step else { panic!("{step:?}") };
    assert_eq!(body, "The email is needed.");
    assert_eq!(state.unwrap().phase.as_deref(), Some("account"));
}

/// Browsing the saved account: every dimmer, with the name somebody gave it in the Tapo app, and
/// nothing typed. This is the whole point of the account being its own device.
#[test]
fn browsing_the_account_adds_every_dimmer_with_its_own_name() {
    let tapo = Tapo;
    let auth = auth_hash(EMAIL, PASSWORD);

    // The account's own saved properties, plus whatever the broadcast just found.
    let state =
        browsing(&[("10.0.0.4", "S500D", "KLAP"), ("10.0.0.5", "S500D", "KLAP")], PASSWORD);

    let (mut step, mut state) = tapo.discover("tapo.account", &state, &SetupInput::default());
    for (i, name) in ["Hall", "Landing"].into_iter().enumerate() {
        let (s, st) =
            log_in(&tapo, state.unwrap(), step, &auth, [(i as u8) + 20; 16], Some(name));
        step = s;
        state = st;
    }

    let SetupStep::Done { devices, .. } = step else {
        panic!("expected both dimmers, got {step:?}");
    };
    assert_eq!(devices.len(), 2);
    assert_eq!(devices[0].label, "Hall");
    assert_eq!(devices[1].label, "Landing");
    assert_eq!(devices[0].driver_id, "tapo.dimmer");
    assert_eq!(property(&devices[0], "Address"), Some("10.0.0.4"));
    assert_eq!(property(&devices[1], "Address"), Some("10.0.0.5"));
    // The credentials are the account's and stay there. A child carrying its own copy is the
    // thing this whole arrangement exists to prevent.
    for device in &devices {
        assert!(property(device, "Email").is_none(), "{:?}", device.properties);
        assert!(property(device, "Password").is_none(), "{:?}", device.properties);
    }
    assert_eq!(devices[0].verified, "S500D, on");
    assert!(state.is_none());
}

/// One dimmer being unplugged must not cost the others.
#[test]
fn a_dead_device_is_skipped_and_the_rest_still_arrive() {
    let tapo = Tapo;
    let auth = auth_hash(EMAIL, PASSWORD);
    let state =
        browsing(&[("10.0.0.4", "S500D", "KLAP"), ("10.0.0.5", "S500D", "KLAP")], PASSWORD);

    let (step, state) = tapo.discover("tapo.account", &state, &SetupInput::default());
    let (step, state) = log_in(&tapo, state.unwrap(), step, &auth, [21u8; 16], Some("Hall"));

    // The second is unplugged. A request that never connected is reported as status 0.
    let SetupStep::Fetch { request, .. } = &step else { panic!("{step:?}") };
    assert!(request.url.contains("10.0.0.5"));
    let (step, _) = tapo.setup("tapo.account", &state.unwrap(), &fetched(0, b"", false));

    let SetupStep::Done { devices, skipped } = step else {
        panic!("the one that answered is still worth having, got {step:?}");
    };
    assert_eq!(devices.len(), 1);
    assert_eq!(devices[0].label, "Hall");
    assert_eq!(skipped, ["10.0.0.5 did not answer (HTTP 0)"]);
}

/// A device on an older protocol is left out rather than taking the rest down with it.
#[test]
fn a_device_on_the_old_protocol_is_left_out() {
    let tapo = Tapo;
    let browsing =
        browsing(&[("10.0.0.9", "HS100", "AES"), ("10.0.0.4", "S500D", "KLAP")], PASSWORD);

    // The walk never tries the one that said it speaks something else, even though it answered
    // the same broadcast and is first in the list.
    let (step, state) = tapo.discover("tapo.account", &browsing, &SetupInput::default());
    let SetupStep::Fetch { request, .. } = &step else { panic!("{step:?}") };
    assert!(request.url.contains("10.0.0.4"), "{}", request.url);

    // And it is named beside what was added.
    let auth = auth_hash(EMAIL, PASSWORD);
    let (step, _) = log_in(&tapo, state.unwrap(), step, &auth, [8u8; 16], None);
    let SetupStep::Done { devices, skipped } = step else { panic!("{step:?}") };
    assert_eq!(devices[0].label, "S500D at 10.0.0.4");
    assert_eq!(skipped, ["10.0.0.9 speaks a protocol this driver does not"]);
}

/// A dimmer added on its own asks for an address and nothing else: the account it belongs behind
/// already holds the credentials.
#[test]
fn a_dimmer_added_on_its_own_is_never_asked_for_a_password() {
    let tapo = Tapo;
    let mut seeded = seen(&[("10.0.0.4", "S500D", "KLAP")]);
    seeded.texts.chosen_address = Some("10.0.0.4".into());
    seeded.texts.saved_email = Some(EMAIL.into());
    seeded.texts.saved_password = Some(PASSWORD.into());
    let (step, _) = tapo.discover("tapo.dimmer", &seeded, &SetupInput::default());
    let SetupStep::Fetch { request, .. } = step else {
        panic!("expected the inherited account to be used, got {step:?}");
    };
    assert!(request.url.contains("10.0.0.4/app/handshake1"), "{}", request.url);

    // A controller that did not seed the parent still gets the safe behaviour: adopt the
    // discovered address and inherit credentials when the device is attached.
    let mut unseeded = seen(&[("10.0.0.4", "S500D", "KLAP")]);
    unseeded.texts.chosen_address = Some("10.0.0.4".into());
    let (step, _) = tapo.discover("tapo.dimmer", &unseeded, &SetupInput::default());
    let SetupStep::Done { devices, .. } = step else {
        panic!("expected the dimmer, got {step:?}");
    };
    assert_eq!(devices[0].driver_id, "tapo.dimmer");
    assert_eq!(property(&devices[0], "Address"), Some("10.0.0.4"));
    assert_eq!(devices[0].properties.len(), 1, "credentials belong to the account");

    // With nothing found, the address is the one thing worth asking for.
    let (step, state) =
        tapo.discover("tapo.dimmer", &SetupState::default(), &SetupInput::default());
    let SetupStep::Form { fields, .. } = &step else { panic!("{step:?}") };
    assert_eq!(fields.iter().map(|f| f.name.as_str()).collect::<Vec<_>>(), vec!["address"]);

    // And submitting it blank says so rather than redrawing in silence.
    let (step, _) = tapo.setup("tapo.dimmer", &state.unwrap(), &SetupInput::default());
    let SetupStep::Form { body, .. } = &step else { panic!("{step:?}") };
    assert!(body.contains("address is needed"), "{body}");
}

/// Base64, for building the nicknames a Tapo would send.
fn base64(text: &str) -> String {
    const ALPHABET: &[u8] = b"ABCDEFGHIJKLMNOPQRSTUVWXYZabcdefghijklmnopqrstuvwxyz0123456789+/";
    let bytes = text.as_bytes();
    let mut out = String::new();
    for chunk in bytes.chunks(3) {
        let b = [chunk[0], *chunk.get(1).unwrap_or(&0), *chunk.get(2).unwrap_or(&0)];
        let n = u32::from_be_bytes([0, b[0], b[1], b[2]]);
        for i in 0..4 {
            if i <= chunk.len() {
                out.push(ALPHABET[((n >> (18 - 6 * i)) & 0x3F) as usize] as char);
            } else {
                out.push('=');
            }
        }
    }
    out
}

fn failure(turn: (SetupStep, Option<SetupState>)) -> String {
    let (SetupStep::Failed { reason }, None) = turn else { panic!("{turn:?}") };
    reason
}

#[test]
fn an_address_that_was_typed_is_a_dimmer() {
    let (_, state) =
        Tapo.discover("tapo.dimmer", &SetupState::default(), &SetupInput::default());
    let input = typed(Texts { address: Some(" 10.1.2.3 ".into()), ..Texts::default() });
    let (step, state) = Tapo.setup("tapo.dimmer", &state.unwrap(), &input);
    let SetupStep::Done { devices, skipped } = step else { panic!("{step:?}") };
    assert_eq!(devices.len(), 1);
    assert_eq!(devices[0].label, "Tapo dimmer at 10.1.2.3");
    assert_eq!(devices[0].verified, "found on the network");
    assert_eq!(devices[0].properties, [("Address".to_string(), "10.1.2.3".to_string())]);
    assert!(skipped.is_empty() && state.is_none());
}

#[test]
fn the_first_that_answered_is_the_dimmer_where_nobody_picked_one() {
    let state = seen(&[("10.0.0.9", "HS100", "AES"), ("10.0.0.4", "S500D", "KLAP")]);
    let (step, _) = Tapo.discover("tapo.dimmer", &state, &SetupInput::default());
    let SetupStep::Done { devices, .. } = step else { panic!("{step:?}") };
    assert_eq!(devices[0].label, "HS100 at 10.0.0.9");

    // What is typed goes before what was put aside.
    let input = typed(Texts { chosen_address: Some("10.0.0.4".into()), ..Texts::default() });
    let (step, _) = Tapo.discover("tapo.dimmer", &state, &input);
    let SetupStep::Done { devices, .. } = step else { panic!("{step:?}") };
    assert_eq!(devices[0].label, "S500D at 10.0.0.4");
}

#[test]
fn an_account_that_cannot_be_browsed_says_why() {
    let mut state = browsing(&[("10.0.0.4", "S500D", "KLAP")], " ");
    assert_eq!(
        failure(Tapo.discover("tapo.account", &state, &SetupInput::default())),
        "This account has no email and password saved. Edit it, or remove it and add it again."
    );
    state.texts.saved_password = Some(PASSWORD.into());
    state.udp_candidates.clear();
    assert_eq!(
        failure(Tapo.discover("tapo.account", &state, &SetupInput::default())),
        "No Tapo devices answered on this network. They have to be set up in the Tapo app first, \
         and on the same network as the controller — a discovery broadcast does not cross a \
         router."
    );
    let legacy = browsing(&[("10.0.0.9", "HS100", "AES")], PASSWORD);
    assert!(failure(Tapo.discover("tapo.account", &legacy, &SetupInput::default()))
        .starts_with("No Tapo devices answered"));
}

#[test]
fn a_walk_that_adds_nothing_gives_every_reason() {
    let devices = [("10.0.0.4", "S500D", "KLAP"), ("10.0.0.5", "S500D", "klap"), ("10.0.0.6", "", "KLAP")];
    let (step, state) =
        Tapo.discover("tapo.account", &browsing(&devices, PASSWORD), &SetupInput::default());
    let SetupStep::Fetch { note, request } = step else { panic!("{step:?}") };
    assert_eq!(note, "signing in to 10.0.0.4");
    assert!(request.headers.is_empty());
    assert_eq!(request.method, "POST");

    // The first does not answer, with a reason.
    let mut input = fetched(0, b"", false);
    input.error = Some(" connection refused ".into());
    let (step, state) = Tapo.setup("tapo.account", &state.unwrap(), &input);
    let SetupStep::Fetch { request, .. } = step else { panic!("{step:?}") };
    assert_eq!(request.url, "http://10.0.0.5/app/handshake1");
    let local: [u8; 16] = request.body_bytes.try_into().unwrap();

    // The second takes the first handshake and not the second.
    let auth = auth_hash(EMAIL, PASSWORD);
    let (step, state) = Tapo.setup(
        "tapo.account",
        &state.unwrap(),
        &fetched(200, &hs1_reply(&local, &[2u8; 16], &auth), false),
    );
    let SetupStep::Fetch { request, note } = step else { panic!("{step:?}") };
    assert_eq!(request.url, "http://10.0.0.5/app/handshake2");
    assert!(request.headers.is_empty(), "there is no cookie to send");
    assert_eq!(note, "signing in to 10.0.0.5");
    let (step, state) = Tapo.setup("tapo.account", &state.unwrap(), &fetched(403, b"", false));

    // The third is paired to another account.
    let SetupStep::Fetch { request, .. } = step else { panic!("{step:?}") };
    assert_eq!(request.url, "http://10.0.0.6/app/handshake1");
    let state = state.unwrap();
    assert_eq!(state.texts.remote_seed, None, "the second device's seed is gone");
    assert_eq!(state.at, state.skipped.len() + state.adopted.len());
    assert_eq!(
        failure(Tapo.setup("tapo.account", &state, &fetched(200, &[0u8; 48], false))),
        "Nothing could be added. 10.0.0.4 did not answer (HTTP 0): connection refused; 10.0.0.5 \
         rejected the login (HTTP 403); 10.0.0.6 did not accept the saved TP-Link email/password \
         — edit the account credentials and try again"
    );
}

#[test]
fn the_session_cookie_goes_with_every_request_after_it() {
    let auth = auth_hash(EMAIL, PASSWORD);
    let (step, state) = Tapo.discover(
        "tapo.account",
        &browsing(&[("10.0.0.4", "S500D", "KLAP")], PASSWORD),
        &SetupInput::default(),
    );
    let SetupStep::Fetch { request, .. } = step else { panic!("{step:?}") };
    let local: [u8; 16] = request.body_bytes.try_into().unwrap();
    let (step, state) = Tapo.setup(
        "tapo.account",
        &state.unwrap(),
        &fetched(200, &hs1_reply(&local, &[2u8; 16], &auth), true),
    );
    let cookie = [("Cookie".to_string(), "TP_SESSIONID=SID".to_string())];
    let SetupStep::Fetch { request, .. } = step else { panic!("{step:?}") };
    assert_eq!(request.headers, cookie);
    let (step, state) = Tapo.setup("tapo.account", &state.unwrap(), &fetched(200, b"", false));
    let SetupStep::Fetch { request, note } = step else { panic!("{step:?}") };
    assert_eq!(request.headers, cookie);
    assert_eq!(note, "asking 10.0.0.4 what it is");
    let seq = Session::derive(&local, &[2u8; 16], &auth).seq + 1;
    assert_eq!(request.url, format!("http://10.0.0.4/app/request?seq={seq}"));
    let state = state.unwrap();
    assert_eq!(state.seq, Some(i64::from(seq)));

    // A reply that cannot be read is still a device that was logged in to.
    let (step, _) = Tapo.setup("tapo.account", &state, &fetched(200, b"", false));
    let SetupStep::Done { devices, .. } = step else { panic!("{step:?}") };
    assert_eq!(devices[0].label, "S500D at 10.0.0.4");
    assert_eq!(devices[0].verified, "S500D, signed in");
}

#[test]
fn a_name_of_nothing_but_blanks_is_no_name() {
    let auth = auth_hash(EMAIL, PASSWORD);
    for (nickname, label) in [(None, "S500D at 10.0.0.4"), (Some(" "), "S500D at 10.0.0.4"), (Some(" Hall "), " Hall ")] {
        let (step, state) = Tapo.discover(
            "tapo.account",
            &browsing(&[("10.0.0.4", "S500D", "KLAP")], PASSWORD),
            &SetupInput::default(),
        );
        let (step, _) = log_in(&Tapo, state.unwrap(), step, &auth, [3u8; 16], nickname);
        let SetupStep::Done { devices, .. } = step else { panic!("{step:?}") };
        assert_eq!(devices[0].label, label);
    }
}

#[test]
fn a_flow_that_lost_its_notes_says_so() {
    let lost = "Lost track of the handshake part-way through. Start setup again.";
    for phase in ["hs1", "hs2", "info"] {
        let state = SetupState { phase: Some(phase.into()), ..SetupState::default() };
        assert_eq!(failure(Tapo.setup("tapo.account", &state, &fetched(200, b"", false))), lost);
    }
    let mut state = SetupState { phase: Some("hs1".into()), ..SetupState::default() };
    state.texts.email = Some(EMAIL.into());
    state.texts.password = Some(PASSWORD.into());
    state.texts.local_seed = Some("00".into());
    assert_eq!(failure(Tapo.setup("tapo.account", &state, &fetched(500, b"", false))), lost);
    state.phase = Some("elsewhere".into());
    assert_eq!(
        failure(Tapo.setup("tapo.account", &state, &SetupInput::default())),
        "unknown setup phase `elsewhere`"
    );
}

#[test]
fn the_end_of_a_walk_is_what_was_adopted() {
    assert_eq!(failure(Tapo::finish(&SetupState::default())), "Nothing answered.");
    let state = SetupState {
        at: usize::MAX,
        phase: Some("hs2".into()),
        adopted: vec![Adopted {
            address: "10.0.0.4".into(),
            label: "Hall".into(),
            verified: "S500D, off".into(),
        }],
        ..SetupState::default()
    };
    // Past the end of the list there is nobody left to greet.
    let (step, state) = Tapo.setup("tapo.account", &state, &fetched(404, b"", false));
    let SetupStep::Done { devices, skipped } = step else { panic!("{step:?}") };
    assert_eq!(devices.len(), 1);
    assert_eq!(devices[0].label, "Hall");
    assert_eq!(devices[0].verified, "S500D, off");
    assert_eq!(skipped, [" rejected the login (HTTP 404)"]);
    assert!(state.is_none());
}

#[test]
fn a_broadcast_reply_is_read_from_its_first_brace() {
    let info = read_broadcast(&broadcast_reply("S500D", "KLAP")).expect("a reply");
    assert_eq!(info.device_model.as_deref(), Some("S500D"));
    assert_eq!(info.encrypt_type.as_deref(), Some("KLAP"));
    assert!(read_broadcast(b"").is_none());
    assert!(read_broadcast(b"no braces").is_none());
    assert!(read_broadcast(b"\xff{\"result\":1").is_none());
    assert!(read_broadcast(b"{\"other\":1}").is_none());
    let bare = read_broadcast(b"\xfe\xff{\"result\":{\"device_model\":7}}").expect("a reply");
    assert_eq!(bare.device_model, None);
    assert_eq!(bare.encrypt_type, None);

    let rows = vec![
        UdpCandidate { address: "a".into(), reply: broadcast_reply("one", "KLAP") },
        UdpCandidate { address: "b".into(), reply: broadcast_reply("two", "AES") },
        UdpCandidate { address: "b".into(), reply: broadcast_reply("three", "KLAP") },
    ];
    assert_eq!(from_broadcast(&rows, "b").unwrap().device_model.as_deref(), Some("two"));
    assert!(from_broadcast(&rows, "c").is_none());
}

#[test]
fn a_reply_is_read_member_by_member() {
    let reply = read_reply(br#"{"error_code":-1,"result":{"device_on":false,"brightness":7,"nickname":"x"}}"#)
        .expect("JSON");
    assert_eq!(reply.error_code, Some(-1));
    assert_eq!(reply.device_on, Some(false));
    assert_eq!(reply.brightness, Some(7));
    assert_eq!(reply.nickname.as_deref(), Some("x"));

    // Something else in a member's place is as good as no member.
    let reply = read_reply(
        br#"{"error_code":"0","result":{"device_on":1,"brightness":-7,"nickname":null}}"#,
    )
    .expect("JSON");
    assert_eq!(reply.error_code, None);
    assert_eq!(reply.device_on, None);
    assert_eq!(reply.brightness, None);
    assert_eq!(reply.nickname, None);
    let reply = read_reply(br#"{"error_code":1.0,"result":[true]}"#).expect("JSON");
    assert_eq!((reply.error_code, reply.device_on), (None, None));
    assert_eq!(read_reply(b"[]").unwrap().error_code, None);
    assert!(read_reply(b"{").is_none());
    assert!(read_reply(b"").is_none());
    assert!(read_reply(b"{} x").is_none());
}

#[test]
fn json_starts_at_the_first_brace() {
    assert_eq!(json_part("ab{c{").as_deref(), Some("{c{"));
    assert_eq!(json_part("{").as_deref(), Some("{"));
    assert_eq!(json_part("}"), None);
    assert_eq!(json_part(""), None);
}

#[test]
fn the_seed_that_comes_back_decides_who_is_next() {
    let state = SetupState {
        queue: vec!["a".into(), "b".into()],
        phase: Some("hs1".into()),
        ..SetupState::default()
    };
    let input = fetched(200, b"", true);
    let (step, next) = Tapo::sign_in(&state, &input, &[1u8; 16], &[2u8; 32], Some([3u8; 16]));
    let SetupStep::Fetch { request, .. } = step else { panic!("{step:?}") };
    assert_eq!(request.url, "http://a/app/handshake2");
    let next = next.unwrap();
    assert_eq!(next.texts.remote_seed, Some("03".repeat(16)));
    assert_eq!(next.at, 0);

    let (step, next) = Tapo::sign_in(&state, &input, &[1u8; 16], &[2u8; 32], None);
    let SetupStep::Fetch { request, .. } = step else { panic!("{step:?}") };
    assert_eq!(request.url, "http://b/app/handshake1");
    let next = next.unwrap();
    assert_eq!(next.at, 1);
    assert_eq!(
        next.skipped,
        ["a did not accept the saved TP-Link email/password — edit the account credentials and \
          try again"]
    );
}

#[test]
fn a_blank_choice_is_no_choice() {
    for blank in ["", " \t"] {
        // With nothing found, the address is asked for.
        let mut state = SetupState::default();
        state.texts.chosen_address = Some(blank.into());
        let (step, next) = Tapo.discover("tapo.dimmer", &state, &SetupInput::default());
        let SetupStep::Form { fields, .. } = &step else { panic!("{step:?}") };
        assert_eq!(fields[0].name, "address");
        assert_eq!(next.unwrap().phase.as_deref(), Some("typed"));

        // With something found, that is it, on its own and behind an account.
        let mut state = browsing(&[("10.0.0.4", "S500D", "KLAP")], PASSWORD);
        state.texts.chosen_address = Some(blank.into());
        assert_eq!(Tapo::discovered(&state), ["10.0.0.4"]);
        let (step, _) = Tapo.discover("tapo.account", &state, &SetupInput::default());
        let SetupStep::Fetch { request, .. } = &step else { panic!("{step:?}") };
        assert_eq!(request.url, "http://10.0.0.4/app/handshake1");
    }
    // Anything else is the choice, as it stands.
    let mut state = browsing(&[("10.0.0.4", "S500D", "KLAP")], PASSWORD);
    state.texts.chosen_address = Some("10.0.0.8 ".into());
    assert_eq!(Tapo::discovered(&state), ["10.0.0.8 "]);
    let (step, _) = Tapo.discover("tapo.account", &state, &SetupInput::default());
    let SetupStep::Fetch { request, .. } = &step else { panic!("{step:?}") };
    assert_eq!(request.url, "http://10.0.0.8 /app/handshake1");
    // A dimmer on its own goes by what was said, without the white space around it.
    let (step, _) = Tapo.discover("tapo.dimmer", &state, &SetupInput::default());
    let SetupStep::Fetch { request, .. } = &step else { panic!("{step:?}") };
    assert_eq!(request.url, "http://10.0.0.8/app/handshake1");
}

#[test]
fn what_was_left_out_is_named_in_a_failure_too() {
    let legacy = browsing(&[("10.0.0.9", "HS100", "AES"), ("10.0.0.8", "HS110", "AES")], PASSWORD);
    assert_eq!(
        failure(Tapo.discover("tapo.account", &legacy, &SetupInput::default())),
        "No Tapo devices answered on this network. They have to be set up in the Tapo app first, \
         and on the same network as the controller — a discovery broadcast does not cross a \
         router. 10.0.0.9 speaks a protocol this driver does not; 10.0.0.8 speaks a protocol this \
         driver does not"
    );

    let mixed = browsing(&[("10.0.0.9", "HS100", "AES"), ("10.0.0.4", "S500D", "KLAP")], PASSWORD);
    let (_, state) = Tapo.discover("tapo.account", &mixed, &SetupInput::default());
    assert_eq!(
        failure(Tapo.setup("tapo.account", &state.unwrap(), &fetched(500, b"", false))),
        "Nothing could be added. 10.0.0.4 did not answer (HTTP 500); 10.0.0.9 speaks a protocol \
         this driver does not"
    );

    let alone = SetupState { left_out: vec!["a".into()], ..SetupState::default() };
    assert_eq!(
        failure(Tapo::finish(&alone)),
        "Nothing answered. a speaks a protocol this driver does not"
    );
}

#[test]
fn without_random_numbers_the_rest_of_a_walk_is_passed_over() {
    let state = |adopted: Vec<Adopted>| SetupState {
        queue: vec!["a".into(), "b".into(), "c".into()],
        at: 1,
        adopted,
        ..SetupState::default()
    };
    assert_eq!(
        failure(Tapo::greet_next_with(state(Vec::new()), None)),
        "Nothing could be added. b was not tried: no random numbers; c was not tried: no random \
         numbers"
    );
    // What was adopted until then is not lost.
    let hall = Adopted { address: "a".into(), label: "Hall".into(), verified: "on".into() };
    let (step, next) = Tapo::greet_next_with(state(vec![hall]), None);
    let SetupStep::Done { devices, skipped } = step else { panic!("{step:?}") };
    assert_eq!(devices[0].label, "Hall");
    assert_eq!(
        skipped,
        ["b was not tried: no random numbers", "c was not tried: no random numbers"]
    );
    assert!(next.is_none());

    let (step, next) = Tapo::greet_next_with(state(Vec::new()), Some([4u8; 16]));
    let SetupStep::Fetch { request, .. } = step else { panic!("{step:?}") };
    assert_eq!(request.url, "http://b/app/handshake1");
    assert_eq!(request.body_bytes, [4u8; 16]);
    assert_eq!(next.unwrap().texts.local_seed, Some("04".repeat(16)));
}
