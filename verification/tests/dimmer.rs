use serde_json::Value;
use tapo::dimmer::types::{CommandArgs, EventArgs, Instance, Params, Scratch, Tapo, GET, LIGHT};
use tapo::host::{Change, HostCall};
use tapo::klap::{auth_hash, handshake2, sha256, Session};
use tapo::reading::DeviceReply;

const EMAIL: &str = "someone@example.com";
const PASSWORD: &str = "hunter2";

fn dimmer() -> Instance {
    Instance {
        address: Some("10.0.0.4".into()),
        email: Some(EMAIL.into()),
        password: Some(PASSWORD.into()),
        scratch: Scratch::default(),
    }
}

/// The one request the driver just made: where it went and what it carried.
fn sent(calls: &[HostCall]) -> (String, Vec<u8>) {
    calls
        .iter()
        .find_map(|c| match c {
            HostCall::Http(r) => Some((r.url.clone(), r.body_bytes.clone())),
            _ => None,
        })
        .expect("a request")
}

/// What is delivered when a reply comes back.
fn answered(url: &str, status: u16, body: &[u8], cookie: bool) -> EventArgs {
    let headers = if cookie {
        vec![
            ("set-cookie".into(), "TP_SESSIONID=SID;TIMEOUT=1440".into()),
            ("content-length".into(), "48".into()),
        ]
    } else {
        vec![("content-length".into(), "16".into())]
    };
    EventArgs {
        url: Some(url.into()),
        status: Some(u64::from(status)),
        bytes: body.to_vec(),
        headers,
    }
}

/// The switch's half of handshake1, computed the way the device computes it.
fn hs1_reply(local: &[u8; 16], remote: &[u8; 16], auth: &[u8; 32]) -> Vec<u8> {
    let mut out = remote.to_vec();
    out.extend_from_slice(&sha256(&[local, remote, auth]));
    out
}

/// The switch's answer to the request at `seq`. `encrypt` always advances, so the stand-in is
/// wound back one rather than given a second entry point only a test would use.
fn answer(device: &mut Session, seq: i32, plain: &[u8]) -> Vec<u8> {
    device.seq = seq - 1;
    let (used, body) = device.encrypt(plain);
    assert_eq!(used, seq);
    body
}

fn notified(calls: &[HostCall], name: &str) -> Option<Change> {
    calls.iter().find_map(|c| match c {
        HostCall::Notify { proxy, change } if change.name() == name => {
            assert_eq!(*proxy, LIGHT);
            Some(*change)
        }
        _ => None,
    })
}

fn warned(calls: &[HostCall]) -> Vec<String> {
    calls
        .iter()
        .filter_map(|c| match c {
            HostCall::Log { level, msg } if level == "warn" => Some(msg.clone()),
            _ => None,
        })
        .collect()
}

fn requests(calls: &[HostCall]) -> usize {
    calls.iter().filter(|c| matches!(c, HostCall::Http(_))).count()
}

fn no_args() -> CommandArgs {
    CommandArgs { level: None }
}

/// The whole exchange, with the test playing the switch: handshake, the read the bind asked for,
/// a command, and the read-back that command triggers.
///
/// One test rather than four because the states only mean anything in sequence: the sequence
/// number, the queue and the session are carried between them.
#[test]
fn a_bind_a_command_and_a_read_back() {
    let tapo = Tapo;
    let mut inst = dimmer();
    let auth = auth_hash(EMAIL, PASSWORD);

    // -- bind: nothing is known, so this has to start with a handshake ------------------
    let calls = tapo.on_bind(&mut inst);
    let (url, body) = sent(&calls);
    assert_eq!(url, "http://10.0.0.4/app/handshake1");
    let local: [u8; 16] = body.try_into().expect("a 16-byte seed");

    let remote = [3u8; 16];
    let calls = tapo.on_event(
        &mut inst,
        0,
        "http_response",
        &answered(&url, 200, &hs1_reply(&local, &remote, &auth), true),
    );
    let (url, body) = sent(&calls);
    assert_eq!(url, "http://10.0.0.4/app/handshake2");
    assert_eq!(body, handshake2(&local, &remote, &auth));

    // -- the session is up, so the bind's own question goes out ------------------------
    let mut device = Session::derive(&local, &remote, &auth);
    let mut seq = device.seq + 1;
    let calls = tapo.on_event(&mut inst, 0, "http_response", &answered(&url, 200, b"", false));
    let (url, body) = sent(&calls);
    assert_eq!(url, format!("http://10.0.0.4/app/request?seq={seq}"));
    assert_eq!(
        device.decrypt(seq, &body).as_deref(),
        Some(GET.as_bytes()),
        "the bind asks where it stands"
    );

    // 40% and on. Both are reported, because a Tapo keeps power and brightness apart.
    let framed = answer(
        &mut device,
        seq,
        br#"{"error_code":0,"result":{"device_on":true,"brightness":40}}"#,
    );
    let calls = tapo.on_event(&mut inst, 0, "http_response", &answered(&url, 200, &framed, false));
    assert_eq!(notified(&calls, "power_changed").unwrap(), Change::Power(true));
    assert_eq!(notified(&calls, "level_changed").unwrap(), Change::Level(40));

    // -- a command, and the read-back it is required to do afterwards ------------------
    let args = CommandArgs { level: Some(0) };
    let calls = tapo.on_command(&mut inst, LIGHT, "set_level", &args);
    let (url, body) = sent(&calls);
    seq += 1;
    let plain = device.decrypt(seq, &body).expect("the command");
    // Zero is off, not brightness zero: the switch refuses that and would report success.
    let plain: Value = serde_json::from_slice(&plain).unwrap();
    let off: Value = serde_json::from_str(r#"{ "device_on": false }"#).unwrap();
    assert_eq!(plain["params"], off);

    // A write is acknowledged with nothing to read, so the driver asks again rather than
    // reporting what it hoped for.
    let framed = answer(&mut device, seq, br#"{"error_code":0}"#);
    let calls = tapo.on_event(&mut inst, 0, "http_response", &answered(&url, 200, &framed, false));
    assert!(notified(&calls, "power_changed").is_none(), "nothing was read back yet");
    let (url, body) = sent(&calls);
    seq += 1;
    assert_eq!(url, format!("http://10.0.0.4/app/request?seq={seq}"));
    assert_eq!(device.decrypt(seq, &body).as_deref(), Some(GET.as_bytes()));

    let framed = answer(
        &mut device,
        seq,
        br#"{"error_code":0,"result":{"device_on":false,"brightness":40}}"#,
    );
    let calls = tapo.on_event(&mut inst, 0, "http_response", &answered(&url, 200, &framed, false));
    assert_eq!(notified(&calls, "power_changed").unwrap(), Change::Power(false));
    // The brightness did not move, so nothing claims it did.
    assert!(notified(&calls, "level_changed").is_none());
}

/// A session the switch has forgotten is rebuilt, and the command that found out is not lost on
/// the way. A dropped `off` is a light left on.
#[test]
fn a_forgotten_session_is_rebuilt_and_the_command_retried() {
    let tapo = Tapo;
    let mut inst = dimmer();
    let auth = auth_hash(EMAIL, PASSWORD);

    let calls = tapo.on_bind(&mut inst);
    let (url, body) = sent(&calls);
    let local: [u8; 16] = body.try_into().unwrap();
    let remote = [4u8; 16];
    let calls = tapo.on_event(
        &mut inst,
        0,
        "http_response",
        &answered(&url, 200, &hs1_reply(&local, &remote, &auth), true),
    );
    let (url, _) = sent(&calls);
    let calls = tapo.on_event(&mut inst, 0, "http_response", &answered(&url, 200, b"", false));
    let (url, _) = sent(&calls);

    // The switch rebooted between the handshake and now.
    let calls = tapo.on_event(&mut inst, 0, "http_response", &answered(&url, 403, b"", false));
    let (url, _) = sent(&calls);
    assert_eq!(url, "http://10.0.0.4/app/handshake1", "a 403 means handshake again");

    // And after the new handshake the question that was refused goes out again.
    let (_, body) = sent(&calls);
    let local: [u8; 16] = body.try_into().unwrap();
    let remote = [5u8; 16];
    let calls = tapo.on_event(
        &mut inst,
        0,
        "http_response",
        &answered(&url, 200, &hs1_reply(&local, &remote, &auth), true),
    );
    let (url, _) = sent(&calls);
    let calls = tapo.on_event(&mut inst, 0, "http_response", &answered(&url, 200, b"", false));
    let (url, body) = sent(&calls);
    let device = Session::derive(&local, &remote, &auth);
    assert!(url.contains("/app/request?seq="));
    assert_eq!(
        device.decrypt(device.seq + 1, &body).as_deref(),
        Some(GET.as_bytes()),
        "the request the 403 refused has to be retried, not dropped"
    );
}

/// The password is the thing that goes wrong here, and it has to be said so.
#[test]
fn a_wrong_account_is_named_rather_than_retried() {
    let tapo = Tapo;
    let mut inst = dimmer();
    let calls = tapo.on_bind(&mut inst);
    let (url, body) = sent(&calls);
    let local: [u8; 16] = body.try_into().unwrap();

    // The switch computed its half from a different password.
    let other = auth_hash(EMAIL, "not this one");
    let calls = tapo.on_event(
        &mut inst,
        0,
        "http_response",
        &answered(&url, 200, &hs1_reply(&local, &[1u8; 16], &other), true),
    );
    let warned = calls.iter().any(|c| {
        matches!(c, HostCall::Log { level, msg } if level == "warn" && msg.contains("TP-Link account"))
    });
    assert!(warned, "got {calls:?}");
    // And it stops: no second handshake, and the queue is not left holding the question.
    assert!(!calls.iter().any(|c| matches!(c, HostCall::Http(_))));
    assert!(inst.scratch.queue.is_empty());
    assert!(Tapo::session(&inst).is_none());
}

/// A dimmer with a session that is up, and the switch's side of it.
fn connected(seq: i32) -> (Instance, Session) {
    let mut inst = dimmer();
    let session = Session::restore([1u8; 16], [2u8; 12], [3u8; 28], seq);
    Tapo::save_session(&mut inst, &session);
    inst.scratch.ready = Some(true);
    inst.scratch.cookie = Some("SID".into());
    (inst, session)
}

fn replied(seq: i32, status: u64, bytes: Vec<u8>) -> EventArgs {
    EventArgs {
        url: Some(format!("http://10.0.0.4/app/request?seq={seq}")),
        status: Some(status),
        bytes,
        headers: Vec::new(),
    }
}

#[test]
fn a_saved_session_is_read_back() {
    let (mut inst, device) = connected(-77);
    let restored = Tapo::session(&inst).expect("the session");
    assert_eq!(restored.parts(), device.parts());
    assert_eq!(restored.seq, -77);
    assert_eq!(inst.scratch.key.as_deref(), Some("01010101010101010101010101010101"));

    // A part that is missing, too short, or no hexadecimal is no session.
    inst.scratch.iv = Some("0202".into());
    assert!(Tapo::session(&inst).is_none());
    inst.scratch.iv = Some("zz".repeat(12));
    assert!(Tapo::session(&inst).is_none());
    inst.scratch.iv = Some("02".repeat(12));
    assert!(Tapo::session(&inst).is_some());
    inst.scratch.seq = None;
    assert!(Tapo::session(&inst).is_none());
    inst.scratch.seq = Some((1i64 << 32) + 9);
    assert_eq!(Tapo::session(&inst).unwrap().seq, 9);
    Tapo::clear_session(&mut inst);
    assert!(Tapo::session(&inst).is_none());
    assert_eq!(inst.scratch.inflight, Some(false));
}

#[test]
fn binding_keeps_the_session_and_drops_the_rest() {
    let (mut inst, device) = connected(10);
    inst.scratch.queue = vec![Tapo::set(Params::Power(true))];
    inst.scratch.inflight = Some(true);
    inst.scratch.after_read = Some("toggle".into());
    let calls = Tapo.on_bind(&mut inst);
    assert_eq!(requests(&calls), 1);
    let (url, body) = sent(&calls);
    assert_eq!(url, "http://10.0.0.4/app/request?seq=11");
    assert_eq!(device.decrypt(11, &body).as_deref(), Some(GET.as_bytes()));
    match &calls[0] {
        HostCall::Http(r) => {
            assert_eq!(r.method, "POST");
            assert_eq!(r.headers, [("Cookie".to_string(), "TP_SESSIONID=SID".to_string())]);
        }
        other => panic!("{other:?}"),
    }
    assert!(inst.scratch.queue.is_empty());
    assert_eq!(inst.scratch.after_read, None);
    assert_eq!(inst.scratch.inflight, Some(true));
    assert_eq!(inst.scratch.seq, Some(11));
}

#[test]
fn binding_recovers_a_stalled_handshake() {
    let mut inst = dimmer();
    Tapo.on_bind(&mut inst);
    assert!(Tapo.on_command(&mut inst, LIGHT, "on", &no_args()).is_empty());
    assert_eq!(inst.scratch.queue, [GET.to_string(), Tapo::set(Params::Power(true))]);
    let calls = Tapo.on_bind(&mut inst);
    assert_eq!(sent(&calls).0, "http://10.0.0.4/app/handshake1");
    assert_eq!(inst.scratch.queue, [GET.to_string()]);
}

#[test]
fn an_account_has_nowhere_to_ask() {
    let mut account = dimmer();
    account.address = None;
    assert!(Tapo.on_bind(&mut account).is_empty());
    account.address = Some("  ".into());
    assert!(Tapo.on_bind(&mut account).is_empty());
    // Without an email it is a dimmer that nobody finished setting up.
    account.email = None;
    assert_eq!(
        warned(&Tapo.on_bind(&mut account)),
        ["tapo: set the Address on this dimmer first"]
    );
}

#[test]
fn a_dimmer_without_an_account_says_so() {
    for (email, password) in [(None, Some("x")), (Some("a"), None), (Some("  "), Some("x")), (Some("a"), Some(""))] {
        let mut inst = dimmer();
        inst.email = email.map(str::to_string);
        inst.password = password.map(str::to_string);
        assert_eq!(Tapo::auth(&inst), None);
        let calls = Tapo.on_command(&mut inst, LIGHT, "on", &no_args());
        assert_eq!(
            warned(&calls),
            ["tapo: set the Email and Password on this dimmer first — local control is checked \
              against the TP-Link account it was set up with"]
        );
        assert_eq!(calls.len(), 1);
        assert!(inst.scratch.queue.is_empty());
    }
    let mut inst = dimmer();
    inst.email = Some(format!("  {EMAIL}\n"));
    inst.address = Some(" 10.0.0.4 ".into());
    assert_eq!(Tapo::auth(&inst), Some(auth_hash(EMAIL, PASSWORD)));
    assert_eq!(Tapo::host(&inst).as_deref(), Some("10.0.0.4"));
}

#[test]
fn one_request_is_out_at_a_time() {
    let (mut inst, mut device) = connected(0);
    let calls = Tapo.on_command(&mut inst, LIGHT, "on", &no_args());
    assert_eq!(requests(&calls), 1);
    // Whatever else is asked for waits, once each, in order.
    for _ in 0..2 {
        assert!(Tapo.on_command(&mut inst, LIGHT, "off", &no_args()).is_empty());
        assert!(Tapo
            .on_command(&mut inst, LIGHT, "set_level", &CommandArgs { level: Some(300) })
            .is_empty());
    }
    assert_eq!(
        inst.scratch.queue,
        [Tapo::set(Params::Power(false)), Tapo::set(Params::Level(100))]
    );
    // The acknowledgement queues the read-back behind what was waiting, and sends the next.
    let framed = answer(&mut device, 1, br#"{"error_code":0}"#);
    let calls = Tapo.on_event(&mut inst, 0, "http_response", &replied(1, 200, framed));
    let (url, body) = sent(&calls);
    assert_eq!(url, "http://10.0.0.4/app/request?seq=2");
    assert_eq!(
        device.decrypt(2, &body).as_deref(),
        Some(Tapo::set(Params::Power(false)).as_bytes())
    );
    assert_eq!(inst.scratch.queue, [Tapo::set(Params::Level(100)), GET.to_string()]);
}

#[test]
fn a_write_is_the_json_it_is_meant_to_be() {
    assert_eq!(
        Tapo::set(Params::Power(true)),
        r#"{"method":"set_device_info","params":{"device_on":true},"requestTimeMils":0}"#
    );
    assert_eq!(
        Tapo::set(Params::Level(40)),
        r#"{"method":"set_device_info","params":{"brightness":40,"device_on":true},"requestTimeMils":0}"#
    );
    // The same document, and the same text, as a JSON writer gives.
    for params in [Params::Power(false), Params::Level(1), Params::Level(u64::MAX)] {
        let mut inner = serde_json::Map::new();
        match params {
            Params::Power(on) => {
                inner.insert("device_on".into(), Value::Bool(on));
            }
            Params::Level(level) => {
                inner.insert("device_on".into(), Value::Bool(true));
                inner.insert("brightness".into(), Value::from(level));
            }
        }
        let mut outer = serde_json::Map::new();
        outer.insert("method".into(), Value::from("set_device_info"));
        outer.insert("params".into(), Value::Object(inner));
        outer.insert("requestTimeMils".into(), Value::from(0));
        assert_eq!(Tapo::set(params), Value::Object(outer).to_string());
    }
    assert_eq!(GET, r#"{"method":"get_device_info","requestTimeMils":0}"#);
}

/// What a command writes, sent on a session that is up and idle.
fn written(cmd: &str, level: Option<u64>, on: Option<bool>) -> String {
    let (mut inst, device) = connected(5);
    inst.scratch.on = on;
    let calls = Tapo.on_command(&mut inst, LIGHT, cmd, &CommandArgs { level });
    let (_, body) = sent(&calls);
    String::from_utf8(device.decrypt(6, &body).unwrap()).unwrap()
}

#[test]
fn each_command_writes_what_it_says() {
    assert_eq!(written("on", None, None), Tapo::set(Params::Power(true)));
    assert_eq!(written("off", None, None), Tapo::set(Params::Power(false)));
    assert_eq!(written("set_level", Some(0), None), written("off", None, None));
    assert_eq!(written("set_level", Some(1), None), Tapo::set(Params::Level(1)));
    assert_eq!(written("set_level", Some(100), None), Tapo::set(Params::Level(100)));
    assert_eq!(written("set_level", Some(101), None), written("set_level", Some(100), None));
    assert_eq!(written("toggle", None, Some(true)), written("off", None, None));
    assert_eq!(written("toggle", None, Some(false)), written("on", None, None));
}

#[test]
fn a_command_that_cannot_be_done_says_so() {
    let (mut inst, _) = connected(5);
    for (cmd, expected) in [
        ("set_level", "tapo: set_level needs a level"),
        ("ramp_start", "tapo: this dimmer has no continuous ramp — use set_level"),
        ("ramp_stop", "tapo: this dimmer has no continuous ramp — use set_level"),
        ("explode", "tapo: unhandled `explode`"),
        ("", "tapo: unhandled ``"),
    ] {
        let calls = Tapo.on_command(&mut inst, LIGHT, cmd, &no_args());
        assert_eq!(warned(&calls), [expected]);
        assert_eq!(calls.len(), 1);
    }
    assert_eq!(inst.scratch.seq, Some(5));
    assert_eq!(
        Tapo.unsupported(),
        ["ramp_start/ramp_stop — the hardware has no continuous ramp"]
    );
}

#[test]
fn a_toggle_that_knows_nothing_asks_first() {
    let (mut inst, mut device) = connected(5);
    let calls = Tapo.on_command(&mut inst, LIGHT, "toggle", &no_args());
    let (_, body) = sent(&calls);
    assert_eq!(device.decrypt(6, &body).as_deref(), Some(GET.as_bytes()));
    let framed = answer(&mut device, 6, br#"{"error_code":0,"result":{"device_on":false}}"#);
    let calls = Tapo.on_event(&mut inst, 0, "http_response", &replied(6, 200, framed));
    assert_eq!(notified(&calls, "online_changed"), Some(Change::Online(true)));
    assert_eq!(notified(&calls, "power_changed"), Some(Change::Power(false)));
    let (_, body) = sent(&calls);
    assert_eq!(
        device.decrypt(7, &body).as_deref(),
        Some(Tapo::set(Params::Power(true)).as_bytes())
    );
    assert_eq!(inst.scratch.after_read, None);
}

#[test]
fn the_same_reply_twice_says_nothing_new() {
    let mut inst = dimmer();
    let reply = DeviceReply {
        error_code: None,
        device_on: Some(true),
        brightness: Some(250),
        nickname: None,
    };
    let calls = Tapo::apply(&mut inst, &reply, GET);
    assert_eq!(calls.len(), 3);
    assert_eq!(notified(&calls, "level_changed"), Some(Change::Level(100)));
    assert_eq!(inst.scratch.level, Some(100));
    let calls = Tapo::apply(&mut inst, &reply, GET);
    assert_eq!(calls.len(), 1);
    assert_eq!(notified(&calls, "online_changed"), Some(Change::Online(true)));
    assert_eq!(Change::Online(true).argument(), "online");
    assert_eq!(Change::Power(true).argument(), "on");
    assert_eq!(Change::Level(3).argument(), "level");
}

#[test]
fn a_refused_request_is_told_and_the_next_one_goes_out() {
    let (mut inst, mut device) = connected(5);
    Tapo.on_command(&mut inst, LIGHT, "on", &no_args());
    Tapo.on_command(&mut inst, LIGHT, "off", &no_args());
    let framed = answer(&mut device, 6, br#"{"error_code":-1501}"#);
    let calls = Tapo.on_event(&mut inst, 0, "http_response", &replied(6, 200, framed));
    assert_eq!(warned(&calls), ["tapo: the dimmer refused that (-1501)"]);
    let (url, _) = sent(&calls);
    assert_eq!(url, "http://10.0.0.4/app/request?seq=7");
    assert_eq!(inst.scratch.last, Some(Tapo::set(Params::Power(false))));
    assert!(inst.scratch.queue.is_empty());
}

#[test]
fn an_expired_session_starts_over_with_the_request_kept() {
    let (mut inst, mut device) = connected(5);
    Tapo.on_command(&mut inst, LIGHT, "off", &no_args());
    let framed = answer(&mut device, 6, br#"{"error_code":9999}"#);
    let calls = Tapo.on_event(&mut inst, 0, "http_response", &replied(6, 200, framed));
    assert_eq!(calls.len(), 1);
    let (url, seed) = sent(&calls);
    assert_eq!(url, "http://10.0.0.4/app/handshake1");
    assert_eq!(inst.scratch.local_seed, Some(tapo::codec::hex(&seed)));
    assert_eq!(inst.scratch.queue, [Tapo::set(Params::Power(false))]);
    assert_eq!(inst.scratch.cookie, None);
    assert_eq!(inst.scratch.ready, Some(false));
}

#[test]
fn a_reply_that_cannot_be_read_starts_over_with_the_request_kept() {
    let garbled = |seq: i32, bytes: Vec<u8>| {
        let (mut inst, _) = connected(5);
        Tapo.on_command(&mut inst, LIGHT, "off", &no_args());
        let calls = Tapo.on_event(&mut inst, 0, "http_response", &replied(seq, 200, bytes));
        assert_eq!(warned(&calls), ["tapo: could not read the reply; reconnecting"]);
        assert_eq!(sent(&calls).0, "http://10.0.0.4/app/handshake1");
        assert_eq!(inst.scratch.queue, [Tapo::set(Params::Power(false))]);
    };
    garbled(6, Vec::new());
    garbled(6, vec![7; 40]);
    // The right session at the wrong number: the padding validates and the JSON does not.
    let (_, mut device) = connected(5);
    let framed = answer(&mut device, 9, br#"{"error_code":0,"result":{"device_on":true}}"#);
    assert!(device.decrypt(6, &framed).is_some());
    garbled(6, framed);
}

#[test]
fn a_reply_with_no_session_gives_up() {
    let mut inst = dimmer();
    inst.scratch.queue = vec!["x".into()];
    let calls = Tapo.on_event(&mut inst, 0, "http_response", &replied(1, 200, vec![0; 64]));
    assert_eq!(warned(&calls), ["tapo: a reply arrived with no session to open it"]);
    assert!(inst.scratch.queue.is_empty());
}

#[test]
fn a_handshake_that_goes_wrong_gives_up() {
    let answer_to = |local_seed: Option<&str>, url: &str, status: u64| {
        let mut inst = dimmer();
        inst.scratch.local_seed = local_seed.map(str::to_string);
        inst.scratch.queue = vec![GET.into()];
        inst.scratch.inflight = Some(true);
        let args = EventArgs {
            url: Some(url.into()),
            status: Some(status),
            bytes: Vec::new(),
            headers: Vec::new(),
        };
        let calls = Tapo.on_event(&mut inst, 0, "http_response", &args);
        assert!(inst.scratch.queue.is_empty());
        assert_eq!(inst.scratch.inflight, Some(false));
        assert_eq!(calls.len(), 1);
        warned(&calls).remove(0)
    };
    let seed = "00".repeat(16);
    assert_eq!(
        answer_to(None, "/app/handshake1", 200),
        "tapo: no local seed to check the handshake against"
    );
    assert_eq!(
        answer_to(Some("xx"), "/app/handshake1", 200),
        "tapo: no local seed to check the handshake against"
    );
    assert_eq!(
        answer_to(Some("0011"), "/app/handshake1", 200),
        "tapo: the stored local seed is the wrong size"
    );
    assert_eq!(
        answer_to(Some(&seed), "/app/handshake1", 500),
        "tapo: the dimmer refused the handshake (500)"
    );
    // A status is sixteen bits.
    assert_eq!(
        answer_to(Some(&seed), "/app/handshake1", 65536 + 404),
        "tapo: the dimmer refused the handshake (404)"
    );
    assert_eq!(
        answer_to(Some(&seed), "/app/handshake1", 200),
        "tapo: the dimmer did not accept this TP-Link account — check the Email and Password, \
         which are the account's, not the Wi-Fi's"
    );
    assert_eq!(
        answer_to(Some(&seed), "/app/handshake2", 403),
        "tapo: the dimmer rejected the login (403)"
    );
}

#[test]
fn what_is_no_reply_is_ignored() {
    let (mut inst, _) = connected(5);
    let args = replied(5, 200, Vec::new());
    assert!(Tapo.on_event(&mut inst, 0, "something_else", &args).is_empty());
    let elsewhere = EventArgs { url: Some("http://10.0.0.4/".into()), ..answered("", 200, b"", false) };
    assert!(Tapo.on_event(&mut inst, 0, "http_response", &elsewhere).is_empty());
    let nowhere = EventArgs { url: None, status: None, bytes: Vec::new(), headers: Vec::new() };
    assert!(Tapo.on_event(&mut inst, 0, "http_response", &nowhere).is_empty());
    inst.address = None;
    assert!(Tapo.on_event(&mut inst, 0, "http_response", &args).is_empty());
    assert_eq!(inst.scratch.inflight, None);
    assert_eq!(inst.scratch.seq, Some(5));
}

#[test]
fn the_cookie_is_the_first_session_id_among_the_headers() {
    let headers = |pairs: &[(&str, &str)]| {
        pairs.iter().map(|(n, v)| (n.to_string(), v.to_string())).collect::<Vec<_>>()
    };
    let cookie = |pairs: &[(&str, &str)]| tapo::host::cookie_in(&headers(pairs));
    assert_eq!(cookie(&[]), None);
    assert_eq!(cookie(&[("content-length", "TP_SESSIONID=A")]), None);
    assert_eq!(
        cookie(&[("Set-Cookie", "OTHER=1"), ("SET-COOKIE", " TP_SESSIONID=B;C"), ("set-cookie", "TP_SESSIONID=D")])
            .as_deref(),
        Some("B")
    );
    assert_eq!(cookie(&[("set-cookie", "TP_SESSIONID=;x")]).as_deref(), Some(""));
}

#[test]
fn the_seed_that_comes_back_decides() {
    let auth = [8u8; 32];
    let args = answered("", 200, b"", true);
    let mut inst = dimmer();
    let calls = Tapo::on_remote(&mut inst, "h", &[1u8; 16], &auth, Some([2u8; 16]), &args);
    let (url, body) = sent(&calls);
    assert_eq!(url, "http://h/app/handshake2");
    assert_eq!(body, handshake2(&[1u8; 16], &[2u8; 16], &auth));
    assert_eq!(inst.scratch.cookie.as_deref(), Some("SID"));
    let session = Session::derive(&[1u8; 16], &[2u8; 16], &auth);
    assert_eq!(Tapo::session(&inst).unwrap().parts(), session.parts());
    assert_eq!(Tapo::session(&inst).unwrap().seq, session.seq);

    let calls = Tapo::on_remote(&mut inst, "h", &[1u8; 16], &auth, None, &args);
    assert_eq!(requests(&calls), 0);
    assert!(warned(&calls)[0].contains("TP-Link account"));
    assert_eq!(inst.scratch.cookie, None);
}

#[test]
fn without_random_numbers_no_handshake_starts() {
    let mut inst = dimmer();
    inst.scratch.queue = vec![GET.into()];
    let calls = Tapo::greet_with(&mut inst, "10.0.0.4", None);
    assert_eq!(warned(&calls), ["tapo: no random numbers to start a handshake with"]);
    assert_eq!(calls.len(), 1);
    assert_eq!(inst.scratch.local_seed, None);
    assert_eq!(inst.scratch.inflight, Some(false));
    assert!(inst.scratch.queue.is_empty());

    let calls = Tapo::greet_with(&mut inst, "10.0.0.4", Some([5u8; 16]));
    assert_eq!(sent(&calls), ("http://10.0.0.4/app/handshake1".to_string(), vec![5u8; 16]));
    assert_eq!(inst.scratch.local_seed, Some("05".repeat(16)));
}
