//! What a driver asks of the controller that runs it: a line in the log, a request to a device,
//! a notification that something changed.

use vstd::prelude::*;
use crate::text::joined;

verus! {

/// The number by which a driver and the controller name one of the driver's proxies.
pub type LocalId = u32;

/// The characters of each of several pairs of strings.
pub open spec fn pair_list(pairs: Seq<(String, String)>) -> Seq<(Seq<char>, Seq<char>)> {
    pairs.map_values(|p: (String, String)| (p.0@, p.1@))
}

/// One request over HTTP, with a body of raw bytes.
#[derive(Debug)]
pub struct HttpRequest {
    pub method: String,
    pub url: String,
    pub headers: Vec<(String, String)>,
    pub body_bytes: Vec<u8>,
}

/// What a request says.
pub struct RequestView {
    pub method: Seq<char>,
    pub url: Seq<char>,
    pub headers: Seq<(Seq<char>, Seq<char>)>,
    pub body_bytes: Seq<u8>,
}

impl View for HttpRequest {
    type V = RequestView;

    open spec fn view(&self) -> RequestView {
        RequestView {
            method: self.method@,
            url: self.url@,
            headers: pair_list(self.headers@),
            body_bytes: self.body_bytes@,
        }
    }
}

/// One POST of `body` to `path` on `host`, with the session cookie if there is one yet.
///
/// Header names are case-insensitive in HTTP, but current firmware rejects the lowercase
/// spelling of this one as a malformed request.
pub open spec fn posted(
    host: Seq<char>,
    path: Seq<char>,
    cookie: Option<Seq<char>>,
    body: Seq<u8>,
) -> RequestView {
    RequestView {
        method: "POST"@,
        url: "http://"@ + host + path,
        headers: match cookie {
            Some(id) => seq![("Cookie"@, "TP_SESSIONID="@ + id)],
            None => Seq::empty(),
        },
        body_bytes: body,
    }
}

impl HttpRequest {
    /// One POST of `body` to `path` on `host`, with the session cookie if there is one yet.
    pub fn post(host: &str, path: &str, cookie: Option<&str>, body: Vec<u8>) -> (r: HttpRequest)
        ensures
            r@ == posted(
                host@,
                path@,
                match cookie {
                    Some(id) => Some(id@),
                    None => None,
                },
                body@,
            ),
    {
        let mut url: String = "http://".to_owned();
        url.append(host);
        url.append(path);
        let mut headers: Vec<(String, String)> = Vec::new();
        if let Some(id) = cookie {
            headers.push(("Cookie".to_owned(), joined("TP_SESSIONID=", id)));
            proof {
                assert(pair_list(headers@) =~= seq![("Cookie"@, "TP_SESSIONID="@ + id@)]);
            }
        } else {
            proof {
                assert(pair_list(headers@) =~= Seq::empty());
            }
        }
        HttpRequest { method: "POST".to_owned(), url, headers, body_bytes: body }
    }
}

/// Something that a light tells the controller.
#[derive(Clone, Copy, Debug, PartialEq, Eq, Structural)]
pub enum Change {
    /// The device can be reached.
    Online(bool),
    /// The light is on or off.
    Power(bool),
    /// The brightness, from one to a hundred.
    Level(u64),
}

/// The name under which the controller knows a change.
pub open spec fn change_name(change: Change) -> Seq<char> {
    match change {
        Change::Online(_) => "online_changed"@,
        Change::Power(_) => "power_changed"@,
        Change::Level(_) => "level_changed"@,
    }
}

/// The name of the one argument that a change carries.
pub open spec fn change_argument(change: Change) -> Seq<char> {
    match change {
        Change::Online(_) => "online"@,
        Change::Power(_) => "on"@,
        Change::Level(_) => "level"@,
    }
}

impl Change {
    /// The name under which the controller knows this change.
    pub fn name(&self) -> (r: &'static str)
        ensures
            r@ == change_name(*self),
    {
        match self {
            Change::Online(_) => "online_changed",
            Change::Power(_) => "power_changed",
            Change::Level(_) => "level_changed",
        }
    }

    /// The name of the one argument that this change carries.
    pub fn argument(&self) -> (r: &'static str)
        ensures
            r@ == change_argument(*self),
    {
        match self {
            Change::Online(_) => "online",
            Change::Power(_) => "on",
            Change::Level(_) => "level",
        }
    }
}

/// One thing for the controller to do.
#[derive(Debug)]
pub enum HostCall {
    Log { level: String, msg: String },
    Http(HttpRequest),
    Notify { proxy: LocalId, change: Change },
}

/// What a call asks for.
pub enum Call {
    Log { level: Seq<char>, msg: Seq<char> },
    Http(RequestView),
    Notify { proxy: LocalId, change: Change },
}

impl View for HostCall {
    type V = Call;

    open spec fn view(&self) -> Call {
        match *self {
            HostCall::Log { level, msg } => Call::Log { level: level@, msg: msg@ },
            HostCall::Http(request) => Call::Http(request@),
            HostCall::Notify { proxy, change } => Call::Notify { proxy, change },
        }
    }
}

/// What each of several calls asks for.
pub open spec fn call_list(calls: Seq<HostCall>) -> Seq<Call> {
    calls.map_values(|c: HostCall| c@)
}

/// A warning in the log.
pub open spec fn warning(msg: Seq<char>) -> Call {
    Call::Log { level: "warn"@, msg }
}

impl HostCall {
    /// A warning in the log.
    pub fn warn(msg: String) -> (r: HostCall)
        ensures
            r@ == warning(msg@),
    {
        HostCall::Log { level: "warn".to_owned(), msg }
    }
}

/// No calls at all.
pub fn no_calls() -> (r: Vec<HostCall>)
    ensures
        call_list(r@) == Seq::<Call>::empty(),
{
    let r: Vec<HostCall> = Vec::new();
    proof {
        assert(call_list(r@) =~= Seq::<Call>::empty());
    }
    r
}

/// One call and nothing else.
pub fn one_call(call: HostCall) -> (r: Vec<HostCall>)
    ensures
        call_list(r@) == seq![call@],
{
    let mut r: Vec<HostCall> = Vec::new();
    r.push(call);
    proof {
        assert(call_list(r@) =~= seq![call@]);
    }
    r
}

/// `calls` with one more behind them.
pub fn add_call(calls: &mut Vec<HostCall>, call: HostCall)
    ensures
        call_list(final(calls)@) == call_list(old(calls)@).push(call@),
{
    calls.push(call);
    proof {
        assert(call_list(calls@) =~= call_list(old(calls)@).push(call@));
    }
}

/// `calls` with `more` behind them.
pub fn add_calls(calls: &mut Vec<HostCall>, more: Vec<HostCall>)
    ensures
        call_list(final(calls)@) == call_list(old(calls)@) + call_list(more@),
{
    let mut more: Vec<HostCall> = more;
    let ghost ms = more@;
    calls.append(&mut more);
    proof {
        assert(call_list(calls@) =~= call_list(old(calls)@) + call_list(ms));
    }
}

// ---------------------------------------------------------------------------------------
// The session cookie
// ---------------------------------------------------------------------------------------

/// The session id in a list of response headers: the first `Set-Cookie` that holds one.
pub open spec fn cookie_among(headers: Seq<(Seq<char>, Seq<char>)>) -> Option<Seq<char>>
    decreases headers.len(),
{
    if headers.len() == 0 {
        None
    } else {
        match cookie_of(headers[0]) {
            Some(id) => Some(id),
            None => cookie_among(headers.drop_first()),
        }
    }
}

/// The session id in one response header.
pub open spec fn cookie_of(header: (Seq<char>, Seq<char>)) -> Option<Seq<char>> {
    if crate::text::same_letters(header.0, "set-cookie"@) {
        crate::http::session_id(crate::text::trimmed(header.1))
    } else {
        None
    }
}

/// `TP_SESSIONID` out of a response's headers, which is where a Tapo issues it.
pub fn cookie_in(headers: &Vec<(String, String)>) -> (r: Option<String>)
    ensures
        crate::text::text_option(r) == cookie_among(pair_list(headers@)),
{
    let ghost all = pair_list(headers@);
    let mut i: usize = 0;
    proof {
        assert(all.skip(0) =~= all);
    }
    while i < headers.len()
        invariant
            all == pair_list(headers@),
            i <= headers@.len(),
            cookie_among(all) == cookie_among(all.skip(i as int)),
        decreases headers@.len() - i,
    {
        let name: Vec<char> = crate::text::chars_of(headers[i].0.as_str());
        proof {
            assert(all.skip(i as int)[0] == (headers@[i as int].0@, headers@[i as int].1@));
            assert(all.skip(i as int).drop_first() =~= all.skip(i + 1));
        }
        if crate::text::same_but_case(name.as_slice(), "set-cookie") {
            let value: Vec<char> = crate::text::chars_of(headers[i].1.as_str());
            let id: Option<String> = crate::http::read_session_id(
                crate::text::trim_slice(value.as_slice()),
            );
            if id.is_some() {
                return id;
            }
        }
        i += 1;
    }
    None
}

} // verus!
