//! What a Tapo says about itself, read out of the JSON it says it in.

use vstd::prelude::*;
use crate::outside::{json_bool, json_from_slice, json_from_str, json_get, json_i64, json_member, json_of_bytes, json_of_text, json_text, json_tree, json_u64, lossy_text, text_lossy, Json};
use crate::text::{chars_of, position, position_of, string_of, text_option};

verus! {

// ---------------------------------------------------------------------------------------
// Replies to a request
// ---------------------------------------------------------------------------------------

/// The parts of a reply that this driver reads. Each is absent where the reply has no such
/// member, or has something else in its place.
#[derive(Debug)]
pub struct DeviceReply {
    pub error_code: Option<i64>,
    pub device_on: Option<bool>,
    pub brightness: Option<u64>,
    pub nickname: Option<String>,
}

/// What a reply says.
pub struct DeviceReplyView {
    pub error_code: Option<i64>,
    pub device_on: Option<bool>,
    pub brightness: Option<u64>,
    pub nickname: Option<Seq<char>>,
}

impl View for DeviceReply {
    type V = DeviceReplyView;

    open spec fn view(&self) -> DeviceReplyView {
        DeviceReplyView {
            error_code: self.error_code,
            device_on: self.device_on,
            brightness: self.brightness,
            nickname: text_option(self.nickname),
        }
    }
}

/// What the JSON document `tree` says: the error code beside the result, and the state and the
/// name inside it.
pub open spec fn reply_in(tree: Json) -> DeviceReplyView {
    let result = json_member(tree, "result"@);
    DeviceReplyView {
        error_code: match json_member(tree, "error_code"@) {
            Some(t) => json_i64(t),
            None => None,
        },
        device_on: match result {
            Some(t) => match json_member(t, "device_on"@) {
                Some(t) => json_bool(t),
                None => None,
            },
            None => None,
        },
        brightness: match result {
            Some(t) => match json_member(t, "brightness"@) {
                Some(t) => json_u64(t),
                None => None,
            },
            None => None,
        },
        nickname: match result {
            Some(t) => match json_member(t, "nickname"@) {
                Some(t) => json_text(t),
                None => None,
            },
            None => None,
        },
    }
}

/// The text of a JSON value, where it is a string.
fn string_in(value: Option<&serde_json::Value>) -> (r: Option<String>)
    ensures
        text_option(r) == match value {
            Some(v) => json_text(json_tree(*v)),
            None => None,
        },
{
    match value {
        Some(v) => match v.as_str() {
            Some(text) => Some(text.to_owned()),
            None => None,
        },
        None => None,
    }
}

/// What a parsed reply says.
pub fn device_reply(message: &serde_json::Value) -> (r: DeviceReply)
    ensures
        r@ == reply_in(json_tree(*message)),
{
    let error_code: Option<i64> = match json_get(message, "error_code") {
        Some(v) => v.as_i64(),
        None => None,
    };
    match json_get(message, "result") {
        Some(result) => {
            let device_on: Option<bool> = match json_get(result, "device_on") {
                Some(v) => v.as_bool(),
                None => None,
            };
            let brightness: Option<u64> = match json_get(result, "brightness") {
                Some(v) => v.as_u64(),
                None => None,
            };
            let nickname: Option<String> = string_in(json_get(result, "nickname"));
            DeviceReply { error_code, device_on, brightness, nickname }
        },
        None => DeviceReply { error_code, device_on: None, brightness: None, nickname: None },
    }
}

/// What the plain text of a reply says, where it is JSON.
pub open spec fn reply_of(plain: Seq<u8>) -> Option<DeviceReplyView> {
    match json_of_bytes(plain) {
        Some(tree) => Some(reply_in(tree)),
        None => None,
    }
}

/// What an optional reply says.
pub open spec fn reply_option(reply: Option<DeviceReply>) -> Option<DeviceReplyView> {
    match reply {
        Some(r) => Some(r@),
        None => None,
    }
}

/// What the plain text of a reply says, where it is JSON.
pub fn read_reply(plain: &[u8]) -> (r: Option<DeviceReply>)
    ensures
        reply_option(r) == reply_of(plain@),
{
    match json_from_slice(plain) {
        Some(message) => Some(device_reply(&message)),
        None => None,
    }
}

// ---------------------------------------------------------------------------------------
// Answers to the discovery broadcast
// ---------------------------------------------------------------------------------------

/// One device that answered the discovery broadcast: where it is, and the bytes it answered
/// with.
#[derive(Debug)]
pub struct UdpCandidate {
    pub address: String,
    pub reply: Vec<u8>,
}

/// What a candidate says.
pub struct UdpCandidateView {
    pub address: Seq<char>,
    pub reply: Seq<u8>,
}

impl View for UdpCandidate {
    type V = UdpCandidateView;

    open spec fn view(&self) -> UdpCandidateView {
        UdpCandidateView { address: self.address@, reply: self.reply@ }
    }
}

impl UdpCandidate {
    /// The same candidate again.
    pub fn copy(&self) -> (r: UdpCandidate)
        ensures
            r@ == self@,
    {
        UdpCandidate {
            address: self.address.clone(),
            reply: vstd::slice::slice_to_vec(self.reply.as_slice()),
        }
    }
}

/// What each of several candidates says.
pub open spec fn candidate_list(rows: Seq<UdpCandidate>) -> Seq<UdpCandidateView> {
    rows.map_values(|c: UdpCandidate| c@)
}

/// The parts of a broadcast reply that this driver reads.
#[derive(Debug)]
pub struct Broadcast {
    pub device_model: Option<String>,
    pub encrypt_type: Option<String>,
}

/// What a broadcast reply says.
pub struct BroadcastView {
    pub device_model: Option<Seq<char>>,
    pub encrypt_type: Option<Seq<char>>,
}

impl View for Broadcast {
    type V = BroadcastView;

    open spec fn view(&self) -> BroadcastView {
        BroadcastView {
            device_model: text_option(self.device_model),
            encrypt_type: text_option(self.encrypt_type),
        }
    }
}

/// What the `result` of a broadcast reply says.
pub open spec fn broadcast_in(result: Json) -> BroadcastView {
    BroadcastView {
        device_model: match json_member(result, "device_model"@) {
            Some(t) => json_text(t),
            None => None,
        },
        encrypt_type: match json_member(result, "mgt_encrypt_schm"@) {
            Some(t) => match json_member(t, "encrypt_type"@) {
                Some(t) => json_text(t),
                None => None,
            },
            None => None,
        },
    }
}

/// What the parsed `result` of a broadcast reply says.
pub fn broadcast(result: &serde_json::Value) -> (r: Broadcast)
    ensures
        r@ == broadcast_in(json_tree(*result)),
{
    let device_model: Option<String> = string_in(json_get(result, "device_model"));
    let encrypt_type: Option<String> = match json_get(result, "mgt_encrypt_schm") {
        Some(scheme) => string_in(json_get(scheme, "encrypt_type")),
        None => None,
    };
    Broadcast { device_model, encrypt_type }
}

/// `text` from its first brace on.
pub open spec fn from_brace(text: Seq<char>) -> Option<Seq<char>> {
    let brace = position(text, '{');
    if brace < text.len() {
        Some(text.skip(brace))
    } else {
        None
    }
}

/// `text` from its first brace on.
pub fn json_part(text: &str) -> (r: Option<String>)
    ensures
        text_option(r) == from_brace(text@),
{
    let chars: Vec<char> = chars_of(text);
    let brace: usize = position_of(chars.as_slice(), '{');
    if brace >= chars.len() {
        return None;
    }
    let rest: &[char] = vstd::slice::slice_subrange(chars.as_slice(), brace, chars.len());
    proof {
        assert(rest@ =~= chars@.skip(brace as int));
    }
    Some(string_of(rest))
}

/// What the bytes of a broadcast reply say.
///
/// TP-Link's reply is a header and then JSON, so the JSON is found rather than assumed to start
/// at some place: it starts at the first brace.
pub open spec fn broadcast_of(reply: Seq<u8>) -> Option<BroadcastView> {
    match from_brace(lossy_text(reply)) {
        Some(json) => match json_of_text(json) {
            Some(tree) => match json_member(tree, "result"@) {
                Some(result) => Some(broadcast_in(result)),
                None => None,
            },
            None => None,
        },
        None => None,
    }
}

/// What an optional broadcast reply says.
pub open spec fn broadcast_option(info: Option<Broadcast>) -> Option<BroadcastView> {
    match info {
        Some(i) => Some(i@),
        None => None,
    }
}

/// What the bytes of a broadcast reply say.
pub fn read_broadcast(reply: &[u8]) -> (r: Option<Broadcast>)
    ensures
        broadcast_option(r) == broadcast_of(reply@),
{
    let text: String = text_lossy(reply);
    match json_part(text.as_str()) {
        Some(json) => match json_from_str(json.as_str()) {
            Some(message) => match json_get(&message, "result") {
                Some(result) => Some(broadcast(result)),
                None => None,
            },
            None => None,
        },
        None => None,
    }
}

/// What the device at `address` said when it answered the discovery broadcast: the first
/// answer from there.
pub open spec fn broadcast_from(
    rows: Seq<UdpCandidateView>,
    address: Seq<char>,
) -> Option<BroadcastView>
    decreases rows.len(),
{
    if rows.len() == 0 {
        None
    } else if rows[0].address == address {
        broadcast_of(rows[0].reply)
    } else {
        broadcast_from(rows.drop_first(), address)
    }
}

/// What the device at `address` said when it answered the discovery broadcast.
pub fn from_broadcast(rows: &Vec<UdpCandidate>, address: &str) -> (r: Option<Broadcast>)
    ensures
        broadcast_option(r) == broadcast_from(candidate_list(rows@), address@),
{
    let ghost all = candidate_list(rows@);
    let mut i: usize = 0;
    proof {
        assert(all.skip(0) =~= all);
    }
    while i < rows.len()
        invariant
            all == candidate_list(rows@),
            i <= rows@.len(),
            broadcast_from(all, address@) == broadcast_from(all.skip(i as int), address@),
        decreases rows@.len() - i,
    {
        proof {
            assert(all.skip(i as int)[0] == rows@[i as int]@);
            assert(all.skip(i as int).drop_first() =~= all.skip(i + 1));
        }
        if *rows[i].address.as_str() == *address {
            return read_broadcast(rows[i].reply.as_slice());
        }
        i += 1;
    }
    None
}

/// What to call a device: what it called itself in its broadcast reply, or what all of them are.
pub open spec fn model_name(info: Option<BroadcastView>) -> Seq<char> {
    match info {
        Some(i) => match i.device_model {
            Some(model) => model,
            None => "Tapo dimmer"@,
        },
        None => "Tapo dimmer"@,
    }
}

/// What to call a device.
pub fn model_of(info: Option<Broadcast>) -> (r: String)
    ensures
        r@ == model_name(broadcast_option(info)),
{
    match info {
        Some(i) => match i.device_model {
            Some(model) => model,
            None => "Tapo dimmer".to_owned(),
        },
        None => "Tapo dimmer".to_owned(),
    }
}

/// Whether a device speaks this protocol, as far as its broadcast reply says. Unstated is not a
/// refusal: the handshake will settle it.
pub open spec fn may_speak_klap(info: Option<BroadcastView>) -> bool {
    match info {
        Some(i) => match i.encrypt_type {
            Some(scheme) => crate::text::same_letters(scheme, "KLAP"@),
            None => true,
        },
        None => true,
    }
}

/// Whether a device speaks this protocol, as far as its broadcast reply says.
pub fn speaks_klap(info: &Option<Broadcast>) -> (r: bool)
    ensures
        r == may_speak_klap(broadcast_option(*info)),
{
    match info {
        Some(i) => match &i.encrypt_type {
            Some(scheme) => {
                let chars: Vec<char> = chars_of(scheme.as_str());
                crate::text::same_but_case(chars.as_slice(), "KLAP")
            },
            None => true,
        },
        None => true,
    }
}

} // verus!
