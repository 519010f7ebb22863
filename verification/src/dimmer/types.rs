//! What a dimmer is given, and what it carries from one call to the next.

use vstd::prelude::*;
use crate::host::{pair_list, LocalId};
use crate::text::{text_list, text_option};

verus! {

/// The driver for TP-Link Tapo dimmer switches.
#[derive(Default)]
pub struct Tapo;

/// The one proxy of a dimmer: its light.
pub const LIGHT: LocalId = 1;

/// The request that asks a dimmer where it stands.
pub const GET: &'static str = "{\"method\":\"get_device_info\",\"requestTimeMils\":0}";

pub const HANDSHAKE1: &'static str = "/app/handshake1";

pub const HANDSHAKE2: &'static str = "/app/handshake2";

pub const REQUEST: &'static str = "/app/request";

// ---------------------------------------------------------------------------------------
// What is kept between calls
// ---------------------------------------------------------------------------------------

/// What a dimmer carries from one call to the next.
#[derive(Debug)]
pub struct Scratch {
    /// The session is up and requests can go out.
    pub ready: Option<bool>,
    pub local_seed: Option<String>,
    pub cookie: Option<String>,
    pub key: Option<String>,
    pub iv: Option<String>,
    pub sig: Option<String>,
    pub seq: Option<i64>,
    /// Requests waiting for the session, in order.
    pub queue: Vec<String>,
    /// Whether a request is out.
    pub inflight: Option<bool>,
    /// The request that is out, so that a session the switch has forgotten can be retried rather
    /// than lost. A dropped `off` is a light left on.
    pub last: Option<String>,
    /// The last brightness and power that the switch reported, for `toggle` and for not saying
    /// the same thing twice.
    pub level: Option<u64>,
    pub on: Option<bool>,
    /// A `toggle` that arrived before anything knew which way to go. Cleared by the read it is
    /// waiting for.
    pub after_read: Option<String>,
}

/// What a scratch holds.
pub struct ScratchView {
    pub ready: Option<bool>,
    pub local_seed: Option<Seq<char>>,
    pub cookie: Option<Seq<char>>,
    pub key: Option<Seq<char>>,
    pub iv: Option<Seq<char>>,
    pub sig: Option<Seq<char>>,
    pub seq: Option<i64>,
    pub queue: Seq<Seq<char>>,
    pub inflight: Option<bool>,
    pub last: Option<Seq<char>>,
    pub level: Option<u64>,
    pub on: Option<bool>,
    pub after_read: Option<Seq<char>>,
}

impl View for Scratch {
    type V = ScratchView;

    open spec fn view(&self) -> ScratchView {
        ScratchView {
            ready: self.ready,
            local_seed: text_option(self.local_seed),
            cookie: text_option(self.cookie),
            key: text_option(self.key),
            iv: text_option(self.iv),
            sig: text_option(self.sig),
            seq: self.seq,
            queue: text_list(self.queue@),
            inflight: self.inflight,
            last: text_option(self.last),
            level: self.level,
            on: self.on,
            after_read: text_option(self.after_read),
        }
    }
}

/// A scratch that nothing was written to.
pub open spec fn blank() -> ScratchView {
    ScratchView {
        ready: None,
        local_seed: None,
        cookie: None,
        key: None,
        iv: None,
        sig: None,
        seq: None,
        queue: Seq::empty(),
        inflight: None,
        last: None,
        level: None,
        on: None,
        after_read: None,
    }
}

impl Default for Scratch {
    fn default() -> (r: Scratch)
        ensures
            r@ == blank(),
    {
        let r: Scratch = Scratch {
            ready: None,
            local_seed: None,
            cookie: None,
            key: None,
            iv: None,
            sig: None,
            seq: None,
            queue: Vec::new(),
            inflight: None,
            last: None,
            level: None,
            on: None,
            after_read: None,
        };
        proof {
            assert(r@.queue =~= blank().queue);
        }
        r
    }
}

/// One adopted device: the properties that somebody set on it, and what it carries.
#[derive(Debug)]
pub struct Instance {
    pub address: Option<String>,
    pub email: Option<String>,
    pub password: Option<String>,
    pub scratch: Scratch,
}

/// What an instance holds.
pub struct InstanceView {
    pub address: Option<Seq<char>>,
    pub email: Option<Seq<char>>,
    pub password: Option<Seq<char>>,
    pub scratch: ScratchView,
}

impl View for Instance {
    type V = InstanceView;

    open spec fn view(&self) -> InstanceView {
        InstanceView {
            address: text_option(self.address),
            email: text_option(self.email),
            password: text_option(self.password),
            scratch: self.scratch@,
        }
    }
}

/// The arguments of a command.
#[derive(Debug)]
pub struct CommandArgs {
    /// The brightness to go to, where the command came with one.
    pub level: Option<u64>,
}

/// The arguments of an event: the reply that came back, and the URL of what it answers.
#[derive(Debug)]
pub struct EventArgs {
    pub url: Option<String>,
    pub status: Option<u64>,
    pub bytes: Vec<u8>,
    pub headers: Vec<(String, String)>,
}

/// What an event says.
pub struct EventView {
    pub url: Option<Seq<char>>,
    pub status: Option<u64>,
    pub bytes: Seq<u8>,
    pub headers: Seq<(Seq<char>, Seq<char>)>,
}

impl View for EventArgs {
    type V = EventView;

    open spec fn view(&self) -> EventView {
        EventView {
            url: text_option(self.url),
            status: self.status,
            bytes: self.bytes@,
            headers: pair_list(self.headers@),
        }
    }
}

/// What to write to a dimmer.
#[derive(Clone, Copy, Debug, PartialEq, Eq, Structural)]
pub enum Params {
    /// On or off, at whatever brightness it is.
    Power(bool),
    /// On, at this brightness.
    Level(u64),
}

} // verus!
