//! The dimmer itself: what to send, what a reply means, and what is kept in between.
//!
//! # Every exchange is several round trips, and a driver cannot wait
//!
//! A driver returns [`HostCall`](crate::host::HostCall)s and is called again when something arrives; it has no way to
//! block on a reply. So "turn this light on" is not one call. It is a handshake, a second
//! handshake, the command, and a read-back, each one landing in [`Tapo::on_event`](types::Tapo::on_event) with the next
//! step to take. That state lives in [`Scratch`](types::Scratch).
//!
//! Which reply is which is read off the **URL the controller echoes back**, not off a phase this
//! driver remembers. A phase says what this driver last *expected*; an answer that arrives after
//! a restart, out of order, or late says what actually happened.
//!
//! - **One request in flight.** The sequence number is both the last four bytes of the AES IV
//!   and a query parameter, so two requests sent before the first reply lands would leave every
//!   reply after them decrypting against the wrong number. Anything asked for while one is out
//!   waits in the queue.
//! - **A command reads back rather than assuming.** A write is acknowledged and nothing else, so
//!   the state that is reported comes from a read that follows it, not from what was asked for.
//!
//! # Nothing is pushed, so the poll is not optional
//!
//! A Tapo sends nothing unsolicited: turn it up at the wall and it tells nobody. Binding again is
//! what makes the house eventually agree with the switch, and it is also what recovers a stalled
//! exchange.
//!
//! A handshake draws a seed at random, and the draw can fail. So what a call comes to is stated as
//! a function of the draw, and of the functions that may make one it is stated that the outcome is
//! that of some draw: of sixteen bytes, or of none.

pub mod driver;
pub mod steps;
pub mod types;
