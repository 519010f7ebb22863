//! TP-Link Tapo dimmer switches (S500D and the rest of the S5xxD line), driven locally over KLAP,
//! the protocol the switch speaks on port 80 to whatever is on the same network. Nothing here
//! reaches TP-Link's cloud, and the switch does not need to either.
//!
//! ```text
//!   POST /app/handshake1        seeds are exchanged and both sides prove the account
//!   POST /app/handshake2
//!   POST /app/request?seq=N     {"method":"get_device_info"}
//!                               {"method":"set_device_info","params":{"brightness":40}}
//! ```
//!
//! - [`klap`] is the handshake and the session, [`http`] the framing for a raw connection;
//! - [`dimmer`] is what happens to a device that was adopted, [`setup`] how one comes to be;
//! - [`reading`] is what a device says about itself, [`host`] what the controller is asked to do;
//! - [`codec`], [`text`] and [`bytes`] are the small change;
//! - [`laws`] is what holds of all of it, and [`outside`] what it is taken on trust from.

pub mod bytes;
pub mod codec;
pub mod dimmer;
pub mod host;
pub mod http;
pub mod klap;
pub mod laws;
pub mod outside;
pub mod reading;
pub mod setup;
pub mod text;
