//! Setup, for both kinds of device: the account, and the dimmers behind it.
//!
//! # Why there are two
//!
//! The credentials a Tapo checks are a TP-Link **account**, not a per-device secret. A house with
//! eight dimmers has one of them, and holding a copy on each device means eight places to edit
//! when it changes and one that gets missed. So the account is its own device, `tapo.account`,
//! and every dimmer inherits from it.
//!
//! That makes this three flows in one:
//!
//! - **`tapo.account`, fresh**: ask for the account, once.
//! - **`tapo.account`, browsing**: the saved credentials are at hand, so this logs in to
//!   everything that answered the discovery broadcast and returns them all as dimmers, with the
//!   names somebody gave them in the Tapo app. Nothing is typed.
//! - **`tapo.dimmer`, on its own**: one address, and no credentials asked for at all.
//!
//! As with [`crate::dimmer`], a step that greets a device draws a seed, and what it comes to is
//! stated as a function of that draw.

pub mod flow;
pub mod steps;
pub mod types;
