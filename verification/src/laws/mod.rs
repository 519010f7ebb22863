//! What holds of the driver as a whole, whatever it is asked and whatever it is answered.

pub mod adding;
pub mod commands;
pub mod notation;
pub mod protocol;
pub mod runtime;
pub mod setup;
pub mod wire;
