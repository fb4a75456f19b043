//! Ranges of generated content over a connection of the device to itself.

pub mod behaviour;
pub mod client;
pub mod server;
pub mod wire;
