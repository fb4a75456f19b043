//! The authenticated transfer protocol: its frames, offers, server rules and client side.

pub mod behaviour;
pub mod client;
pub mod dispatch;
pub mod laws;
pub mod manifest;
pub mod model;
pub mod offer;
pub mod protocol;
pub mod remote;
pub mod server;
pub mod wire;
