//! Devices find each other on the local network. What they say there only hints at where a device
//! is; it never makes it trusted.

pub mod behaviour;
pub mod network;
pub mod packet;
pub mod peers;

use vstd::prelude::*;

verus! {

/// Where devices look for each other.
pub const DISCOVERY_PORT: u16 = 45_231;

/// Where a device listens for its first contact with another.
pub const PAIRING_PORT: u16 = 45_232;

/// Where a device serves those that it trusts.
pub const SERVICE_PORT: u16 = 45_233;

} // verus!
