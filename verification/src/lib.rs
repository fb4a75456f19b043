//! Clipboard file transfer between paired devices on a private network.

pub mod address;
pub mod app_settings;
pub mod behaviour;
pub mod bytes;
pub mod clipboard;
pub mod counter;
pub mod device_store;
pub mod discovery;
pub mod failure;
pub mod pairing;
pub mod random;
pub mod security;
pub mod text;
pub mod tls;
pub mod transfer_window;
pub mod tray;

use vstd::prelude::*;

verus! {

/// Name under which the application presents itself.
pub const APP_NAME: &'static str = "ClipFerry";

/// What the application says of itself first: its name, and what this build of it is for.
pub fn validation_banner() -> (banner: &'static str)
    ensures
        banner@ == "ClipFerry technical validation"@,
        APP_NAME@ == banner@.take(APP_NAME@.len() as int),
{
    proof {
        reveal_strlit("ClipFerry");
        reveal_strlit("ClipFerry technical validation");
        assert(APP_NAME@ =~= "ClipFerry technical validation"@.take(9));
    }
    "ClipFerry technical validation"
}

} // verus!
