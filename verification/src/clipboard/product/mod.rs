//! What the application does with the clipboard: it tells the paired device of copied files, and
//! offers what that device tells of.

pub mod announce;
pub mod behaviour;
pub mod progress;
pub mod session;
pub mod summary;
