//! Files of this device: which of them may be offered, and how they are read without mixing two
//! versions of one.

pub mod behaviour;
pub mod capture;
pub mod offer;
pub mod snapshot;
pub mod stable;
