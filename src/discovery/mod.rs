//! Finding peer instances on the local network without a coordinator.

pub mod cache;
pub mod protocol;
pub mod types;
