//! Clipboard synchronisation across devices: peer discovery, the sync
//! engine's decisions, the encryption envelope, and the server's history
//! store with long polling.

pub mod clipboard;
pub mod config;
pub mod crypto;
pub mod discovery;
pub mod mobile;
pub mod server;
pub mod store;
pub mod sync;
pub mod tracker;
pub mod wire;

use vstd::prelude::*;

verus! {

/// A greeting used by the mobile bindings to check that the library loads.
pub fn hello() -> (r: String)
    ensures
        r@ == "Hello from core"@,
{
    "Hello from core".to_owned()
}

} // verus!
