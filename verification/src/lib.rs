//! Core of an API-layer shim for a C-ABI graphics/XR runtime: a registry that
//! attaches per-object state to opaque integer handles, the loader negotiation
//! handshake, instance lifecycle chaining, and name-based call resolution.

pub mod chain;
pub mod codes;
pub mod instance;
pub mod negotiate;
pub mod registry;
pub mod resolver;
pub mod util;

use vstd::prelude::*;

verus! {

} // verus!
