//! The dispatch chain: opaque references to the next layer's entry points,
//! captured once at instance-creation time and shared read-only thereafter.

use vstd::prelude::*;

verus! {

/// An opaque callable reference, as exchanged with the loader and the next
/// layer across the ABI.
///
/// The resolution protocol guarantees only that the name behind such a
/// reference was recognized and authorized for the queried instance; it does
/// not check call-signature compatibility. That gap is a deliberate property
/// of the wrapped domain's name-resolution protocol, not an accident, and is
/// why the reference stays opaque here.
#[derive(Clone, Copy, Debug, PartialEq, Eq, Structural)]
pub struct FnRef(pub u64);

/// One dispatch-chain link: the next layer's name-resolution entry point
/// and its chained instance-creation entry point.
///
/// A link is captured once at instance-creation time, stored alongside the
/// instance's registry entry — never globally — and shared read-only for the
/// instance's lifetime.
#[derive(Clone, Copy, Debug, PartialEq, Eq, Structural)]
pub struct DispatchChain {
    pub next_get_instance_proc_addr: FnRef,
    pub next_create_api_layer_instance: FnRef,
}

} // verus!
