//! Instance lifecycle: chaining instance creation through the next layer,
//! constructing this layer's per-instance state via an external factory, and
//! registering and destroying per-handle state.

use crate::chain::DispatchChain;
use crate::codes::LayerError;
use crate::registry::{remove_spec, Handle, HandleRegistry};
use vstd::prelude::*;

verus! {

/// The type tag of the instance handle category.
pub const INSTANCE_TYPE_TAG: u64 = 1;

/// A handle of the instance category.
#[derive(Clone, Copy, Debug, PartialEq, Eq, Structural)]
pub struct InstanceHandle(pub u64);

impl Handle for InstanceHandle {
    open spec fn raw_spec(&self) -> u64 {
        self.0
    }

    open spec fn tag_spec() -> u64 {
        INSTANCE_TYPE_TAG
    }

    fn from_raw(raw: u64) -> (h: Self) {
        InstanceHandle(raw)
    }

    fn into_raw(self) -> (r: u64) {
        self.0
    }

    fn tag() -> (t: u64) {
        INSTANCE_TYPE_TAG
    }
}

/// The creation-info record, mirrored as plain values: what this layer reads
/// from it is the application's name and the names of the extensions the
/// application enabled.
pub struct InstanceCreateInfo {
    pub application_name: Vec<u8>,
    pub enabled_extensions: Vec<Vec<u8>>,
}

/// The loader's layer-creation record: the link to the next layer's entry
/// points, absent when the record was malformed.
pub struct ApiLayerCreateInfo {
    pub next_info: Option<DispatchChain>,
}

/// The factory an embedding supplies: it builds this layer's private
/// per-instance state from the chain link (for delegated calls), the
/// creation-info record, and the newly created raw instance handle. The
/// factory decides success on its own; a well-behaved one reports its
/// failures as `InitializationFailed`.
pub trait APILayerInstanceData: Sized {
    fn create(chain: &DispatchChain, info: &InstanceCreateInfo, raw_instance: u64) -> Result<
        Self,
        LayerError,
    >;
}

/// What this layer stores per instance: the active-extension set established
/// at creation time (immutable thereafter), the captured dispatch-chain
/// link, and the factory's private data.
pub struct InstanceRecord<D> {
    pub extensions: Vec<Vec<u8>>,
    pub chain: Option<DispatchChain>,
    pub data: D,
}

/// The registry key an instance handle value is stored under.
pub open spec fn instance_key(h: u64) -> (u64, u64) {
    (h, INSTANCE_TYPE_TAG)
}

/// The first step of chained instance creation: checks that the
/// creation-info, loader-info, and output-handle pointers are all present
/// and that the loader supplied a next-layer link; any absence is a
/// `ValidationFailure`. On success hands back the chain link, so the caller
/// can invoke the next layer's creation function before anything else.
pub fn begin_create_api_layer_instance(
    info: Option<&InstanceCreateInfo>,
    layer_info: Option<&ApiLayerCreateInfo>,
    out_instance_present: bool,
) -> (r: Result<DispatchChain, LayerError>)
    ensures
        r is Ok <==> (info is Some && layer_info is Some && out_instance_present
            && layer_info.unwrap().next_info is Some),
        r matches Ok(c) ==> c == layer_info.unwrap().next_info.unwrap(),
        r matches Err(e) ==> e == LayerError::ValidationFailure,
{
    match layer_info {
        Some(li) if info.is_some() && out_instance_present => match li.next_info {
            Some(c) => Ok(c),
            None => Err(LayerError::ValidationFailure),
        },
        _ => Err(LayerError::ValidationFailure),
    }
}

/// Registers freshly built per-instance state under the raw handle the
/// downstream creation minted: the instance's registry entry holds the
/// enabled extensions, the captured chain link, and the factory's data.
pub fn register_instance<D>(
    reg: &mut HandleRegistry<InstanceRecord<D>>,
    extensions: Vec<Vec<u8>>,
    chain: DispatchChain,
    raw_instance: u64,
    data: D,
)
    requires
        old(reg).wf(),
    ensures
        final(reg).wf(),
        final(reg).next_handle() == old(reg).next_handle(),
        final(reg)@ == old(reg)@.insert(
            (raw_instance, INSTANCE_TYPE_TAG),
            (InstanceRecord { extensions, chain: Some(chain), data }),
        ),
{
    reg.attach(
        raw_instance,
        INSTANCE_TYPE_TAG,
        InstanceRecord { extensions, chain: Some(chain), data },
    );
}

/// The second step of chained instance creation, entered after the next
/// layer's creation function has run and answered `downstream`.
///
/// If the downstream creation failed, that first error is propagated and no
/// registry entry is made for any handle. Otherwise the external factory
/// builds this layer's private state; if it declines, its error is
/// propagated and — as the protocol's documented partial-failure mode — the
/// downstream handle stays live with no registry entry in this layer. On
/// factory success the new state is attached under the downstream handle.
pub fn complete_create_api_layer_instance<D: APILayerInstanceData>(
    reg: &mut HandleRegistry<InstanceRecord<D>>,
    info: InstanceCreateInfo,
    chain: DispatchChain,
    downstream: Result<u64, LayerError>,
) -> (r: Result<u64, LayerError>)
    requires
        old(reg).wf(),
    ensures
        final(reg).wf(),
        final(reg).next_handle() == old(reg).next_handle(),
        downstream matches Err(e) ==> (r == Err::<u64, LayerError>(e) && final(reg)@ == old(reg)@),
        downstream is Ok && r is Err ==> final(reg)@ == old(reg)@,
        downstream matches Ok(h) ==> r is Err || (r == Ok::<u64, LayerError>(h)
            && final(reg)@.contains_key(instance_key(h))
            && final(reg)@[instance_key(h)].extensions == info.enabled_extensions
            && final(reg)@[instance_key(h)].chain == Some(chain)
            && final(reg)@ == old(reg)@.insert(instance_key(h), final(reg)@[instance_key(h)])),
{
    let raw = match downstream {
        Ok(h) => h,
        Err(e) => {
            return Err(e);
        },
    };
    let data = match D::create(&chain, &info, raw) {
        Ok(d) => d,
        Err(e) => {
            return Err(e);
        },
    };
    let InstanceCreateInfo { enabled_extensions, .. } = info;
    register_instance(reg, enabled_extensions, chain, raw, data);
    Ok(raw)
}

/// The one-argument destroy operation of a handle category: validates the
/// handle, removes its registry entry, and reports `HandleInvalid` if none
/// was present. Forwarding teardown to the wrapped runtime is the
/// collaborator's responsibility, invoked independently of this removal.
pub fn destroy_handle<H: Handle, D>(reg: &mut HandleRegistry<D>, h: H) -> (r: Result<
    (),
    LayerError,
>)
    requires
        old(reg).wf(),
    ensures
        final(reg).wf(),
        final(reg).next_handle() == old(reg).next_handle(),
        match remove_spec(old(reg)@, h.raw_spec(), H::tag_spec()) {
            Ok(_) => r is Ok && final(reg)@ == old(reg)@.remove((h.raw_spec(), H::tag_spec())),
            Err(e) => r matches Err(e2) && e2 == e && *final(reg) == *old(reg),
        },
{
    match h.remove_data(reg) {
        Ok(_) => Ok(()),
        Err(e) => Err(e),
    }
}

} // verus!
