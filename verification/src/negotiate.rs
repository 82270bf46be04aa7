//! The loader negotiation handshake: the single entry point the loader
//! invokes once, before any instance exists. It validates the request
//! record's structural fields and the offered API version window, and on
//! success writes back this layer's chosen versions and entry points.

use crate::chain::FnRef;
use crate::codes::LayerError;
use vstd::prelude::*;

verus! {

/// Type discriminator the wrapped domain assigns to a layer negotiation
/// request record.
pub const NEGOTIATE_STRUCT_TYPE: i32 = 2;

/// Structural version expected of a negotiation request record.
pub const NEGOTIATE_STRUCT_VERSION: u32 = 1;

/// Byte size of the C-ABI negotiation request record on a 64-bit host.
pub const NEGOTIATE_STRUCT_SIZE: u64 = 48;

/// The loader's negotiation request record, mirrored as plain values: three
/// structural fields to validate, the loader-offered API version window, and
/// output fields for the chosen versions and the two entry-point slots.
#[derive(Clone, Debug)]
pub struct NegotiationRequest {
    pub struct_type: i32,
    pub struct_version: u32,
    pub struct_size: u64,
    pub min_api_version: u64,
    pub max_api_version: u64,
    pub layer_interface_version: u32,
    pub layer_api_version: u64,
    pub get_instance_proc_addr: Option<FnRef>,
    pub create_api_layer_instance: Option<FnRef>,
}

/// What this layer supports and advertises: its single supported API
/// version, its loader-interface version, and its two entry points.
#[derive(Clone, Copy, Debug)]
pub struct LayerCapabilities {
    pub api_version: u64,
    pub interface_version: u32,
    pub get_instance_proc_addr: FnRef,
    pub create_api_layer_instance: FnRef,
}

/// Whether the request record's type discriminator, structural version, or
/// byte size disagrees with the expected values. Each of the three fields is
/// checked on its own; corrupting any subset of them is diagnosed.
pub open spec fn structural_mismatch(req: NegotiationRequest) -> bool {
    req.struct_type != NEGOTIATE_STRUCT_TYPE || req.struct_version != NEGOTIATE_STRUCT_VERSION
        || req.struct_size != NEGOTIATE_STRUCT_SIZE
}

/// Whether this layer's single supported API version falls outside the
/// loader-offered `[min, max]` window.
pub open spec fn version_outside_window(layer: LayerCapabilities, req: NegotiationRequest) -> bool {
    layer.api_version < req.min_api_version || layer.api_version > req.max_api_version
}

/// The handshake outcome on `req`: the record with this layer's choices
/// written back, or `InitializationFailed`.
pub open spec fn negotiate_spec(layer: LayerCapabilities, req: NegotiationRequest) -> Result<
    NegotiationRequest,
    LayerError,
> {
    if structural_mismatch(req) || version_outside_window(layer, req) {
        Err(LayerError::InitializationFailed)
    } else {
        Ok(
            (NegotiationRequest {
                layer_interface_version: layer.interface_version,
                layer_api_version: layer.api_version,
                get_instance_proc_addr: Some(layer.get_instance_proc_addr),
                create_api_layer_instance: Some(layer.create_api_layer_instance),
                ..req
            }),
        )
    }
}

/// Validates the loader's request record and, on success, writes back this
/// layer's chosen interface/API versions and the addresses of its
/// name-resolution and chained instance-creation entry points. Any mismatch
/// of the three structural fields, or a version window that excludes this
/// layer's supported API version, yields `InitializationFailed` and leaves
/// the record untouched. No other side effects; retrying with the same valid
/// inputs is idempotent.
pub fn negotiate_loader_api_layer_interface(
    layer: &LayerCapabilities,
    req: &mut NegotiationRequest,
) -> (r: Result<(), LayerError>)
    ensures
        match negotiate_spec(*layer, *old(req)) {
            Ok(written) => r is Ok && *final(req) == written,
            Err(e) => r matches Err(e2) && e2 == e && *final(req) == *old(req),
        },
{
    if req.struct_type != NEGOTIATE_STRUCT_TYPE {
        return Err(LayerError::InitializationFailed);
    }
    if req.struct_version != NEGOTIATE_STRUCT_VERSION {
        return Err(LayerError::InitializationFailed);
    }
    if req.struct_size != NEGOTIATE_STRUCT_SIZE {
        return Err(LayerError::InitializationFailed);
    }
    if layer.api_version < req.min_api_version || layer.api_version > req.max_api_version {
        return Err(LayerError::InitializationFailed);
    }
    req.layer_interface_version = layer.interface_version;
    req.layer_api_version = layer.api_version;
    req.get_instance_proc_addr = Some(layer.get_instance_proc_addr);
    req.create_api_layer_instance = Some(layer.create_api_layer_instance);
    Ok(())
}

/// Retrying the handshake on an already answered, valid record succeeds
/// again with the very same outputs: the handshake is idempotent.
pub proof fn lemma_negotiate_idempotent(
    layer: LayerCapabilities,
    req: NegotiationRequest,
    written: NegotiationRequest,
)
    requires
        negotiate_spec(layer, req) == Ok::<NegotiationRequest, LayerError>(written),
    ensures
        negotiate_spec(layer, written) == Ok::<NegotiationRequest, LayerError>(written),
{
}

} // verus!
