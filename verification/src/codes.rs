//! Error taxonomy of the layer core and its mapping onto the wrapped
//! domain's signed status codes (non-negative = success, negative = failure).
//!
//! The core defines no numeric codes of its own: `raw_code` maps each internal
//! failure kind onto the code the wrapped runtime already uses for it, so that
//! no internal failure crosses the ABI boundary unconverted.

use vstd::prelude::*;

verus! {

/// One failure kind of the layer core.
#[derive(Clone, Copy, Debug, PartialEq, Eq, Structural)]
pub enum LayerError {
    /// Malformed or null input.
    ValidationFailure,
    /// Zero, unknown, type-mismatched, or already-removed handle.
    HandleInvalid,
    /// Caller buffer smaller than the available item count.
    SizeInsufficient,
    /// Name unrecognized at every resolution tier, including chain fallback.
    FunctionUnsupported,
    /// Handshake structural/version mismatch, or instance factory failure.
    InitializationFailed,
}

/// Status code the wrapped runtime uses for success.
pub const RAW_SUCCESS: i32 = 0;

/// Status code the wrapped runtime uses for a validation failure.
pub const RAW_ERROR_VALIDATION_FAILURE: i32 = -1;

/// Status code the wrapped runtime uses for a failed initialization.
pub const RAW_ERROR_INITIALIZATION_FAILED: i32 = -6;

/// Status code the wrapped runtime uses for an unsupported function name.
pub const RAW_ERROR_FUNCTION_UNSUPPORTED: i32 = -7;

/// Status code the wrapped runtime uses for a too-small caller buffer.
pub const RAW_ERROR_SIZE_INSUFFICIENT: i32 = -11;

/// Status code the wrapped runtime uses for an invalid handle.
pub const RAW_ERROR_HANDLE_INVALID: i32 = -12;

/// The raw status code that stands for `e` in the wrapped domain.
pub open spec fn raw_code_spec(e: LayerError) -> i32 {
    match e {
        LayerError::ValidationFailure => RAW_ERROR_VALIDATION_FAILURE,
        LayerError::HandleInvalid => RAW_ERROR_HANDLE_INVALID,
        LayerError::SizeInsufficient => RAW_ERROR_SIZE_INSUFFICIENT,
        LayerError::FunctionUnsupported => RAW_ERROR_FUNCTION_UNSUPPORTED,
        LayerError::InitializationFailed => RAW_ERROR_INITIALIZATION_FAILED,
    }
}

/// Maps one internal failure kind onto the wrapped domain's status code.
pub fn raw_code(e: LayerError) -> (r: i32)
    ensures
        r == raw_code_spec(e),
        r < 0,
{
    match e {
        LayerError::ValidationFailure => RAW_ERROR_VALIDATION_FAILURE,
        LayerError::HandleInvalid => RAW_ERROR_HANDLE_INVALID,
        LayerError::SizeInsufficient => RAW_ERROR_SIZE_INSUFFICIENT,
        LayerError::FunctionUnsupported => RAW_ERROR_FUNCTION_UNSUPPORTED,
        LayerError::InitializationFailed => RAW_ERROR_INITIALIZATION_FAILED,
    }
}

/// Converts an internal outcome into the wrapped domain's status code, so
/// that no internal failure crosses the ABI boundary unconverted.
pub fn intercept(r: Result<(), LayerError>) -> (code: i32)
    ensures
        r is Ok ==> code == RAW_SUCCESS,
        r matches Err(e) ==> code == raw_code_spec(e) && code < 0,
{
    match r {
        Ok(()) => RAW_SUCCESS,
        Err(e) => raw_code(e),
    }
}

/// Sorts a raw status code handed back by the wrapped runtime: non-negative
/// codes are success, negative ones are failures and are surfaced verbatim.
pub fn cvt(raw: i32) -> (r: Result<(), i32>)
    ensures
        r == if raw >= 0 {
            Result::<(), i32>::Ok(())
        } else {
            Result::<(), i32>::Err(raw)
        },
{
    if raw >= 0 {
        Ok(())
    } else {
        Err(raw)
    }
}

} // verus!
