//! Trusted boundary to the tensor library.
//!
//! The generation loop moves token windows into tensors and hands them to a
//! backend; the tensors themselves stay opaque. Only the three shape
//! operations the loop needs are wrapped here.

use vstd::prelude::*;
use crate::errors::GenerationError;

verus! {

#[verifier::external_type_specification]
#[verifier::external_body]
pub struct ExTensor(candle_core::Tensor);

#[verifier::external_type_specification]
#[verifier::external_body]
pub struct ExDevice(candle_core::Device);

#[verifier::external_type_specification]
#[verifier::external_body]
pub struct ExDType(candle_core::DType);

#[verifier::external_type_specification]
#[verifier::external_body]
pub struct ExCandleError(candle_core::Error);

/// Relies on candle_core::Tensor::new to build a rank-1 tensor holding
/// exactly the given token ids on the given device.
#[verifier::external_body]
pub(crate) fn tensor_of_tokens(tokens: &Vec<u32>, device: &candle_core::Device) -> Result<
    candle_core::Tensor,
    candle_core::Error,
> {
    candle_core::Tensor::new(tokens.as_slice(), device)
}

/// Relies on candle_core::Tensor::unsqueeze to insert a size-1 axis.
#[verifier::external_body]
pub(crate) fn tensor_unsqueeze(t: &candle_core::Tensor, dim: usize) -> Result<
    candle_core::Tensor,
    candle_core::Error,
> {
    t.unsqueeze(dim)
}

/// Relies on candle_core::Tensor::squeeze to drop a size-1 axis.
#[verifier::external_body]
pub(crate) fn tensor_squeeze(t: &candle_core::Tensor, dim: usize) -> Result<
    candle_core::Tensor,
    candle_core::Error,
> {
    t.squeeze(dim)
}

/// Relies on the Display impl of candle_core::Error for a readable message.
#[verifier::external_body]
pub(crate) fn describe_candle_error(e: &candle_core::Error) -> String {
    format!("{}", e)
}

pub(crate) fn generation_error_of(e: candle_core::Error) -> GenerationError {
    GenerationError::new(describe_candle_error(&e))
}

} // verus!
