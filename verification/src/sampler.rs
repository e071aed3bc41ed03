//! The sampler that draws a token from a vector of logits.
//!
//! Sampling is left to the `candle` crates. Nothing is proved of it. Of the
//! token that it draws only this is claimed: that it is one of the logits'
//! positions.
use candle_core::Tensor;
use candle_transformers::generation::LogitsProcessor;
use vstd::prelude::*;

verus! {

/// `candle_core::Tensor`: here a vector of logits. Nothing inside it is seen
/// here.
#[verifier::external_type_specification]
#[verifier::external_body]
pub struct ExTensor(Tensor);

/// `candle_core::Error`: why an operation on a tensor failed. Nothing inside
/// it is seen here.
#[verifier::external_type_specification]
#[verifier::external_body]
pub struct ExSamplingError(candle_core::Error);

/// `candle_transformers::generation::LogitsProcessor`: a sampling policy
/// with its random state. Nothing inside it is seen here.
#[verifier::external_type_specification]
#[verifier::external_body]
pub struct ExLogitsProcessor(LogitsProcessor);

/// The dimensions of a tensor.
pub uninterp spec fn logits_shape(logits: &Tensor) -> Seq<usize>;

/// The tensor is a vector with one element at least: logits that a token can
/// be drawn from.
pub open spec fn is_distribution(logits: &Tensor) -> bool {
    logits_shape(logits).len() == 1 && logits_shape(logits)[0] > 0
}

/// Calls `Tensor::dims`. Claimed: it gives the dimensions of the tensor.
#[verifier::external_body]
pub(crate) fn logits_dims(logits: &Tensor) -> (r: Vec<usize>)
    ensures
        r@ == logits_shape(logits),
{
    logits.dims().to_vec()
}

/// Calls `LogitsProcessor::sample`, which draws a token from the logits by
/// the policy and with the random state that the processor holds. The call
/// may change that state.
///
/// The logits have to be a vector with one element at least: on a tensor
/// without dimensions, or with none in its last dimension, the softmax that
/// every policy with a temperature runs panics. Claimed: a token that is
/// drawn is the index of one of the logits. Which one, and when the call
/// fails, is not claimed.
#[verifier::external_body]
pub(crate) fn draw_token(sampler: &mut LogitsProcessor, logits: &Tensor) -> (r: Result<
    u32,
    candle_core::Error,
>)
    requires
        is_distribution(logits),
    ensures
        r matches Ok(token) ==> token < logits_shape(logits)[0],
{
    sampler.sample(logits)
}

} // verus!
