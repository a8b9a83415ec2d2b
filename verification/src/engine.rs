//! The autoregressive generation loop.
//!
//! One loop serves every model family. A backend contributes forward passes
//! and cache discipline through [`ModelInference`]; logits shaping and token
//! choice sit behind [`TokenSampler`], which owns the floating point sampling
//! parameters. The loop itself decides the context window for each step,
//! the repeat-penalty window, and when to stop.

use vstd::prelude::*;
use crate::eos::EosTokenHandler;
use crate::errors::GenerationError;
use crate::sampling::InferenceConfig;
use crate::tensor::{tensor_of_tokens, tensor_unsqueeze, tensor_squeeze, generation_error_of};

verus! {

/// The capability set one loaded model family offers the generation loop.
///
/// Implementations live with the model weights, outside this crate. Two
/// obligations cannot be checked here and rest with each implementation:
/// `clear_kv_cache` must be idempotent, and when
/// `supports_persistent_cache` is false the caller must clear the cache
/// before starting a new generation.
pub trait ModelInference: Send + Sync {
    type Cache;

    fn create_cache(
        &self,
        enable_kv_cache: bool,
        dtype: candle_core::DType,
        device: &candle_core::Device,
    ) -> Result<Self::Cache, GenerationError>;

    fn forward(
        &self,
        input: &candle_core::Tensor,
        context_index: usize,
        cache: &mut Self::Cache,
    ) -> Result<candle_core::Tensor, GenerationError>;

    fn device(&self) -> &candle_core::Device;

    fn dtype(&self) -> candle_core::DType;

    fn use_kv_cache(&self) -> bool;

    fn eos_handler(&self) -> &EosTokenHandler;

    fn clear_kv_cache(&self) -> Result<(), GenerationError> {
        Ok(())
    }

    fn supports_persistent_cache(&self) -> bool {
        true
    }
}

/// Logits shaping and token choice: the repeat penalty division and the
/// seeded sampling scheme, both of which work on floating point logits and
/// therefore live outside this crate.
pub trait TokenSampler {
    /// Apply the repeat penalty to the logits at the indices named by
    /// `recent`, returning the reshaped logits.
    fn penalize(
        &self,
        logits: candle_core::Tensor,
        recent: &Vec<u32>,
    ) -> Result<candle_core::Tensor, GenerationError>;

    /// Draw the next token id from the logits.
    fn sample(&mut self, logits: &candle_core::Tensor) -> Result<u32, GenerationError>;
}

/// The `(context_size, context_index)` pair for one loop step: with a usable
/// KV cache every step after the first feeds a single-token window at the
/// absolute position of the newest token; otherwise the whole sequence is
/// re-fed from position zero.
pub fn context_window(use_cache: bool, index: usize, token_count: usize) -> (r: (usize, usize))
    requires
        use_cache && index > 0 ==> token_count >= 1,
    ensures
        use_cache && index > 0 ==> r == (1usize, (token_count - 1) as usize),
        !(use_cache && index > 0) ==> r == (token_count, 0usize),
{
    if use_cache && index > 0 {
        (1, token_count - 1)
    } else {
        (token_count, 0)
    }
}

/// Copy of `tokens[start..]`.
fn suffix_from(tokens: &Vec<u32>, start: usize) -> (r: Vec<u32>)
    requires
        start <= tokens@.len(),
    ensures
        r@ == tokens@.subrange(start as int, tokens@.len() as int),
{
    let mut r: Vec<u32> = Vec::new();
    let mut i: usize = start;
    while i < tokens.len()
        invariant
            start <= i <= tokens@.len(),
            r@ == tokens@.subrange(start as int, i as int),
        decreases tokens@.len() - i,
    {
        r.push(tokens[i]);
        assert(tokens@.subrange(start as int, (i + 1) as int) == tokens@.subrange(
            start as int,
            i as int,
        ).push(tokens@[i as int]));
        i = i + 1;
    }
    r
}

pub struct InferenceEngine;

impl InferenceEngine {
    /// Run the decoding loop: at most `max_tokens` forward passes, stopping
    /// at the first token the EOS handler matches. The returned sequence
    /// holds the newly generated tokens in order, the matched EOS token
    /// included; every earlier token is not an EOS token, and only a matched
    /// EOS ends the loop before `max_tokens` steps.
    #[verifier::loop_isolation(false)]
    pub fn generate<M: ModelInference, S: TokenSampler>(
        model: &M,
        sampler: &mut S,
        eos: &EosTokenHandler,
        tokens: Vec<u32>,
        max_tokens: usize,
        config: &InferenceConfig,
    ) -> (r: Result<Vec<u32>, GenerationError>)
        ensures
            r matches Ok(out) ==> out@.len() <= max_tokens,
            r matches Ok(out) ==> forall|i: int|
                0 <= i < out@.len() - 1 ==> !eos.spec_is_eos(out@[i]),
            r matches Ok(out) ==> (out@.len() < max_tokens ==> out@.len() >= 1 && eos.spec_is_eos(
                out@[out@.len() - 1],
            )),
    {
        let mut tokens = tokens;
        let mut cache = model.create_cache(model.use_kv_cache(), model.dtype(), model.device())?;
        let use_cache = model.use_kv_cache();

        let ghost prompt_len = tokens@.len();
        let mut generated: Vec<u32> = Vec::new();
        let mut index: usize = 0;
        let mut stopped = false;

        while index < max_tokens && !stopped
            invariant
                index <= max_tokens,
                generated@.len() == index as int,
                tokens@.len() == prompt_len + index as int,
                !stopped ==> forall|i: int|
                    0 <= i < generated@.len() ==> !eos.spec_is_eos(generated@[i]),
                stopped ==> generated@.len() >= 1 && eos.spec_is_eos(
                    generated@[generated@.len() - 1],
                ),
                stopped ==> forall|i: int|
                    0 <= i < generated@.len() - 1 ==> !eos.spec_is_eos(generated@[i]),
            decreases max_tokens - index,
        {
            let (context_size, context_index) = context_window(use_cache, index, tokens.len());
            let start = tokens.len() - context_size;
            let ctxt = suffix_from(&tokens, start);

            let input = match tensor_of_tokens(&ctxt, model.device()) {
                Ok(t) => t,
                Err(e) => {
                    return Err(generation_error_of(e));
                },
            };
            let input = match tensor_unsqueeze(&input, 0) {
                Ok(t) => t,
                Err(e) => {
                    return Err(generation_error_of(e));
                },
            };
            let logits = model.forward(&input, context_index, &mut cache)?;
            let logits = match tensor_squeeze(&logits, 0) {
                Ok(t) => t,
                Err(e) => {
                    return Err(generation_error_of(e));
                },
            };

            let logits = if config.penalty_enabled {
                let start_at = if tokens.len() > config.repeat_last_n {
                    tokens.len() - config.repeat_last_n
                } else {
                    0
                };
                let recent = suffix_from(&tokens, start_at);
                sampler.penalize(logits, &recent)?
            } else {
                logits
            };

            let next_token = sampler.sample(&logits)?;
            tokens.push(next_token);
            generated.push(next_token);
            index = index + 1;

            if eos.is_eos_token(next_token) {
                stopped = true;
            }
        }

        Ok(generated)
    }
}

} // verus!
