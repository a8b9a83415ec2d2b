//! Sampling configuration.
//!
//! The serving core decides *how* to sample from plain values: whether the
//! temperature calls for greedy decoding, which of top-k and top-p are set,
//! which seed to use, and how far back the repeat penalty looks. The floating
//! point parameters themselves (temperature, top-p, penalty) belong to the
//! sampling layer outside this crate; only their presence is modelled here.

use vstd::prelude::*;

verus! {

/// The shape of sampling the generation loop asks for, in the order the
/// decision is made: a non-positive temperature forces greedy argmax,
/// otherwise the combination of top-k and top-p picks the scheme.
#[derive(Debug, Clone, PartialEq, Eq, Structural)]
pub enum SamplingMode {
    ArgMax,
    All,
    TopK(usize),
    TopP,
    TopKThenTopP(usize),
}

/// Decoding parameters, as plain values.
///
/// `greedy` stands for "temperature is not positive", and
/// `penalty_enabled` for "repeat penalty differs from one"; the float values
/// themselves stay with the sampler implementation.
#[derive(Debug, Clone)]
pub struct InferenceConfig {
    pub greedy: bool,
    pub top_k: Option<usize>,
    pub top_p_set: bool,
    pub seed: Option<u64>,
    pub penalty_enabled: bool,
    pub repeat_last_n: usize,
}

impl InferenceConfig {
    pub open spec fn spec_sampling_mode(&self) -> SamplingMode {
        if self.greedy {
            SamplingMode::ArgMax
        } else {
            match (self.top_k, self.top_p_set) {
                (Option::None, false) => SamplingMode::All,
                (Option::Some(k), false) => SamplingMode::TopK(k),
                (Option::None, true) => SamplingMode::TopP,
                (Option::Some(k), true) => SamplingMode::TopKThenTopP(k),
            }
        }
    }

    /// Select the sampling scheme exactly as the decoding rules state it.
    pub fn sampling_mode(&self) -> (r: SamplingMode)
        ensures
            r == self.spec_sampling_mode(),
    {
        if self.greedy {
            SamplingMode::ArgMax
        } else {
            match (self.top_k, self.top_p_set) {
                (Option::None, false) => SamplingMode::All,
                (Option::Some(k), false) => SamplingMode::TopK(k),
                (Option::None, true) => SamplingMode::TopP,
                (Option::Some(k), true) => SamplingMode::TopKThenTopP(k),
            }
        }
    }

    pub open spec fn spec_effective_seed(&self) -> u64 {
        match self.seed {
            Option::Some(s) => s,
            Option::None => 42,
        }
    }

    /// The seed handed to the logits processor; a fixed default when unset.
    pub fn effective_seed(&self) -> (r: u64)
        ensures
            r == self.spec_effective_seed(),
    {
        match self.seed {
            Option::Some(s) => s,
            Option::None => 42,
        }
    }
}

} // verus!
