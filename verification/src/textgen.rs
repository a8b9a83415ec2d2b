//! The text-generation capability and its thin wrappers.
//!
//! A backend that owns a tokenizer, a chat template and model weights
//! implements [`TextGenerator`]; the serving core only ever speaks through
//! it. [`Model`] and [`ModelWrapper`] are the two wrappers the rest of the
//! system holds a generator by.

use vstd::prelude::*;
use crate::errors::GenerationError;

verus! {

/// What a loaded model family offers the serving core: render a message
/// list through the family's chat template, turn text into token ids and
/// back, and run a full generation.
pub trait TextGenerator: Send + Sync {
    /// Tokenize `prompt`, decode up to `max_tokens` new tokens, and return
    /// the decoded completion.
    fn generate(&self, prompt: String, max_tokens: usize) -> Result<String, GenerationError>;

    /// Render the message JSONs through the chat template, then generate.
    fn inference(&self, prompt: &Vec<String>, max_tokens: usize) -> Result<
        String,
        GenerationError,
    >;

    fn tokenize(&self, text: &str) -> Result<Vec<u32>, GenerationError>;

    fn decode(&self, tokens: &[u32]) -> Result<String, GenerationError>;

    /// Apply the chat template to the message JSONs, injecting the
    /// family's BOS token and the generation prompt marker.
    fn render(&self, prompt: &Vec<String>) -> Result<String, GenerationError>;
}

/// A loaded model, held by its generation capability.
pub struct Model<T: TextGenerator> {
    generator: T,
}

impl<T: TextGenerator> Model<T> {
    pub fn new(generator: T) -> Model<T> {
        Model { generator }
    }

    pub fn inference(&self, prompt: &Vec<String>, max_tokens: usize) -> Result<
        String,
        GenerationError,
    > {
        self.generator.inference(prompt, max_tokens)
    }

    pub fn generate(&self, prompt: String, max_tokens: usize) -> Result<
        String,
        GenerationError,
    > {
        self.generator.generate(prompt, max_tokens)
    }
}

/// Wrapper that leaves room for model-specific generation handling.
pub struct ModelWrapper<T: TextGenerator> {
    model: T,
}

impl<T: TextGenerator> ModelWrapper<T> {
    pub fn new(model: T) -> ModelWrapper<T> {
        ModelWrapper { model }
    }

    pub fn generate_optimized(&self, prompt: String, max_tokens: usize) -> Result<
        String,
        GenerationError,
    > {
        self.model.generate(prompt, max_tokens)
    }

    pub fn inference_optimized(&self, prompt: &Vec<String>, max_tokens: usize) -> Result<
        String,
        GenerationError,
    > {
        self.model.inference(prompt, max_tokens)
    }
}

/// Families that need special handling override `generate_specialized`;
/// the default means "use the standard generation path".
pub trait ModelSpecialization {
    fn generate_specialized(&self, _prompt: String, _max_tokens: usize) -> Option<
        Result<String, GenerationError>,
    > {
        None
    }
}

} // verus!
