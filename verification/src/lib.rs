//! Serving core of a single-node chat-completion inference server.
//!
//! The crate models the pieces that make such a server correct: the
//! end-of-sequence handling, the token generation loop, the bounded prompt
//! queue, the TTL-keyed result cache, and the admission state machine that
//! guards the single inference slot.

pub mod api;
pub mod config;
pub mod engine;
pub mod eos;
pub mod errors;
pub mod laws;
pub mod prompt_queue;
pub mod render;
pub mod result_cache;
pub mod sampling;
pub mod serving;
pub mod strings;
pub mod tensor;
pub mod textgen;
pub mod time;
pub mod utils;

pub use api::{
    completed_reply, error_reply, ok_reply, queued_reply, InferenceRunReply, InferenceRunRequest,
    JobStatus, Message,
};
pub use config::{
    parse_dtype, parse_model_family, shard_files_from_weight_map, DtypeKind, ModelFamily,
    QueueType,
};
pub use engine::{InferenceEngine, ModelInference, TokenSampler};
pub use eos::EosTokenHandler;
pub use errors::{ConfigError, GenerationError, QueueFullError};
pub use prompt_queue::{PromptQueue, QueuedRequest};
pub use render::{build_prompt_vec, message_json, Prompt};
pub use result_cache::{CacheSlot, ResultCache};
pub use sampling::{InferenceConfig, SamplingMode};
pub use serving::{process_inference_request, AdmitDecision, Cylon, ServeError};
pub use textgen::{Model, ModelSpecialization, ModelWrapper, TextGenerator};
pub use utils::get_last_json;
