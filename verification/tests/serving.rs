use candle_core::{DType, Device, Tensor};
use candle_transformers::generation::{LogitsProcessor, Sampling};
use cylon::{
    Cylon, EosTokenHandler, GenerationError, InferenceConfig, InferenceEngine,
    InferenceRunRequest, JobStatus, Message, ModelInference, ServeError, TextGenerator,
    TokenSampler,
};

fn gen_err(e: candle_core::Error) -> GenerationError {
    GenerationError::new(format!("{}", e))
}

/// Scripted backend: step `n` puts the largest logit at `script[n]`.
struct ScriptedBackend {
    script: Vec<u32>,
    device: Device,
    eos: EosTokenHandler,
}

impl ModelInference for ScriptedBackend {
    type Cache = usize;

    fn create_cache(
        &self,
        _enable_kv_cache: bool,
        _dtype: DType,
        _device: &Device,
    ) -> Result<usize, GenerationError> {
        Ok(0)
    }

    fn forward(
        &self,
        _input: &Tensor,
        _context_index: usize,
        cache: &mut usize,
    ) -> Result<Tensor, GenerationError> {
        let tok = self.script[*cache % self.script.len()];
        *cache += 1;
        let mut logits = vec![0f32; 128];
        logits[tok as usize] = 10.0;
        let t = Tensor::new(logits.as_slice(), &self.device).map_err(gen_err)?;
        t.unsqueeze(0).map_err(gen_err)
    }

    fn device(&self) -> &Device {
        &self.device
    }

    fn dtype(&self) -> DType {
        DType::F32
    }

    fn use_kv_cache(&self) -> bool {
        false
    }

    fn eos_handler(&self) -> &EosTokenHandler {
        &self.eos
    }
}

/// A generator that runs the real generation loop over the scripted
/// backend; token ids are ASCII codes and the EOS id is 7.
struct EngineGenerator {
    backend: ScriptedBackend,
}

impl EngineGenerator {
    fn with_script(script: Vec<u32>) -> EngineGenerator {
        EngineGenerator {
            backend: ScriptedBackend {
                script,
                device: Device::Cpu,
                eos: EosTokenHandler::Single(7),
            },
        }
    }
}

impl TextGenerator for EngineGenerator {
    fn generate(&self, prompt: String, max_tokens: usize) -> Result<String, GenerationError> {
        let tokens = self.tokenize(&prompt)?;
        let config = InferenceConfig {
            greedy: true,
            top_k: None,
            top_p_set: false,
            seed: Some(42),
            penalty_enabled: false,
            repeat_last_n: 64,
        };
        let mut sampler = EngineSampler {
            processor: LogitsProcessor::from_sampling(42, Sampling::ArgMax),
        };
        let out = InferenceEngine::generate(
            &self.backend,
            &mut sampler,
            &EosTokenHandler::Single(7),
            tokens,
            max_tokens,
            &config,
        )?;
        self.decode(&out)
    }

    fn inference(
        &self,
        prompt: &Vec<String>,
        max_tokens: usize,
    ) -> Result<String, GenerationError> {
        let rendered = self.render(prompt)?;
        self.generate(rendered, max_tokens)
    }

    fn tokenize(&self, text: &str) -> Result<Vec<u32>, GenerationError> {
        Ok(text.bytes().map(|b| b as u32).collect())
    }

    fn decode(&self, tokens: &[u32]) -> Result<String, GenerationError> {
        // Special tokens (the EOS id) are skipped, as a tokenizer would.
        Ok(tokens
            .iter()
            .filter(|t| **t != 7)
            .map(|t| (*t as u8) as char)
            .collect())
    }

    fn render(&self, prompt: &Vec<String>) -> Result<String, GenerationError> {
        Ok(prompt.join("\n"))
    }
}

struct EngineSampler {
    processor: LogitsProcessor,
}

impl TokenSampler for EngineSampler {
    fn penalize(&self, logits: Tensor, _recent: &Vec<u32>) -> Result<Tensor, GenerationError> {
        Ok(logits)
    }

    fn sample(&mut self, logits: &Tensor) -> Result<u32, GenerationError> {
        self.processor.sample(logits).map_err(gen_err)
    }
}

/// A generator whose every inference fails.
struct FailingGenerator;

impl TextGenerator for FailingGenerator {
    fn generate(&self, _prompt: String, _max_tokens: usize) -> Result<String, GenerationError> {
        Err(GenerationError::new(String::from("backend failure")))
    }

    fn inference(
        &self,
        _prompt: &Vec<String>,
        _max_tokens: usize,
    ) -> Result<String, GenerationError> {
        Err(GenerationError::new(String::from("backend failure")))
    }

    fn tokenize(&self, _text: &str) -> Result<Vec<u32>, GenerationError> {
        Err(GenerationError::new(String::from("backend failure")))
    }

    fn decode(&self, _tokens: &[u32]) -> Result<String, GenerationError> {
        Err(GenerationError::new(String::from("backend failure")))
    }

    fn render(&self, _prompt: &Vec<String>) -> Result<String, GenerationError> {
        Err(GenerationError::new(String::from("backend failure")))
    }
}

fn user_request(content: &str) -> InferenceRunRequest {
    InferenceRunRequest {
        messages: vec![Message { role: String::from("user"), content: String::from(content) }],
    }
}

fn system_json() -> String {
    cylon::message_json("system", "You are a helpful assistant.")
}

#[test]
fn immediate_success_returns_ok_inline() {
    // Stub emits A, B, then EOS; the reply holds the decoded "AB".
    let model = EngineGenerator::with_script(vec![65, 66, 7]);
    let mut core = Cylon::new(system_json(), 16, 4, 3600, true);
    let reply = core
        .inference_run(&model, String::from("job-1"), user_request("hi"))
        .unwrap();
    assert_eq!(reply.status, JobStatus::Okay);
    assert_eq!(reply.status.as_str(), "OK");
    assert_eq!(reply.uuid, "job-1");
    let msg = reply.response.unwrap();
    assert_eq!(msg.role, "assistant");
    assert_eq!(msg.content, "AB");
    // Immediate-path jobs are never cached.
    assert!(core.inference_status(&String::from("job-1")).is_none());
}

#[test]
fn queue_while_busy_resolves_to_completed() {
    let model = EngineGenerator::with_script(vec![67, 7]);
    let mut core = Cylon::new(system_json(), 16, 2, 3600, false);

    // Call 1 claims the slot and is, say, still generating.
    let d = core.claim_slot();
    assert!(matches!(d, cylon::AdmitDecision::RunThenDrain));

    // Call 2 arrives while busy: it is queued and visible as QUEUED.
    let reply = core
        .inference_run(&model, String::from("job-2"), user_request("second"))
        .unwrap();
    assert_eq!(reply.status, JobStatus::Queued);
    assert!(reply.response.is_none());
    assert_eq!(reply.uuid, "job-2");
    assert_eq!(
        core.inference_status(&String::from("job-2")),
        Some(JobStatus::Queued)
    );

    // Call 1 finishes and drains the queue.
    core.run_queued_jobs(&model);
    assert_eq!(
        core.inference_status(&String::from("job-2")),
        Some(JobStatus::Completed)
    );
    let resolved = core.inference_result(&String::from("job-2")).unwrap();
    assert_eq!(resolved.unwrap().content, "C");
}

#[test]
fn queue_full_rejects_without_caching() {
    let model = EngineGenerator::with_script(vec![67, 7]);
    let mut core = Cylon::new(system_json(), 16, 2, 3600, false);
    let d = core.claim_slot();
    assert!(matches!(d, cylon::AdmitDecision::RunThenDrain));

    for (id, text) in [("u1", "a"), ("u2", "b")] {
        let reply = core
            .inference_run(&model, String::from(id), user_request(text))
            .unwrap();
        assert_eq!(reply.status, JobStatus::Queued);
    }

    // The third pending call overflows the bound of 2.
    let err = core
        .inference_run(&model, String::from("u4"), user_request("d"))
        .unwrap_err();
    assert!(matches!(err, ServeError::QueueFull(_)));
    // The rejected job id stays unknown.
    assert!(core.inference_status(&String::from("u4")).is_none());
    assert!(core.inference_result(&String::from("u4")).is_none());
}

#[test]
fn unknown_uuid_is_not_found() {
    let mut core = Cylon::new(system_json(), 16, 4, 3600, false);
    assert!(core.inference_status(&String::from("deadbeef")).is_none());
    assert!(core.inference_result(&String::from("deadbeef")).is_none());
}

#[test]
fn failed_drained_job_resolves_to_error() {
    let model = FailingGenerator;
    let mut core = Cylon::new(system_json(), 16, 2, 3600, false);
    let d = core.claim_slot();
    assert!(matches!(d, cylon::AdmitDecision::RunThenDrain));
    let reply = core
        .inference_run(&model, String::from("job-e"), user_request("x"))
        .unwrap();
    assert_eq!(reply.status, JobStatus::Queued);

    core.run_queued_jobs(&model);
    assert_eq!(
        core.inference_status(&String::from("job-e")),
        Some(JobStatus::Error)
    );
    let resolved = core.inference_result(&String::from("job-e")).unwrap();
    assert!(resolved.is_none());
}

#[test]
fn immediate_failure_surfaces_generation_error() {
    let model = FailingGenerator;
    let mut core = Cylon::new(system_json(), 16, 4, 3600, true);
    let err = core
        .inference_run(&model, String::from("job-f"), user_request("x"))
        .unwrap_err();
    match err {
        ServeError::Generation(e) => assert_eq!(e.describe(), "backend failure"),
        ServeError::QueueFull(_) => panic!("wrong error variant"),
    }
}

#[test]
fn slot_is_released_after_drain_even_on_failure() {
    let model = FailingGenerator;
    let mut core = Cylon::new(system_json(), 16, 2, 3600, false);
    // First request claims the slot; its generation fails, the drain still
    // runs and releases the slot.
    let err = core
        .inference_run(&model, String::from("job-g"), user_request("x"))
        .unwrap_err();
    assert!(matches!(err, ServeError::Generation(_)));
    assert!(!core.processing);

    // The next request finds a free slot again.
    let ok_model = EngineGenerator::with_script(vec![68, 7]);
    let reply = core
        .inference_run(&ok_model, String::from("job-h"), user_request("y"))
        .unwrap();
    assert_eq!(reply.status, JobStatus::Okay);
}

#[test]
fn status_lookup_is_repeatable() {
    let model = EngineGenerator::with_script(vec![67, 7]);
    let mut core = Cylon::new(system_json(), 16, 2, 3600, false);
    core.claim_slot();
    core.inference_run(&model, String::from("job-r"), user_request("z")).unwrap();
    core.run_queued_jobs(&model);
    let first = core.inference_status(&String::from("job-r"));
    let second = core.inference_status(&String::from("job-r"));
    assert_eq!(first, Some(JobStatus::Completed));
    assert_eq!(first, second);
}

#[test]
fn model_and_wrapper_delegate_to_the_generator() {
    let model = cylon::Model::new(EngineGenerator::with_script(vec![72, 73, 7]));
    let out = model.generate(String::from("xy"), 8).unwrap();
    assert_eq!(out, "HI");
    let out2 = model
        .inference(&vec![String::from("{\"role\":\"user\",\"content\":\"q\"}")], 8)
        .unwrap();
    assert_eq!(out2, "HI");

    let wrapper = cylon::ModelWrapper::new(EngineGenerator::with_script(vec![74, 7]));
    assert_eq!(wrapper.generate_optimized(String::from("a"), 8).unwrap(), "J");
    assert_eq!(
        wrapper.inference_optimized(&vec![String::from("p")], 8).unwrap(),
        "J"
    );
}

struct PlainSpecialized;

impl cylon::ModelSpecialization for PlainSpecialized {
}

#[test]
fn model_specialization_defaults_to_standard_path() {
    let s = PlainSpecialized;
    assert!(cylon::ModelSpecialization::generate_specialized(&s, String::from("p"), 4).is_none());
}
