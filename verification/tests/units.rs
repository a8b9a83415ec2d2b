use cylon::{
    completed_reply, error_reply, ok_reply, queued_reply, parse_dtype, parse_model_family,
    shard_files_from_weight_map, DtypeKind, EosTokenHandler, InferenceConfig,
    InferenceRunRequest, JobStatus, Message, ModelFamily, PromptQueue, QueueType, ResultCache,
    SamplingMode,
};

#[test]
fn queue_is_fifo_and_bounded() {
    let mut q = PromptQueue::new(2);
    assert_eq!(q.len(), 0);
    assert!(q.dequeue().is_none());

    let req = |c: &str| InferenceRunRequest {
        messages: vec![Message { role: String::from("user"), content: String::from(c) }],
    };
    q.enqueue(String::from("a"), req("1")).unwrap();
    q.enqueue(String::from("b"), req("2")).unwrap();
    assert_eq!(q.len(), 2);

    // The third enqueue hits the bound of 2.
    assert!(q.enqueue(String::from("c"), req("3")).is_err());
    assert_eq!(q.len(), 2);

    let first = q.dequeue().unwrap();
    assert_eq!(first.job_id, "a");
    let second = q.dequeue().unwrap();
    assert_eq!(second.job_id, "b");
    assert!(q.dequeue().is_none());
}

#[test]
fn cache_ttl_boundary_is_strict() {
    let mut c = ResultCache::new(10);
    c.insert_at(String::from("k"), queued_reply(String::from("k")), 1000);
    // Age 9 is under the TTL of 10; age 10 reaches it.
    assert!(c.get_at(&String::from("k"), 1009).is_some());
    assert!(c.get_at(&String::from("k"), 1010).is_none());
    // The stale read evicted the entry.
    assert_eq!(c.len(), 0);
}

#[test]
fn ttl_eviction_after_two_seconds() {
    // TTL of one second: a value inserted at t is gone two seconds later.
    let mut c = ResultCache::new(1);
    c.insert_at(String::from("k"), ok_reply(String::from("k"), String::from("v")), 5000);
    assert!(c.get_at(&String::from("k"), 5002).is_none());
    c.cleanup_expired_at(5002);
    assert_eq!(c.len(), 0);
}

#[test]
fn cache_insert_overwrites_and_cleanup_keeps_fresh() {
    let mut c = ResultCache::new(100);
    c.insert_at(String::from("a"), queued_reply(String::from("a")), 0);
    c.insert_at(String::from("b"), queued_reply(String::from("b")), 50);
    c.insert_at(String::from("a"), error_reply(String::from("a")), 60);
    assert_eq!(c.len(), 2);

    // At t = 120, the rewritten "a" (age 60) survives; "b" (age 70) does
    // too; nothing is evicted yet.
    c.cleanup_expired_at(120);
    assert_eq!(c.len(), 2);
    let a = c.get_at(&String::from("a"), 120).unwrap();
    assert_eq!(a.status, JobStatus::Error);

    // At t = 155, "b" (age 105) expires, "a" (age 95) stays.
    c.cleanup_expired_at(155);
    assert_eq!(c.len(), 1);
    assert!(c.get_at(&String::from("b"), 155).is_none());
    assert!(c.get_at(&String::from("a"), 155).is_some());
}

#[test]
fn cache_wall_clock_round_trip() {
    let mut c = ResultCache::new(3600);
    c.insert(
        String::from("job"),
        completed_reply(String::from("job"), String::from("answer")),
    );
    let got = c.get(&String::from("job")).unwrap();
    assert_eq!(got.status, JobStatus::Completed);
    assert_eq!(got.response.unwrap().content, "answer");
    c.cleanup_expired();
    assert_eq!(c.len(), 1);
}

#[test]
fn sampling_mode_selection() {
    let base = InferenceConfig {
        greedy: false,
        top_k: None,
        top_p_set: false,
        seed: None,
        penalty_enabled: false,
        repeat_last_n: 64,
    };
    let greedy = InferenceConfig { greedy: true, top_k: Some(40), top_p_set: true, ..base.clone() };
    assert_eq!(greedy.sampling_mode(), SamplingMode::ArgMax);
    assert_eq!(base.sampling_mode(), SamplingMode::All);
    let k = InferenceConfig { top_k: Some(40), ..base.clone() };
    assert_eq!(k.sampling_mode(), SamplingMode::TopK(40));
    let p = InferenceConfig { top_p_set: true, ..base.clone() };
    assert_eq!(p.sampling_mode(), SamplingMode::TopP);
    let kp = InferenceConfig { top_k: Some(13), top_p_set: true, ..base.clone() };
    assert_eq!(kp.sampling_mode(), SamplingMode::TopKThenTopP(13));
}

#[test]
fn seed_defaults_to_forty_two() {
    let cfg = InferenceConfig {
        greedy: true,
        top_k: None,
        top_p_set: false,
        seed: None,
        penalty_enabled: false,
        repeat_last_n: 0,
    };
    assert_eq!(cfg.effective_seed(), 42);
    let seeded = InferenceConfig { seed: Some(299792458), ..cfg };
    assert_eq!(seeded.effective_seed(), 299792458);
}

#[test]
fn dtype_parsing_accepts_the_three_widths() {
    assert_eq!(parse_dtype(&None).unwrap(), DtypeKind::F16);
    assert_eq!(parse_dtype(&Some(String::from("f16"))).unwrap(), DtypeKind::F16);
    assert_eq!(parse_dtype(&Some(String::from("bf16"))).unwrap(), DtypeKind::BF16);
    assert_eq!(parse_dtype(&Some(String::from("f32"))).unwrap(), DtypeKind::F32);
    let err = parse_dtype(&Some(String::from("f64"))).unwrap_err();
    assert_eq!(err.describe(), "Unsupported dtype f64");
}

#[test]
fn model_family_parsing() {
    assert_eq!(parse_model_family("llama").unwrap(), ModelFamily::Llama);
    assert_eq!(parse_model_family("qwen").unwrap(), ModelFamily::Qwen);
    let err = parse_model_family("gpt2").unwrap_err();
    assert_eq!(err.describe(), "Unsupported model family: gpt2");
}

#[test]
fn queue_type_labels() {
    assert_eq!(QueueType::Local.label(), "local");
    assert_eq!(QueueType::Redis.label(), "redis");
    assert_eq!(QueueType::Kafka.label(), "kafka");
}

#[test]
fn job_status_wire_forms() {
    assert_eq!(JobStatus::Okay.as_str(), "OK");
    assert_eq!(JobStatus::Queued.as_str(), "QUEUED");
    assert_eq!(JobStatus::Completed.as_str(), "COMPLETED");
    assert_eq!(JobStatus::Error.as_str(), "ERROR");
}

#[test]
fn shard_files_are_deduplicated_in_first_seen_order() {
    let values = vec![
        Some(String::from("model-00001.safetensors")),
        Some(String::from("model-00002.safetensors")),
        None,
        Some(String::from("model-00001.safetensors")),
        Some(String::from("model-00003.safetensors")),
    ];
    let files = shard_files_from_weight_map(&values);
    assert_eq!(
        files,
        vec![
            String::from("model-00001.safetensors"),
            String::from("model-00002.safetensors"),
            String::from("model-00003.safetensors"),
        ]
    );
}

#[test]
fn eos_handler_variants() {
    assert!(EosTokenHandler::Single(3).is_eos_token(3));
    assert!(!EosTokenHandler::Single(3).is_eos_token(4));
    assert!(EosTokenHandler::Multiple(vec![1, 5, 9]).is_eos_token(5));
    assert!(!EosTokenHandler::Multiple(vec![1, 5, 9]).is_eos_token(2));
    assert!(!EosTokenHandler::Multiple(vec![]).is_eos_token(0));
    assert!(!EosTokenHandler::NoEos.is_eos_token(0));
}

#[test]
fn reply_builders_fill_the_wire_shape() {
    let ok = ok_reply(String::from("u"), String::from("hello"));
    assert_eq!(ok.status, JobStatus::Okay);
    assert_eq!(ok.uuid, "u");
    let m = ok.response.unwrap();
    assert_eq!(m.role, "assistant");
    assert_eq!(m.content, "hello");

    let q = queued_reply(String::from("v"));
    assert_eq!(q.status, JobStatus::Queued);
    assert!(q.response.is_none());

    let e = error_reply(String::from("w"));
    assert_eq!(e.status, JobStatus::Error);
    assert!(e.response.is_none());

    let c = completed_reply(String::from("x"), String::from("done"));
    assert_eq!(c.status, JobStatus::Completed);
    assert_eq!(c.response.unwrap().content, "done");
}

#[test]
fn build_prompt_vec_renders_each_message() {
    let system = cylon::message_json("system", "be brief");
    let messages = vec![
        Message { role: String::from("user"), content: String::from("hi") },
        Message { role: String::from("assistant"), content: String::from("hello") },
    ];
    let v = cylon::build_prompt_vec(&system, &messages);
    assert_eq!(v.len(), 3);
    assert_eq!(v[0], system);
    assert_eq!(v[1], "{\"role\":\"user\",\"content\":\"hi\"}");
    assert_eq!(v[2], "{\"role\":\"assistant\",\"content\":\"hello\"}");
}
