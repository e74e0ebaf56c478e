use distributed_diagnostics::json::JsonValue;
use distributed_diagnostics::llm_structured_generation::{
    build_shape_repair_prompt, combine_token_usage, GenerationStep, LlmStructuredGeneration,
    LlmStructuredGenerationError, LlmStructuredGenerationOutput, LlmStructuredGenerationSettings,
};
use distributed_diagnostics::model::{
    ModelClientError, ModelFinishReason, ModelGenerationRequest, ModelGenerationResponse,
    ModelMessageRole, ModelResponseMode,
};
use distributed_diagnostics::shared_types::ModelTokenUsage;

// ─── Helpers ──────────────────────────────────────────────────────────────

fn to_json(v: &serde_json::Value) -> JsonValue {
    match v {
        serde_json::Value::Null => JsonValue::Null,
        serde_json::Value::Bool(b) => JsonValue::Bool(*b),
        serde_json::Value::Number(n) => JsonValue::Number(n.to_string()),
        serde_json::Value::String(s) => JsonValue::String(s.clone()),
        serde_json::Value::Array(items) => JsonValue::Array(items.iter().map(to_json).collect()),
        serde_json::Value::Object(map) => {
            JsonValue::Object(map.iter().map(|(k, v)| (k.clone(), to_json(v))).collect())
        }
    }
}

fn parse(content: &str) -> Option<JsonValue> {
    serde_json::from_str::<serde_json::Value>(content).ok().map(|v| to_json(&v))
}

fn get<'a>(v: &'a JsonValue, key: &str) -> Option<&'a JsonValue> {
    match v {
        JsonValue::Object(entries) => entries.iter().find(|(k, _)| k == key).map(|(_, v)| v),
        _ => None,
    }
}

fn get_str<'a>(v: &'a JsonValue, key: &str) -> Option<&'a str> {
    match get(v, key) {
        Some(JsonValue::String(s)) => Some(s.as_str()),
        _ => None,
    }
}

fn settings(max_output_tokens: u32) -> LlmStructuredGenerationSettings {
    LlmStructuredGenerationSettings { max_output_tokens }
}

fn response(content: &str, finish_reason: Option<ModelFinishReason>, usage: Option<(usize, usize, usize)>) -> ModelGenerationResponse {
    ModelGenerationResponse {
        content: content.to_string(),
        finish_reason,
        prompt_tokens: usage.map(|u| u.0),
        completion_tokens: usage.map(|u| u.1),
        total_tokens: usage.map(|u| u.2),
    }
}

fn ok_response(content: &str) -> ModelGenerationResponse {
    response(content, Some(ModelFinishReason::Stop), Some((10, 5, 15)))
}

fn make_instance() -> LlmStructuredGeneration {
    LlmStructuredGeneration::new(settings(512)).unwrap()
}

/// Runs one generation against the scripted model answers and returns the
/// outcome with every request that was sent.
fn run(
    inst: &LlmStructuredGeneration,
    prompt: &str,
    answers: Vec<Result<ModelGenerationResponse, ModelClientError>>,
) -> (Result<LlmStructuredGenerationOutput, LlmStructuredGenerationError>, Vec<ModelGenerationRequest>) {
    let mut answers = answers.into_iter();
    let mut sent = Vec::new();
    let request = match inst.initial_request(prompt, JsonValue::Object(vec![])) {
        Ok(r) => r,
        Err(e) => return (Err(e), sent),
    };
    sent.push(request);
    let first = answers.next().expect("scripted first answer");
    match inst.on_initial_response(prompt, first) {
        GenerationStep::Finished(r) => (r, sent),
        GenerationStep::Repair { request, token_usage } => {
            sent.push(request);
            let second = answers.next().expect("scripted repair answer");
            (inst.on_repair_response(token_usage, second), sent)
        }
    }
}

fn generate(content_and_reason: ModelGenerationResponse) -> Result<LlmStructuredGenerationOutput, LlmStructuredGenerationError> {
    run(&make_instance(), "hello", vec![Ok(content_and_reason)]).0
}

fn is_invalid_output(r: &Result<LlmStructuredGenerationOutput, LlmStructuredGenerationError>) -> bool {
    matches!(r, Err(LlmStructuredGenerationError::InvalidModelOutput { .. }))
}

// ─── Constructor ──────────────────────────────────────────────────────────

#[test]
fn constructor_rejects_zero_max_output_tokens() {
    let err = LlmStructuredGeneration::new(settings(0)).unwrap_err();
    assert!(matches!(err, LlmStructuredGenerationError::InvalidConfig(_)), "expected InvalidConfig, got: {err:?}");
}

#[test]
fn constructor_accepts_nonzero_max_output_tokens() {
    assert!(LlmStructuredGeneration::new(settings(1)).is_ok());
}

// ─── Input validation ─────────────────────────────────────────────────────

#[test]
fn generate_rejects_empty_prompt() {
    let (r, sent) = run(&make_instance(), "", vec![Ok(ok_response("{}"))]);
    assert!(matches!(r, Err(LlmStructuredGenerationError::InvalidInput(_))));
    assert!(sent.is_empty());
}

#[test]
fn generate_rejects_whitespace_only_prompt() {
    let (r, _) = run(&make_instance(), "   \t\n  ", vec![Ok(ok_response("{}"))]);
    assert!(matches!(r, Err(LlmStructuredGenerationError::InvalidInput(_))));
}

// ─── Model client error propagation ───────────────────────────────────────

#[test]
fn generate_propagates_model_client_error() {
    let (r, _) = run(&make_instance(), "hello", vec![Err(ModelClientError::Transport("timeout".into()))]);
    assert_eq!(r.unwrap_err(), LlmStructuredGenerationError::Model(ModelClientError::Transport("timeout".into())));
}

// ─── Finish-reason rules ──────────────────────────────────────────────────

#[test]
fn generate_accepts_stop_finish_reason() {
    assert!(generate(response(r#"{"ok":true}"#, Some(ModelFinishReason::Stop), None)).is_ok());
}

#[test]
fn generate_accepts_none_finish_reason_with_valid_json() {
    assert!(generate(response(r#"{"ok":true}"#, None, None)).is_ok());
}

#[test]
fn generate_rejects_length_finish_reason() {
    let r = generate(response(r#"{"partial":true}"#, Some(ModelFinishReason::Length), Some((10, 512, 522))));
    assert!(is_invalid_output(&r));
}

#[test]
fn generate_does_not_parse_json_when_length_finish_reason() {
    let r = generate(response(r#"{"truncated":"#, Some(ModelFinishReason::Length), None));
    assert!(matches!(r, Err(LlmStructuredGenerationError::InvalidModelOutput { ref reason, .. }) if reason.contains("non-Stop")));
}

#[test]
fn generate_rejects_content_filter_finish_reason() {
    assert!(is_invalid_output(&generate(response("{}", Some(ModelFinishReason::ContentFilter), None))));
}

#[test]
fn generate_rejects_tool_calls_finish_reason() {
    assert!(is_invalid_output(&generate(response("{}", Some(ModelFinishReason::ToolCalls), None))));
}

#[test]
fn generate_rejects_unknown_finish_reason() {
    let r = generate(response("{}", Some(ModelFinishReason::Unknown("custom_stop".into())), None));
    assert!(is_invalid_output(&r));
}

// ─── JSON parsing ─────────────────────────────────────────────────────────

#[test]
fn generate_rejects_invalid_json() {
    let r = generate(ok_response("not json at all"));
    assert!(matches!(r, Err(LlmStructuredGenerationError::InvalidModelOutput { ref reason, .. }) if reason == "model response is not valid JSON"));
}

#[test]
fn generate_rejects_json_array() {
    let r = generate(ok_response(r#"[{"a":1}]"#));
    assert!(matches!(r, Err(LlmStructuredGenerationError::InvalidModelOutput { ref reason, .. }) if reason == "model response is not a JSON object"));
}

#[test]
fn generate_rejects_json_string() {
    assert!(is_invalid_output(&generate(ok_response(r#""hello""#))));
}

#[test]
fn generate_rejects_json_number() {
    assert!(is_invalid_output(&generate(ok_response("42"))));
}

#[test]
fn generate_rejects_json_null() {
    assert!(is_invalid_output(&generate(ok_response("null"))));
}

#[test]
fn generate_rejects_json_boolean() {
    assert!(is_invalid_output(&generate(ok_response("true"))));
}

#[test]
fn generate_rejects_markdown_fenced_json() {
    assert!(is_invalid_output(&generate(ok_response("```json\n{\"a\":1}\n```"))));
}

#[test]
fn generate_rejects_none_finish_reason_with_invalid_json() {
    assert!(is_invalid_output(&generate(response("not json", None, None))));
}

// ─── Output and token usage ───────────────────────────────────────────────

#[test]
fn generate_preserves_all_json_fields() {
    let json = r#"{"diagnosis":"oom","score":0.95,"nested":{"key":"val"}}"#;
    let out = generate(ok_response(json)).unwrap();
    assert_eq!(out.response_json, parse(json).unwrap());
}

#[test]
fn generate_does_not_drop_unknown_json_fields() {
    let json = r#"{"known_field":"x","unknown_future_field":123,"nested_unknown":{"a":1}}"#;
    let out = generate(ok_response(json)).unwrap();
    assert!(get(&out.response_json, "unknown_future_field").is_some());
    assert!(get(&out.response_json, "nested_unknown").is_some());
}

#[test]
fn generate_preserves_token_usage_in_output() {
    let out = generate(response("{}", Some(ModelFinishReason::Stop), Some((100, 50, 150)))).unwrap();
    assert_eq!(out.token_usage.prompt_tokens, Some(100));
    assert_eq!(out.token_usage.completion_tokens, Some(50));
    assert_eq!(out.token_usage.total_tokens, Some(150));
}

#[test]
fn generate_preserves_none_token_usage_when_model_omits_it() {
    let out = generate(response("{}", Some(ModelFinishReason::Stop), None)).unwrap();
    assert_eq!(out.token_usage.prompt_tokens, None);
    assert_eq!(out.token_usage.completion_tokens, None);
    assert_eq!(out.token_usage.total_tokens, None);
}

#[test]
fn generate_repairs_json_object_with_missing_required_fields() {
    let invalid_but_parseable = r#"{
        "problem_understanding":"Two concurrent transactions lose one append.",
        "similar_practical_context":"Looks like a repeatable-read lost update.",
        "active_hypotheses":["H1","H2"]
    }"#;
    let repaired = r#"{
        "problem_understanding":"Two concurrent transactions lose one append.",
        "similar_practical_context":"Looks like a repeatable-read lost update.",
        "active_hypotheses":[
            {"hypothesis":"Repeatable Read permits this anomaly.","source":"primary_incident","confidence":"medium"},
            {"hypothesis":"The app may assume stronger protection than MySQL provides.","source":"theory_mechanism","confidence":"low"}
        ],
        "first_check":"Inspect whether both transactions read the missing key before either insert became visible.",
        "result_interpretation":{
            "supports_primary_if":"Both transactions read the key as absent before writing.",
            "supports_competing_if":"The reads were serialized yet one append still disappeared.",
            "inconclusive_if":null
        },
        "alternative_context_assessment":{"used_as_hypothesis":false,"reason":"Alternative context not available."}
    }"#;
    let (r, requests) = run(
        &make_instance(),
        "hello",
        vec![Ok(ok_response(invalid_but_parseable)), Ok(ok_response(repaired))],
    );
    let out = r.unwrap();
    assert_eq!(
        get_str(&out.response_json, "first_check"),
        Some("Inspect whether both transactions read the missing key before either insert became visible.")
    );
    assert_eq!(out.token_usage.prompt_tokens, Some(20));
    assert_eq!(out.token_usage.completion_tokens, Some(10));
    assert_eq!(out.token_usage.total_tokens, Some(30));
    assert_eq!(requests.len(), 2, "expected initial request plus repair request");
    assert!(requests[1].messages[0].content.contains("Previous invalid JSON"));
    assert!(requests[1].messages[0].content.contains("Repair the JSON shape only."));
    assert_eq!(requests[1].max_output_tokens, Some(512));
    assert!(matches!(requests[1].response_mode, ModelResponseMode::JsonObject));
}

#[test]
fn generate_strips_unknown_top_level_field_without_repair() {
    let with_extra_field = r#"{
        "problem_understanding":"Reader misses writes visible on writer.",
        "similar_practical_context":"Primary and reader disagree on visibility.",
        "active_hypotheses":[
            {"hypothesis":"Reader endpoint has weaker visibility semantics.","source":"primary_incident","confidence":"medium"},
            {"hypothesis":"Replica ordering differs from writer ordering.","source":"alternative_context","confidence":"low"}
        ],
        "first_check":"Compare the same read on writer and reader.",
        "result_interpretation":{
            "supports_primary_if":"Reader still misses the write while writer sees it.",
            "supports_competing_if":"Reader sees the write, suggesting a narrower divergence.",
            "inconclusive_if":null
        },
        "alternative_context_assessment":{"used_as_hypothesis":true,"reason":"Alternative shows a different ordering anomaly."},
        "extra_field":"should be stripped"
    }"#;
    let (r, requests) = run(&make_instance(), "hello", vec![Ok(ok_response(with_extra_field))]);
    let out = r.unwrap();
    assert_eq!(get_str(&out.response_json, "problem_understanding"), Some("Reader misses writes visible on writer."));
    assert!(get(&out.response_json, "extra_field").is_none(), "extra field must be stripped");
    assert_eq!(requests.len(), 1, "strip must resolve shape without a repair call");
}

#[test]
fn generate_strips_unknown_result_interpretation_field_without_repair() {
    let with_extra_nested = r#"{
        "problem_understanding":"Two clients hold the same lock.",
        "similar_practical_context":"etcd lease expiry allows two holders.",
        "active_hypotheses":[
            {"hypothesis":"Lease expiry overlap.","source":"primary_incident","confidence":"medium"},
            {"hypothesis":"Keepalive missed.","source":"primary_incident","confidence":"low"}
        ],
        "first_check":"Correlate conflicts with lease renewal timing.",
        "result_interpretation":{
            "supports_primary_if":"Conflicts cluster around lease expiry.",
            "supports_competing_if":"Conflicts occur independently of lease timing.",
            "inconclusive_if":null,
            "extra_nested_key":"should be stripped"
        },
        "alternative_context_assessment":{"used_as_hypothesis":false,"reason":"No credible alternative mechanism from alternative context."}
    }"#;
    let (r, requests) = run(&make_instance(), "hello", vec![Ok(ok_response(with_extra_nested))]);
    let out = r.unwrap();
    let ri = get(&out.response_json, "result_interpretation").expect("result_interpretation must be present");
    assert!(get(ri, "extra_nested_key").is_none(), "extra nested field must be stripped");
    assert_eq!(requests.len(), 1, "strip must resolve shape without a repair call");
}

#[test]
fn generate_unwraps_single_key_wrapper_without_repair() {
    let wrapped = r#"{
        "response": {
            "problem_understanding":"Two sessions lose one append.",
            "similar_practical_context":"Lost update under default RavenDB sessions.",
            "first_check":"Open two sessions, both load the same document, append distinct values, commit both, read and verify.",
            "result_interpretation":{
                "supports_primary_if":"Only one appended value present after both commits.",
                "supports_competing_if":"Both values present but in wrong order.",
                "inconclusive_if":null
            },
            "alternative_context_assessment":{"used_as_hypothesis":false,"reason":"Alternative context does not suggest a different mechanism."},
            "active_hypotheses":[
                {"hypothesis":"Default sessions allow last-writer-wins.","source":"primary_incident","confidence":"medium"},
                {"hypothesis":"No optimistic concurrency means no conflict detection.","source":"theory_mechanism","confidence":"medium"}
            ]
        }
    }"#;
    let (r, requests) = run(&make_instance(), "hello", vec![Ok(ok_response(wrapped))]);
    let out = r.unwrap();
    assert_eq!(get_str(&out.response_json, "problem_understanding"), Some("Two sessions lose one append."));
    assert!(get(&out.response_json, "response").is_none(), "wrapper key must be removed");
    assert_eq!(requests.len(), 1, "unwrap must resolve shape without a repair call");
}

#[test]
fn generate_renames_misnamed_field_without_repair() {
    let with_wrong_key = r#"{
        "final{": "Two sessions both commit appends but one value disappears.",
        "similar_practical_context":"Default RavenDB sessions allow lost updates without optimistic concurrency.",
        "first_check":"Open two sessions, load the same document, each append a distinct value, save both, then read and verify both values are present.",
        "result_interpretation":{
            "supports_primary_if":"Only one appended value present after both commits.",
            "supports_competing_if":"Both values present but in unexpected order.",
            "inconclusive_if":null
        },
        "alternative_context_assessment":{"used_as_hypothesis":false,"reason":"Alternative context describes a similar symptom but via a different mechanism."},
        "active_hypotheses":[
            {"hypothesis":"Default sessions use last-writer-wins semantics.","source":"primary_incident","confidence":"medium"},
            {"hypothesis":"No conflict detection without optimistic concurrency.","source":"theory_mechanism","confidence":"medium"}
        ]
    }"#;
    let (r, requests) = run(&make_instance(), "hello", vec![Ok(ok_response(with_wrong_key))]);
    let out = r.unwrap();
    assert_eq!(
        get_str(&out.response_json, "problem_understanding"),
        Some("Two sessions both commit appends but one value disappears.")
    );
    assert!(get(&out.response_json, "final{").is_none(), "misnamed key must be removed");
    assert_eq!(requests.len(), 1, "rename must resolve shape without a repair call");
}

#[test]
fn generate_preserves_token_usage_in_invalid_finish_reason_error() {
    let r = generate(response("{}", Some(ModelFinishReason::Length), Some((200, 512, 712))));
    match r {
        Err(LlmStructuredGenerationError::InvalidModelOutput { token_usage, .. }) => {
            assert_eq!(token_usage.prompt_tokens, Some(200));
            assert_eq!(token_usage.completion_tokens, Some(512));
            assert_eq!(token_usage.total_tokens, Some(712));
        }
        other => panic!("expected InvalidModelOutput, got: {other:?}"),
    }
}

#[test]
fn generate_preserves_token_usage_in_json_parse_error() {
    let r = generate(response("not json", Some(ModelFinishReason::Stop), Some((30, 10, 40))));
    match r {
        Err(LlmStructuredGenerationError::InvalidModelOutput { token_usage, .. }) => {
            assert_eq!(token_usage.prompt_tokens, Some(30));
            assert_eq!(token_usage.completion_tokens, Some(10));
            assert_eq!(token_usage.total_tokens, Some(40));
        }
        other => panic!("expected InvalidModelOutput, got: {other:?}"),
    }
}

#[test]
fn generate_preserves_finish_reason_in_error() {
    match generate(response("{}", Some(ModelFinishReason::ContentFilter), None)) {
        Err(LlmStructuredGenerationError::InvalidModelOutput { finish_reason, .. }) => {
            assert_eq!(finish_reason, Some(ModelFinishReason::ContentFilter));
        }
        other => panic!("expected InvalidModelOutput, got: {other:?}"),
    }
}

#[test]
fn generate_finish_reason_in_json_shape_error_reflects_stop() {
    match generate(response("[1,2,3]", Some(ModelFinishReason::Stop), None)) {
        Err(LlmStructuredGenerationError::InvalidModelOutput { finish_reason, .. }) => {
            assert_eq!(finish_reason, Some(ModelFinishReason::Stop));
        }
        other => panic!("expected InvalidModelOutput, got: {other:?}"),
    }
}

// ─── Model call shape ─────────────────────────────────────────────────────

#[test]
fn generate_sends_exactly_one_user_message() {
    let req = make_instance().initial_request("my prompt text", JsonValue::Null).unwrap();
    assert_eq!(req.messages.len(), 1);
    assert_eq!(req.messages[0].role, ModelMessageRole::User);
}

#[test]
fn generate_uses_prompt_as_message_content() {
    let req = make_instance().initial_request("the assembled prompt", JsonValue::Null).unwrap();
    assert_eq!(req.messages[0].content, "the assembled prompt");
}

#[test]
fn generate_uses_json_schema_response_mode() {
    let schema = JsonValue::Object(vec![("type".to_string(), JsonValue::String("object".to_string()))]);
    let req = make_instance()
        .initial_request("hello", JsonValue::Object(vec![("type".to_string(), JsonValue::String("object".to_string()))]))
        .unwrap();
    match req.response_mode {
        ModelResponseMode::JsonSchema(s) => assert_eq!(s, schema),
        other => panic!("expected JsonSchema mode, got: {other:?}"),
    }
}

#[test]
fn generate_uses_configured_max_output_tokens() {
    let inst = LlmStructuredGeneration::new(settings(2048)).unwrap();
    assert_eq!(inst.output_token_budget(), 2048);
    let req = inst.initial_request("hello", JsonValue::Null).unwrap();
    assert_eq!(req.max_output_tokens, Some(2048));
}

// ─── Repair outcomes ──────────────────────────────────────────────────────

const MISSING_FIELDS: &str = r#"{"problem_understanding":"p","similar_practical_context":"c","active_hypotheses":["H1"]}"#;

#[test]
fn repair_budget_is_capped() {
    let inst = LlmStructuredGeneration::new(settings(4096)).unwrap();
    let (_, requests) = run(&inst, "hello", vec![Ok(ok_response(MISSING_FIELDS)), Ok(ok_response("{}"))]);
    assert_eq!(requests.len(), 2);
    assert_eq!(requests[1].max_output_tokens, Some(2000));
}

#[test]
fn repair_prompt_carries_original_prompt_and_invalid_json() {
    let text = build_shape_repair_prompt("ORIGINAL", "INVALID");
    assert!(text.contains("Original task prompt:\nORIGINAL\n\n"));
    assert!(text.ends_with("Previous invalid JSON:\nINVALID\n"));
}

#[test]
fn repair_answer_with_wrong_shape_fails_with_combined_usage() {
    let (r, _) = run(&make_instance(), "hello", vec![Ok(ok_response(MISSING_FIELDS)), Ok(ok_response(MISSING_FIELDS))]);
    match r {
        Err(LlmStructuredGenerationError::InvalidModelOutput { reason, token_usage, finish_reason }) => {
            assert_eq!(reason, "repair response JSON does not match expected shape");
            assert_eq!(token_usage.total_tokens, Some(30));
            assert_eq!(finish_reason, Some(ModelFinishReason::Stop));
        }
        other => panic!("expected InvalidModelOutput, got: {other:?}"),
    }
}

#[test]
fn repair_answer_hitting_length_limit_fails() {
    let (r, _) = run(
        &make_instance(),
        "hello",
        vec![Ok(ok_response(MISSING_FIELDS)), Ok(response("{", Some(ModelFinishReason::Length), Some((1, 2, 3))))],
    );
    match r {
        Err(LlmStructuredGenerationError::InvalidModelOutput { reason, token_usage, .. }) => {
            assert_eq!(reason, "repair model hit output token limit");
            assert_eq!(token_usage.prompt_tokens, Some(11));
            assert_eq!(token_usage.completion_tokens, Some(7));
            assert_eq!(token_usage.total_tokens, Some(18));
        }
        other => panic!("expected InvalidModelOutput, got: {other:?}"),
    }
}

#[test]
fn repair_answer_with_other_finish_reason_names_it() {
    let (r, _) = run(
        &make_instance(),
        "hello",
        vec![Ok(ok_response(MISSING_FIELDS)), Ok(response("{}", Some(ModelFinishReason::ContentFilter), None))],
    );
    match r {
        Err(LlmStructuredGenerationError::InvalidModelOutput { reason, .. }) => {
            assert_eq!(reason, "repair model stopped with unexpected finish reason: ContentFilter");
        }
        other => panic!("expected InvalidModelOutput, got: {other:?}"),
    }
}

#[test]
fn repair_client_error_propagates() {
    let (r, _) = run(
        &make_instance(),
        "hello",
        vec![Ok(ok_response(MISSING_FIELDS)), Err(ModelClientError::Provider("down".into()))],
    );
    assert_eq!(r.unwrap_err(), LlmStructuredGenerationError::Model(ModelClientError::Provider("down".into())));
}

#[test]
fn token_usage_counts_add_and_keep_known_sides() {
    let a = ModelTokenUsage { prompt_tokens: Some(1), completion_tokens: None, total_tokens: Some(3) };
    let b = ModelTokenUsage { prompt_tokens: Some(4), completion_tokens: Some(5), total_tokens: None };
    let c = combine_token_usage(&a, &b);
    assert_eq!(c, ModelTokenUsage { prompt_tokens: Some(5), completion_tokens: Some(5), total_tokens: Some(3) });
}

#[test]
fn decision_on_first_answer_follows_the_json_handed_in() {
    let inst = make_instance();
    let step = inst.decide_initial_response("hello", Ok(ok_response("{}")), None);
    match step {
        GenerationStep::Finished(Err(LlmStructuredGenerationError::InvalidModelOutput { reason, .. })) => {
            assert_eq!(reason, "model response is not valid JSON")
        }
        other => panic!("unexpected {other:?}"),
    }
    match inst.on_initial_response("hello", Ok(ok_response("[1, 2]"))) {
        GenerationStep::Finished(Err(LlmStructuredGenerationError::InvalidModelOutput { reason, .. })) => {
            assert_eq!(reason, "model response is not a JSON object")
        }
        other => panic!("unexpected {other:?}"),
    }
}
