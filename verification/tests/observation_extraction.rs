use distributed_diagnostics::json::JsonValue;
use distributed_diagnostics::model::{
    ModelClientError, ModelFinishReason, ModelGenerationResponse, ModelMessageRole, ModelResponseMode,
};
use distributed_diagnostics::observation_extraction::{
    parse_polarity, ObservationExtraction, ObservationExtractionError, ObservationExtractionSettings,
    RawExtractedObservation, RawObservationExtractionResponse,
};
use distributed_diagnostics::prompt_asset::PromptAsset;
use distributed_diagnostics::shared_types::{
    Confidence, ModelTokenUsage, ObservationBoundaryResolution, ObservationBoundaryResolverOutput,
    ObservationExtractionOutput, ObservationPolarity, ResolvedObservation,
};

// ─── Helpers ──────────────────────────────────────────────────────────────

fn settings(path: &str) -> ObservationExtractionSettings {
    ObservationExtractionSettings { prompt_asset_path: path.to_string(), max_output_tokens: 256 }
}

fn object_schema() -> JsonValue {
    JsonValue::Object(vec![("type".to_string(), JsonValue::String("object".to_string()))])
}

fn asset_with_template(template: &str) -> PromptAsset {
    PromptAsset {
        version: "v1".to_string(),
        system_prompt: "You are an observation extractor.".to_string(),
        user_template: template.to_string(),
        response_schema: object_schema(),
    }
}

fn valid_asset() -> PromptAsset {
    asset_with_template("Extract observations from: {{user_message}}")
}

fn extraction() -> ObservationExtraction {
    ObservationExtraction::new(settings("prompts/oe_prompt.json"), valid_asset()).unwrap()
}

fn no_usage() -> ModelTokenUsage {
    ModelTokenUsage { prompt_tokens: None, completion_tokens: None, total_tokens: None }
}

fn make_supported_input(resolved_text: &str) -> ObservationBoundaryResolverOutput {
    ObservationBoundaryResolverOutput {
        normalized_user_input: "memory spike on node-3".to_string(),
        confidence: Confidence::High,
        reason: "The user input describes a new observation.".to_string(),
        resolution: ObservationBoundaryResolution::Supported(ResolvedObservation { text: resolved_text.to_string() }),
        token_usage: no_usage(),
    }
}

fn make_unsupported_input() -> ObservationBoundaryResolverOutput {
    ObservationBoundaryResolverOutput {
        normalized_user_input: "what does that mean?".to_string(),
        confidence: Confidence::Low,
        reason: "This is a question, not an observation.".to_string(),
        resolution: ObservationBoundaryResolution::Unsupported,
        token_usage: no_usage(),
    }
}

fn answer(content: &str, finish_reason: Option<ModelFinishReason>) -> ModelGenerationResponse {
    ModelGenerationResponse {
        content: content.to_string(),
        finish_reason,
        prompt_tokens: Some(10),
        completion_tokens: Some(5),
        total_tokens: Some(15),
    }
}

fn opt_text(v: &serde_json::Value, key: &str) -> Option<String> {
    v.get(key).and_then(|x| x.as_str()).map(|s| s.to_string())
}

fn text(v: &serde_json::Value, key: &str) -> Result<String, String> {
    opt_text(v, key).ok_or(format!("missing field `{key}`"))
}

/// Reads the model content the way the application does before handing it
/// to the extraction step.
fn parse_raw(content: &str) -> Result<RawObservationExtractionResponse, String> {
    let v: serde_json::Value = serde_json::from_str(content).map_err(|e| e.to_string())?;
    let mut observations = Vec::new();
    for o in v.get("observations").and_then(|x| x.as_array()).ok_or("missing field `observations`")? {
        observations.push(RawExtractedObservation {
            statement: text(o, "statement")?,
            confidence: text(o, "confidence")?,
            condition: opt_text(o, "condition"),
            polarity: text(o, "polarity")?,
            time_relation: opt_text(o, "time_relation"),
            source_span: text(o, "source_span")?,
        });
    }
    let questions = v
        .get("missing_context_questions")
        .and_then(|x| x.as_array())
        .ok_or("missing field `missing_context_questions`")?
        .iter()
        .map(|q| q.as_str().unwrap_or_default().to_string())
        .collect();
    Ok(RawObservationExtractionResponse {
        confidence: text(&v, "confidence")?,
        observations,
        needs_more_context: v.get("needs_more_context").and_then(|x| x.as_bool()).ok_or("missing field `needs_more_context`")?,
        missing_context_questions: questions,
    })
}

fn extract(input: &ObservationBoundaryResolverOutput, content: &str) -> Result<ObservationExtractionOutput, ObservationExtractionError> {
    extraction().on_response(input, Ok(answer(content, Some(ModelFinishReason::Stop))), parse_raw(content))
}

fn observation_json(statement: &str, confidence: &str, polarity: &str, source_span: &str) -> String {
    format!(
        r#"{{"statement":{},"confidence":{},"condition":null,"polarity":{},"time_relation":null,"source_span":{}}}"#,
        serde_json::Value::String(statement.to_string()),
        serde_json::Value::String(confidence.to_string()),
        serde_json::Value::String(polarity.to_string()),
        serde_json::Value::String(source_span.to_string()),
    )
}

fn answer_json(confidence: &str, observations: &[String], needs_more_context: bool, questions: &[&str]) -> String {
    let questions: Vec<String> = questions.iter().map(|q| serde_json::Value::String(q.to_string()).to_string()).collect();
    format!(
        r#"{{"confidence":"{}","observations":[{}],"needs_more_context":{},"missing_context_questions":[{}]}}"#,
        confidence,
        observations.join(","),
        needs_more_context,
        questions.join(",")
    )
}

fn valid_extraction_json(resolved_text: &str) -> String {
    answer_json(
        "high",
        &[observation_json("Memory usage spiked to 95% on node-3", "high", "present", resolved_text)],
        false,
        &[],
    )
}

fn needs_more_context_json() -> String {
    answer_json("low", &[], true, &["What changed before the spike?", "Which nodes were affected?"])
}

fn invalid_output_reason(r: Result<ObservationExtractionOutput, ObservationExtractionError>) -> String {
    match r {
        Err(ObservationExtractionError::InvalidModelOutput { reason, .. }) => reason,
        other => panic!("expected InvalidModelOutput, got {other:?}"),
    }
}

// ─── Constructor tests ────────────────────────────────────────────────────

#[test]
fn observation_extraction_new_rejects_empty_prompt_asset_path() {
    let err = ObservationExtraction::new(settings(""), valid_asset()).unwrap_err();
    assert!(matches!(err, ObservationExtractionError::InvalidSettings(_)));
}

#[test]
fn observation_extraction_new_rejects_zero_max_output_tokens() {
    let err = ObservationExtraction::new(
        ObservationExtractionSettings { prompt_asset_path: "p.json".to_string(), max_output_tokens: 0 },
        valid_asset(),
    )
    .unwrap_err();
    assert!(matches!(err, ObservationExtractionError::InvalidSettings(_)));
}

#[test]
fn observation_extraction_new_succeeds_with_valid_asset() {
    assert!(ObservationExtraction::new(settings("p.json"), valid_asset()).is_ok());
}

#[test]
fn observation_extraction_new_rejects_user_template_with_extra_placeholder() {
    let err = ObservationExtraction::new(settings("p.json"), asset_with_template("{{user_message}} {{other}}")).unwrap_err();
    assert_eq!(
        err,
        ObservationExtractionError::InvalidPromptAsset("user_template contains unsupported placeholder constructs".to_string())
    );
}

#[test]
fn observation_extraction_provider_and_model_not_stored_in_settings() {
    let s = ObservationExtractionSettings { prompt_asset_path: "some/path.json".to_string(), max_output_tokens: 128 };
    assert_eq!(s.prompt_asset_path, "some/path.json");
    assert_eq!(s.max_output_tokens, 128);
}

#[test]
fn new_rejects_template_without_user_message_placeholder() {
    let err = ObservationExtraction::new(settings("p.json"), asset_with_template("no placeholder here")).unwrap_err();
    assert_eq!(
        err,
        ObservationExtractionError::InvalidPromptAsset(
            "user_template must contain exactly one {{user_message}} placeholder, found 0".to_string()
        )
    );
}

// ─── Request construction ─────────────────────────────────────────────────

#[test]
fn sends_json_schema_response_mode() {
    let req = extraction().build_request(&make_supported_input("memory spike")).unwrap();
    match req.response_mode {
        ModelResponseMode::JsonSchema(s) => assert_eq!(s, object_schema()),
        other => panic!("expected JsonSchema, got {other:?}"),
    }
}

#[test]
fn sends_configured_max_output_tokens() {
    let oe = ObservationExtraction::new(
        ObservationExtractionSettings { prompt_asset_path: "p.json".to_string(), max_output_tokens: 777 },
        valid_asset(),
    )
    .unwrap();
    assert_eq!(oe.output_token_budget(), 777);
    assert_eq!(oe.build_request(&make_supported_input("x")).unwrap().max_output_tokens, Some(777));
}

#[test]
fn prompt_substitutes_resolved_observation_into_user_message() {
    let req = extraction().build_request(&make_supported_input("Memory usage spiked to 95%")).unwrap();
    assert_eq!(req.messages.len(), 2);
    assert_eq!(req.messages[0].role, ModelMessageRole::System);
    assert_eq!(req.messages[0].content, "You are an observation extractor.");
    assert_eq!(req.messages[1].role, ModelMessageRole::User);
    assert_eq!(req.messages[1].content, "Extract observations from: Memory usage spiked to 95%");
}

#[test]
fn extract_returns_unsupported_boundary_input_without_model_call() {
    let input = make_unsupported_input();
    assert_eq!(extraction().build_request(&input).unwrap_err(), ObservationExtractionError::UnsupportedBoundaryInput);
    let r = extraction().on_response(&input, Err(ModelClientError::Transport("unused".to_string())), Err("unused".to_string()));
    assert_eq!(r.unwrap_err(), ObservationExtractionError::UnsupportedBoundaryInput);
}

// ─── Successful extraction ────────────────────────────────────────────────

#[test]
fn extract_returns_correct_output_for_valid_response() {
    let resolved_text = "Memory usage spiked to 95% on node-3 at 14:32 UTC";
    let out = extract(&make_supported_input(resolved_text), &valid_extraction_json(resolved_text)).unwrap();
    assert_eq!(out.normalized_user_input, "memory spike on node-3");
    assert_eq!(out.resolved_observation.text, resolved_text);
    assert_eq!(out.confidence, Confidence::High);
    assert_eq!(out.observations.len(), 1);
    assert!(!out.needs_more_context);
    assert!(out.missing_context_questions.is_empty());
    assert_eq!(out.token_usage.prompt_tokens, Some(10));
    assert_eq!(out.token_usage.completion_tokens, Some(5));
    assert_eq!(out.token_usage.total_tokens, Some(15));
}

#[test]
fn extract_returns_needs_more_context_output() {
    let out = extract(&make_supported_input("something happened"), &needs_more_context_json()).unwrap();
    assert!(out.needs_more_context);
    assert_eq!(out.missing_context_questions.len(), 2);
}

// ─── Business rule violations ─────────────────────────────────────────────

#[test]
fn needs_more_context_false_with_empty_observations_fails() {
    let r = extract(&make_supported_input("Memory usage spiked"), &answer_json("high", &[], false, &[]));
    assert_eq!(invalid_output_reason(r), "needs_more_context=false but observations is empty");
}

#[test]
fn needs_more_context_false_with_nonempty_questions_fails() {
    let r = extract(
        &make_supported_input("Memory usage spiked"),
        &answer_json("high", &[observation_json("Memory spiked", "high", "present", "Memory usage spiked")], false, &["What happened?"]),
    );
    assert_eq!(invalid_output_reason(r), "needs_more_context=false but missing_context_questions is non-empty");
}

#[test]
fn needs_more_context_true_with_zero_questions_fails() {
    let r = extract(&make_supported_input("something vague"), &answer_json("low", &[], true, &[]));
    assert_eq!(invalid_output_reason(r), "needs_more_context=true but missing_context_questions has 0 items (must be 1\u{2013}2)");
}

#[test]
fn needs_more_context_true_with_three_questions_fails() {
    let r = extract(&make_supported_input("something vague"), &answer_json("low", &[], true, &["Q1", "Q2", "Q3"]));
    assert_eq!(invalid_output_reason(r), "needs_more_context=true but missing_context_questions has 3 items (must be 1\u{2013}2)");
}

#[test]
fn source_span_not_substring_of_resolved_text_is_auto_repaired() {
    let resolved_text = "Memory usage spiked to 95%";
    let out = extract(
        &make_supported_input(resolved_text),
        &answer_json("high", &[observation_json("CPU spiked", "high", "present", "CPU usage spiked to 100%")], false, &[]),
    )
    .unwrap();
    assert_eq!(out.observations[0].source_span, resolved_text);
}

#[test]
fn observation_extraction_unknown_confidence_value_fails() {
    let r = extract(&make_supported_input("Memory usage spiked"), &answer_json("very_high", &[], true, &["Question?"]));
    assert_eq!(invalid_output_reason(r), "unknown top-level confidence value: 'very_high'");
}

#[test]
fn unknown_observation_fields_fail() {
    let input = make_supported_input("Memory usage spiked");
    let r = extract(&input, &answer_json("high", &[observation_json("s", "huge", "present", "Memory")], false, &[]));
    assert_eq!(invalid_output_reason(r), "unknown observation confidence value: 'huge'");
    let r = extract(&input, &answer_json("high", &[observation_json("s", "low", "maybe", "Memory")], false, &[]));
    assert_eq!(invalid_output_reason(r), "unknown polarity value: 'maybe'");
    let r = extract(&input, &answer_json("high", &[observation_json("  ", "low", "present", "Memory")], false, &[]));
    assert_eq!(invalid_output_reason(r), "observation statement is empty after trimming");
    let r = extract(&input, &answer_json("high", &[observation_json("s", "low", "present", " ")], false, &[]));
    assert_eq!(invalid_output_reason(r), "observation source_span is empty after trimming");
}

#[test]
fn observation_extraction_invalid_json_from_model_fails() {
    let input = make_supported_input("Memory usage spiked");
    let r = extraction().on_response(&input, Ok(answer("not json at all {{{", Some(ModelFinishReason::Stop))), Err("expected value".to_string()));
    assert_eq!(invalid_output_reason(r), "model output is not valid JSON: expected value");
}

#[test]
fn observation_extraction_model_client_error_propagates_as_typed_error() {
    let r = extraction().on_response(
        &make_supported_input("memory spike"),
        Err(ModelClientError::Transport("connection refused".to_string())),
        Err("unused".to_string()),
    );
    assert_eq!(r.unwrap_err(), ObservationExtractionError::ModelClient(ModelClientError::Transport("connection refused".to_string())));
}

#[test]
fn observation_extraction_length_finish_reason_fails_as_invalid_model_output() {
    let resolved_text = "Memory usage spiked";
    let content = valid_extraction_json(resolved_text);
    let r = extraction().on_response(&make_supported_input(resolved_text), Ok(answer(&content, Some(ModelFinishReason::Length))), parse_raw(&content));
    match r {
        Err(ObservationExtractionError::InvalidModelOutput { reason, finish_reason, token_usage }) => {
            assert_eq!(reason, "model output truncated: finish_reason was length");
            assert_eq!(finish_reason, Some(ModelFinishReason::Length));
            assert_eq!(token_usage.total_tokens, Some(15));
        }
        other => panic!("expected InvalidModelOutput, got {other:?}"),
    }
}

#[test]
fn normalized_user_input_exactly_matches_input() {
    let resolved_text = "Memory usage spiked to 95% on node-3 at 14:32 UTC";
    let input = make_supported_input(resolved_text);
    let out = extract(&input, &valid_extraction_json(resolved_text)).unwrap();
    assert_eq!(out.normalized_user_input, input.normalized_user_input);
}

#[test]
fn resolved_observation_exactly_matches_supported_resolution() {
    let resolved_text = "Memory usage spiked to 95% on node-3 at 14:32 UTC";
    let out = extract(&make_supported_input(resolved_text), &valid_extraction_json(resolved_text)).unwrap();
    assert_eq!(out.resolved_observation.text, resolved_text);
}

#[test]
fn observation_polarity_present_parses_correctly() {
    let resolved_text = "Memory usage spiked to 95%";
    let out = extract(&make_supported_input(resolved_text), &valid_extraction_json(resolved_text)).unwrap();
    assert_eq!(out.observations[0].polarity, ObservationPolarity::Present);
}

#[test]
fn observation_absent_polarity_parses_correctly() {
    let resolved_text = "No errors observed on node-3";
    let out = extract(
        &make_supported_input(resolved_text),
        &answer_json("high", &[observation_json("No errors observed on node-3", "high", "absent", "No errors observed on node-3")], false, &[]),
    )
    .unwrap();
    assert_eq!(out.observations[0].polarity, ObservationPolarity::Absent);
}

#[test]
fn observation_corrected_polarity_parses_correctly() {
    let resolved_text = "Actually the restart happened before the spike";
    let out = extract(
        &make_supported_input(resolved_text),
        &answer_json(
            "medium",
            &[observation_json("Restart happened before the spike", "medium", "corrected", "restart happened before the spike")],
            false,
            &[],
        ),
    )
    .unwrap();
    assert_eq!(out.observations[0].polarity, ObservationPolarity::Corrected);
    assert_eq!(out.observations[0].source_span, "restart happened before the spike");
    assert_eq!(out.confidence, Confidence::Medium);
}

#[test]
fn source_span_is_trimmed_before_substring_check() {
    let resolved_text = "Memory usage spiked to 95%";
    let out = extract(
        &make_supported_input(resolved_text),
        &answer_json("high", &[observation_json("Memory spiked", "high", "present", "  Memory usage spiked to 95%  ")], false, &[]),
    )
    .unwrap();
    assert_eq!(out.observations[0].source_span, "Memory usage spiked to 95%");
}

#[test]
fn optional_observation_texts_are_trimmed() {
    let resolved_text = "after deploy the cache missed";
    let content = r#"{"confidence":"high","observations":[{"statement":"  cache missed ","confidence":"low","condition":" after deploy ","polarity":"present","time_relation":"  later","source_span":"cache missed"}],"needs_more_context":false,"missing_context_questions":[]}"#;
    let out = extract(&make_supported_input(resolved_text), content).unwrap();
    let o = &out.observations[0];
    assert_eq!(o.statement, "cache missed");
    assert_eq!(o.condition.as_deref(), Some("after deploy"));
    assert_eq!(o.time_relation.as_deref(), Some("later"));
    assert_eq!(o.confidence, Confidence::Low);
}

#[test]
fn polarity_texts_parse() {
    assert_eq!(parse_polarity("present"), Some(ObservationPolarity::Present));
    assert_eq!(parse_polarity("absent"), Some(ObservationPolarity::Absent));
    assert_eq!(parse_polarity("corrected"), Some(ObservationPolarity::Corrected));
    assert_eq!(parse_polarity("Present"), None);
}
