use distributed_diagnostics::chunk_selection::{
    ChunkPackingSource, ChunkRolePackingSettings, IncidentChunkTag, PromptEvidenceRole,
};
use distributed_diagnostics::context_text::{ContextPromptAsset, PromptContextAssemblyOutput};
use distributed_diagnostics::input_normalization::NormalizedUserRequest;
use distributed_diagnostics::json::JsonValue;
use distributed_diagnostics::prompt_context_assembly::{
    build_matched_incident_card, build_normalized_incident_query, role_to_str,
    DiagnosticResponseContext, PromptChunkPackingSettings, PromptContextAssembly,
    PromptContextAssemblyError, PromptContextSettings,
};
use distributed_diagnostics::shared_types::{
    CardHydrationOutput, DiscriminatingCheck, IncidentCard, IncidentEvidenceChunk,
    IncidentEvidenceRetrievalOutput, IncidentPhase, StructuredUserQuery,
    StructuredUserQueryConfidence, StructuredUserQuerySupportLevel, StructuredUserQueryTerm,
    TheoryEvidenceChunk, TheoryEvidenceRetrievalOutput,
};

const MARKER: &str = "JSON context follows:\n";

fn asset() -> ContextPromptAsset {
    ContextPromptAsset {
        version: "v1".to_string(),
        name: "diagnostic_response_prompt_baseline".to_string(),
        template: "You are a diagnostic assistant.\n\nJSON context follows:\n{{json_context}}"
            .to_string(),
        context_placeholder: "{{json_context}}".to_string(),
        required_placeholders: vec!["json_context".to_string()],
        response_schema: JsonValue::Object(vec![(
            "type".to_string(),
            JsonValue::String("object".to_string()),
        )]),
        policy_constraints: vec!["Do not claim a definitive root cause.".to_string()],
    }
}

fn role(
    source: ChunkPackingSource,
    limit: usize,
    per_case_limit: Option<usize>,
    fallback_to_any_chunk: bool,
    tag_priority: Vec<IncidentChunkTag>,
) -> ChunkRolePackingSettings {
    ChunkRolePackingSettings { source, limit, per_case_limit, tag_priority, fallback_to_any_chunk }
}

fn default_settings() -> PromptContextSettings {
    PromptContextSettings {
        prompt_asset_path: "/assets/diagnostic_response_prompt_baseline.manual_test.json".to_string(),
        chunk_packing: PromptChunkPackingSettings {
            evidence_for_match: role(
                ChunkPackingSource::PrimaryIncident,
                1,
                None,
                true,
                vec![IncidentChunkTag::Symptom, IncidentChunkTag::FailureMode],
            ),
            first_check_hint: role(
                ChunkPackingSource::PrimaryIncident,
                1,
                None,
                true,
                vec![IncidentChunkTag::DiagnosticStep, IncidentChunkTag::Investigation],
            ),
            supporting_explanation: role(
                ChunkPackingSource::PrimaryIncident,
                1,
                None,
                false,
                vec![IncidentChunkTag::ContributingFactor],
            ),
            alternative_context: role(
                ChunkPackingSource::AlternativeIncident,
                2,
                Some(1),
                false,
                vec![IncidentChunkTag::FailureMode],
            ),
            mechanism_explanation: role(ChunkPackingSource::Theory, 1, None, false, vec![]),
        },
    }
}

fn new_assembly(s: PromptContextSettings) -> Result<PromptContextAssembly, PromptContextAssemblyError> {
    PromptContextAssembly::new(s, asset())
}

fn make_assembly() -> PromptContextAssembly {
    new_assembly(default_settings()).expect("default settings must succeed")
}

fn minimal_card(case_id: &str) -> IncidentCard {
    IncidentCard {
        case_id: case_id.to_string(),
        title: format!("Title {case_id}"),
        vendor_or_project: None,
        system_type: None,
        short_summary: "summary".to_string(),
        canonical_symptoms: vec![],
        affected_components: vec![],
        failure_mode_candidates: vec![],
        incident_phases: vec![],
        candidate_explanations: vec![],
        diagnostic_patterns: vec![],
        discriminating_checks: vec![],
        investigation_steps: vec![],
        confidence_notes: vec![],
    }
}

fn chunk(id: &str, case_id: &str, score: f32, tags: &[&str], text: &str) -> IncidentEvidenceChunk {
    IncidentEvidenceChunk {
        chunk_id: id.to_string(),
        case_id: case_id.to_string(),
        score_bits: score.to_bits(),
        chunk_tags: tags.iter().map(|t| t.to_string()).collect(),
        text: text.to_string(),
    }
}

fn theory_chunk(id: &str, score: f32, text: &str) -> TheoryEvidenceChunk {
    TheoryEvidenceChunk { chunk_id: id.to_string(), score_bits: score.to_bits(), text: text.to_string() }
}

fn no_theory() -> TheoryEvidenceRetrievalOutput {
    TheoryEvidenceRetrievalOutput { chunks: vec![] }
}

fn structured_query(
    symptoms: &[&str],
    subsystems: &[&str],
    failure_modes: &[&str],
    triggers: &[&str],
    observability_signals: &[&str],
) -> StructuredUserQuery {
    let make_terms = |terms: &[&str]| {
        terms
            .iter()
            .map(|t| StructuredUserQueryTerm {
                term: t.to_string(),
                evidence_span: t.to_string(),
                support_level: StructuredUserQuerySupportLevel::Explicit,
            })
            .collect()
    };
    StructuredUserQuery {
        intent: "diagnose".to_string(),
        scenario: "test".to_string(),
        symptoms: make_terms(symptoms),
        affected_subsystems: make_terms(subsystems),
        failure_modes: make_terms(failure_modes),
        system_properties: vec![],
        entities: vec![],
        constraints: vec![],
        triggers: triggers.iter().map(|t| t.to_string()).collect(),
        observability_signals: observability_signals.iter().map(|t| t.to_string()).collect(),
        unresolved_terms: vec![],
        rejected_nearby_terms: vec![],
        confidence: StructuredUserQueryConfidence::Medium,
    }
}

fn minimal_query() -> StructuredUserQuery {
    structured_query(&[], &[], &[], &[], &[])
}

fn query_with(
    symptoms: &[&str],
    subsystems: &[&str],
    failure_modes: &[&str],
    triggers: &[&str],
    observability_signals: &[&str],
) -> StructuredUserQuery {
    structured_query(symptoms, subsystems, failure_modes, triggers, observability_signals)
}

fn minimal_request() -> NormalizedUserRequest {
    NormalizedUserRequest { query: "test query".to_string(), input_token_count: 5 }
}

fn primary_evidence(chunks: Vec<IncidentEvidenceChunk>) -> IncidentEvidenceRetrievalOutput {
    IncidentEvidenceRetrievalOutput { primary_chunks: chunks, alternative_chunks: vec![] }
}

fn two_primary_chunks(case_id: &str) -> Vec<IncidentEvidenceChunk> {
    vec![
        chunk("c1", case_id, 0.9, &["chunk_role:symptom"], "symptom text"),
        chunk("c2", case_id, 0.7, &["chunk_role:diagnostic_step"], "step text"),
    ]
}

fn strings(v: &[String]) -> serde_json::Value {
    serde_json::Value::Array(v.iter().map(|s| serde_json::Value::String(s.clone())).collect())
}

fn object(members: Vec<(&str, serde_json::Value)>) -> serde_json::Value {
    let mut m = serde_json::Map::new();
    for (k, v) in members {
        m.insert(k.to_string(), v);
    }
    serde_json::Value::Object(m)
}

/// The JSON form of the context, member by member.
fn context_json(ctx: &DiagnosticResponseContext) -> serde_json::Value {
    let q = &ctx.normalized_incident_query;
    let c = &ctx.matched_incident_card;
    object(vec![
        ("task", serde_json::Value::String(ctx.task.clone())),
        ("user_problem", serde_json::Value::String(ctx.user_problem.clone())),
        ("input_token_count", serde_json::Value::from(ctx.input_token_count)),
        (
            "normalized_incident_query",
            object(vec![
                ("recognized_canonical_symptoms", strings(&q.recognized_canonical_symptoms)),
                ("unmapped_user_symptoms", strings(&q.unmapped_user_symptoms)),
                ("affected_components", strings(&q.affected_components)),
                ("failure_mode_candidates", strings(&q.failure_mode_candidates)),
                ("observed_phase", strings(&q.observed_phase)),
                ("signals_present", strings(&q.signals_present)),
                ("missing_signals", strings(&q.missing_signals)),
            ]),
        ),
        (
            "matched_incident_card",
            object(vec![
                (
                    "context",
                    object(vec![
                        ("systems", strings(&c.context.systems)),
                        ("affected_components", strings(&c.context.affected_components)),
                        ("initial_symptoms", strings(&c.context.initial_symptoms)),
                        ("later_symptoms", strings(&c.context.later_symptoms)),
                    ]),
                ),
                (
                    "hypotheses",
                    object(vec![
                        ("failure_modes", strings(&c.hypotheses.failure_modes)),
                        ("hypothesis_signals", strings(&c.hypotheses.hypothesis_signals)),
                        ("hypothesis_updates", strings(&c.hypotheses.hypothesis_updates)),
                        ("contributing_factors", strings(&c.hypotheses.contributing_factors)),
                    ]),
                ),
                (
                    "checks",
                    object(vec![
                        ("investigation_questions", strings(&c.checks.investigation_questions)),
                        ("discriminating_checks", strings(&c.checks.discriminating_checks)),
                    ]),
                ),
            ]),
        ),
        (
            "incident_evidence_chunks",
            serde_json::Value::Array(
                ctx.incident_evidence_chunks
                    .iter()
                    .map(|d| {
                        object(vec![
                            ("role", serde_json::Value::String(d.role.clone())),
                            ("source_document_id", serde_json::Value::String(d.source_document_id.clone())),
                            ("chunk_tags", strings(&d.chunk_tags)),
                            ("text", serde_json::Value::String(d.text.clone())),
                        ])
                    })
                    .collect(),
            ),
        ),
        (
            "theory_chunks",
            serde_json::Value::Array(
                ctx.theory_chunks
                    .iter()
                    .map(|d| {
                        object(vec![
                            ("role", serde_json::Value::String(d.role.clone())),
                            ("source_document_id", serde_json::Value::String(d.source_document_id.clone())),
                            ("text", serde_json::Value::String(d.text.clone())),
                        ])
                    })
                    .collect(),
            ),
        ),
        ("policy_constraints", strings(&ctx.policy_constraints)),
    ])
}

fn assemble(
    assembly: &PromptContextAssembly,
    request: &NormalizedUserRequest,
    query: &StructuredUserQuery,
    cards: &CardHydrationOutput,
    evidence: &IncidentEvidenceRetrievalOutput,
    theory: &TheoryEvidenceRetrievalOutput,
) -> Result<PromptContextAssemblyOutput, PromptContextAssemblyError> {
    let plan = assembly.plan(request, query, cards, evidence, theory)?;
    let json = serde_json::to_string_pretty(&context_json(&plan.context)).unwrap();
    Ok(assembly.render(plan, &json))
}

fn assemble_with(
    primary_card: IncidentCard,
    primary_chunks: Vec<IncidentEvidenceChunk>,
) -> Result<PromptContextAssemblyOutput, PromptContextAssemblyError> {
    let assembly = make_assembly();
    let cards = CardHydrationOutput { primary: Some(primary_card), alternatives: vec![] };
    assemble(&assembly, &minimal_request(), &minimal_query(), &cards, &primary_evidence(primary_chunks), &no_theory())
}

fn extract_json_context(prompt: &str) -> serde_json::Value {
    let start = prompt.find(MARKER).expect("JSON context marker not found") + MARKER.len();
    serde_json::from_str(&prompt[start..]).expect("failed to parse JSON context")
}

fn roles_in(ctx: &serde_json::Value, role: &str) -> Vec<serde_json::Value> {
    ctx["incident_evidence_chunks"]
        .as_array()
        .unwrap()
        .iter()
        .filter(|c| c["role"] == role)
        .cloned()
        .collect()
}

fn string_array(v: &[&str]) -> serde_json::Value {
    serde_json::Value::Array(v.iter().map(|s| serde_json::Value::String(s.to_string())).collect())
}

// ─── Constructor ──────────────────────────────────────────────────────────────

#[test]
fn prompt_context_assembly_constructor_rejects_empty_prompt_asset_path() {
    let mut s = default_settings();
    s.prompt_asset_path = String::new();
    let err = new_assembly(s).expect_err("should fail — empty path");
    assert!(matches!(err, PromptContextAssemblyError::InvalidSettings(_)), "expected InvalidSettings, got: {err:?}");
}

#[test]
fn prompt_context_assembly_constructor_rejects_asset_missing_json_context_placeholder() {
    let mut a = asset();
    a.template = "no placeholder here".to_string();
    let err = PromptContextAssembly::new(default_settings(), a).expect_err("should fail — missing placeholder");
    assert!(matches!(err, PromptContextAssemblyError::PromptAsset(_)));
}

#[test]
fn constructor_rejects_asset_with_more_than_one_json_context_placeholder() {
    let mut a = asset();
    a.template = "{{json_context}} and {{json_context}}".to_string();
    let err = PromptContextAssembly::new(default_settings(), a).expect_err("should fail — duplicate placeholder");
    assert!(matches!(err, PromptContextAssemblyError::PromptAsset(_)));
}

#[test]
fn constructor_succeeds_with_valid_settings_and_asset() {
    assert!(new_assembly(default_settings()).is_ok());
}

#[test]
fn constructor_rejects_evidence_for_match_limit_zero() {
    let mut s = default_settings();
    s.chunk_packing.evidence_for_match.limit = 0;
    let err = new_assembly(s).expect_err("should fail");
    assert!(matches!(err, PromptContextAssemblyError::InvalidSettings(_)));
}

#[test]
fn constructor_rejects_first_check_hint_limit_zero() {
    let mut s = default_settings();
    s.chunk_packing.first_check_hint.limit = 0;
    let err = new_assembly(s).expect_err("should fail");
    assert!(matches!(err, PromptContextAssemblyError::InvalidSettings(_)));
}

#[test]
fn constructor_allows_supporting_explanation_limit_zero() {
    let mut s = default_settings();
    s.chunk_packing.supporting_explanation.limit = 0;
    assert!(new_assembly(s).is_ok());
}

#[test]
fn constructor_succeeds_supporting_explanation_limit_one() {
    let mut s = default_settings();
    s.chunk_packing.supporting_explanation.limit = 1;
    assert!(new_assembly(s).is_ok());
}

#[test]
fn constructor_allows_alternative_context_limit_zero() {
    let mut s = default_settings();
    s.chunk_packing.alternative_context.limit = 0;
    s.chunk_packing.alternative_context.per_case_limit = None;
    assert!(new_assembly(s).is_ok());
}

#[test]
fn constructor_allows_mechanism_explanation_limit_zero() {
    let mut s = default_settings();
    s.chunk_packing.mechanism_explanation.limit = 0;
    assert!(new_assembly(s).is_ok());
}

#[test]
fn constructor_rejects_evidence_for_match_wrong_source() {
    let mut s = default_settings();
    s.chunk_packing.evidence_for_match.source = ChunkPackingSource::Theory;
    let err = new_assembly(s).expect_err("should fail");
    assert!(matches!(err, PromptContextAssemblyError::InvalidSettings(_)));
}

#[test]
fn constructor_rejects_first_check_hint_wrong_source() {
    let mut s = default_settings();
    s.chunk_packing.first_check_hint.source = ChunkPackingSource::AlternativeIncident;
    let err = new_assembly(s).expect_err("should fail");
    assert!(matches!(err, PromptContextAssemblyError::InvalidSettings(_)));
}

#[test]
fn constructor_rejects_supporting_explanation_wrong_source() {
    let mut s = default_settings();
    s.chunk_packing.supporting_explanation.source = ChunkPackingSource::AlternativeIncident;
    let err = new_assembly(s).expect_err("should fail");
    assert!(matches!(err, PromptContextAssemblyError::InvalidSettings(_)));
}

#[test]
fn constructor_rejects_alternative_context_wrong_source() {
    let mut s = default_settings();
    s.chunk_packing.alternative_context.source = ChunkPackingSource::PrimaryIncident;
    let err = new_assembly(s).expect_err("should fail");
    assert!(matches!(err, PromptContextAssemblyError::InvalidSettings(_)));
}

#[test]
fn constructor_rejects_mechanism_explanation_wrong_source() {
    let mut s = default_settings();
    s.chunk_packing.mechanism_explanation.source = ChunkPackingSource::PrimaryIncident;
    let err = new_assembly(s).expect_err("should fail");
    assert!(matches!(err, PromptContextAssemblyError::InvalidSettings(_)));
}

#[test]
fn constructor_rejects_alt_context_limit_gt0_per_case_limit_none() {
    let mut s = default_settings();
    s.chunk_packing.alternative_context.limit = 2;
    s.chunk_packing.alternative_context.per_case_limit = None;
    let err = new_assembly(s).expect_err("should fail");
    assert!(matches!(err, PromptContextAssemblyError::InvalidSettings(_)));
}

#[test]
fn constructor_rejects_alt_context_limit_gt0_per_case_limit_zero() {
    let mut s = default_settings();
    s.chunk_packing.alternative_context.limit = 2;
    s.chunk_packing.alternative_context.per_case_limit = Some(0);
    let err = new_assembly(s).expect_err("should fail");
    assert!(matches!(err, PromptContextAssemblyError::InvalidSettings(_)));
}

#[test]
fn constructor_accepts_alt_context_per_case_limit_none_when_limit_is_zero() {
    let mut s = default_settings();
    s.chunk_packing.alternative_context.limit = 0;
    s.chunk_packing.alternative_context.per_case_limit = None;
    assert!(new_assembly(s).is_ok());
}

#[test]
fn constructor_accepts_any_per_case_limit_when_alt_context_limit_is_zero() {
    let mut s = default_settings();
    s.chunk_packing.alternative_context.limit = 0;
    s.chunk_packing.alternative_context.per_case_limit = Some(999);
    assert!(new_assembly(s).is_ok());
}

#[test]
fn constructor_rejects_mechanism_explanation_nonempty_tag_priority() {
    let mut s = default_settings();
    s.chunk_packing.mechanism_explanation.tag_priority = vec![IncidentChunkTag::Symptom];
    let err = new_assembly(s).expect_err("should fail");
    assert!(matches!(err, PromptContextAssemblyError::InvalidSettings(_)));
}

#[test]
fn constructor_rejects_mechanism_explanation_limit_above_one() {
    let mut s = default_settings();
    s.chunk_packing.mechanism_explanation.limit = 2;
    let err = new_assembly(s).unwrap_err();
    assert!(matches!(
        err,
        PromptContextAssemblyError::InvalidSettings(message)
        if message == "mechanism_explanation.limit must be <= 1"
    ));
}

#[test]
fn constructor_reports_first_settings_problem_in_order() {
    let mut s = default_settings();
    s.chunk_packing.evidence_for_match.source = ChunkPackingSource::Theory;
    s.chunk_packing.mechanism_explanation.limit = 2;
    assert_eq!(
        new_assembly(s).unwrap_err(),
        PromptContextAssemblyError::InvalidSettings(
            "evidence_for_match.source must be PrimaryIncident".to_string()
        )
    );
}

#[test]
fn constructor_rejects_template_without_context_placeholder() {
    let mut a = asset();
    a.template = "no placeholder here".to_string();
    let err = PromptContextAssembly::new(default_settings(), a).unwrap_err();
    assert_eq!(
        err,
        PromptContextAssemblyError::PromptAsset(
            "template must contain exactly one {{json_context}} placeholder".to_string()
        )
    );
}

#[test]
fn constructor_rejects_template_with_two_context_placeholders() {
    let mut a = asset();
    a.template = "{{json_context}} and {{json_context}}".to_string();
    let err = PromptContextAssembly::new(default_settings(), a).unwrap_err();
    assert_eq!(
        err,
        PromptContextAssemblyError::PromptAsset(
            "template must contain exactly one {{json_context}} placeholder, found more than one"
                .to_string()
        )
    );
}

#[test]
fn constructor_rejects_other_context_placeholder_name() {
    let mut a = asset();
    a.template = "{{json_context}}".to_string();
    a.context_placeholder = "{{ctx}}".to_string();
    let err = PromptContextAssembly::new(default_settings(), a).unwrap_err();
    assert_eq!(
        err,
        PromptContextAssemblyError::PromptAsset(
            "context_placeholder must be '{{json_context}}', got '{{ctx}}'".to_string()
        )
    );
}

#[test]
fn constructor_rejects_extra_required_placeholders() {
    let mut a = asset();
    a.required_placeholders = vec!["json_context".to_string(), "other".to_string()];
    let err = PromptContextAssembly::new(default_settings(), a).unwrap_err();
    assert_eq!(
        err,
        PromptContextAssemblyError::PromptAsset(
            "required_placeholders must contain exactly [\"json_context\"]".to_string()
        )
    );
}

#[test]
fn constructor_rejects_asset_with_empty_policy_constraints() {
    let mut a = asset();
    a.policy_constraints = vec![];
    let err = PromptContextAssembly::new(default_settings(), a).unwrap_err();
    assert_eq!(
        err,
        PromptContextAssemblyError::PromptAsset("policy_constraints must be non-empty".to_string())
    );
}

#[test]
fn constructor_rejects_non_object_response_schema() {
    let mut a = asset();
    a.response_schema = JsonValue::Array(vec![]);
    let err = PromptContextAssembly::new(default_settings(), a).unwrap_err();
    assert_eq!(
        err,
        PromptContextAssemblyError::PromptAsset("response_schema must be a JSON object".to_string())
    );
}

// ─── Primary card ─────────────────────────────────────────────────────────────

#[test]
fn assemble_fails_when_primary_card_is_none() {
    let assembly = make_assembly();
    let cards = CardHydrationOutput { primary: None, alternatives: vec![] };
    let err = assemble(&assembly, &minimal_request(), &minimal_query(), &cards, &primary_evidence(vec![]), &no_theory())
        .expect_err("should fail — no primary card");
    assert!(matches!(err, PromptContextAssemblyError::MissingPrimaryCard));
}

#[test]
fn assemble_includes_primary_card_as_matched_incident_card() {
    let mut card = minimal_card("case_a");
    card.vendor_or_project = Some("etcd".to_string());
    card.system_type = Some("coordination store".to_string());
    card.affected_components = vec!["lock_service".to_string()];
    card.canonical_symptoms = vec!["duplicate_lock_holders".to_string()];
    card.failure_mode_candidates = vec!["lock_ownership_violation".to_string()];
    card.candidate_explanations = vec!["lock ownership may not be exclusive".to_string()];
    card.diagnostic_patterns = vec!["healthy kv behavior can coexist with unsafe locks".to_string()];
    card.discriminating_checks = vec![DiscriminatingCheck {
        question: "Do conflicts cluster around lease expiry?".to_string(),
    }];
    card.investigation_steps = vec!["Correlate failures with lease timing and lock wait paths.".to_string()];
    let out = assemble_with(card, two_primary_chunks("case_a")).unwrap();
    let ctx = extract_json_context(&out.prompt);
    assert!(ctx["matched_incident_card"].get("context").is_some());
    assert!(ctx["matched_incident_card"].get("hypotheses").is_some());
    assert!(ctx["matched_incident_card"].get("checks").is_some());
    assert!(ctx["matched_incident_card"].get("case_id").is_none());
    assert!(ctx["matched_incident_card"].get("title").is_none());
    assert!(ctx["matched_incident_card"].get("source_name").is_none());
    assert_eq!(ctx["matched_incident_card"]["context"]["systems"], string_array(&["etcd", "coordination store"]));
    assert_eq!(
        ctx["matched_incident_card"]["checks"]["discriminating_checks"],
        string_array(&["Correlate failures with lease timing and lock wait paths."])
    );
}

#[test]
fn assemble_excludes_full_alternative_cards() {
    let assembly = make_assembly();
    let cards = CardHydrationOutput {
        primary: Some(minimal_card("primary_case")),
        alternatives: vec![minimal_card("alt_case")],
    };
    let out = assemble(
        &assembly,
        &minimal_request(),
        &minimal_query(),
        &cards,
        &primary_evidence(two_primary_chunks("primary_case")),
        &no_theory(),
    )
    .unwrap();
    let json_start = out.prompt.find("JSON context follows:").unwrap();
    let json_part = &out.prompt[json_start..];
    assert!(!json_part.contains("\"alternatives\""));
}

// ─── Normalized incident query ───────────────────────────────────────────────

fn assemble_query(query: &StructuredUserQuery, request: &NormalizedUserRequest) -> serde_json::Value {
    let assembly = make_assembly();
    let cards = CardHydrationOutput { primary: Some(minimal_card("case_a")), alternatives: vec![] };
    let out = assemble(&assembly, request, query, &cards, &primary_evidence(two_primary_chunks("case_a")), &no_theory()).unwrap();
    extract_json_context(&out.prompt)
}

#[test]
fn assemble_copies_user_problem_from_request_query() {
    let request = NormalizedUserRequest { query: "specific query text".to_string(), input_token_count: 3 };
    let ctx = assemble_query(&minimal_query(), &request);
    assert_eq!(ctx["user_problem"], "specific query text");
}

#[test]
fn assemble_builds_recognized_canonical_symptoms_from_symptoms_terms() {
    let ctx = assemble_query(&query_with(&["lost_writes", "read_skew"], &[], &[], &[], &[]), &minimal_request());
    assert_eq!(
        ctx["normalized_incident_query"]["recognized_canonical_symptoms"],
        string_array(&["lost_writes", "read_skew"])
    );
}

#[test]
fn assemble_builds_affected_components_from_subsystems_terms() {
    let ctx = assemble_query(&query_with(&[], &["transaction_api", "retry_mechanism"], &[], &[], &[]), &minimal_request());
    assert_eq!(
        ctx["normalized_incident_query"]["affected_components"],
        string_array(&["transaction_api", "retry_mechanism"])
    );
}

#[test]
fn assemble_builds_failure_mode_candidates_from_failure_modes_terms() {
    let ctx = assemble_query(&query_with(&[], &[], &["transaction_retry_bug"], &[], &[]), &minimal_request());
    assert_eq!(ctx["normalized_incident_query"]["failure_mode_candidates"], string_array(&["transaction_retry_bug"]));
}

#[test]
fn assemble_builds_signals_present_with_deduplication() {
    let query = query_with(
        &["lost_writes", "read_skew"],
        &[],
        &[],
        &["network issues"],
        &["inconsistent reads", "lost_writes"],
    );
    let ctx = assemble_query(&query, &minimal_request());
    let signals = ctx["normalized_incident_query"]["signals_present"].as_array().unwrap();
    let signal_strs: Vec<&str> = signals.iter().map(|v| v.as_str().unwrap()).collect();
    assert_eq!(signal_strs.iter().filter(|&&s| s == "lost_writes").count(), 1, "dedup should eliminate duplicate");
    assert_eq!(signal_strs[0], "lost_writes");
    assert_eq!(signal_strs[1], "read_skew");
    assert_eq!(signal_strs[2], "network issues");
    assert_eq!(signal_strs[3], "inconsistent reads");
}

#[test]
fn assemble_emits_unmapped_user_symptoms_as_empty_array() {
    let out = assemble_with(minimal_card("case_a"), two_primary_chunks("case_a")).unwrap();
    let ctx = extract_json_context(&out.prompt);
    assert_eq!(ctx["normalized_incident_query"]["unmapped_user_symptoms"], string_array(&[]));
}

#[test]
fn assemble_emits_observed_phase_as_empty_array() {
    let out = assemble_with(minimal_card("case_a"), two_primary_chunks("case_a")).unwrap();
    let ctx = extract_json_context(&out.prompt);
    assert_eq!(ctx["normalized_incident_query"]["observed_phase"], string_array(&[]));
}

#[test]
fn assemble_emits_missing_signals_as_empty_array() {
    let out = assemble_with(minimal_card("case_a"), two_primary_chunks("case_a")).unwrap();
    let ctx = extract_json_context(&out.prompt);
    assert_eq!(ctx["normalized_incident_query"]["missing_signals"], string_array(&[]));
}

#[test]
fn assemble_does_not_include_internal_fields_in_prompt_context() {
    let out = assemble_with(minimal_card("case_a"), two_primary_chunks("case_a")).unwrap();
    let ctx = extract_json_context(&out.prompt);
    let niq = &ctx["normalized_incident_query"];
    assert!(niq.get("evidence_span").is_none());
    assert!(niq.get("support_level").is_none());
    assert!(niq.get("rejected_nearby_terms").is_none());
    assert!(niq.get("token_usage").is_none());
}

#[test]
fn assemble_does_not_fail_when_source_arrays_are_empty() {
    let ctx = assemble_query(&query_with(&[], &[], &[], &[], &[]), &minimal_request());
    assert_eq!(ctx["normalized_incident_query"]["recognized_canonical_symptoms"], string_array(&[]));
}

#[test]
fn assemble_includes_task_diagnostic_response() {
    let out = assemble_with(minimal_card("case_a"), two_primary_chunks("case_a")).unwrap();
    let ctx = extract_json_context(&out.prompt);
    assert_eq!(ctx["task"], "diagnostic_response");
}

#[test]
fn assemble_includes_policy_constraints_from_asset() {
    let out = assemble_with(minimal_card("case_a"), two_primary_chunks("case_a")).unwrap();
    let ctx = extract_json_context(&out.prompt);
    assert!(ctx["policy_constraints"].as_array().map(|a| !a.is_empty()).unwrap_or(false));
}

#[test]
fn assemble_returns_nonempty_prompt_string() {
    let out = assemble_with(minimal_card("case_a"), two_primary_chunks("case_a")).unwrap();
    assert!(!out.prompt.is_empty());
}

#[test]
fn rendered_prompt_contains_json_context_follows_marker() {
    let out = assemble_with(minimal_card("case_a"), two_primary_chunks("case_a")).unwrap();
    assert!(out.prompt.contains("JSON context follows:"));
}

#[test]
fn rendered_prompt_contains_valid_json_context_after_marker() {
    let out = assemble_with(minimal_card("case_a"), two_primary_chunks("case_a")).unwrap();
    let _ctx = extract_json_context(&out.prompt);
}

// ─── Chunk selection and role serialization ──────────────────────────────────

#[test]
fn rendered_prompt_embeds_incident_chunks_with_manual_prompt_fields() {
    let out = assemble_with(minimal_card("case_a"), two_primary_chunks("case_a")).unwrap();
    let ctx = extract_json_context(&out.prompt);
    let chunks_json = ctx["incident_evidence_chunks"].as_array().unwrap();
    assert!(!chunks_json.is_empty());
    for c in chunks_json {
        let role = c["role"].as_str().unwrap();
        assert!(
            ["evidence_for_match", "first_check_hint", "supporting_explanation", "alternative_context"].contains(&role),
            "unexpected role: {role}"
        );
        assert!(c.get("chunk_id").is_none());
        assert!(c.get("case_id").is_none());
        assert!(c.get("score").is_none());
        assert_eq!(c["source_document_id"], "case_a");
        for tag in c["chunk_tags"].as_array().unwrap() {
            let t = tag.as_str().unwrap();
            assert!(t.starts_with("chunk_role:"), "tag should be canonical: {t}");
        }
    }
}

#[test]
fn rendered_prompt_serializes_all_roles_through_snake_case_mapping() {
    let mut s = default_settings();
    s.chunk_packing.supporting_explanation.limit = 1;
    s.chunk_packing.supporting_explanation.tag_priority = vec![IncidentChunkTag::ContributingFactor];
    s.chunk_packing.alternative_context.limit = 1;
    s.chunk_packing.alternative_context.per_case_limit = Some(1);
    s.chunk_packing.mechanism_explanation.limit = 1;
    let assembly = new_assembly(s).unwrap();
    let primary_chunks = vec![
        chunk("c1", "case_a", 0.9, &["chunk_role:symptom"], "symptom text"),
        chunk("c2", "case_a", 0.8, &["chunk_role:diagnostic_step"], "step text"),
        chunk("c3", "case_a", 0.7, &["chunk_role:contributing_factor"], "contributing text"),
    ];
    let cards = CardHydrationOutput { primary: Some(minimal_card("case_a")), alternatives: vec![minimal_card("alt_a")] };
    let evidence = IncidentEvidenceRetrievalOutput {
        primary_chunks,
        alternative_chunks: vec![chunk("ca1", "alt_a", 0.6, &["chunk_role:failure_mode"], "alt text")],
    };
    let theory = TheoryEvidenceRetrievalOutput { chunks: vec![theory_chunk("t1", 0.5, "theory text")] };
    let out = assemble(&assembly, &minimal_request(), &minimal_query(), &cards, &evidence, &theory).unwrap();
    let ctx = extract_json_context(&out.prompt);
    let incident_roles: Vec<&str> =
        ctx["incident_evidence_chunks"].as_array().unwrap().iter().map(|c| c["role"].as_str().unwrap()).collect();
    assert!(incident_roles.contains(&"evidence_for_match"));
    assert!(incident_roles.contains(&"first_check_hint"));
    assert!(incident_roles.contains(&"supporting_explanation"));
    assert!(incident_roles.contains(&"alternative_context"));
    let theory_roles: Vec<&str> =
        ctx["theory_chunks"].as_array().unwrap().iter().map(|c| c["role"].as_str().unwrap()).collect();
    assert!(theory_roles.contains(&"mechanism_explanation"));
}

#[test]
fn evidence_for_match_uses_configured_tag_priority_before_score() {
    let chunks = vec![
        chunk("c1", "case_a", 0.5, &["chunk_role:symptom"], "symptom"),
        chunk("c2", "case_a", 0.95, &["chunk_role:lesson"], "lesson"),
    ];
    let out = assemble_with(minimal_card("case_a"), chunks).unwrap();
    let ctx = extract_json_context(&out.prompt);
    assert_eq!(roles_in(&ctx, "evidence_for_match")[0]["text"], "symptom");
}

#[test]
fn first_check_hint_uses_configured_tag_priority_before_score() {
    let chunks = vec![
        chunk("c1", "case_a", 0.9, &["chunk_role:symptom"], "symptom"),
        chunk("c2", "case_a", 0.6, &["chunk_role:diagnostic_step"], "diag step"),
        chunk("c3", "case_a", 0.85, &["chunk_role:investigation"], "investigation"),
    ];
    let out = assemble_with(minimal_card("case_a"), chunks).unwrap();
    let ctx = extract_json_context(&out.prompt);
    assert_eq!(roles_in(&ctx, "first_check_hint")[0]["text"], "diag step");
}

#[test]
fn supporting_explanation_uses_configured_tag_priority_before_score() {
    let chunks = vec![
        chunk("c1", "case_a", 0.9, &["chunk_role:symptom"], "symptom"),
        chunk("c2", "case_a", 0.8, &["chunk_role:diagnostic_step"], "diag"),
        chunk("c3", "case_a", 0.3, &["chunk_role:contributing_factor"], "contrib"),
        chunk("c4", "case_a", 0.99, &["chunk_role:lesson"], "lesson"),
    ];
    let out = assemble_with(minimal_card("case_a"), chunks).unwrap();
    let ctx = extract_json_context(&out.prompt);
    assert_eq!(roles_in(&ctx, "supporting_explanation")[0]["text"], "contrib");
}

#[test]
fn when_two_chunks_match_same_priority_higher_score_wins() {
    let chunks = vec![
        chunk("c1", "case_a", 0.5, &["chunk_role:symptom"], "low-score symptom"),
        chunk("c2", "case_a", 0.9, &["chunk_role:symptom"], "high-score symptom"),
        chunk("c3", "case_a", 0.7, &["chunk_role:diagnostic_step"], "diag step"),
    ];
    let out = assemble_with(minimal_card("case_a"), chunks).unwrap();
    let ctx = extract_json_context(&out.prompt);
    assert_eq!(roles_in(&ctx, "evidence_for_match")[0]["text"], "high-score symptom");
}

#[test]
fn when_priority_and_score_tie_original_order_wins() {
    let chunks = vec![
        chunk("c1", "case_a", 0.8, &["chunk_role:symptom"], "first"),
        chunk("c2", "case_a", 0.8, &["chunk_role:symptom"], "second"),
        chunk("c3", "case_a", 0.7, &["chunk_role:diagnostic_step"], "diag"),
    ];
    let out = assemble_with(minimal_card("case_a"), chunks).unwrap();
    let ctx = extract_json_context(&out.prompt);
    assert_eq!(roles_in(&ctx, "evidence_for_match")[0]["text"], "first");
}

#[test]
fn chunks_with_multiple_tags_use_best_matching_tag_for_role() {
    let chunks = vec![
        chunk("c1", "case_a", 0.7, &["chunk_role:failure_mode", "chunk_role:symptom"], "multi-tag"),
        chunk("c2", "case_a", 0.6, &["chunk_role:diagnostic_step"], "diag"),
    ];
    let out = assemble_with(minimal_card("case_a"), chunks).unwrap();
    let ctx = extract_json_context(&out.prompt);
    assert_eq!(roles_in(&ctx, "evidence_for_match")[0]["text"], "multi-tag");
}

fn assemble_settings(
    s: PromptContextSettings,
    cards: CardHydrationOutput,
    evidence: IncidentEvidenceRetrievalOutput,
    theory: TheoryEvidenceRetrievalOutput,
) -> Result<PromptContextAssemblyOutput, PromptContextAssemblyError> {
    let assembly = new_assembly(s).unwrap();
    assemble(&assembly, &minimal_request(), &minimal_query(), &cards, &evidence, &theory)
}

#[test]
fn unknown_collection_returned_tags_are_ignored_for_role_matching() {
    let mut s = default_settings();
    s.chunk_packing.evidence_for_match.fallback_to_any_chunk = true;
    s.chunk_packing.evidence_for_match.tag_priority = vec![IncidentChunkTag::Symptom];
    let chunks = vec![
        chunk("c1", "case_a", 0.5, &["chunk_role:unknown_xyz"], "unknown tag chunk"),
        chunk("c2", "case_a", 0.7, &["chunk_role:diagnostic_step"], "diag"),
    ];
    let cards = CardHydrationOutput { primary: Some(minimal_card("case_a")), alternatives: vec![] };
    let out = assemble_settings(s, cards, primary_evidence(chunks), no_theory()).unwrap();
    let ctx = extract_json_context(&out.prompt);
    assert!(!roles_in(&ctx, "evidence_for_match").is_empty());
}

#[test]
fn fallback_chunks_considered_only_when_fallback_to_any_chunk_is_true() {
    let mut s = default_settings();
    s.chunk_packing.evidence_for_match.fallback_to_any_chunk = false;
    s.chunk_packing.evidence_for_match.tag_priority = vec![IncidentChunkTag::Symptom];
    let chunks = vec![chunk("c1", "case_a", 0.9, &["chunk_role:lesson"], "no match")];
    let cards = CardHydrationOutput { primary: Some(minimal_card("case_a")), alternatives: vec![] };
    let err = assemble_settings(s, cards, primary_evidence(chunks), no_theory()).expect_err("should fail — no eligible chunk");
    assert!(matches!(err, PromptContextAssemblyError::MissingRequiredEvidence { .. }));
}

#[test]
fn required_role_fails_with_missing_required_evidence_when_no_eligible_chunk_and_fallback_disabled() {
    let mut s = default_settings();
    s.chunk_packing.evidence_for_match.fallback_to_any_chunk = false;
    s.chunk_packing.evidence_for_match.tag_priority = vec![IncidentChunkTag::Symptom];
    let cards = CardHydrationOutput { primary: Some(minimal_card("case_a")), alternatives: vec![] };
    let err = assemble_settings(s, cards, primary_evidence(vec![]), no_theory()).expect_err("should fail");
    assert_eq!(err, PromptContextAssemblyError::MissingRequiredEvidence { role: PromptEvidenceRole::EvidenceForMatch });
}

#[test]
fn selected_chunks_are_not_duplicated_across_required_roles_when_distinct_exists() {
    let out = assemble_with(minimal_card("case_a"), two_primary_chunks("case_a")).unwrap();
    let ctx = extract_json_context(&out.prompt);
    let texts: Vec<String> = ctx["incident_evidence_chunks"]
        .as_array()
        .unwrap()
        .iter()
        .filter(|c| c["role"] == "evidence_for_match" || c["role"] == "first_check_hint")
        .map(|c| c["text"].as_str().unwrap().to_string())
        .collect();
    let unique: std::collections::HashSet<_> = texts.iter().collect();
    assert_eq!(texts.len(), unique.len());
}

#[test]
fn duplicate_chunk_reuse_allowed_for_required_role_when_no_distinct_chunk_available() {
    let mut s = default_settings();
    s.chunk_packing.evidence_for_match.fallback_to_any_chunk = true;
    s.chunk_packing.evidence_for_match.tag_priority = vec![IncidentChunkTag::Symptom];
    s.chunk_packing.first_check_hint.fallback_to_any_chunk = true;
    s.chunk_packing.first_check_hint.tag_priority = vec![IncidentChunkTag::DiagnosticStep];
    s.chunk_packing.supporting_explanation.limit = 0;
    let chunks = vec![chunk("c1", "case_a", 0.9, &["chunk_role:symptom"], "symptom only")];
    let cards = CardHydrationOutput { primary: Some(minimal_card("case_a")), alternatives: vec![] };
    let out = assemble_settings(s, cards, primary_evidence(chunks), no_theory()).unwrap();
    let ctx = extract_json_context(&out.prompt);
    assert_eq!(roles_in(&ctx, "evidence_for_match").len(), 1);
    assert_eq!(roles_in(&ctx, "first_check_hint").len(), 1);
}

#[test]
fn optional_supporting_explanation_does_not_reuse_duplicate_when_no_distinct_chunk() {
    let mut s = default_settings();
    s.chunk_packing.supporting_explanation.fallback_to_any_chunk = false;
    s.chunk_packing.supporting_explanation.tag_priority = vec![IncidentChunkTag::Symptom];
    let chunks = vec![
        chunk("c1", "case_a", 0.9, &["chunk_role:symptom"], "symptom"),
        chunk("c2", "case_a", 0.7, &["chunk_role:diagnostic_step"], "diag"),
    ];
    let cards = CardHydrationOutput { primary: Some(minimal_card("case_a")), alternatives: vec![] };
    let out = assemble_settings(s, cards, primary_evidence(chunks), no_theory()).unwrap();
    let ctx = extract_json_context(&out.prompt);
    assert_eq!(roles_in(&ctx, "supporting_explanation").len(), 0, "optional role must not reuse a duplicate");
}

// ─── Alternative context ─────────────────────────────────────────────────────

#[test]
fn alternative_context_limit_zero_selects_no_alternative_chunks() {
    let mut s = default_settings();
    s.chunk_packing.alternative_context.limit = 0;
    let cards = CardHydrationOutput { primary: Some(minimal_card("case_a")), alternatives: vec![minimal_card("alt_a")] };
    let evidence = IncidentEvidenceRetrievalOutput {
        primary_chunks: two_primary_chunks("case_a"),
        alternative_chunks: vec![chunk("ca1", "alt_a", 0.7, &["chunk_role:failure_mode"], "alt")],
    };
    let out = assemble_settings(s, cards, evidence, no_theory()).unwrap();
    let ctx = extract_json_context(&out.prompt);
    assert_eq!(roles_in(&ctx, "alternative_context").len(), 0);
}

#[test]
fn alternative_context_round_robin_follows_alt_cards_order() {
    let mut s = default_settings();
    s.chunk_packing.alternative_context.limit = 2;
    s.chunk_packing.alternative_context.per_case_limit = Some(1);
    s.chunk_packing.alternative_context.tag_priority = vec![IncidentChunkTag::FailureMode];
    let cards = CardHydrationOutput {
        primary: Some(minimal_card("primary")),
        alternatives: vec![minimal_card("alt_a"), minimal_card("alt_b")],
    };
    let evidence = IncidentEvidenceRetrievalOutput {
        primary_chunks: two_primary_chunks("primary"),
        alternative_chunks: vec![
            chunk("cb1", "alt_b", 0.9, &["chunk_role:failure_mode"], "alt_b first"),
            chunk("ca1", "alt_a", 0.7, &["chunk_role:failure_mode"], "alt_a first"),
        ],
    };
    let out = assemble_settings(s, cards, evidence, no_theory()).unwrap();
    let ctx = extract_json_context(&out.prompt);
    let ac = roles_in(&ctx, "alternative_context");
    assert_eq!(ac[0]["source_document_id"], "alt_a");
    assert_eq!(ac[1]["source_document_id"], "alt_b");
}

#[test]
fn alternative_context_respects_per_case_limit() {
    let mut s = default_settings();
    s.chunk_packing.alternative_context.limit = 4;
    s.chunk_packing.alternative_context.per_case_limit = Some(1);
    s.chunk_packing.alternative_context.tag_priority = vec![IncidentChunkTag::FailureMode];
    s.chunk_packing.alternative_context.fallback_to_any_chunk = true;
    let cards = CardHydrationOutput { primary: Some(minimal_card("primary")), alternatives: vec![minimal_card("alt_a")] };
    let evidence = IncidentEvidenceRetrievalOutput {
        primary_chunks: two_primary_chunks("primary"),
        alternative_chunks: vec![
            chunk("ca1", "alt_a", 0.9, &["chunk_role:failure_mode"], "first"),
            chunk("ca2", "alt_a", 0.8, &["chunk_role:failure_mode"], "second"),
            chunk("ca3", "alt_a", 0.7, &["chunk_role:failure_mode"], "third"),
        ],
    };
    let out = assemble_settings(s, cards, evidence, no_theory()).unwrap();
    let ctx = extract_json_context(&out.prompt);
    assert_eq!(roles_in(&ctx, "alternative_context").len(), 1, "per_case_limit=1 should cap alt_a at 1");
}

#[test]
fn alternative_context_is_optional_when_no_alt_chunks_exist() {
    let out = assemble_with(minimal_card("case_a"), two_primary_chunks("case_a")).unwrap();
    let ctx = extract_json_context(&out.prompt);
    assert_eq!(roles_in(&ctx, "alternative_context").len(), 0);
}

#[test]
fn competing_precedent_context_is_not_rendered() {
    let out = assemble_with(minimal_card("case_a"), two_primary_chunks("case_a")).unwrap();
    let ctx = extract_json_context(&out.prompt);
    assert!(ctx.get("competing_precedent_context").is_none());
}

// ─── Theory chunks ────────────────────────────────────────────────────────────

#[test]
fn theory_chunk_selection_is_capped_at_one() {
    let mut s = default_settings();
    s.chunk_packing.mechanism_explanation.limit = 1;
    let cards = CardHydrationOutput { primary: Some(minimal_card("case_a")), alternatives: vec![] };
    let theory = TheoryEvidenceRetrievalOutput {
        chunks: vec![
            theory_chunk("t1", 0.9, "first theory"),
            theory_chunk("t2", 0.8, "second theory"),
            theory_chunk("t3", 0.7, "third theory"),
        ],
    };
    let out = assemble_settings(s, cards, primary_evidence(two_primary_chunks("case_a")), theory).unwrap();
    let ctx = extract_json_context(&out.prompt);
    assert_eq!(ctx["theory_chunks"].as_array().unwrap().len(), 1);
}

#[test]
fn mechanism_explanation_limit_zero_selects_no_theory_chunks() {
    let mut s = default_settings();
    s.chunk_packing.mechanism_explanation.limit = 0;
    let cards = CardHydrationOutput { primary: Some(minimal_card("case_a")), alternatives: vec![] };
    let theory = TheoryEvidenceRetrievalOutput { chunks: vec![theory_chunk("t1", 0.9, "theory text")] };
    let out = assemble_settings(s, cards, primary_evidence(two_primary_chunks("case_a")), theory).unwrap();
    let ctx = extract_json_context(&out.prompt);
    assert_eq!(ctx["theory_chunks"].as_array().unwrap().len(), 0);
}

#[test]
fn empty_theory_evidence_is_not_an_error() {
    assert!(assemble_with(minimal_card("case_a"), two_primary_chunks("case_a")).is_ok());
}

// ─── Consistency checks ──────────────────────────────────────────────────────

#[test]
fn primary_chunk_with_wrong_case_id_fails_with_inconsistent_evidence() {
    let chunks = vec![
        chunk("c1", "case_b", 0.9, &["chunk_role:symptom"], "wrong case"),
        chunk("c2", "case_b", 0.7, &["chunk_role:diagnostic_step"], "wrong case step"),
    ];
    let err = assemble_with(minimal_card("case_a"), chunks).expect_err("should fail — inconsistent case_id");
    assert_eq!(
        err,
        PromptContextAssemblyError::InconsistentEvidence(
            "primary chunk 'c1' case_id 'case_b' does not match primary card 'case_a'".to_string()
        )
    );
}

#[test]
fn alt_chunk_with_no_hydrated_alt_card_fails_with_inconsistent_evidence() {
    let mut s = default_settings();
    s.chunk_packing.alternative_context.limit = 1;
    s.chunk_packing.alternative_context.per_case_limit = Some(1);
    s.chunk_packing.alternative_context.tag_priority = vec![IncidentChunkTag::FailureMode];
    let cards = CardHydrationOutput { primary: Some(minimal_card("primary")), alternatives: vec![] };
    let evidence = IncidentEvidenceRetrievalOutput {
        primary_chunks: two_primary_chunks("primary"),
        alternative_chunks: vec![chunk("ca1", "alt_a", 0.7, &["chunk_role:failure_mode"], "alt text")],
    };
    let err = assemble_settings(s, cards, evidence, no_theory()).expect_err("should fail — no alt card");
    assert_eq!(
        err,
        PromptContextAssemblyError::InconsistentEvidence(
            "alternative chunk 'ca1' case_id 'alt_a' has no hydrated alternative card".to_string()
        )
    );
}

// ─── Output ──────────────────────────────────────────────────────────────────

#[test]
fn output_returns_selected_incident_chunks_separately_from_prompt() {
    let out = assemble_with(minimal_card("case_a"), two_primary_chunks("case_a")).unwrap();
    assert!(!out.incident_evidence_chunks.is_empty());
}

#[test]
fn output_returns_selected_theory_chunks_separately_from_prompt() {
    let mut s = default_settings();
    s.chunk_packing.mechanism_explanation.limit = 1;
    let cards = CardHydrationOutput { primary: Some(minimal_card("case_a")), alternatives: vec![] };
    let theory = TheoryEvidenceRetrievalOutput { chunks: vec![theory_chunk("t1", 0.8, "theory")] };
    let out = assemble_settings(s, cards, primary_evidence(two_primary_chunks("case_a")), theory).unwrap();
    assert_eq!(out.theory_chunks.len(), 1);
}

#[test]
fn chunks_returned_separately_match_chunks_embedded_in_prompt() {
    let out = assemble_with(minimal_card("case_a"), two_primary_chunks("case_a")).unwrap();
    let ctx = extract_json_context(&out.prompt);
    let embedded_texts: Vec<String> = ctx["incident_evidence_chunks"]
        .as_array()
        .unwrap()
        .iter()
        .map(|c| c["text"].as_str().unwrap().to_string())
        .collect();
    let returned_texts: Vec<String> = out.incident_evidence_chunks.iter().map(|c| c.text.clone()).collect();
    assert_eq!(embedded_texts, returned_texts);
}

#[test]
fn selected_incident_chunks_preserve_raw_runtime_fields_while_prompt_is_compact() {
    let out = assemble_with(minimal_card("case_a"), two_primary_chunks("case_a")).unwrap();
    let efm = out
        .incident_evidence_chunks
        .iter()
        .find(|c| c.role == PromptEvidenceRole::EvidenceForMatch)
        .unwrap();
    assert_eq!(efm.case_id, "case_a");
    assert!((f32::from_bits(efm.score_bits) - 0.9).abs() < 1e-5);
    assert_eq!(efm.text, "symptom text");
}

#[test]
fn selected_incident_chunks_return_recognized_tags_as_typed_incident_chunk_tag() {
    let chunks = vec![
        chunk("c1", "case_a", 0.9, &["chunk_role:symptom", "chunk_role:unknown_xyz"], "text"),
        chunk("c2", "case_a", 0.7, &["chunk_role:diagnostic_step"], "diag"),
    ];
    let out = assemble_with(minimal_card("case_a"), chunks).unwrap();
    let efm = out
        .incident_evidence_chunks
        .iter()
        .find(|c| c.role == PromptEvidenceRole::EvidenceForMatch)
        .unwrap();
    assert_eq!(efm.chunk_tags, vec![IncidentChunkTag::Symptom]);
}

#[test]
fn selected_theory_chunks_preserve_raw_runtime_fields_while_prompt_is_compact() {
    let mut s = default_settings();
    s.chunk_packing.mechanism_explanation.limit = 1;
    let cards = CardHydrationOutput { primary: Some(minimal_card("case_a")), alternatives: vec![] };
    let theory = TheoryEvidenceRetrievalOutput { chunks: vec![theory_chunk("t42", 0.77, "theory content")] };
    let out = assemble_settings(s, cards, primary_evidence(two_primary_chunks("case_a")), theory).unwrap();
    let t = &out.theory_chunks[0];
    assert_eq!(t.chunk_id, "t42");
    assert!((f32::from_bits(t.score_bits) - 0.77).abs() < 1e-5);
    assert_eq!(t.text, "theory content");
}

#[test]
fn selected_incident_chunks_are_emitted_in_role_order() {
    let mut s = default_settings();
    s.chunk_packing.supporting_explanation.limit = 1;
    s.chunk_packing.supporting_explanation.tag_priority = vec![IncidentChunkTag::ContributingFactor];
    s.chunk_packing.alternative_context.limit = 1;
    s.chunk_packing.alternative_context.per_case_limit = Some(1);
    s.chunk_packing.alternative_context.tag_priority = vec![IncidentChunkTag::FailureMode];
    let cards = CardHydrationOutput { primary: Some(minimal_card("primary")), alternatives: vec![minimal_card("alt_a")] };
    let evidence = IncidentEvidenceRetrievalOutput {
        primary_chunks: vec![
            chunk("c1", "primary", 0.9, &["chunk_role:symptom"], "symptom"),
            chunk("c2", "primary", 0.8, &["chunk_role:diagnostic_step"], "step"),
            chunk("c3", "primary", 0.5, &["chunk_role:contributing_factor"], "contrib"),
        ],
        alternative_chunks: vec![chunk("ca1", "alt_a", 0.7, &["chunk_role:failure_mode"], "alt")],
    };
    let out = assemble_settings(s, cards, evidence, no_theory()).unwrap();
    let roles: Vec<PromptEvidenceRole> = out.incident_evidence_chunks.iter().map(|c| c.role).collect();
    assert_eq!(
        roles,
        vec![
            PromptEvidenceRole::EvidenceForMatch,
            PromptEvidenceRole::FirstCheckHint,
            PromptEvidenceRole::SupportingExplanation,
            PromptEvidenceRole::AlternativeContext,
        ]
    );
}

#[test]
fn no_unselected_chunks_in_output() {
    let mut s = default_settings();
    s.chunk_packing.supporting_explanation.limit = 1;
    s.chunk_packing.supporting_explanation.tag_priority = vec![IncidentChunkTag::ContributingFactor];
    let chunks = vec![
        chunk("c1", "case_a", 0.9, &["chunk_role:symptom"], "a"),
        chunk("c2", "case_a", 0.8, &["chunk_role:diagnostic_step"], "b"),
        chunk("c3", "case_a", 0.7, &["chunk_role:lesson"], "c"),
        chunk("c4", "case_a", 0.6, &["chunk_role:lesson"], "d"),
    ];
    let cards = CardHydrationOutput { primary: Some(minimal_card("case_a")), alternatives: vec![] };
    let out = assemble_settings(s, cards, primary_evidence(chunks), no_theory()).unwrap();
    assert!(out.incident_evidence_chunks.len() <= 3);
    for c in &out.incident_evidence_chunks {
        assert!(["c1", "c2", "c3", "c4"].contains(&c.chunk_id.as_str()));
    }
}

// ─── Builders ────────────────────────────────────────────────────────────────

#[test]
fn role_names_are_snake_case() {
    assert_eq!(role_to_str(PromptEvidenceRole::EvidenceForMatch), "evidence_for_match");
    assert_eq!(role_to_str(PromptEvidenceRole::FirstCheckHint), "first_check_hint");
    assert_eq!(role_to_str(PromptEvidenceRole::SupportingExplanation), "supporting_explanation");
    assert_eq!(role_to_str(PromptEvidenceRole::AlternativeContext), "alternative_context");
    assert_eq!(role_to_str(PromptEvidenceRole::MechanismExplanation), "mechanism_explanation");
}

#[test]
fn normalized_query_drops_empty_terms() {
    let q = query_with(&["", "a"], &["", "b"], &["c", ""], &["", "a"], &["d"]);
    let d = build_normalized_incident_query(&q);
    assert_eq!(d.recognized_canonical_symptoms, vec!["a".to_string()]);
    assert_eq!(d.affected_components, vec!["b".to_string()]);
    assert_eq!(d.failure_mode_candidates, vec!["c".to_string()]);
    assert_eq!(d.signals_present, vec!["a".to_string(), "d".to_string()]);
}

#[test]
fn matched_card_falls_back_to_check_questions_without_investigation_steps() {
    let mut card = minimal_card("c");
    card.vendor_or_project = Some(String::new());
    card.system_type = Some("kv".to_string());
    card.discriminating_checks = vec![
        DiscriminatingCheck { question: "q1".to_string() },
        DiscriminatingCheck { question: String::new() },
    ];
    card.incident_phases = vec![IncidentPhase {
        symptoms: vec!["s1".to_string(), String::new()],
        user_visible_impact: vec!["i1".to_string()],
    }];
    let d = build_matched_incident_card(&card);
    assert_eq!(d.context.systems, vec!["kv".to_string()]);
    assert_eq!(d.context.later_symptoms, vec!["s1".to_string(), "i1".to_string()]);
    assert_eq!(d.checks.investigation_questions, vec!["q1".to_string()]);
    assert_eq!(d.checks.discriminating_checks, vec!["q1".to_string()]);
}

#[test]
fn rendered_prompt_replaces_only_the_first_placeholder_copy() {
    let assembly = make_assembly();
    let cards = CardHydrationOutput { primary: Some(minimal_card("case_a")), alternatives: vec![] };
    let plan = assembly
        .plan(&minimal_request(), &minimal_query(), &cards, &primary_evidence(two_primary_chunks("case_a")), &no_theory())
        .unwrap();
    let out = assembly.render(plan, "{\"k\":1}");
    assert_eq!(out.prompt, "You are a diagnostic assistant.\n\nJSON context follows:\n{\"k\":1}");
    assert!(out.evidence_topology.is_none());
}

#[test]
fn alternative_context_never_repeats_a_primary_role_chunk() {
    let assembly = make_assembly();
    let cards = CardHydrationOutput { primary: Some(minimal_card("case_a")), alternatives: vec![minimal_card("alt_a")] };
    let evidence = IncidentEvidenceRetrievalOutput {
        primary_chunks: vec![chunk("shared", "case_a", 0.9, &["chunk_role:symptom"], "primary text")],
        alternative_chunks: vec![
            chunk("shared", "alt_a", 0.95, &["chunk_role:failure_mode"], "same id"),
            chunk("own", "alt_a", 0.5, &["chunk_role:failure_mode"], "alt text"),
        ],
    };
    let out = assemble(&assembly, &minimal_request(), &minimal_query(), &cards, &evidence, &no_theory()).unwrap();
    let alt: Vec<&str> = out
        .incident_evidence_chunks
        .iter()
        .filter(|c| c.role == PromptEvidenceRole::AlternativeContext)
        .map(|c| c.chunk_id.as_str())
        .collect();
    assert_eq!(alt, vec!["own"]);
    assert!(out
        .incident_evidence_chunks
        .iter()
        .any(|c| c.role == PromptEvidenceRole::EvidenceForMatch && c.chunk_id == "shared"));
}
