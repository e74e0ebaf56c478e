use distributed_diagnostics::incident_evidence_retrieval::{
    alternative_tags, primary_tags, IncidentEvidenceRetrieval, IncidentEvidenceRetrievalError,
    PracticeChunkSearchHit, PracticeChunksCollectionError,
};
use distributed_diagnostics::shared_types::{
    CandidateCard, CandidateCardRetrievalOutput, CollectionRetrievalSettings,
};

fn settings(top_k: usize) -> CollectionRetrievalSettings {
    CollectionRetrievalSettings { top_k, max_alternatives: 3, score_threshold_bits: 0.5f32.to_bits() }
}

fn hit(chunk_id: &str, case_id: &str, score: f32) -> PracticeChunkSearchHit {
    PracticeChunkSearchHit {
        chunk_id: chunk_id.to_string(),
        case_id: case_id.to_string(),
        score_bits: score.to_bits(),
        chunk_tags: vec!["chunk_role:symptom".to_string()],
        text: "text".to_string(),
    }
}

fn candidate(case_id: &str) -> CandidateCard {
    CandidateCard { case_id: case_id.to_string(), score_bits: 0.9f32.to_bits() }
}

fn candidates(primary: Option<&str>, alternatives: &[&str]) -> CandidateCardRetrievalOutput {
    CandidateCardRetrievalOutput {
        ranked_candidates: vec![],
        primary: primary.map(candidate),
        alternatives: alternatives.iter().map(|id| candidate(id)).collect(),
    }
}

fn retrieval() -> IncidentEvidenceRetrieval {
    IncidentEvidenceRetrieval::new(settings(5)).unwrap()
}

fn boom() -> PracticeChunksCollectionError {
    PracticeChunksCollectionError::InvalidRequest("boom".to_string())
}

// ─── Constructor tests ────────────────────────────────────────────────────

#[test]
fn incident_evidence_retrieval_new_fails_when_top_k_is_zero() {
    let err = IncidentEvidenceRetrieval::new(settings(0)).unwrap_err();
    assert!(matches!(err, IncidentEvidenceRetrievalError::InvalidSettings(_)));
    assert_eq!(
        err,
        IncidentEvidenceRetrievalError::InvalidSettings("top_k must be greater than 0".to_string())
    );
}

#[test]
fn new_succeeds_when_top_k_is_nonzero() {
    assert!(IncidentEvidenceRetrieval::new(settings(5)).is_ok());
}

// ─── Search plan ──────────────────────────────────────────────────────────

#[test]
fn empty_candidates_returns_empty_output_without_collection_call() {
    let sut = retrieval();
    let plan = sut.plan("q", &candidates(None, &[]));
    assert!(plan.primary.is_none());
    assert!(plan.alternatives.is_none());
    let out = sut.assemble(None, None).unwrap();
    assert!(out.primary_chunks.is_empty());
    assert!(out.alternative_chunks.is_empty());
}

#[test]
fn primary_only_issues_one_call_alternative_chunks_empty() {
    let sut = retrieval();
    let plan = sut.plan("q", &candidates(Some("card-1"), &[]));
    assert!(plan.primary.is_some());
    assert!(plan.alternatives.is_none());
    let out = sut.assemble(Some(Ok(vec![hit("c1", "card-1", 0.8)])), None).unwrap();
    assert_eq!(out.primary_chunks.len(), 1);
    assert!(out.alternative_chunks.is_empty());
}

#[test]
fn primary_search_uses_primary_tag_set() {
    let plan = retrieval().plan("q", &candidates(Some("card-1"), &[]));
    let expected: Vec<String> = [
        "chunk_role:symptom",
        "chunk_role:impact",
        "chunk_role:timeline",
        "chunk_role:symptom_change",
        "chunk_role:investigation",
        "chunk_role:diagnostic_step",
        "chunk_role:hypothesis_update",
        "chunk_role:recovery",
    ]
    .iter()
    .map(|s| s.to_string())
    .collect();
    assert_eq!(plan.primary.unwrap().chunk_tags, expected);
    assert_eq!(primary_tags(), expected);
}

#[test]
fn primary_search_uses_primary_case_id() {
    let plan = retrieval().plan("q", &candidates(Some("card-42"), &[]));
    assert_eq!(plan.primary.unwrap().case_ids, vec!["card-42"]);
}

#[test]
fn alternatives_only_issues_one_call_primary_chunks_empty() {
    let sut = retrieval();
    let plan = sut.plan("q", &candidates(None, &["card-2"]));
    assert!(plan.primary.is_none());
    assert!(plan.alternatives.is_some());
    let out = sut.assemble(None, Some(Ok(vec![hit("c1", "card-2", 0.7)]))).unwrap();
    assert!(out.primary_chunks.is_empty());
    assert_eq!(out.alternative_chunks.len(), 1);
}

#[test]
fn alternative_search_uses_alternative_tag_set() {
    let plan = retrieval().plan("q", &candidates(None, &["card-2"]));
    let expected: Vec<String> = [
        "chunk_role:failure_mode",
        "chunk_role:root_cause",
        "chunk_role:contributing_factor",
        "chunk_role:uncertainty",
        "chunk_role:lesson",
    ]
    .iter()
    .map(|s| s.to_string())
    .collect();
    assert_eq!(plan.alternatives.unwrap().chunk_tags, expected);
    assert_eq!(alternative_tags(), expected);
}

#[test]
fn alternative_search_passes_all_case_ids_in_order() {
    let plan = retrieval().plan("q", &candidates(None, &["card-A", "card-B", "card-C"]));
    assert_eq!(plan.alternatives.unwrap().case_ids, vec!["card-A", "card-B", "card-C"]);
}

#[test]
fn both_present_issues_two_calls_hits_separated() {
    let sut = retrieval();
    let plan = sut.plan("q", &candidates(Some("card-1"), &["card-2", "card-3"]));
    assert!(plan.primary.is_some() && plan.alternatives.is_some());
    let out = sut
        .assemble(
            Some(Ok(vec![hit("p1", "card-1", 0.9)])),
            Some(Ok(vec![hit("a1", "card-2", 0.7), hit("a2", "card-3", 0.6)])),
        )
        .unwrap();
    assert_eq!(out.primary_chunks.len(), 1);
    assert_eq!(out.alternative_chunks.len(), 2);
}

#[test]
fn both_present_primary_call_comes_first() {
    let plan = retrieval().plan("q", &candidates(Some("card-1"), &["card-2"]));
    assert_eq!(plan.primary.unwrap().case_ids, vec!["card-1"]);
    assert_eq!(plan.alternatives.unwrap().case_ids, vec!["card-2"]);
}

#[test]
fn settings_top_k_and_score_threshold_passed_through() {
    let mut s = settings(7);
    s.score_threshold_bits = 0.42f32.to_bits();
    let plan = IncidentEvidenceRetrieval::new(s).unwrap().plan("q", &candidates(Some("card-1"), &[]));
    let req = plan.primary.unwrap();
    assert_eq!(req.limit, 7);
    assert_eq!(f32::from_bits(req.score_threshold_bits), 0.42);
}

#[test]
fn query_string_passed_unchanged_to_collection() {
    let plan = retrieval().plan("exact query text", &candidates(Some("card-1"), &["card-2"]));
    assert_eq!(plan.primary.unwrap().user_query, "exact query text");
    assert_eq!(plan.alternatives.unwrap().user_query, "exact query text");
}

// ─── Hit ordering ─────────────────────────────────────────────────────────

#[test]
fn primary_chunk_order_preserved() {
    let out = retrieval()
        .assemble(Some(Ok(vec![hit("c3", "x", 0.9), hit("c1", "x", 0.7), hit("c2", "x", 0.5)])), None)
        .unwrap();
    let ids: Vec<&str> = out.primary_chunks.iter().map(|c| c.chunk_id.as_str()).collect();
    assert_eq!(ids, vec!["c3", "c1", "c2"]);
}

#[test]
fn alternative_chunk_order_preserved() {
    let out = retrieval()
        .assemble(None, Some(Ok(vec![hit("c2", "x", 0.8), hit("c1", "x", 0.6)])))
        .unwrap();
    let ids: Vec<&str> = out.alternative_chunks.iter().map(|c| c.chunk_id.as_str()).collect();
    assert_eq!(ids, vec!["c2", "c1"]);
}

#[test]
fn case_id_from_hit_not_rewritten() {
    let out = retrieval()
        .assemble(Some(Ok(vec![hit("c1", "returned-case-id", 0.8)])), None)
        .unwrap();
    assert_eq!(out.primary_chunks[0].case_id, "returned-case-id");
    assert_eq!(f32::from_bits(out.primary_chunks[0].score_bits), 0.8);
    assert_eq!(out.primary_chunks[0].chunk_tags, vec!["chunk_role:symptom"]);
    assert_eq!(out.primary_chunks[0].text, "text");
}

// ─── Error propagation ────────────────────────────────────────────────────

#[test]
fn primary_collection_error_propagated() {
    let err = retrieval().assemble(Some(Err(boom())), None).unwrap_err();
    assert_eq!(err, IncidentEvidenceRetrievalError::Collection(boom()));
}

#[test]
fn alternative_collection_error_propagated() {
    let err = retrieval().assemble(None, Some(Err(boom()))).unwrap_err();
    assert_eq!(err, IncidentEvidenceRetrievalError::Collection(boom()));
}

#[test]
fn alternative_error_after_primary_success_fails_whole_call() {
    let err = retrieval()
        .assemble(Some(Ok(vec![hit("p1", "card-1", 0.9)])), Some(Err(boom())))
        .unwrap_err();
    assert!(matches!(err, IncidentEvidenceRetrievalError::Collection(_)));
}

// ─── Whether the alternative search is sent ──────────────────────────────

#[test]
fn alternative_search_is_not_sent_after_failed_primary_search() {
    let sut = retrieval();
    let plan = sut.plan("q", &candidates(Some("card-1"), &["card-2"]));
    let primary = Some(Err(boom()));
    assert_eq!(sut.alternative_search_to_send(plan.alternatives, &primary), None);
}

#[test]
fn alternative_search_is_sent_after_successful_primary_search() {
    let sut = retrieval();
    let plan = sut.plan("q", &candidates(Some("card-1"), &["card-2"]));
    let planned = plan.alternatives.clone();
    assert!(planned.is_some());
    let primary = Some(Ok(vec![hit("c1", "card-1", 0.8)]));
    assert_eq!(sut.alternative_search_to_send(plan.alternatives, &primary), planned);
}

#[test]
fn alternative_search_is_sent_without_primary_search() {
    let sut = retrieval();
    let plan = sut.plan("q", &candidates(None, &["card-2"]));
    let planned = plan.alternatives.clone();
    assert_eq!(sut.alternative_search_to_send(plan.alternatives, &None), planned);
}
