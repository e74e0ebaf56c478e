use distributed_diagnostics::chunk_selection::{
    chunk_tag_text, compute_eligible_incident_chunks, make_prompt_incident_chunk, parse_chunk_tag, score_key,
    select_alternative_context_chunks, select_primary_role_chunks, select_theory_chunks, ChunkPackingSource,
    ChunkRolePackingSettings, IncidentChunkTag, PromptEvidenceRole,
};
use distributed_diagnostics::shared_types::{IncidentEvidenceChunk, TheoryEvidenceChunk};

fn chunk(id: &str, case_id: &str, score: f32, tags: &[&str]) -> IncidentEvidenceChunk {
    IncidentEvidenceChunk {
        chunk_id: id.to_string(),
        case_id: case_id.to_string(),
        score_bits: score.to_bits(),
        chunk_tags: tags.iter().map(|t| t.to_string()).collect(),
        text: format!("text of {id}"),
    }
}

fn role(
    source: ChunkPackingSource,
    limit: usize,
    per_case_limit: Option<usize>,
    fallback_to_any_chunk: bool,
    tag_priority: Vec<IncidentChunkTag>,
) -> ChunkRolePackingSettings {
    ChunkRolePackingSettings { source, limit, per_case_limit, tag_priority, fallback_to_any_chunk }
}

fn ids(v: &[distributed_diagnostics::chunk_selection::PromptIncidentEvidenceChunk]) -> Vec<&str> {
    v.iter().map(|c| c.chunk_id.as_str()).collect()
}

const ALL_TAGS: [IncidentChunkTag; 13] = [
    IncidentChunkTag::Symptom,
    IncidentChunkTag::Impact,
    IncidentChunkTag::Timeline,
    IncidentChunkTag::SymptomChange,
    IncidentChunkTag::Investigation,
    IncidentChunkTag::DiagnosticStep,
    IncidentChunkTag::HypothesisUpdate,
    IncidentChunkTag::Recovery,
    IncidentChunkTag::FailureMode,
    IncidentChunkTag::RootCause,
    IncidentChunkTag::ContributingFactor,
    IncidentChunkTag::Uncertainty,
    IncidentChunkTag::Lesson,
];

#[test]
fn chunk_tags_read_back_their_text() {
    for t in ALL_TAGS {
        assert_eq!(parse_chunk_tag(chunk_tag_text(t)), Some(t));
        assert!(chunk_tag_text(t).starts_with("chunk_role:"));
    }
    assert_eq!(parse_chunk_tag("chunk_role:unknown"), None);
    assert_eq!(parse_chunk_tag("symptom"), None);
}

#[test]
fn score_keys_order_as_floats() {
    let values = [f32::NEG_INFINITY, -2.5, -1.0e-30, -0.0, 0.0, 1.0e-30, 0.5, 0.9, 1.0, f32::INFINITY];
    for a in values {
        for b in values {
            assert_eq!(a < b, score_key(a.to_bits()) < score_key(b.to_bits()), "{a} vs {b}");
            assert_eq!(a == b, score_key(a.to_bits()) == score_key(b.to_bits()), "{a} vs {b}");
        }
    }
}

#[test]
fn ranking_puts_better_bucket_then_higher_score_then_earlier_chunk_first() {
    let chunks = vec![
        chunk("a", "x", 0.9, &["chunk_role:failure_mode"]),
        chunk("b", "x", 0.5, &["chunk_role:symptom"]),
        chunk("c", "x", 0.8, &["chunk_role:symptom", "chunk_role:failure_mode"]),
        chunk("d", "x", 0.99, &["chunk_role:lesson"]),
        chunk("e", "x", 0.8, &["chunk_role:symptom"]),
        chunk("f", "x", 0.7, &["not a tag"]),
    ];
    let s = role(
        ChunkPackingSource::PrimaryIncident,
        10,
        None,
        true,
        vec![IncidentChunkTag::Symptom, IncidentChunkTag::FailureMode],
    );
    let ranked = compute_eligible_incident_chunks(&chunks, &s);
    let order: Vec<usize> = ranked.iter().map(|r| r.index).collect();
    assert_eq!(order, vec![2, 4, 1, 0, 3, 5]);
    for w in ranked.windows(2) {
        let (a, b) = (w[0], w[1]);
        assert!(
            a.bucket < b.bucket
                || (a.bucket == b.bucket && a.score_key > b.score_key)
                || (a.bucket == b.bucket && a.score_key == b.score_key && a.index < b.index)
        );
    }
}

#[test]
fn ranking_without_fallback_drops_untagged_chunks() {
    let chunks = vec![chunk("a", "x", 0.9, &["chunk_role:lesson"]), chunk("b", "x", 0.1, &["chunk_role:symptom"])];
    let s = role(ChunkPackingSource::PrimaryIncident, 10, None, false, vec![IncidentChunkTag::Symptom]);
    let ranked = compute_eligible_incident_chunks(&chunks, &s);
    assert_eq!(ranked.len(), 1);
    assert_eq!(ranked[0].index, 1);
}

#[test]
fn primary_role_takes_the_first_limit_of_the_ranking() {
    let chunks = vec![
        chunk("a", "x", 0.2, &["chunk_role:symptom"]),
        chunk("b", "x", 0.9, &["chunk_role:symptom"]),
        chunk("c", "x", 0.5, &["chunk_role:symptom"]),
    ];
    let s = role(ChunkPackingSource::PrimaryIncident, 2, None, false, vec![IncidentChunkTag::Symptom]);
    let out = select_primary_role_chunks(&chunks, &s, PromptEvidenceRole::EvidenceForMatch);
    assert_eq!(ids(&out), vec!["b", "c"]);
    assert!(out.iter().all(|c| c.role == PromptEvidenceRole::EvidenceForMatch));
    let none = role(ChunkPackingSource::PrimaryIncident, 0, None, false, vec![IncidentChunkTag::Symptom]);
    assert!(select_primary_role_chunks(&chunks, &none, PromptEvidenceRole::EvidenceForMatch).is_empty());
}

#[test]
fn prompt_chunk_keeps_recognized_tags_only() {
    let c = chunk("a", "x", 0.3, &["chunk_role:symptom", "other", "chunk_role:lesson"]);
    let p = make_prompt_incident_chunk(&c, PromptEvidenceRole::SupportingExplanation);
    assert_eq!(p.chunk_tags, vec![IncidentChunkTag::Symptom, IncidentChunkTag::Lesson]);
    assert_eq!(p.chunk_id, "a");
    assert_eq!(p.case_id, "x");
    assert_eq!(p.text, "text of a");
    assert_eq!(f32::from_bits(p.score_bits), 0.3);
}

#[test]
fn alternative_context_takes_turns_between_cases() {
    let chunks = vec![
        chunk("a1", "A", 0.9, &["chunk_role:failure_mode"]),
        chunk("a2", "A", 0.8, &["chunk_role:failure_mode"]),
        chunk("b1", "B", 0.5, &["chunk_role:failure_mode"]),
        chunk("b2", "B", 0.4, &["chunk_role:failure_mode"]),
    ];
    let s = role(ChunkPackingSource::AlternativeIncident, 3, Some(2), false, vec![IncidentChunkTag::FailureMode]);
    let out = select_alternative_context_chunks(&chunks, &s, &vec![], &vec![]);
    assert_eq!(ids(&out), vec!["a1", "b1", "a2"]);
    assert!(out.iter().all(|c| c.role == PromptEvidenceRole::AlternativeContext));
}

#[test]
fn alternative_context_follows_card_order_and_per_case_limit() {
    let chunks = vec![
        chunk("a1", "A", 0.9, &["chunk_role:failure_mode"]),
        chunk("a2", "A", 0.8, &["chunk_role:failure_mode"]),
        chunk("b1", "B", 0.5, &["chunk_role:failure_mode"]),
        chunk("c1", "C", 0.99, &["chunk_role:failure_mode"]),
    ];
    let s = role(ChunkPackingSource::AlternativeIncident, 5, Some(1), false, vec![IncidentChunkTag::FailureMode]);
    let cards = vec!["B".to_string(), "A".to_string()];
    let out = select_alternative_context_chunks(&chunks, &s, &cards, &vec![]);
    assert_eq!(ids(&out), vec!["b1", "a1"]);
}

#[test]
fn alternative_context_skips_already_selected_chunks() {
    let chunks = vec![
        chunk("a1", "A", 0.9, &["chunk_role:failure_mode"]),
        chunk("a2", "A", 0.8, &["chunk_role:failure_mode"]),
    ];
    let s = role(ChunkPackingSource::AlternativeIncident, 2, Some(2), false, vec![IncidentChunkTag::FailureMode]);
    let out = select_alternative_context_chunks(&chunks, &s, &vec![], &vec!["a1".to_string()]);
    assert_eq!(ids(&out), vec!["a2"]);
    let zero = role(ChunkPackingSource::AlternativeIncident, 0, Some(2), false, vec![IncidentChunkTag::FailureMode]);
    assert!(select_alternative_context_chunks(&chunks, &zero, &vec![], &vec![]).is_empty());
}

#[test]
fn theory_chunks_are_the_first_limit_in_order() {
    let theory: Vec<TheoryEvidenceChunk> = ["t1", "t2", "t3"]
        .iter()
        .map(|id| TheoryEvidenceChunk { chunk_id: id.to_string(), score_bits: 0.5f32.to_bits(), text: id.to_string() })
        .collect();
    let out = select_theory_chunks(&theory, 2);
    let got: Vec<&str> = out.iter().map(|c| c.chunk_id.as_str()).collect();
    assert_eq!(got, vec!["t1", "t2"]);
    assert!(out.iter().all(|c| c.role == PromptEvidenceRole::MechanismExplanation));
    assert_eq!(select_theory_chunks(&theory, 10).len(), 3);
}

#[test]
fn alternative_context_count_is_capacity_capped_by_limit() {
    // A: 3 eligible, B: 1 eligible, untagged C chunk is not eligible; with
    // per_case 2 the capacity is min(2,3) + min(2,1) = 3; a repeated card
    // counts once.
    let chunks = vec![
        chunk("a1", "A", 0.9, &["chunk_role:failure_mode"]),
        chunk("a2", "A", 0.8, &["chunk_role:failure_mode"]),
        chunk("a3", "A", 0.7, &["chunk_role:failure_mode"]),
        chunk("b1", "B", 0.5, &["chunk_role:failure_mode"]),
        chunk("c1", "C", 0.99, &[]),
    ];
    let cards = vec!["A".to_string(), "B".to_string(), "A".to_string(), "C".to_string()];
    let wide = role(ChunkPackingSource::AlternativeIncident, 10, Some(2), false, vec![IncidentChunkTag::FailureMode]);
    assert_eq!(select_alternative_context_chunks(&chunks, &wide, &cards, &vec![]).len(), 3);
    let narrow = role(ChunkPackingSource::AlternativeIncident, 2, Some(2), false, vec![IncidentChunkTag::FailureMode]);
    assert_eq!(select_alternative_context_chunks(&chunks, &narrow, &cards, &vec![]).len(), 2);
}
