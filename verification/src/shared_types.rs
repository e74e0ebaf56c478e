use vstd::prelude::*;

use crate::json::copy_strings;

verus! {

/// Confidence grade attached to model outputs and observations.
#[derive(Clone, Copy, Debug, PartialEq, Eq, Structural, Hash)]
pub enum Confidence {
    Low,
    Medium,
    High,
}

/// Whether an observation reports something present, absent, or a correction.
#[derive(Clone, Copy, Debug, PartialEq, Eq, Structural, Hash)]
pub enum ObservationPolarity {
    Present,
    Absent,
    Corrected,
}

/// Token accounting reported by a model call; each count may be missing.
#[derive(Clone, Copy, Debug, PartialEq, Eq, Structural)]
pub struct ModelTokenUsage {
    pub prompt_tokens: Option<usize>,
    pub completion_tokens: Option<usize>,
    pub total_tokens: Option<usize>,
}

/// The user message rewritten as a standalone observation.
#[derive(Clone, Debug, PartialEq, Eq)]
pub struct ResolvedObservation {
    pub text: String,
}

/// One observation extracted from a user message.
#[derive(Clone, Debug, PartialEq, Eq)]
pub struct ExtractedObservation {
    pub statement: String,
    pub confidence: Confidence,
    pub condition: Option<String>,
    pub polarity: ObservationPolarity,
    pub time_relation: Option<String>,
    pub source_span: String,
}

/// Result of observation extraction.
#[derive(Clone, Debug, PartialEq, Eq)]
pub struct ObservationExtractionOutput {
    pub normalized_user_input: String,
    pub resolved_observation: ResolvedObservation,
    pub confidence: Confidence,
    pub observations: Vec<ExtractedObservation>,
    pub needs_more_context: bool,
    pub missing_context_questions: Vec<String>,
    pub token_usage: ModelTokenUsage,
}

/// Whether a follow-up message is a standalone diagnostic observation.
#[derive(Clone, Debug, PartialEq, Eq)]
pub enum ObservationBoundaryResolution {
    Supported(ResolvedObservation),
    Unsupported,
}

/// Result of the observation boundary resolver.
#[derive(Clone, Debug, PartialEq, Eq)]
pub struct ObservationBoundaryResolverOutput {
    pub normalized_user_input: String,
    pub confidence: Confidence,
    pub reason: String,
    pub resolution: ObservationBoundaryResolution,
    pub token_usage: ModelTokenUsage,
}

} // verus!

verus! {

/// How directly a structured term is supported by the user's text.
#[derive(Clone, Copy, Debug, PartialEq, Eq, Structural, Hash)]
pub enum StructuredUserQuerySupportLevel {
    Explicit,
    StrongInference,
    WeakInference,
}

/// Overall confidence of query structuring.
#[derive(Clone, Copy, Debug, PartialEq, Eq, Structural, Hash)]
pub enum StructuredUserQueryConfidence {
    Low,
    Medium,
    High,
}

/// One term recognised in the user's request, with its evidence.
#[derive(Clone, Debug, PartialEq, Eq)]
pub struct StructuredUserQueryTerm {
    pub term: String,
    pub evidence_span: String,
    pub support_level: StructuredUserQuerySupportLevel,
}

/// The user's incident report, structured into diagnostic groups.
#[derive(Clone, Debug, PartialEq, Eq)]
pub struct StructuredUserQuery {
    pub intent: String,
    pub scenario: String,
    pub symptoms: Vec<StructuredUserQueryTerm>,
    pub affected_subsystems: Vec<StructuredUserQueryTerm>,
    pub failure_modes: Vec<StructuredUserQueryTerm>,
    pub system_properties: Vec<StructuredUserQueryTerm>,
    pub entities: Vec<String>,
    pub constraints: Vec<String>,
    pub triggers: Vec<String>,
    pub observability_signals: Vec<String>,
    pub unresolved_terms: Vec<String>,
    pub rejected_nearby_terms: Vec<String>,
    pub confidence: StructuredUserQueryConfidence,
}

} // verus!

verus! {

/// A retrieved incident card reference; `score_bits` holds the IEEE-754 bit
/// pattern of the retrieval score.
#[derive(Clone, Debug, PartialEq, Eq)]
pub struct CandidateCard {
    pub case_id: String,
    pub score_bits: u32,
}

/// Ranked card candidates returned by card retrieval.
#[derive(Clone, Debug, PartialEq, Eq)]
pub struct CandidateCardRetrievalOutput {
    pub ranked_candidates: Vec<CandidateCard>,
    pub primary: Option<CandidateCard>,
    pub alternatives: Vec<CandidateCard>,
}

/// Whether the primary card has survived a previous re-ranking.
#[derive(Clone, Copy, Debug, PartialEq, Eq, Structural, Hash)]
pub enum PrimaryCardStatus {
    Tentative,
    Sticky,
}

/// Identifier of one iteration of a diagnostic run.
#[derive(Clone, Copy, Debug, PartialEq, Eq, Structural, Hash)]
pub struct RunIterationId(pub u128);

/// The card branches chosen at the end of one iteration.
#[derive(Clone, Debug, PartialEq, Eq)]
pub struct CardSelectionSnapshot {
    pub iteration_id: RunIterationId,
    pub primary_card_id: String,
    pub primary_card_status: PrimaryCardStatus,
    pub alternative_card_ids: Vec<String>,
    pub challenger_card_ids: Vec<String>,
}

/// History of card selections across iterations, oldest first.
#[derive(Clone, Debug, PartialEq, Eq)]
pub struct CardSelectionContext {
    pub history: Vec<CardSelectionSnapshot>,
}

/// The card branches chosen by re-ranking.
#[derive(Clone, Debug, PartialEq, Eq)]
pub struct CardBranchRerankingOutput {
    pub primary_card_id: String,
    pub primary_card_status: PrimaryCardStatus,
    pub alternative_card_ids: Vec<String>,
    pub challenger_card_ids: Vec<String>,
}

/// Views of a sequence of strings.
pub open spec fn string_views(s: Seq<String>) -> Seq<Seq<char>> {
    s.map_values(|x: String| x@)
}

/// Case ids of a sequence of candidate cards.
pub open spec fn candidate_ids(s: Seq<CandidateCard>) -> Seq<Seq<char>> {
    s.map_values(|c: CandidateCard| c.case_id@)
}

} // verus!

verus! {

/// The problem understanding of the current iteration; its text is absent
/// until the iteration has been closed.
#[derive(Clone, Debug, PartialEq, Eq)]
pub struct ProblemUnderstanding {
    pub text: Option<String>,
}

/// What the request pipeline reads of a run's diagnostic context: the
/// current problem understanding, the texts of the hypotheses still in play
/// (active or weakened), and the latest suggested check.
#[derive(Clone, Debug, PartialEq, Eq)]
pub struct DiagnosticContextView {
    pub current_problem_understanding: Option<ProblemUnderstanding>,
    pub active_hypotheses: Vec<String>,
    pub last_check: Option<String>,
}

} // verus!

verus! {

/// One phase of an incident, with what users and operators saw in it.
#[derive(Clone, Debug, PartialEq, Eq)]
pub struct IncidentPhase {
    pub symptoms: Vec<String>,
    pub user_visible_impact: Vec<String>,
}

/// A check that tells the incident apart from look-alikes.
#[derive(Clone, Debug, PartialEq, Eq)]
pub struct DiscriminatingCheck {
    pub question: String,
}

/// A curated incident card: a past incident with its symptoms,
/// explanations and checks.
#[derive(Clone, Debug, PartialEq, Eq)]
pub struct IncidentCard {
    pub case_id: String,
    pub title: String,
    pub vendor_or_project: Option<String>,
    pub system_type: Option<String>,
    pub short_summary: String,
    pub canonical_symptoms: Vec<String>,
    pub affected_components: Vec<String>,
    pub failure_mode_candidates: Vec<String>,
    pub incident_phases: Vec<IncidentPhase>,
    pub candidate_explanations: Vec<String>,
    pub diagnostic_patterns: Vec<String>,
    pub discriminating_checks: Vec<DiscriminatingCheck>,
    pub investigation_steps: Vec<String>,
    pub confidence_notes: Vec<String>,
}

/// The primary and alternative cards in full.
#[derive(Clone, Debug, PartialEq, Eq)]
pub struct CardHydrationOutput {
    pub primary: Option<IncidentCard>,
    pub alternatives: Vec<IncidentCard>,
}

/// Two phases hold the same texts.
pub open spec fn same_phase(a: IncidentPhase, b: IncidentPhase) -> bool {
    a.symptoms@ == b.symptoms@ && a.user_visible_impact@ == b.user_visible_impact@
}

/// Two cards hold the same data.
pub open spec fn same_card(a: IncidentCard, b: IncidentCard) -> bool {
    &&& a.case_id == b.case_id
    &&& a.title == b.title
    &&& a.vendor_or_project == b.vendor_or_project
    &&& a.system_type == b.system_type
    &&& a.short_summary == b.short_summary
    &&& a.canonical_symptoms@ == b.canonical_symptoms@
    &&& a.affected_components@ == b.affected_components@
    &&& a.failure_mode_candidates@ == b.failure_mode_candidates@
    &&& a.incident_phases@.len() == b.incident_phases@.len()
    &&& forall|i: int|
        0 <= i < a.incident_phases@.len() ==> same_phase(
            #[trigger] a.incident_phases@[i],
            b.incident_phases@[i],
        )
    &&& a.candidate_explanations@ == b.candidate_explanations@
    &&& a.diagnostic_patterns@ == b.diagnostic_patterns@
    &&& a.discriminating_checks@ == b.discriminating_checks@
    &&& a.investigation_steps@ == b.investigation_steps@
    &&& a.confidence_notes@ == b.confidence_notes@
}

/// A copy of a card.
pub fn copy_card(c: &IncidentCard) -> (r: IncidentCard)
    ensures
        same_card(r, *c),
{
    let mut phases: Vec<IncidentPhase> = Vec::new();
    let mut i: usize = 0;
    while i < c.incident_phases.len()
        invariant
            i <= c.incident_phases@.len(),
            phases@.len() == i,
            forall|j: int| 0 <= j < i ==> same_phase(#[trigger] phases@[j], c.incident_phases@[j]),
        decreases c.incident_phases@.len() - i,
    {
        let p = &c.incident_phases[i];
        phases.push(
            IncidentPhase {
                symptoms: copy_strings(&p.symptoms),
                user_visible_impact: copy_strings(&p.user_visible_impact),
            },
        );
        i = i + 1;
    }
    let mut checks: Vec<DiscriminatingCheck> = Vec::new();
    let mut k: usize = 0;
    while k < c.discriminating_checks.len()
        invariant
            k <= c.discriminating_checks@.len(),
            checks@ == c.discriminating_checks@.take(k as int),
        decreases c.discriminating_checks@.len() - k,
    {
        checks.push(DiscriminatingCheck { question: c.discriminating_checks[k].question.clone() });
        assert(checks@ =~= c.discriminating_checks@.take(k + 1));
        k = k + 1;
    }
    assert(c.discriminating_checks@.take(c.discriminating_checks@.len() as int)
        =~= c.discriminating_checks@);
    IncidentCard {
        case_id: c.case_id.clone(),
        title: c.title.clone(),
        vendor_or_project: match &c.vendor_or_project {
            Some(s) => Some(s.clone()),
            None => None,
        },
        system_type: match &c.system_type {
            Some(s) => Some(s.clone()),
            None => None,
        },
        short_summary: c.short_summary.clone(),
        canonical_symptoms: copy_strings(&c.canonical_symptoms),
        affected_components: copy_strings(&c.affected_components),
        failure_mode_candidates: copy_strings(&c.failure_mode_candidates),
        incident_phases: phases,
        candidate_explanations: copy_strings(&c.candidate_explanations),
        diagnostic_patterns: copy_strings(&c.diagnostic_patterns),
        discriminating_checks: checks,
        investigation_steps: copy_strings(&c.investigation_steps),
        confidence_notes: copy_strings(&c.confidence_notes),
    }
}

} // verus!

verus! {

/// Settings of a vector-collection search; `score_threshold_bits` is the
/// IEEE-754 bit pattern of the minimum score.
#[derive(Clone, Copy, Debug, PartialEq, Eq)]
pub struct CollectionRetrievalSettings {
    pub top_k: usize,
    pub max_alternatives: usize,
    pub score_threshold_bits: u32,
}

/// A chunk of a practice incident write-up; `score_bits` is the IEEE-754
/// bit pattern of its retrieval score.
#[derive(Clone, Debug, PartialEq, Eq)]
pub struct IncidentEvidenceChunk {
    pub chunk_id: String,
    pub case_id: String,
    pub score_bits: u32,
    pub chunk_tags: Vec<String>,
    pub text: String,
}

/// Evidence chunks of the primary card and of the alternative cards.
#[derive(Clone, Debug, PartialEq, Eq)]
pub struct IncidentEvidenceRetrievalOutput {
    pub primary_chunks: Vec<IncidentEvidenceChunk>,
    pub alternative_chunks: Vec<IncidentEvidenceChunk>,
}

/// A chunk of theory material; `score_bits` is the IEEE-754 bit pattern of
/// its retrieval score.
#[derive(Clone, Debug, PartialEq, Eq)]
pub struct TheoryEvidenceChunk {
    pub chunk_id: String,
    pub score_bits: u32,
    pub text: String,
}

/// Theory chunks retrieved for the request.
#[derive(Clone, Debug, PartialEq, Eq)]
pub struct TheoryEvidenceRetrievalOutput {
    pub chunks: Vec<TheoryEvidenceChunk>,
}

} // verus!
