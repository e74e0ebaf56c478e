use vstd::prelude::*;

use crate::chunk_selection::{
    alternative_context_entries, first_n, is_prompt_chunk, is_theory_prompt_chunk, prompt_chunks_of, role_ranking,
    select_alternative_context_chunks, select_primary_role_chunks, select_theory_chunks,
    ChunkPackingSource, ChunkRolePackingSettings, PromptEvidenceRole,
    PromptIncidentEvidenceChunk, PromptTheoryEvidenceChunk, RankedChunk,
};
use crate::context_text::{
    check_context_asset, check_question_list, check_questions, context_asset_problem,
    first_occurrence_copies, first_occurrences, non_empty_copies, non_empty_texts,
    phase_text_list, phase_texts, present_text_list, present_texts, ContextPromptAsset,
    EvidenceTopology, PromptContextAssemblyOutput,
};
use crate::json::{copy_json, json_equiv, json_text_value, parse_json_or_report, JsonValue};
use crate::prompt_asset::{check_asset_schema, schema_accepts, schema_compiles, SchemaCheckFailure};
use crate::observation_extraction::{option_view, trimmed_option};
use crate::prompt_context_assembly::{card_id_list, card_ids};
use crate::shared_types::{
    string_views, ExtractedObservation, IncidentCard, IncidentEvidenceRetrievalOutput,
    ObservationExtractionOutput, ObservationPolarity, ProblemUnderstanding, ResolvedObservation,
    TheoryEvidenceRetrievalOutput,
};
use crate::text::{replace_first_seq, replace_first_text, trim_seq, trim_text};

verus! {

/// How the chunks of each diagnostic-update prompt role are chosen.
#[derive(Clone, Debug, PartialEq, Eq)]
pub struct DiagnosticUpdateChunkPackingSettings {
    pub evidence_for_match: ChunkRolePackingSettings,
    pub next_check_hint: ChunkRolePackingSettings,
    pub supporting_explanation: ChunkRolePackingSettings,
    pub alternative_context: ChunkRolePackingSettings,
    pub mechanism_explanation: ChunkRolePackingSettings,
}

/// Settings of diagnostic-update prompt assembly.
#[derive(Clone, Debug, PartialEq, Eq)]
pub struct DiagnosticUpdatePromptContextSettings {
    pub prompt_asset_path: String,
    pub chunk_packing: DiagnosticUpdateChunkPackingSettings,
}

/// Ways diagnostic-update prompt assembly fails.
#[derive(Clone, Debug, PartialEq, Eq)]
pub enum DiagnosticUpdatePromptContextAssemblyError {
    InvalidSettings(String),
    PromptAssetReadFailed(String),
    PromptAssetSchemaReadFailed(String),
    InvalidPromptAssetJson(String),
    InvalidPromptAssetSchemaJson(String),
    PromptAssetSchemaValidationFailed(String),
    InvalidPromptAssetContract(String),
    MissingPrimaryCard,
    InvalidProblemUnderstanding,
    InvalidResolvedObservation,
    InvalidHypothesisState(String),
    JsonSerializationFailed(String),
}

/// Identifier of a tracked hypothesis, in its text form.
#[derive(Clone, Debug, PartialEq, Eq)]
pub struct HypothesisId(pub String);

/// Where a hypothesis stands.
#[derive(Clone, Debug, PartialEq, Eq)]
pub enum HypothesisStatus {
    Active,
    Weakened,
    Rejected(String),
}

/// One recorded state of a hypothesis.
#[derive(Clone, Debug, PartialEq, Eq)]
pub struct HypothesisState {
    pub status: HypothesisStatus,
}

/// A hypothesis with its history, oldest state first.
#[derive(Clone, Debug, PartialEq, Eq)]
pub struct TrackedHypothesis {
    pub hypothesis_id: HypothesisId,
    pub text: String,
    pub state_history: Vec<HypothesisState>,
}

/// The check suggested in the previous answer.
#[derive(Clone, Debug, PartialEq, Eq)]
pub struct SuggestedCheck {
    pub text: String,
}

/// The hydrated primary and alternative cards of the run.
#[derive(Clone, Debug, PartialEq, Eq)]
pub struct HydratedCardBranchesInput {
    pub primary: IncidentCard,
    pub alternatives: Vec<IncidentCard>,
}

/// An extracted observation as the prompt presents it.
#[derive(Clone, Debug, PartialEq, Eq)]
pub struct ObservationDto {
    pub statement: String,
    pub polarity: String,
    pub condition: Option<String>,
    pub time_relation: Option<String>,
}

/// An active hypothesis as the prompt presents it.
#[derive(Clone, Debug, PartialEq, Eq)]
pub struct ActiveHypothesisDto {
    pub hypothesis_id: String,
    pub text: String,
}

/// A rejected hypothesis as the prompt presents it.
#[derive(Clone, Debug, PartialEq, Eq)]
pub struct RejectedHypothesisDto {
    pub hypothesis_id: String,
    pub text: String,
    pub rejection_reason: String,
}

/// The hypotheses in play and the last suggested check.
#[derive(Clone, Debug, PartialEq, Eq)]
pub struct DiagnosticStateDto {
    pub active_hypotheses: Vec<ActiveHypothesisDto>,
    pub rejected_hypotheses: Vec<RejectedHypothesisDto>,
    pub last_check: Option<String>,
}

/// Where the primary incident happened and what it looked like.
#[derive(Clone, Debug, PartialEq, Eq)]
pub struct PrimaryCardContextDto {
    pub systems: Vec<String>,
    pub affected_components: Vec<String>,
    pub initial_symptoms: Vec<String>,
    pub later_symptoms: Vec<String>,
}

/// What the primary incident suggests as explanations.
#[derive(Clone, Debug, PartialEq, Eq)]
pub struct PrimaryCardHypothesesDto {
    pub failure_modes: Vec<String>,
    pub hypothesis_signals: Vec<String>,
    pub hypothesis_updates: Vec<String>,
    pub contributing_factors: Vec<String>,
}

/// What the primary incident suggests checking.
#[derive(Clone, Debug, PartialEq, Eq)]
pub struct PrimaryCardChecksDto {
    pub investigation_questions: Vec<String>,
    pub discriminating_checks: Vec<String>,
}

/// The primary incident card as the prompt presents it; empty parts left out.
#[derive(Clone, Debug, PartialEq, Eq)]
pub struct PrimaryIncidentCardDto {
    pub context: Option<PrimaryCardContextDto>,
    pub hypotheses: Option<PrimaryCardHypothesesDto>,
    pub checks: Option<PrimaryCardChecksDto>,
}

/// The chosen incident chunk texts, by role.
#[derive(Clone, Debug, PartialEq, Eq)]
pub struct IncidentEvidenceDto {
    pub evidence_for_match: Vec<String>,
    pub next_check_hint: Vec<String>,
    pub supporting_explanation: Vec<String>,
    pub alternative_context: Vec<String>,
}

/// The chosen theory chunk texts.
#[derive(Clone, Debug, PartialEq, Eq)]
pub struct TheoryEvidenceDto {
    pub mechanism_explanation: Vec<String>,
}

/// The JSON context of a diagnostic-update prompt; absent parts are left
/// out of the JSON.
#[derive(Clone, Debug, PartialEq, Eq)]
pub struct DiagnosticUpdateContext {
    pub problem_understanding: String,
    pub resolved_observation: String,
    pub observations: Vec<ObservationDto>,
    pub diagnostic_state: Option<DiagnosticStateDto>,
    pub primary_incident_card: Option<PrimaryIncidentCardDto>,
    pub incident_evidence: Option<IncidentEvidenceDto>,
    pub theory_evidence: Option<TheoryEvidenceDto>,
}

/// The chosen evidence, its topology, and the context to serialize.
#[derive(Debug)]
pub struct DiagnosticUpdatePlan {
    pub context: DiagnosticUpdateContext,
    pub evidence_topology: EvidenceTopology,
    pub incident_evidence_chunks: Vec<PromptIncidentEvidenceChunk>,
    pub theory_chunks: Vec<PromptTheoryEvidenceChunk>,
}

/// The path names a file from the root (`/` first).
pub open spec fn is_absolute_path(p: Seq<char>) -> bool {
    p.len() > 0 && p[0] == '/'
}

/// What is wrong with the settings, if anything, checked in this order.
pub open spec fn settings_problem(s: DiagnosticUpdatePromptContextSettings) -> Option<Seq<char>> {
    let cp = s.chunk_packing;
    if s.prompt_asset_path@.len() == 0 {
        Some("prompt_asset_path must not be empty"@)
    } else if !is_absolute_path(s.prompt_asset_path@) {
        Some("prompt_asset_path must be an absolute path"@)
    } else if cp.evidence_for_match.source != ChunkPackingSource::PrimaryIncident {
        Some("evidence_for_match.source must be PrimaryIncident"@)
    } else if cp.next_check_hint.source != ChunkPackingSource::PrimaryIncident {
        Some("next_check_hint.source must be PrimaryIncident"@)
    } else if cp.supporting_explanation.source != ChunkPackingSource::PrimaryIncident {
        Some("supporting_explanation.source must be PrimaryIncident"@)
    } else if cp.alternative_context.source != ChunkPackingSource::AlternativeIncident {
        Some("alternative_context.source must be AlternativeIncident"@)
    } else if cp.mechanism_explanation.source != ChunkPackingSource::Theory {
        Some("mechanism_explanation.source must be Theory"@)
    } else if cp.evidence_for_match.limit < 1 {
        Some("evidence_for_match.limit must be >= 1"@)
    } else if cp.next_check_hint.limit < 1 {
        Some("next_check_hint.limit must be >= 1"@)
    } else if cp.alternative_context.limit > 0 && cp.alternative_context.per_case_limit is None {
        Some("alternative_context.per_case_limit must be Some(n > 0) when limit > 0"@)
    } else if cp.alternative_context.limit > 0 && cp.alternative_context.per_case_limit == Some(
        0usize,
    ) {
        Some("alternative_context.per_case_limit must be > 0 when limit > 0"@)
    } else if cp.mechanism_explanation.tag_priority@.len() > 0 {
        Some(
            "mechanism_explanation.tag_priority must be empty because theory chunks do not expose tags"@,
        )
    } else if cp.mechanism_explanation.limit > 1 {
        Some("mechanism_explanation.limit must be <= 1"@)
    } else {
        None
    }
}

/// Checks the settings in the order of `settings_problem`.
pub fn validate_settings(s: &DiagnosticUpdatePromptContextSettings) -> (r: Result<
    (),
    DiagnosticUpdatePromptContextAssemblyError,
>)
    ensures
        match settings_problem(*s) {
            Some(m) => r matches Err(DiagnosticUpdatePromptContextAssemblyError::InvalidSettings(x))
                && x@ == m,
            None => r is Ok,
        },
{
    let cp = &s.chunk_packing;
    let absolute = s.prompt_asset_path.unicode_len() > 0 && s.prompt_asset_path.as_str().get_char(0)
        == '/';
    let problem: Option<&'static str> = if s.prompt_asset_path.unicode_len() == 0 {
        Some("prompt_asset_path must not be empty")
    } else if !absolute {
        Some("prompt_asset_path must be an absolute path")
    } else if cp.evidence_for_match.source != ChunkPackingSource::PrimaryIncident {
        Some("evidence_for_match.source must be PrimaryIncident")
    } else if cp.next_check_hint.source != ChunkPackingSource::PrimaryIncident {
        Some("next_check_hint.source must be PrimaryIncident")
    } else if cp.supporting_explanation.source != ChunkPackingSource::PrimaryIncident {
        Some("supporting_explanation.source must be PrimaryIncident")
    } else if cp.alternative_context.source != ChunkPackingSource::AlternativeIncident {
        Some("alternative_context.source must be AlternativeIncident")
    } else if cp.mechanism_explanation.source != ChunkPackingSource::Theory {
        Some("mechanism_explanation.source must be Theory")
    } else if cp.evidence_for_match.limit < 1 {
        Some("evidence_for_match.limit must be >= 1")
    } else if cp.next_check_hint.limit < 1 {
        Some("next_check_hint.limit must be >= 1")
    } else if cp.alternative_context.limit > 0 && cp.alternative_context.per_case_limit.is_none() {
        Some("alternative_context.per_case_limit must be Some(n > 0) when limit > 0")
    } else if cp.alternative_context.limit > 0 && cp.alternative_context.per_case_limit == Some(
        0usize,
    ) {
        Some("alternative_context.per_case_limit must be > 0 when limit > 0")
    } else if cp.mechanism_explanation.tag_priority.len() > 0 {
        Some(
            "mechanism_explanation.tag_priority must be empty because theory chunks do not expose tags",
        )
    } else if cp.mechanism_explanation.limit > 1 {
        Some("mechanism_explanation.limit must be <= 1")
    } else {
        None
    };
    match problem {
        Some(m) => Err(DiagnosticUpdatePromptContextAssemblyError::InvalidSettings(m.to_owned())),
        None => Ok(()),
    }
}

/// The wire name of a polarity.
pub open spec fn polarity_text(p: ObservationPolarity) -> Seq<char> {
    match p {
        ObservationPolarity::Present => "present"@,
        ObservationPolarity::Absent => "absent"@,
        ObservationPolarity::Corrected => "corrected"@,
    }
}

/// The wire name of a polarity.
pub fn polarity_to_str(p: ObservationPolarity) -> (s: &'static str)
    ensures
        s@ == polarity_text(p),
{
    match p {
        ObservationPolarity::Present => "present",
        ObservationPolarity::Absent => "absent",
        ObservationPolarity::Corrected => "corrected",
    }
}

/// The trimmed text, when it is not empty after trimming.
pub open spec fn trimmed_if_present(o: Option<String>) -> Option<Seq<char>> {
    match o {
        Some(s) => if trim_seq(s@).len() > 0 {
            Some(trim_seq(s@))
        } else {
            None
        },
        None => None,
    }
}

/// The trimmed text, when it is not empty after trimming.
fn trimmed_copy(o: &Option<String>) -> (r: Option<String>)
    ensures
        option_view(r) == trimmed_if_present(*o),
{
    match o {
        Some(s) => {
            let t = trim_text(s);
            if t.unicode_len() > 0 {
                Some(t)
            } else {
                None
            }
        },
        None => None,
    }
}

/// `d` is the observation `o` as the prompt presents it.
pub open spec fn is_observation_dto(d: ObservationDto, o: ExtractedObservation) -> bool {
    &&& d.statement@ == trim_seq(o.statement@)
    &&& d.polarity@ == polarity_text(o.polarity)
    &&& option_view(d.condition) == trimmed_if_present(o.condition)
    &&& option_view(d.time_relation) == trimmed_if_present(o.time_relation)
}

/// The latest state of a hypothesis keeps it in play.
pub open spec fn still_in_play(h: TrackedHypothesis) -> bool {
    h.state_history@.len() > 0 && (h.state_history@.last().status is Active
        || h.state_history@.last().status is Weakened)
}

/// The latest state of a hypothesis rejects it.
pub open spec fn is_rejected(h: TrackedHypothesis) -> bool {
    h.state_history@.len() > 0 && h.state_history@.last().status is Rejected
}

/// The complaint about the first active hypothesis no longer in play.
pub open spec fn first_bad_active(hs: Seq<TrackedHypothesis>) -> Option<Seq<char>>
    decreases hs.len(),
{
    if hs.len() == 0 {
        None
    } else if !still_in_play(hs[0]) {
        Some("active hypothesis "@ + hs[0].hypothesis_id.0@ + " has unexpected latest state"@)
    } else {
        first_bad_active(hs.drop_first())
    }
}

/// The complaint about the first rejected hypothesis not rejected.
pub open spec fn first_bad_rejected(hs: Seq<TrackedHypothesis>) -> Option<Seq<char>>
    decreases hs.len(),
{
    if hs.len() == 0 {
        None
    } else if !is_rejected(hs[0]) {
        Some("rejected hypothesis "@ + hs[0].hypothesis_id.0@ + " has non-rejected latest state"@)
    } else {
        first_bad_rejected(hs.drop_first())
    }
}

/// Finds the first active hypothesis no longer in play.
fn check_active(hs: &Vec<TrackedHypothesis>) -> (r: Option<String>)
    ensures
        match first_bad_active(hs@) {
            Some(m) => r matches Some(x) && x@ == m,
            None => r is None,
        },
{
    let mut i: usize = 0;
    assert(hs@.skip(0) =~= hs@);
    while i < hs.len()
        invariant
            i <= hs@.len(),
            first_bad_active(hs@) == first_bad_active(hs@.skip(i as int)),
        decreases hs@.len() - i,
    {
        assert(hs@.skip(i as int).drop_first() =~= hs@.skip(i + 1));
        assert(hs@.skip(i as int)[0] == hs@[i as int]);
        let h = &hs[i];
        let n = h.state_history.len();
        let ok = n > 0 && match &h.state_history[n - 1].status {
            HypothesisStatus::Active => true,
            HypothesisStatus::Weakened => true,
            HypothesisStatus::Rejected(_) => false,
        };
        if !ok {
            let mut m = "active hypothesis ".to_owned();
            m.append(h.hypothesis_id.0.as_str());
            m.append(" has unexpected latest state");
            return Some(m);
        }
        i = i + 1;
    }
    None
}

/// Finds the first rejected hypothesis that is not rejected.
fn check_rejected(hs: &Vec<TrackedHypothesis>) -> (r: Option<String>)
    ensures
        match first_bad_rejected(hs@) {
            Some(m) => r matches Some(x) && x@ == m,
            None => r is None,
        },
{
    let mut i: usize = 0;
    assert(hs@.skip(0) =~= hs@);
    while i < hs.len()
        invariant
            i <= hs@.len(),
            first_bad_rejected(hs@) == first_bad_rejected(hs@.skip(i as int)),
        decreases hs@.len() - i,
    {
        assert(hs@.skip(i as int).drop_first() =~= hs@.skip(i + 1));
        assert(hs@.skip(i as int)[0] == hs@[i as int]);
        let h = &hs[i];
        let n = h.state_history.len();
        let ok = n > 0 && match &h.state_history[n - 1].status {
            HypothesisStatus::Rejected(_) => true,
            _ => false,
        };
        if !ok {
            let mut m = "rejected hypothesis ".to_owned();
            m.append(h.hypothesis_id.0.as_str());
            m.append(" has non-rejected latest state");
            return Some(m);
        }
        i = i + 1;
    }
    None
}

/// The trimmed rejection reason of a rejected hypothesis.
pub open spec fn rejection_reason(h: TrackedHypothesis) -> Seq<char> {
    match h.state_history@.last().status {
        HypothesisStatus::Rejected(r) => trim_seq(r@),
        _ => Seq::empty(),
    }
}

/// `d` is the primary card `c` as a diagnostic-update prompt presents it:
/// empty texts dropped, systems and later symptoms without repeats, and
/// each part left out when all its lists are empty.
pub open spec fn is_primary_card_dto(d: Option<PrimaryIncidentCardDto>, c: IncidentCard) -> bool {
    let systems = first_occurrences(non_empty_texts(present_texts(c.vendor_or_project, c.system_type)));
    let affected = non_empty_texts(string_views(c.affected_components@));
    let initial = non_empty_texts(string_views(c.canonical_symptoms@));
    let later = first_occurrences(non_empty_texts(phase_texts(c.incident_phases@)));
    let failure_modes = non_empty_texts(string_views(c.failure_mode_candidates@));
    let signals = non_empty_texts(string_views(c.candidate_explanations@));
    let updates = non_empty_texts(string_views(c.diagnostic_patterns@));
    let factors = non_empty_texts(string_views(c.confidence_notes@));
    let questions = non_empty_texts(check_questions(c.discriminating_checks@));
    let checks = if c.investigation_steps@.len() > 0 {
        non_empty_texts(string_views(c.investigation_steps@))
    } else {
        questions
    };
    let context_empty = systems.len() == 0 && affected.len() == 0 && initial.len() == 0 && later.len() == 0;
    let hypotheses_empty = failure_modes.len() == 0 && signals.len() == 0 && updates.len() == 0 && factors.len() == 0;
    let checks_empty = questions.len() == 0 && checks.len() == 0;
    if context_empty && hypotheses_empty && checks_empty {
        d is None
    } else {
        d matches Some(p) && (if context_empty {
            p.context is None
        } else {
            p.context matches Some(x) && string_views(x.systems@) == systems && string_views(x.affected_components@) == affected
                && string_views(x.initial_symptoms@) == initial && string_views(x.later_symptoms@) == later
        }) && (if hypotheses_empty {
            p.hypotheses is None
        } else {
            p.hypotheses matches Some(x) && string_views(x.failure_modes@) == failure_modes
                && string_views(x.hypothesis_signals@) == signals && string_views(x.hypothesis_updates@) == updates
                && string_views(x.contributing_factors@) == factors
        }) && (if checks_empty {
            p.checks is None
        } else {
            p.checks matches Some(x) && string_views(x.investigation_questions@) == questions
                && string_views(x.discriminating_checks@) == checks
        })
    }
}

/// The primary card as a diagnostic-update prompt presents it.
pub fn build_primary_incident_card(c: &IncidentCard) -> (d: Option<PrimaryIncidentCardDto>)
    ensures
        is_primary_card_dto(d, *c),
{
    let present = present_text_list(&c.vendor_or_project, &c.system_type);
    let present_non_empty = non_empty_copies(&present);
    let systems = first_occurrence_copies(&present_non_empty);
    let affected_components = non_empty_copies(&c.affected_components);
    let initial_symptoms = non_empty_copies(&c.canonical_symptoms);
    let phases = phase_text_list(&c.incident_phases);
    let phases_non_empty = non_empty_copies(&phases);
    let later_symptoms = first_occurrence_copies(&phases_non_empty);
    let context = if systems.len() == 0 && affected_components.len() == 0 && initial_symptoms.len() == 0
        && later_symptoms.len() == 0 {
        None
    } else {
        Some(PrimaryCardContextDto { systems, affected_components, initial_symptoms, later_symptoms })
    };
    let failure_modes = non_empty_copies(&c.failure_mode_candidates);
    let hypothesis_signals = non_empty_copies(&c.candidate_explanations);
    let hypothesis_updates = non_empty_copies(&c.diagnostic_patterns);
    let contributing_factors = non_empty_copies(&c.confidence_notes);
    let hypotheses = if failure_modes.len() == 0 && hypothesis_signals.len() == 0
        && hypothesis_updates.len() == 0 && contributing_factors.len() == 0 {
        None
    } else {
        Some(
            PrimaryCardHypothesesDto {
                failure_modes,
                hypothesis_signals,
                hypothesis_updates,
                contributing_factors,
            },
        )
    };
    let questions = check_question_list(&c.discriminating_checks);
    let investigation_questions = non_empty_copies(&questions);
    let discriminating_checks = if c.investigation_steps.len() > 0 {
        non_empty_copies(&c.investigation_steps)
    } else {
        non_empty_copies(&questions)
    };
    let checks = if investigation_questions.len() == 0 && discriminating_checks.len() == 0 {
        None
    } else {
        Some(PrimaryCardChecksDto { investigation_questions, discriminating_checks })
    };
    if context.is_none() && hypotheses.is_none() && checks.is_none() {
        None
    } else {
        Some(PrimaryIncidentCardDto { context, hypotheses, checks })
    }
}

/// The trimmed texts of prompt chunks.
pub open spec fn chunk_texts(p: Seq<PromptIncidentEvidenceChunk>) -> Seq<Seq<char>> {
    p.map_values(|c: PromptIncidentEvidenceChunk| trim_seq(c.text@))
}

/// The trimmed texts of theory prompt chunks.
pub open spec fn theory_texts(p: Seq<PromptTheoryEvidenceChunk>) -> Seq<Seq<char>> {
    p.map_values(|c: PromptTheoryEvidenceChunk| trim_seq(c.text@))
}

/// The case ids of prompt chunks.
pub open spec fn chunk_case_ids(p: Seq<PromptIncidentEvidenceChunk>) -> Seq<Seq<char>> {
    p.map_values(|c: PromptIncidentEvidenceChunk| c.case_id@)
}

/// The trimmed texts of prompt chunks, in order.
fn chunk_text_list(p: &Vec<PromptIncidentEvidenceChunk>) -> (r: Vec<String>)
    ensures
        string_views(r@) == chunk_texts(p@),
{
    let mut r: Vec<String> = Vec::new();
    let mut i: usize = 0;
    while i < p.len()
        invariant
            i <= p@.len(),
            string_views(r@) == chunk_texts(p@.take(i as int)),
        decreases p@.len() - i,
    {
        let ghost before = r@;
        r.push(trim_text(&p[i].text));
        assert(string_views(r@) =~= string_views(before).push(trim_seq(p@[i as int].text@)));
        assert(chunk_texts(p@.take(i + 1)) =~= chunk_texts(p@.take(i as int)).push(trim_seq(p@[i as int].text@)));
        i = i + 1;
    }
    assert(p@.take(p@.len() as int) =~= p@);
    r
}

/// The case ids of prompt chunks, in order.
fn chunk_case_id_list(p: &Vec<PromptIncidentEvidenceChunk>) -> (r: Vec<String>)
    ensures
        string_views(r@) == chunk_case_ids(p@),
{
    let mut r: Vec<String> = Vec::new();
    let mut i: usize = 0;
    while i < p.len()
        invariant
            i <= p@.len(),
            string_views(r@) == chunk_case_ids(p@.take(i as int)),
        decreases p@.len() - i,
    {
        let ghost before = r@;
        r.push(p[i].case_id.clone());
        assert(string_views(r@) =~= string_views(before).push(p@[i as int].case_id@));
        assert(chunk_case_ids(p@.take(i + 1)) =~= chunk_case_ids(p@.take(i as int)).push(p@[i as int].case_id@));
        i = i + 1;
    }
    assert(p@.take(p@.len() as int) =~= p@);
    r
}

/// The role names present among the primary roles, in role order.
pub open spec fn present_role_names(efm: bool, nch: bool, se: bool) -> Seq<Seq<char>> {
    let a = if efm { seq!["evidence_for_match"@] } else { Seq::empty() };
    let b = if nch { a.push("next_check_hint"@) } else { a };
    if se { b.push("supporting_explanation"@) } else { b }
}

/// `t` describes the chosen evidence.
pub open spec fn is_topology(
    t: EvidenceTopology,
    efm: Seq<PromptIncidentEvidenceChunk>,
    nch: Seq<PromptIncidentEvidenceChunk>,
    se: Seq<PromptIncidentEvidenceChunk>,
    ac: Seq<PromptIncidentEvidenceChunk>,
    theory: Seq<PromptTheoryEvidenceChunk>,
) -> bool {
    &&& string_views(t.primary_evidence_roles@) == present_role_names(efm.len() > 0, nch.len() > 0, se.len() > 0)
    &&& t.alternative_context_present == (ac.len() > 0)
    &&& string_views(t.alternative_context_case_ids@) == first_occurrences(chunk_case_ids(ac))
    &&& t.theory_evidence_present == (theory.len() > 0)
}

/// `d` is the diagnostic state shown for the hypotheses and last check.
pub open spec fn is_state_dto(
    d: Option<DiagnosticStateDto>,
    active: Seq<TrackedHypothesis>,
    rejected: Seq<TrackedHypothesis>,
    last_check: Option<SuggestedCheck>,
) -> bool {
    if active.len() == 0 && rejected.len() == 0 && last_check is None {
        d is None
    } else {
        d matches Some(s) && s.active_hypotheses@.len() == active.len() && (forall|i: int|
            0 <= i < active.len() ==> (#[trigger] s.active_hypotheses@[i]).hypothesis_id@
                == active[i].hypothesis_id.0@ && s.active_hypotheses@[i].text@ == trim_seq(active[i].text@))
            && s.rejected_hypotheses@.len() == rejected.len() && (forall|i: int|
            0 <= i < rejected.len() ==> (#[trigger] s.rejected_hypotheses@[i]).hypothesis_id@
                == rejected[i].hypothesis_id.0@ && s.rejected_hypotheses@[i].text@ == trim_seq(rejected[i].text@)
                && s.rejected_hypotheses@[i].rejection_reason@ == rejection_reason(rejected[i]))
            && match last_check {
            Some(c) => s.last_check matches Some(t) && t@ == trim_seq(c.text@),
            None => s.last_check is None,
        }
    }
}

/// `p` is the plan for the inputs: each primary role's best chunks
/// (roles may share chunks), the alternative context, at most `limit`
/// theory chunks, and the JSON context built from them.
pub open spec fn is_update_plan(
    p: DiagnosticUpdatePlan,
    pu_text: Seq<char>,
    resolved: Seq<char>,
    observations: Seq<ExtractedObservation>,
    cards: HydratedCardBranchesInput,
    ev: IncidentEvidenceRetrievalOutput,
    theory: TheoryEvidenceRetrievalOutput,
    active: Seq<TrackedHypothesis>,
    rejected: Seq<TrackedHypothesis>,
    last_check: Option<SuggestedCheck>,
    cp: DiagnosticUpdateChunkPackingSettings,
) -> bool {
    let a = first_n(role_ranking(ev.primary_chunks@, cp.evidence_for_match), cp.evidence_for_match.limit as int);
    let b = first_n(role_ranking(ev.primary_chunks@, cp.next_check_hint), cp.next_check_hint.limit as int);
    let c = first_n(role_ranking(ev.primary_chunks@, cp.supporting_explanation), cp.supporting_explanation.limit as int);
    let alt = alternative_context_entries(ev.alternative_chunks@, cp.alternative_context, card_ids(cards.alternatives@), Seq::empty());
    let chunks = p.incident_evidence_chunks@;
    let na = a.len();
    let nb = b.len();
    let nc = c.len();
    let efm = chunks.subrange(0, na as int);
    let nch = chunks.subrange(na as int, (na + nb) as int);
    let se = chunks.subrange((na + nb) as int, (na + nb + nc) as int);
    let ac = chunks.subrange((na + nb + nc) as int, chunks.len() as int);
    &&& chunks.len() == na + nb + nc + alt.len()
    &&& prompt_chunks_of(efm, a, ev.primary_chunks@, PromptEvidenceRole::EvidenceForMatch)
    &&& prompt_chunks_of(nch, b, ev.primary_chunks@, PromptEvidenceRole::FirstCheckHint)
    &&& prompt_chunks_of(se, c, ev.primary_chunks@, PromptEvidenceRole::SupportingExplanation)
    &&& prompt_chunks_of(ac, alt, ev.alternative_chunks@, PromptEvidenceRole::AlternativeContext)
    &&& p.theory_chunks@.len() == first_n(theory.chunks@, cp.mechanism_explanation.limit as int).len()
    &&& forall|i: int| 0 <= i < p.theory_chunks@.len() ==> is_theory_prompt_chunk(#[trigger] p.theory_chunks@[i], theory.chunks@[i])
    &&& is_topology(p.evidence_topology, efm, nch, se, ac, p.theory_chunks@)
    &&& p.context.problem_understanding@ == pu_text
    &&& p.context.resolved_observation@ == resolved
    &&& p.context.observations@.len() == observations.len()
    &&& forall|i: int| 0 <= i < observations.len() ==> is_observation_dto(#[trigger] p.context.observations@[i], observations[i])
    &&& is_state_dto(p.context.diagnostic_state, active, rejected, last_check)
    &&& is_primary_card_dto(p.context.primary_incident_card, cards.primary)
    &&& (if chunks.len() == 0 {
        p.context.incident_evidence is None
    } else {
        p.context.incident_evidence matches Some(d) && string_views(d.evidence_for_match@) == chunk_texts(efm)
            && string_views(d.next_check_hint@) == chunk_texts(nch) && string_views(d.supporting_explanation@) == chunk_texts(se)
            && string_views(d.alternative_context@) == chunk_texts(ac)
    })
    &&& (if p.theory_chunks@.len() == 0 {
        p.context.theory_evidence is None
    } else {
        p.context.theory_evidence matches Some(d) && string_views(d.mechanism_explanation@) == theory_texts(p.theory_chunks@)
    })
}

/// The problem-understanding text, trimmed; empty when there is none.
pub open spec fn understanding_text(pu: ProblemUnderstanding) -> Seq<char> {
    match pu.text {
        Some(t) => trim_seq(t@),
        None => Seq::empty(),
    }
}

/// Builds the prompt that updates a diagnosis after a new observation.
#[derive(Debug)]
pub struct DiagnosticUpdatePromptContextAssembly {
    settings: DiagnosticUpdatePromptContextSettings,
    prompt_asset: ContextPromptAsset,
}

impl DiagnosticUpdatePromptContextAssembly {
    /// Checks the settings, then the prompt asset.
    pub fn new(settings: DiagnosticUpdatePromptContextSettings, prompt_asset: ContextPromptAsset) -> (r: Result<
        Self,
        DiagnosticUpdatePromptContextAssemblyError,
    >)
        ensures
            match settings_problem(settings) {
                Some(m) => r matches Err(DiagnosticUpdatePromptContextAssemblyError::InvalidSettings(x))
                    && x@ == m,
                None => match context_asset_problem(prompt_asset) {
                    Some(m) => r matches Err(
                        DiagnosticUpdatePromptContextAssemblyError::InvalidPromptAssetContract(x),
                    ) && x@ == m,
                    None => r matches Ok(s) && s.settings() == settings && s.asset() == prompt_asset,
                },
            },
    {
        validate_settings(&settings)?;
        match check_context_asset(&prompt_asset) {
            Err(m) => Err(DiagnosticUpdatePromptContextAssemblyError::InvalidPromptAssetContract(m)),
            Ok(()) => Ok(DiagnosticUpdatePromptContextAssembly { settings, prompt_asset }),
        }
    }

    /// The settings in use.
    pub closed spec fn settings(&self) -> DiagnosticUpdatePromptContextSettings {
        self.settings
    }

    /// The prompt asset in use.
    pub closed spec fn asset(&self) -> ContextPromptAsset {
        self.prompt_asset
    }

    /// Checks the inputs, chooses the evidence and builds the JSON context:
    /// a blank problem understanding fails first, then a blank resolved
    /// observation, then an active hypothesis no longer in play, then a
    /// rejected hypothesis that is not rejected.
    pub fn plan(
        &self,
        problem_understanding: &ProblemUnderstanding,
        resolved_observation: &ResolvedObservation,
        extracted_observations: &ObservationExtractionOutput,
        cards: &HydratedCardBranchesInput,
        incident_evidence: &IncidentEvidenceRetrievalOutput,
        theory_evidence: &TheoryEvidenceRetrievalOutput,
        active_hypotheses: &Vec<TrackedHypothesis>,
        rejected_hypotheses: &Vec<TrackedHypothesis>,
        last_check: &Option<SuggestedCheck>,
    ) -> (r: Result<DiagnosticUpdatePlan, DiagnosticUpdatePromptContextAssemblyError>)
        ensures
            if understanding_text(*problem_understanding).len() == 0 {
                r == Err::<DiagnosticUpdatePlan, _>(DiagnosticUpdatePromptContextAssemblyError::InvalidProblemUnderstanding)
            } else if trim_seq(resolved_observation.text@).len() == 0 {
                r == Err::<DiagnosticUpdatePlan, _>(DiagnosticUpdatePromptContextAssemblyError::InvalidResolvedObservation)
            } else if first_bad_active(active_hypotheses@) is Some {
                r matches Err(DiagnosticUpdatePromptContextAssemblyError::InvalidHypothesisState(m))
                    && Some(m@) == first_bad_active(active_hypotheses@)
            } else if first_bad_rejected(rejected_hypotheses@) is Some {
                r matches Err(DiagnosticUpdatePromptContextAssemblyError::InvalidHypothesisState(m))
                    && Some(m@) == first_bad_rejected(rejected_hypotheses@)
            } else {
                r matches Ok(p) && is_update_plan(
                    p,
                    understanding_text(*problem_understanding),
                    trim_seq(resolved_observation.text@),
                    extracted_observations.observations@,
                    *cards,
                    *incident_evidence,
                    *theory_evidence,
                    active_hypotheses@,
                    rejected_hypotheses@,
                    *last_check,
                    self.settings().chunk_packing,
                )
            },
    {
        let pu_text = match &problem_understanding.text {
            Some(t) => trim_text(t),
            None => String::new(),
        };
        if pu_text.unicode_len() == 0 {
            return Err(DiagnosticUpdatePromptContextAssemblyError::InvalidProblemUnderstanding);
        }
        let resolved_text = trim_text(&resolved_observation.text);
        if resolved_text.unicode_len() == 0 {
            return Err(DiagnosticUpdatePromptContextAssemblyError::InvalidResolvedObservation);
        }
        match check_active(active_hypotheses) {
            Some(m) => {
                return Err(DiagnosticUpdatePromptContextAssemblyError::InvalidHypothesisState(m));
            },
            None => {},
        }
        match check_rejected(rejected_hypotheses) {
            Some(m) => {
                return Err(DiagnosticUpdatePromptContextAssemblyError::InvalidHypothesisState(m));
            },
            None => {},
        }
        let cp = &self.settings.chunk_packing;
        let ev = &incident_evidence.primary_chunks;
        let efm = select_primary_role_chunks(ev, &cp.evidence_for_match, PromptEvidenceRole::EvidenceForMatch);
        let nch = select_primary_role_chunks(ev, &cp.next_check_hint, PromptEvidenceRole::FirstCheckHint);
        let se = select_primary_role_chunks(ev, &cp.supporting_explanation, PromptEvidenceRole::SupportingExplanation);
        let alt_ids = card_id_list(&cards.alternatives);
        let none_taken: Vec<String> = Vec::new();
        assert(string_views(none_taken@) =~= Seq::<Seq<char>>::empty());
        let ac = select_alternative_context_chunks(&incident_evidence.alternative_chunks, &cp.alternative_context, &alt_ids, &none_taken);
        let theory_chunks = select_theory_chunks(&theory_evidence.chunks, cp.mechanism_explanation.limit);
        let mut roles: Vec<String> = Vec::new();
        if efm.len() > 0 {
            roles.push("evidence_for_match".to_owned());
        }
        let ghost roles_a = string_views(roles@);
        if nch.len() > 0 {
            roles.push("next_check_hint".to_owned());
        }
        let ghost roles_b = string_views(roles@);
        if se.len() > 0 {
            roles.push("supporting_explanation".to_owned());
        }
        proof {
            assert(roles_a =~= (if efm@.len() > 0 { seq!["evidence_for_match"@] } else { Seq::<Seq<char>>::empty() }));
            assert(string_views(roles@) =~= present_role_names(efm@.len() > 0, nch@.len() > 0, se@.len() > 0));
        }
        let ac_case_ids = chunk_case_id_list(&ac);
        let evidence_topology = EvidenceTopology {
            primary_evidence_roles: roles,
            alternative_context_present: ac.len() > 0,
            alternative_context_case_ids: first_occurrence_copies(&ac_case_ids),
            theory_evidence_present: theory_chunks.len() > 0,
        };
        let efm_texts = chunk_text_list(&efm);
        let nch_texts = chunk_text_list(&nch);
        let se_texts = chunk_text_list(&se);
        let ac_texts = chunk_text_list(&ac);
        assert(string_views(efm_texts@).len() == efm_texts@.len() && chunk_texts(efm@).len() == efm@.len());
        assert(string_views(nch_texts@).len() == nch_texts@.len() && chunk_texts(nch@).len() == nch@.len());
        assert(string_views(se_texts@).len() == se_texts@.len() && chunk_texts(se@).len() == se@.len());
        assert(string_views(ac_texts@).len() == ac_texts@.len() && chunk_texts(ac@).len() == ac@.len());
        let incident_evidence_dto = if efm_texts.len() == 0 && nch_texts.len() == 0 && se_texts.len() == 0 && ac_texts.len() == 0 {
            None
        } else {
            Some(IncidentEvidenceDto {
                evidence_for_match: efm_texts,
                next_check_hint: nch_texts,
                supporting_explanation: se_texts,
                alternative_context: ac_texts,
            })
        };
        let mut theory_texts_v: Vec<String> = Vec::new();
        let mut t: usize = 0;
        while t < theory_chunks.len()
            invariant
                t <= theory_chunks@.len(),
                string_views(theory_texts_v@) == theory_texts(theory_chunks@.take(t as int)),
            decreases theory_chunks@.len() - t,
        {
            let ghost before = theory_texts_v@;
            theory_texts_v.push(trim_text(&theory_chunks[t].text));
            assert(string_views(theory_texts_v@) =~= string_views(before).push(trim_seq(theory_chunks@[t as int].text@)));
            assert(theory_texts(theory_chunks@.take(t + 1)) =~= theory_texts(theory_chunks@.take(t as int)).push(trim_seq(theory_chunks@[t as int].text@)));
            t = t + 1;
        }
        assert(theory_chunks@.take(theory_chunks@.len() as int) =~= theory_chunks@);
        let theory_evidence_dto = if theory_texts_v.len() == 0 {
            None
        } else {
            Some(TheoryEvidenceDto { mechanism_explanation: theory_texts_v })
        };
        let obs = &extracted_observations.observations;
        let mut observations: Vec<ObservationDto> = Vec::new();
        let mut i: usize = 0;
        while i < obs.len()
            invariant
                i <= obs@.len(),
                observations@.len() == i,
                forall|j: int| 0 <= j < i ==> is_observation_dto(#[trigger] observations@[j], obs@[j]),
            decreases obs@.len() - i,
        {
            let o = &obs[i];
            observations.push(ObservationDto {
                statement: trim_text(&o.statement),
                polarity: polarity_to_str(o.polarity).to_owned(),
                condition: trimmed_copy(&o.condition),
                time_relation: trimmed_copy(&o.time_relation),
            });
            i = i + 1;
        }
        let mut active: Vec<ActiveHypothesisDto> = Vec::new();
        let mut k: usize = 0;
        while k < active_hypotheses.len()
            invariant
                k <= active_hypotheses@.len(),
                active@.len() == k,
                forall|j: int| 0 <= j < k ==> (#[trigger] active@[j]).hypothesis_id@ == active_hypotheses@[j].hypothesis_id.0@
                    && active@[j].text@ == trim_seq(active_hypotheses@[j].text@),
            decreases active_hypotheses@.len() - k,
        {
            let h = &active_hypotheses[k];
            active.push(ActiveHypothesisDto { hypothesis_id: h.hypothesis_id.0.clone(), text: trim_text(&h.text) });
            k = k + 1;
        }
        let mut rejected: Vec<RejectedHypothesisDto> = Vec::new();
        let mut q: usize = 0;
        proof {
            lemma_all_rejected(rejected_hypotheses@);
        }
        while q < rejected_hypotheses.len()
            invariant
                q <= rejected_hypotheses@.len(),
                forall|j: int| 0 <= j < rejected_hypotheses@.len() ==> is_rejected(#[trigger] rejected_hypotheses@[j]),
                rejected@.len() == q,
                forall|j: int| 0 <= j < q ==> (#[trigger] rejected@[j]).hypothesis_id@ == rejected_hypotheses@[j].hypothesis_id.0@
                    && rejected@[j].text@ == trim_seq(rejected_hypotheses@[j].text@)
                    && rejected@[j].rejection_reason@ == rejection_reason(rejected_hypotheses@[j]),
            decreases rejected_hypotheses@.len() - q,
        {
            let h = &rejected_hypotheses[q];
            assert(is_rejected(rejected_hypotheses@[q as int]));
            let n = h.state_history.len();
            let reason = match &h.state_history[n - 1].status {
                HypothesisStatus::Rejected(r) => trim_text(r),
                _ => String::new(),
            };
            rejected.push(RejectedHypothesisDto {
                hypothesis_id: h.hypothesis_id.0.clone(),
                text: trim_text(&h.text),
                rejection_reason: reason,
            });
            q = q + 1;
        }
        let last = match last_check {
            Some(c) => Some(trim_text(&c.text)),
            None => None,
        };
        let diagnostic_state = if active.len() == 0 && rejected.len() == 0 && last.is_none() {
            None
        } else {
            Some(DiagnosticStateDto { active_hypotheses: active, rejected_hypotheses: rejected, last_check: last })
        };
        let ghost efm_v = efm@;
        let ghost nch_v = nch@;
        let ghost se_v = se@;
        let ghost ac_v = ac@;
        let mut incident_chunks = efm;
        crate::prompt_context_assembly::append_chunks(&mut incident_chunks, nch);
        crate::prompt_context_assembly::append_chunks(&mut incident_chunks, se);
        crate::prompt_context_assembly::append_chunks(&mut incident_chunks, ac);
        proof {
            let all = incident_chunks@;
            let na = efm_v.len();
            let nb = nch_v.len();
            let nc = se_v.len();
            assert(all =~= efm_v + nch_v + se_v + ac_v);
            assert(all.subrange(0, na as int) =~= efm_v);
            assert(all.subrange(na as int, (na + nb) as int) =~= nch_v);
            assert(all.subrange((na + nb) as int, (na + nb + nc) as int) =~= se_v);
            assert(all.subrange((na + nb + nc) as int, all.len() as int) =~= ac_v);
        }
        let context = DiagnosticUpdateContext {
            problem_understanding: pu_text,
            resolved_observation: resolved_text,
            observations,
            diagnostic_state,
            primary_incident_card: build_primary_incident_card(&cards.primary),
            incident_evidence: incident_evidence_dto,
            theory_evidence: theory_evidence_dto,
        };
        Ok(DiagnosticUpdatePlan { context, evidence_topology, incident_evidence_chunks: incident_chunks, theory_chunks })
    }

    /// The final prompt: the template with the serialized context in place
    /// of the context placeholder, with the response schema, the evidence
    /// topology and the chosen chunks.
    pub fn render(&self, plan: DiagnosticUpdatePlan, context_json: &str) -> (out: PromptContextAssemblyOutput)
        ensures
            out.prompt@ == replace_first_seq(self.asset().template@, self.asset().context_placeholder@, context_json@),
            json_equiv(out.response_schema, self.asset().response_schema),
            out.evidence_topology == Some(plan.evidence_topology),
            out.incident_evidence_chunks@ == plan.incident_evidence_chunks@,
            out.theory_chunks@ == plan.theory_chunks@,
    {
        PromptContextAssemblyOutput {
            prompt: replace_first_text(&self.prompt_asset.template, self.prompt_asset.context_placeholder.as_str(), context_json),
            response_schema: copy_json(&self.prompt_asset.response_schema),
            evidence_topology: Some(plan.evidence_topology),
            incident_evidence_chunks: plan.incident_evidence_chunks,
            theory_chunks: plan.theory_chunks,
        }
    }
}

proof fn lemma_all_rejected(hs: Seq<TrackedHypothesis>)
    requires
        first_bad_rejected(hs) is None,
    ensures
        forall|j: int| 0 <= j < hs.len() ==> is_rejected(#[trigger] hs[j]),
    decreases hs.len(),
{
    if hs.len() > 0 {
        lemma_all_rejected(hs.drop_first());
        assert forall|j: int| 0 <= j < hs.len() implies is_rejected(#[trigger] hs[j]) by {
            if j > 0 {
                assert(hs[j] == hs.drop_first()[j - 1]);
            }
        }
    }
}


/// Checks the parsed prompt asset against its parsed schema: it passes
/// exactly when the schema compiles and accepts it; a compile error is reported as
/// `schema compile error: ` and its message, a refusal with the validation
/// messages joined by `; `, both as a failed schema validation.
pub fn validate_asset_schema(schema: &JsonValue, asset: &JsonValue) -> (r: Result<
    (),
    DiagnosticUpdatePromptContextAssemblyError,
>)
    ensures
        r is Ok <==> schema_accepts(*schema, *asset),
        r is Err ==> r matches Err(DiagnosticUpdatePromptContextAssemblyError::PromptAssetSchemaValidationFailed(_)),
        r matches Err(DiagnosticUpdatePromptContextAssemblyError::PromptAssetSchemaValidationFailed(m))
            ==> !schema_compiles(*schema) ==> "schema compile error: "@.is_prefix_of(m@),
{
    match check_asset_schema(schema, asset) {
        Ok(()) => Ok(()),
        Err(SchemaCheckFailure::Compile(e)) => {
            let mut m = String::from_str("schema compile error: ");
            let ghost head = m@;
            m.append(e.as_str());
            assert(m@.subrange(0, head.len() as int) =~= head);
            Err(DiagnosticUpdatePromptContextAssemblyError::PromptAssetSchemaValidationFailed(m))
        },
        Err(SchemaCheckFailure::Rejected(m)) => Err(
            DiagnosticUpdatePromptContextAssemblyError::PromptAssetSchemaValidationFailed(m),
        ),
    }
}


/// The prompt asset file's text read as JSON; when it does not parse, the parser's message as an invalid asset JSON.
pub fn parse_asset_json(text: &str) -> (r: Result<JsonValue, DiagnosticUpdatePromptContextAssemblyError>)
    ensures
        r matches Ok(v) ==> json_text_value(text@) == Some(v),
        r is Err <==> json_text_value(text@) is None,
        r is Err ==> r matches Err(DiagnosticUpdatePromptContextAssemblyError::InvalidPromptAssetJson(_)),
{
    match parse_json_or_report(text, "") {
        Ok(v) => Ok(v),
        Err(m) => Err(DiagnosticUpdatePromptContextAssemblyError::InvalidPromptAssetJson(m)),
    }
}

/// The schema file's text read as JSON; when it does not parse, the parser's message as an invalid schema JSON.
pub fn parse_schema_json(text: &str) -> (r: Result<JsonValue, DiagnosticUpdatePromptContextAssemblyError>)
    ensures
        r matches Ok(v) ==> json_text_value(text@) == Some(v),
        r is Err <==> json_text_value(text@) is None,
        r is Err ==> r matches Err(DiagnosticUpdatePromptContextAssemblyError::InvalidPromptAssetSchemaJson(_)),
{
    match parse_json_or_report(text, "") {
        Ok(v) => Ok(v),
        Err(m) => Err(DiagnosticUpdatePromptContextAssemblyError::InvalidPromptAssetSchemaJson(m)),
    }
}


/// Whether a prompt chunk has role `role`.
pub open spec fn role_is(role: PromptEvidenceRole) -> spec_fn(PromptIncidentEvidenceChunk) -> bool {
    |c: PromptIncidentEvidenceChunk| c.role == role
}

/// Some chunk of `chunks` has role `role`.
pub open spec fn has_role(chunks: Seq<PromptIncidentEvidenceChunk>, role: PromptEvidenceRole) -> bool {
    exists|i: int| 0 <= i < chunks.len() && (#[trigger] chunks[i]).role == role
}

proof fn lemma_filter_role(s: Seq<PromptIncidentEvidenceChunk>, role: PromptEvidenceRole)
    ensures
        (forall|i: int| 0 <= i < s.len() ==> (#[trigger] s[i]).role == role) ==> s.filter(role_is(role)) == s,
        (forall|i: int| 0 <= i < s.len() ==> (#[trigger] s[i]).role != role) ==> s.filter(role_is(role)) == Seq::<
            PromptIncidentEvidenceChunk,
        >::empty(),
    decreases s.len(),
{
    reveal(Seq::filter);
    if s.len() > 0 {
        lemma_filter_role(s.drop_last(), role);
        if forall|i: int| 0 <= i < s.len() ==> (#[trigger] s[i]).role == role {
            assert forall|i: int| 0 <= i < s.drop_last().len() implies (#[trigger] s.drop_last()[i]).role == role by {
                assert(s.drop_last()[i] == s[i]);
            }
            assert(s.drop_last().push(s.last()) =~= s);
        }
        if forall|i: int| 0 <= i < s.len() ==> (#[trigger] s[i]).role != role {
            assert forall|i: int| 0 <= i < s.drop_last().len() implies (#[trigger] s.drop_last()[i]).role != role by {
                assert(s.drop_last()[i] == s[i]);
            }
            assert(s[s.len() - 1].role != role);
        }
    }
}

proof fn lemma_segment_roles(
    seg: Seq<PromptIncidentEvidenceChunk>,
    e: Seq<RankedChunk>,
    src: Seq<crate::shared_types::IncidentEvidenceChunk>,
    role: PromptEvidenceRole,
)
    requires
        prompt_chunks_of(seg, e, src, role),
    ensures
        forall|i: int| 0 <= i < seg.len() ==> (#[trigger] seg[i]).role == role,
{
    assert forall|i: int| 0 <= i < seg.len() implies (#[trigger] seg[i]).role == role by {
        assert(is_prompt_chunk(seg[i], src[e[i].index as int], role));
    }
}

/// The evidence topology of an update plan describes its chunk list: the
/// primary roles named are those some chunk has, in the order evidence for
/// the match, next-check hint, supporting explanation; alternative context
/// is present exactly when some chunk has that role, and its case ids are
/// those of the alternative-context chunks, each once, in order of first
/// appearance; theory evidence is present exactly when there are theory
/// chunks.
pub proof fn lemma_update_topology_describes_chunks(
    p: DiagnosticUpdatePlan,
    pu_text: Seq<char>,
    resolved: Seq<char>,
    observations: Seq<ExtractedObservation>,
    cards: HydratedCardBranchesInput,
    ev: IncidentEvidenceRetrievalOutput,
    theory: TheoryEvidenceRetrievalOutput,
    active: Seq<TrackedHypothesis>,
    rejected: Seq<TrackedHypothesis>,
    last_check: Option<SuggestedCheck>,
    cp: DiagnosticUpdateChunkPackingSettings,
)
    requires
        is_update_plan(p, pu_text, resolved, observations, cards, ev, theory, active, rejected, last_check, cp),
    ensures
        ({
            let chunks = p.incident_evidence_chunks@;
            let t = p.evidence_topology;
            &&& string_views(t.primary_evidence_roles@) == present_role_names(
                has_role(chunks, PromptEvidenceRole::EvidenceForMatch),
                has_role(chunks, PromptEvidenceRole::FirstCheckHint),
                has_role(chunks, PromptEvidenceRole::SupportingExplanation),
            )
            &&& t.alternative_context_present == has_role(chunks, PromptEvidenceRole::AlternativeContext)
            &&& string_views(t.alternative_context_case_ids@) == first_occurrences(
                chunk_case_ids(chunks.filter(role_is(PromptEvidenceRole::AlternativeContext))),
            )
            &&& t.theory_evidence_present == (p.theory_chunks@.len() > 0)
        }),
{
    let a = first_n(role_ranking(ev.primary_chunks@, cp.evidence_for_match), cp.evidence_for_match.limit as int);
    let b = first_n(role_ranking(ev.primary_chunks@, cp.next_check_hint), cp.next_check_hint.limit as int);
    let c = first_n(role_ranking(ev.primary_chunks@, cp.supporting_explanation), cp.supporting_explanation.limit as int);
    let alt = alternative_context_entries(ev.alternative_chunks@, cp.alternative_context, card_ids(cards.alternatives@), Seq::empty());
    let chunks = p.incident_evidence_chunks@;
    let na = a.len() as int;
    let nb = b.len() as int;
    let nc = c.len() as int;
    let efm = chunks.subrange(0, na);
    let nch = chunks.subrange(na, na + nb);
    let se = chunks.subrange(na + nb, na + nb + nc);
    let ac = chunks.subrange(na + nb + nc, chunks.len() as int);
    lemma_segment_roles(efm, a, ev.primary_chunks@, PromptEvidenceRole::EvidenceForMatch);
    lemma_segment_roles(nch, b, ev.primary_chunks@, PromptEvidenceRole::FirstCheckHint);
    lemma_segment_roles(se, c, ev.primary_chunks@, PromptEvidenceRole::SupportingExplanation);
    lemma_segment_roles(ac, alt, ev.alternative_chunks@, PromptEvidenceRole::AlternativeContext);
    assert forall|i: int| 0 <= i < chunks.len() implies {
        &&& (i < na ==> (#[trigger] chunks[i]).role == PromptEvidenceRole::EvidenceForMatch)
        &&& (na <= i < na + nb ==> chunks[i].role == PromptEvidenceRole::FirstCheckHint)
        &&& (na + nb <= i < na + nb + nc ==> chunks[i].role == PromptEvidenceRole::SupportingExplanation)
        &&& (na + nb + nc <= i ==> chunks[i].role == PromptEvidenceRole::AlternativeContext)
    } by {
        if i < na {
            assert(efm[i] == chunks[i]);
        } else if i < na + nb {
            assert(nch[i - na] == chunks[i]);
        } else if i < na + nb + nc {
            assert(se[i - na - nb] == chunks[i]);
        } else {
            assert(ac[i - na - nb - nc] == chunks[i]);
        }
    }
    if na > 0 {
        assert(chunks[0].role == PromptEvidenceRole::EvidenceForMatch);
    }
    if nb > 0 {
        assert(chunks[na].role == PromptEvidenceRole::FirstCheckHint);
    }
    if nc > 0 {
        assert(chunks[na + nb].role == PromptEvidenceRole::SupportingExplanation);
    }
    if ac.len() > 0 {
        assert(chunks[na + nb + nc].role == PromptEvidenceRole::AlternativeContext);
    }
    let pred = role_is(PromptEvidenceRole::AlternativeContext);
    assert(chunks =~= efm + nch + se + ac);
    Seq::filter_distributes_over_add(efm + nch + se, ac, pred);
    Seq::filter_distributes_over_add(efm + nch, se, pred);
    Seq::filter_distributes_over_add(efm, nch, pred);
    lemma_filter_role(efm, PromptEvidenceRole::AlternativeContext);
    lemma_filter_role(nch, PromptEvidenceRole::AlternativeContext);
    lemma_filter_role(se, PromptEvidenceRole::AlternativeContext);
    lemma_filter_role(ac, PromptEvidenceRole::AlternativeContext);
    assert(chunks.filter(pred) =~= ac);
}


/// The texts of `s` that are not empty, in order.
pub open spec fn blank_free(s: Seq<Seq<char>>) -> Seq<Seq<char>> {
    s.filter(|t: Seq<char>| t.len() > 0)
}

proof fn lemma_non_empty_texts_is_filter(s: Seq<Seq<char>>)
    ensures
        non_empty_texts(s) == blank_free(s),
    decreases s.len(),
{
    reveal(Seq::filter);
    if s.len() > 0 {
        lemma_non_empty_texts_is_filter(s.drop_last());
    }
}

/// What the update prompt shows of a card's checks.  The investigation
/// questions are the card's non-empty discriminating-check questions.  The
/// discriminating checks are its non-empty investigation steps; a card
/// with no investigation steps shows its check questions there as well.
pub proof fn lemma_update_card_checks(d: Option<PrimaryIncidentCardDto>, c: IncidentCard)
    requires
        is_primary_card_dto(d, c),
    ensures
        ({
            let qs = blank_free(c.discriminating_checks@.map_values(|k: crate::shared_types::DiscriminatingCheck| k.question@));
            let steps = blank_free(string_views(c.investigation_steps@));
            &&& c.investigation_steps@.len() == 0 && qs.len() > 0 ==> (d matches Some(p) && p.checks matches Some(x)
                && string_views(x.investigation_questions@) == qs && string_views(x.discriminating_checks@) == qs)
            &&& c.investigation_steps@.len() > 0 && (qs.len() > 0 || steps.len() > 0) ==> (d matches Some(p)
                && p.checks matches Some(x) && string_views(x.investigation_questions@) == qs && string_views(
                x.discriminating_checks@,
            ) == steps)
        }),
{
    let qs0 = check_questions(c.discriminating_checks@);
    assert(qs0 =~= c.discriminating_checks@.map_values(|k: crate::shared_types::DiscriminatingCheck| k.question@));
    lemma_non_empty_texts_is_filter(qs0);
    lemma_non_empty_texts_is_filter(string_views(c.investigation_steps@));
}


/// What the update prompt shows of a card's hypotheses and context: when
/// the card names a non-empty failure mode, the hypotheses show its
/// non-empty failure modes, candidate explanations, diagnostic patterns
/// and confidence notes, each in order; when it names a non-empty affected
/// component, the context shows its non-empty affected components and
/// canonical symptoms.
pub proof fn lemma_update_card_fields(d: Option<PrimaryIncidentCardDto>, c: IncidentCard)
    requires
        is_primary_card_dto(d, c),
    ensures
        blank_free(string_views(c.failure_mode_candidates@)).len() > 0 ==> (d matches Some(p)
            && p.hypotheses matches Some(x) && string_views(x.failure_modes@) == blank_free(
            string_views(c.failure_mode_candidates@),
        ) && string_views(x.hypothesis_signals@) == blank_free(string_views(c.candidate_explanations@))
            && string_views(x.hypothesis_updates@) == blank_free(string_views(c.diagnostic_patterns@))
            && string_views(x.contributing_factors@) == blank_free(string_views(c.confidence_notes@))),
        blank_free(string_views(c.affected_components@)).len() > 0 ==> (d matches Some(p) && p.context matches Some(
            x,
        ) && string_views(x.affected_components@) == blank_free(string_views(c.affected_components@))
            && string_views(x.initial_symptoms@) == blank_free(string_views(c.canonical_symptoms@))),
{
    lemma_non_empty_texts_is_filter(string_views(c.failure_mode_candidates@));
    lemma_non_empty_texts_is_filter(string_views(c.candidate_explanations@));
    lemma_non_empty_texts_is_filter(string_views(c.diagnostic_patterns@));
    lemma_non_empty_texts_is_filter(string_views(c.confidence_notes@));
    lemma_non_empty_texts_is_filter(string_views(c.affected_components@));
    lemma_non_empty_texts_is_filter(string_views(c.canonical_symptoms@));
}

} // verus!
