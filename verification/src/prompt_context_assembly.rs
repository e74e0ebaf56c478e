use vstd::prelude::*;

use crate::chunk_selection::{
    alternative_context_entries, compute_eligible_incident_chunks, contains_text, drop_excluded,
    entries_not_excluded, first_n, indices_below, is_prompt_chunk, lemma_filters_bounded,
    lemma_alternative_context_bounded, lemma_not_excluded_sub, lemma_ranking_indices,
    prompt_chunks_of, role_ranking, select_alternative_context_chunks,
    select_theory_chunks, take_prompt_chunks, is_theory_prompt_chunk, tag_text, chunk_tag_text,
    ChunkPackingSource, ChunkRolePackingSettings, IncidentChunkTag, PromptEvidenceRole,
    PromptIncidentEvidenceChunk, PromptTheoryEvidenceChunk, RankedChunk,
};
use crate::context_text::{
    check_context_asset, check_question_list, check_questions, context_asset_problem,
    first_occurrences, non_empty_copies, non_empty_texts, phase_text_list, phase_texts,
    present_text_list, present_texts, push_non_empty, term_text_list, term_texts,
    ContextPromptAsset, PromptContextAssemblyOutput,
};
use crate::input_normalization::NormalizedUserRequest;
use crate::json::{copy_json, copy_strings, json_equiv, json_text_value, parse_json_or_report, text_eq, JsonValue};
use crate::prompt_asset::{check_asset_schema, reports_schema_failure, schema_accepts, schema_failure_message};
use crate::shared_types::{
    string_views, CardHydrationOutput, IncidentCard, IncidentEvidenceChunk,
    IncidentEvidenceRetrievalOutput, StructuredUserQuery, TheoryEvidenceRetrievalOutput,
};
use crate::text::{replace_first_seq, replace_first_text};

verus! {

/// How the chunks of each prompt role are chosen.
#[derive(Clone, Debug, PartialEq, Eq)]
pub struct PromptChunkPackingSettings {
    pub evidence_for_match: ChunkRolePackingSettings,
    pub first_check_hint: ChunkRolePackingSettings,
    pub supporting_explanation: ChunkRolePackingSettings,
    pub alternative_context: ChunkRolePackingSettings,
    pub mechanism_explanation: ChunkRolePackingSettings,
}

/// Settings of prompt context assembly.
#[derive(Clone, Debug, PartialEq, Eq)]
pub struct PromptContextSettings {
    pub prompt_asset_path: String,
    pub chunk_packing: PromptChunkPackingSettings,
}

/// Ways prompt context assembly fails.
#[derive(Clone, Debug, PartialEq, Eq)]
pub enum PromptContextAssemblyError {
    InvalidSettings(String),
    PromptAsset(String),
    MissingPrimaryCard,
    MissingRequiredEvidence { role: PromptEvidenceRole },
    InconsistentEvidence(String),
}

/// The user's query in the vocabulary of incident cards.
#[derive(Clone, Debug, PartialEq, Eq)]
pub struct NormalizedIncidentQueryDto {
    pub recognized_canonical_symptoms: Vec<String>,
    pub unmapped_user_symptoms: Vec<String>,
    pub affected_components: Vec<String>,
    pub failure_mode_candidates: Vec<String>,
    pub observed_phase: Vec<String>,
    pub signals_present: Vec<String>,
    pub missing_signals: Vec<String>,
}

/// Where the matched incident happened and what it looked like.
#[derive(Clone, Debug, PartialEq, Eq)]
pub struct MatchedIncidentContextDto {
    pub systems: Vec<String>,
    pub affected_components: Vec<String>,
    pub initial_symptoms: Vec<String>,
    pub later_symptoms: Vec<String>,
}

/// What the matched incident suggests as explanations.
#[derive(Clone, Debug, PartialEq, Eq)]
pub struct MatchedIncidentHypothesesDto {
    pub failure_modes: Vec<String>,
    pub hypothesis_signals: Vec<String>,
    pub hypothesis_updates: Vec<String>,
    pub contributing_factors: Vec<String>,
}

/// What the matched incident suggests checking.
#[derive(Clone, Debug, PartialEq, Eq)]
pub struct MatchedIncidentChecksDto {
    pub investigation_questions: Vec<String>,
    pub discriminating_checks: Vec<String>,
}

/// The primary incident card as the prompt presents it.
#[derive(Clone, Debug, PartialEq, Eq)]
pub struct MatchedIncidentCardDto {
    pub context: MatchedIncidentContextDto,
    pub hypotheses: MatchedIncidentHypothesesDto,
    pub checks: MatchedIncidentChecksDto,
}

/// An incident chunk as the prompt presents it.
#[derive(Clone, Debug, PartialEq, Eq)]
pub struct IncidentChunkDto {
    pub role: String,
    pub source_document_id: String,
    pub chunk_tags: Vec<String>,
    pub text: String,
}

/// A theory chunk as the prompt presents it.
#[derive(Clone, Debug, PartialEq, Eq)]
pub struct TheoryChunkDto {
    pub role: String,
    pub source_document_id: String,
    pub text: String,
}

/// The JSON context of a diagnostic-response prompt, member by member.
#[derive(Clone, Debug, PartialEq, Eq)]
pub struct DiagnosticResponseContext {
    pub task: String,
    pub user_problem: String,
    pub input_token_count: usize,
    pub normalized_incident_query: NormalizedIncidentQueryDto,
    pub matched_incident_card: MatchedIncidentCardDto,
    pub incident_evidence_chunks: Vec<IncidentChunkDto>,
    pub theory_chunks: Vec<TheoryChunkDto>,
    pub policy_constraints: Vec<String>,
}

/// The chosen evidence and the context to serialize into the prompt.
#[derive(Debug)]
pub struct PromptContextPlan {
    pub context: DiagnosticResponseContext,
    pub incident_evidence_chunks: Vec<PromptIncidentEvidenceChunk>,
    pub theory_chunks: Vec<PromptTheoryEvidenceChunk>,
}

/// The wire name of a prompt role.
pub open spec fn role_text(role: PromptEvidenceRole) -> Seq<char> {
    match role {
        PromptEvidenceRole::EvidenceForMatch => "evidence_for_match"@,
        PromptEvidenceRole::FirstCheckHint => "first_check_hint"@,
        PromptEvidenceRole::SupportingExplanation => "supporting_explanation"@,
        PromptEvidenceRole::AlternativeContext => "alternative_context"@,
        PromptEvidenceRole::MechanismExplanation => "mechanism_explanation"@,
    }
}

/// The wire name of a prompt role.
pub fn role_to_str(role: PromptEvidenceRole) -> (s: &'static str)
    ensures
        s@ == role_text(role),
{
    match role {
        PromptEvidenceRole::EvidenceForMatch => "evidence_for_match",
        PromptEvidenceRole::FirstCheckHint => "first_check_hint",
        PromptEvidenceRole::SupportingExplanation => "supporting_explanation",
        PromptEvidenceRole::AlternativeContext => "alternative_context",
        PromptEvidenceRole::MechanismExplanation => "mechanism_explanation",
    }
}

/// What is wrong with the settings, if anything, checked in this order.
pub open spec fn settings_problem(s: PromptContextSettings) -> Option<Seq<char>> {
    let cp = s.chunk_packing;
    if s.prompt_asset_path@.len() == 0 {
        Some("prompt_asset_path must not be empty"@)
    } else if cp.evidence_for_match.source != ChunkPackingSource::PrimaryIncident {
        Some("evidence_for_match.source must be PrimaryIncident"@)
    } else if cp.first_check_hint.source != ChunkPackingSource::PrimaryIncident {
        Some("first_check_hint.source must be PrimaryIncident"@)
    } else if cp.supporting_explanation.source != ChunkPackingSource::PrimaryIncident {
        Some("supporting_explanation.source must be PrimaryIncident"@)
    } else if cp.alternative_context.source != ChunkPackingSource::AlternativeIncident {
        Some("alternative_context.source must be AlternativeIncident"@)
    } else if cp.mechanism_explanation.source != ChunkPackingSource::Theory {
        Some("mechanism_explanation.source must be Theory"@)
    } else if cp.evidence_for_match.limit < 1 {
        Some("evidence_for_match.limit must be >= 1"@)
    } else if cp.first_check_hint.limit < 1 {
        Some("first_check_hint.limit must be >= 1"@)
    } else if cp.alternative_context.limit > 0 && cp.alternative_context.per_case_limit is None {
        Some("alternative_context.per_case_limit must be Some(n > 0) when limit > 0"@)
    } else if cp.alternative_context.limit > 0 && cp.alternative_context.per_case_limit == Some(
        0usize,
    ) {
        Some("alternative_context.per_case_limit must be > 0 when limit > 0"@)
    } else if cp.mechanism_explanation.tag_priority@.len() > 0 {
        Some(
            "mechanism_explanation.tag_priority must be empty because theory chunks do not expose tags"@,
        )
    } else if cp.mechanism_explanation.limit > 1 {
        Some("mechanism_explanation.limit must be <= 1"@)
    } else {
        None
    }
}

/// Checks the settings in the order of `settings_problem`.
pub fn validate_settings(s: &PromptContextSettings) -> (r: Result<(), PromptContextAssemblyError>)
    ensures
        match settings_problem(*s) {
            Some(m) => r matches Err(PromptContextAssemblyError::InvalidSettings(x)) && x@ == m,
            None => r is Ok,
        },
{
    let cp = &s.chunk_packing;
    let problem: Option<&'static str> = if s.prompt_asset_path.unicode_len() == 0 {
        Some("prompt_asset_path must not be empty")
    } else if cp.evidence_for_match.source != ChunkPackingSource::PrimaryIncident {
        Some("evidence_for_match.source must be PrimaryIncident")
    } else if cp.first_check_hint.source != ChunkPackingSource::PrimaryIncident {
        Some("first_check_hint.source must be PrimaryIncident")
    } else if cp.supporting_explanation.source != ChunkPackingSource::PrimaryIncident {
        Some("supporting_explanation.source must be PrimaryIncident")
    } else if cp.alternative_context.source != ChunkPackingSource::AlternativeIncident {
        Some("alternative_context.source must be AlternativeIncident")
    } else if cp.mechanism_explanation.source != ChunkPackingSource::Theory {
        Some("mechanism_explanation.source must be Theory")
    } else if cp.evidence_for_match.limit < 1 {
        Some("evidence_for_match.limit must be >= 1")
    } else if cp.first_check_hint.limit < 1 {
        Some("first_check_hint.limit must be >= 1")
    } else if cp.alternative_context.limit > 0 && cp.alternative_context.per_case_limit.is_none() {
        Some("alternative_context.per_case_limit must be Some(n > 0) when limit > 0")
    } else if cp.alternative_context.limit > 0 && cp.alternative_context.per_case_limit == Some(
        0usize,
    ) {
        Some("alternative_context.per_case_limit must be > 0 when limit > 0")
    } else if cp.mechanism_explanation.tag_priority.len() > 0 {
        Some(
            "mechanism_explanation.tag_priority must be empty because theory chunks do not expose tags",
        )
    } else if cp.mechanism_explanation.limit > 1 {
        Some("mechanism_explanation.limit must be <= 1")
    } else {
        None
    };
    match problem {
        Some(m) => Err(PromptContextAssemblyError::InvalidSettings(m.to_owned())),
        None => Ok(()),
    }
}

// ─── Primary roles ───────────────────────────────────────────────────────────

/// The entries of `e` whose chunk id is among `taken`, in order.
pub open spec fn entries_taken(
    e: Seq<RankedChunk>,
    chunks: Seq<IncidentEvidenceChunk>,
    taken: Seq<Seq<char>>,
) -> Seq<RankedChunk>
    decreases e.len(),
{
    if e.len() == 0 {
        Seq::empty()
    } else {
        let rest = entries_taken(e.drop_last(), chunks, taken);
        if taken.contains(chunks[e.last().index as int].chunk_id@) {
            rest.push(e.last())
        } else {
            rest
        }
    }
}

/// The candidates a role chooses from: the ranked chunks not yet taken by
/// an earlier role; when there are none, a required role that may fall
/// back reuses taken ones.
pub open spec fn role_pool(
    ranking: Seq<RankedChunk>,
    chunks: Seq<IncidentEvidenceChunk>,
    taken: Seq<Seq<char>>,
    required: bool,
    fallback: bool,
) -> Seq<RankedChunk> {
    let fresh = entries_not_excluded(ranking, chunks, taken);
    if fresh.len() > 0 {
        fresh
    } else if required && fallback {
        entries_taken(ranking, chunks, taken)
    } else {
        Seq::empty()
    }
}

/// The entries a role selects after `taken`, or `None` when a required
/// role finds nothing.
pub open spec fn role_selection(
    chunks: Seq<IncidentEvidenceChunk>,
    s: ChunkRolePackingSettings,
    taken: Seq<Seq<char>>,
    required: bool,
) -> Option<Seq<RankedChunk>> {
    if s.limit == 0 {
        Some(Seq::empty())
    } else {
        let pool = role_pool(role_ranking(chunks, s), chunks, taken, required, s.fallback_to_any_chunk);
        if pool.len() == 0 && required {
            None
        } else {
            Some(first_n(pool, s.limit as int))
        }
    }
}

/// The chunk ids of entries.
pub open spec fn entry_ids(e: Seq<RankedChunk>, chunks: Seq<IncidentEvidenceChunk>) -> Seq<Seq<char>> {
    e.map_values(|x: RankedChunk| chunks[x.index as int].chunk_id@)
}

/// The chunk ids of prompt chunks.
pub open spec fn prompt_chunk_ids(p: Seq<PromptIncidentEvidenceChunk>) -> Seq<Seq<char>> {
    p.map_values(|x: PromptIncidentEvidenceChunk| x.chunk_id@)
}

/// The entries of `e` whose chunk id is among `taken`.
fn keep_taken(e: &Vec<RankedChunk>, chunks: &Vec<IncidentEvidenceChunk>, taken: &Vec<String>) -> (r: Vec<RankedChunk>)
    requires
        indices_below(e@, chunks@.len() as int),
    ensures
        r@ == entries_taken(e@, chunks@, string_views(taken@)),
{
    let mut r: Vec<RankedChunk> = Vec::new();
    let mut i: usize = 0;
    while i < e.len()
        invariant
            indices_below(e@, chunks@.len() as int),
            i <= e@.len(),
            r@ == entries_taken(e@.take(i as int), chunks@, string_views(taken@)),
        decreases e@.len() - i,
    {
        assert(e@.take(i + 1).drop_last() =~= e@.take(i as int));
        assert(e@.take(i + 1).last() == e@[i as int]);
        let x = e[i];
        if contains_text(taken, &chunks[x.index].chunk_id) {
            r.push(x);
        }
        i = i + 1;
    }
    assert(e@.take(e@.len() as int) =~= e@);
    r
}

proof fn lemma_taken_bounded(e: Seq<RankedChunk>, chunks: Seq<IncidentEvidenceChunk>, taken: Seq<Seq<char>>)
    requires
        indices_below(e, chunks.len() as int),
    ensures
        indices_below(entries_taken(e, chunks, taken), chunks.len() as int),
    decreases e.len(),
{
    if e.len() > 0 {
        let d = e.drop_last();
        assert forall|i: int| 0 <= i < d.len() implies (#[trigger] d[i]).index < chunks.len() by {
            assert(d[i] == e[i]);
        }
        lemma_taken_bounded(d, chunks, taken);
        let a = entries_taken(e, chunks, taken);
        let ra = entries_taken(d, chunks, taken);
        assert forall|i: int| 0 <= i < a.len() implies (#[trigger] a[i]).index < chunks.len() by {
            if i < ra.len() {
                assert(a[i] == ra[i]);
            }
        }
    }
}

/// Chooses the chunks of a primary-incident role, preferring chunks that
/// no earlier role took, and records the chosen chunk ids in `taken`.  A
/// required role that finds nothing fails.
pub fn select_primary_role(
    chunks: &Vec<IncidentEvidenceChunk>,
    s: &ChunkRolePackingSettings,
    taken: &mut Vec<String>,
    role: PromptEvidenceRole,
    required: bool,
) -> (r: Result<Vec<PromptIncidentEvidenceChunk>, PromptContextAssemblyError>)
    ensures
        match role_selection(chunks@, *s, string_views(old(taken)@), required) {
            None => r == Err::<Vec<PromptIncidentEvidenceChunk>, _>(
                PromptContextAssemblyError::MissingRequiredEvidence { role },
            ) && final(taken)@ == old(taken)@,
            Some(sel) => r matches Ok(out) && prompt_chunks_of(out@, sel, chunks@, role)
                && string_views(final(taken)@) == string_views(old(taken)@) + prompt_chunk_ids(out@),
        },
{
    if s.limit == 0 {
        let out: Vec<PromptIncidentEvidenceChunk> = Vec::new();
        assert(string_views(taken@) + prompt_chunk_ids(out@) =~= string_views(taken@));
        return Ok(out);
    }
    let ranked = compute_eligible_incident_chunks(chunks, s);
    let n = chunks.len();
    proof {
        lemma_ranking_indices(chunks@, *s);
        lemma_filters_bounded(ranked@, chunks@, string_views(taken@), Seq::empty());
        lemma_taken_bounded(ranked@, chunks@, string_views(taken@));
    }
    let fresh = drop_excluded(&ranked, chunks, taken);
    let pool = if fresh.len() > 0 {
        fresh
    } else if required && s.fallback_to_any_chunk {
        keep_taken(&ranked, chunks, taken)
    } else {
        Vec::new()
    };
    if pool.len() == 0 && required {
        return Err(PromptContextAssemblyError::MissingRequiredEvidence { role });
    }
    let out = take_prompt_chunks(&pool, s.limit, chunks, role);
    let mut i: usize = 0;
    let ghost start = string_views(taken@);
    while i < out.len()
        invariant
            i <= out@.len(),
            string_views(taken@) == start + prompt_chunk_ids(out@.take(i as int)),
        decreases out@.len() - i,
    {
        let ghost before = taken@;
        taken.push(out[i].chunk_id.clone());
        assert(string_views(taken@) =~= string_views(before).push(out@[i as int].chunk_id@));
        assert(prompt_chunk_ids(out@.take(i + 1)) =~= prompt_chunk_ids(out@.take(i as int)).push(
            out@[i as int].chunk_id@,
        ));
        i = i + 1;
    }
    assert(out@.take(out@.len() as int) =~= out@);
    Ok(out)
}

// ─── Context DTOs ─────────────────────────────────────────────────────────────

/// `d` is the normalized incident query of `q`: the non-empty symptom,
/// subsystem and failure-mode terms, and the non-empty symptom terms,
/// triggers and observability signals without repeats as present signals.
pub open spec fn is_normalized_query(d: NormalizedIncidentQueryDto, q: StructuredUserQuery) -> bool {
    &&& string_views(d.recognized_canonical_symptoms@) == non_empty_texts(term_texts(q.symptoms@))
    &&& d.unmapped_user_symptoms@.len() == 0
    &&& string_views(d.affected_components@) == non_empty_texts(term_texts(q.affected_subsystems@))
    &&& string_views(d.failure_mode_candidates@) == non_empty_texts(term_texts(q.failure_modes@))
    &&& d.observed_phase@.len() == 0
    &&& string_views(d.signals_present@) == first_occurrences(
        non_empty_texts(
            term_texts(q.symptoms@) + string_views(q.triggers@) + string_views(
                q.observability_signals@,
            ),
        ),
    )
    &&& d.missing_signals@.len() == 0
}

proof fn lemma_non_empty_append(a: Seq<Seq<char>>, b: Seq<Seq<char>>)
    ensures
        non_empty_texts(a + b) == non_empty_texts(a) + non_empty_texts(b),
    decreases b.len(),
{
    if b.len() == 0 {
        assert(a + b =~= a);
        assert(non_empty_texts(a) + non_empty_texts(b) =~= non_empty_texts(a));
    } else {
        lemma_non_empty_append(a, b.drop_last());
        assert((a + b).drop_last() =~= a + b.drop_last());
        assert((a + b).last() == b.last());
        if b.last().len() == 0 {
        } else {
            assert(non_empty_texts(a) + non_empty_texts(b) =~= (non_empty_texts(a) + non_empty_texts(
                b.drop_last(),
            )).push(b.last()));
        }
    }
}

/// The normalized incident query of a structured query.
pub fn build_normalized_incident_query(q: &StructuredUserQuery) -> (d: NormalizedIncidentQueryDto)
    ensures
        is_normalized_query(d, *q),
{
    let symptoms = term_text_list(&q.symptoms);
    let subsystems = term_text_list(&q.affected_subsystems);
    let failure_modes = term_text_list(&q.failure_modes);
    let mut signals: Vec<String> = Vec::new();
    push_non_empty(&mut signals, &symptoms);
    push_non_empty(&mut signals, &q.triggers);
    push_non_empty(&mut signals, &q.observability_signals);
    proof {
        lemma_non_empty_append(term_texts(q.symptoms@), string_views(q.triggers@));
        lemma_non_empty_append(
            term_texts(q.symptoms@) + string_views(q.triggers@),
            string_views(q.observability_signals@),
        );
        assert(string_views(Seq::<String>::empty()) =~= Seq::<Seq<char>>::empty());
        assert(string_views(signals@) =~= non_empty_texts(
            term_texts(q.symptoms@) + string_views(q.triggers@) + string_views(q.observability_signals@),
        ));
    }
    NormalizedIncidentQueryDto {
        recognized_canonical_symptoms: non_empty_copies(&symptoms),
        unmapped_user_symptoms: Vec::new(),
        affected_components: non_empty_copies(&subsystems),
        failure_mode_candidates: non_empty_copies(&failure_modes),
        observed_phase: Vec::new(),
        signals_present: crate::context_text::first_occurrence_copies(&signals),
        missing_signals: Vec::new(),
    }
}

/// `d` is the primary card `c` as the prompt presents it.
pub open spec fn is_matched_card(d: MatchedIncidentCardDto, c: IncidentCard) -> bool {
    &&& string_views(d.context.systems@) == non_empty_texts(present_texts(c.vendor_or_project, c.system_type))
    &&& d.context.affected_components@ == c.affected_components@
    &&& d.context.initial_symptoms@ == c.canonical_symptoms@
    &&& string_views(d.context.later_symptoms@) == non_empty_texts(phase_texts(c.incident_phases@))
    &&& d.hypotheses.failure_modes@ == c.failure_mode_candidates@
    &&& d.hypotheses.hypothesis_signals@ == c.candidate_explanations@
    &&& d.hypotheses.hypothesis_updates@ == c.diagnostic_patterns@
    &&& d.hypotheses.contributing_factors@ == c.confidence_notes@
    &&& string_views(d.checks.investigation_questions@) == non_empty_texts(check_questions(c.discriminating_checks@))
    &&& string_views(d.checks.discriminating_checks@) == if c.investigation_steps@.len() > 0 {
        non_empty_texts(string_views(c.investigation_steps@))
    } else {
        non_empty_texts(check_questions(c.discriminating_checks@))
    }
}

/// The primary card as the prompt presents it.
pub fn build_matched_incident_card(c: &IncidentCard) -> (d: MatchedIncidentCardDto)
    ensures
        is_matched_card(d, *c),
{
    let systems = present_text_list(&c.vendor_or_project, &c.system_type);
    let later = phase_text_list(&c.incident_phases);
    let questions = check_question_list(&c.discriminating_checks);
    let discriminating_checks = if c.investigation_steps.len() > 0 {
        non_empty_copies(&c.investigation_steps)
    } else {
        non_empty_copies(&questions)
    };
    MatchedIncidentCardDto {
        context: MatchedIncidentContextDto {
            systems: non_empty_copies(&systems),
            affected_components: copy_strings(&c.affected_components),
            initial_symptoms: copy_strings(&c.canonical_symptoms),
            later_symptoms: non_empty_copies(&later),
        },
        hypotheses: MatchedIncidentHypothesesDto {
            failure_modes: copy_strings(&c.failure_mode_candidates),
            hypothesis_signals: copy_strings(&c.candidate_explanations),
            hypothesis_updates: copy_strings(&c.diagnostic_patterns),
            contributing_factors: copy_strings(&c.confidence_notes),
        },
        checks: MatchedIncidentChecksDto {
            investigation_questions: non_empty_copies(&questions),
            discriminating_checks,
        },
    }
}

/// The wire names of chunk tags.
pub open spec fn tag_texts(tags: Seq<IncidentChunkTag>) -> Seq<Seq<char>> {
    tags.map_values(|t: IncidentChunkTag| tag_text(t))
}

/// `d` is the incident chunk `p` as the prompt presents it.
pub open spec fn is_incident_chunk_dto(d: IncidentChunkDto, p: PromptIncidentEvidenceChunk) -> bool {
    &&& d.role@ == role_text(p.role)
    &&& d.source_document_id@ == p.case_id@
    &&& string_views(d.chunk_tags@) == tag_texts(p.chunk_tags@)
    &&& d.text@ == p.text@
}

/// `d` is the theory chunk `t` as the prompt presents it.
pub open spec fn is_theory_chunk_dto(d: TheoryChunkDto, t: PromptTheoryEvidenceChunk) -> bool {
    &&& d.role@ == role_text(t.role)
    &&& d.source_document_id@ == t.chunk_id@
    &&& d.text@ == t.text@
}

/// An incident chunk as the prompt presents it.
pub fn incident_chunk_to_dto(p: &PromptIncidentEvidenceChunk) -> (d: IncidentChunkDto)
    ensures
        is_incident_chunk_dto(d, *p),
{
    let mut tags: Vec<String> = Vec::new();
    let mut i: usize = 0;
    while i < p.chunk_tags.len()
        invariant
            i <= p.chunk_tags@.len(),
            string_views(tags@) == tag_texts(p.chunk_tags@.take(i as int)),
        decreases p.chunk_tags@.len() - i,
    {
        let ghost before = tags@;
        tags.push(chunk_tag_text(p.chunk_tags[i]).to_owned());
        assert(string_views(tags@) =~= string_views(before).push(tag_text(p.chunk_tags@[i as int])));
        assert(tag_texts(p.chunk_tags@.take(i + 1)) =~= tag_texts(p.chunk_tags@.take(i as int)).push(
            tag_text(p.chunk_tags@[i as int]),
        ));
        i = i + 1;
    }
    assert(p.chunk_tags@.take(p.chunk_tags@.len() as int) =~= p.chunk_tags@);
    IncidentChunkDto {
        role: role_to_str(p.role).to_owned(),
        source_document_id: p.case_id.clone(),
        chunk_tags: tags,
        text: p.text.clone(),
    }
}

/// A theory chunk as the prompt presents it.
pub fn theory_chunk_to_dto(t: &PromptTheoryEvidenceChunk) -> (d: TheoryChunkDto)
    ensures
        is_theory_chunk_dto(d, *t),
{
    TheoryChunkDto {
        role: role_to_str(t.role).to_owned(),
        source_document_id: t.chunk_id.clone(),
        text: t.text.clone(),
    }
}

// ─── Consistency ──────────────────────────────────────────────────────────────

/// The complaint about the first primary-role chunk of another case than
/// the primary card `primary_id`.
pub open spec fn first_foreign_primary_chunk(p: Seq<PromptIncidentEvidenceChunk>, primary_id: Seq<char>) -> Option<Seq<char>>
    decreases p.len(),
{
    if p.len() == 0 {
        None
    } else if p[0].case_id@ != primary_id {
        Some("primary chunk '"@ + p[0].chunk_id@ + "' case_id '"@ + p[0].case_id@
            + "' does not match primary card '"@ + primary_id + "'"@)
    } else {
        first_foreign_primary_chunk(p.drop_first(), primary_id)
    }
}

/// The complaint about the first alternative chunk whose case has no
/// alternative card among `card_ids`.
pub open spec fn first_orphan_alternative_chunk(p: Seq<PromptIncidentEvidenceChunk>, card_ids: Seq<Seq<char>>) -> Option<Seq<char>>
    decreases p.len(),
{
    if p.len() == 0 {
        None
    } else if !card_ids.contains(p[0].case_id@) {
        Some("alternative chunk '"@ + p[0].chunk_id@ + "' case_id '"@ + p[0].case_id@
            + "' has no hydrated alternative card"@)
    } else {
        first_orphan_alternative_chunk(p.drop_first(), card_ids)
    }
}

/// The complaint about the first chosen entry whose chunk belongs to
/// another case than the primary card `primary_id`.
pub open spec fn foreign_primary_entry(e: Seq<RankedChunk>, chunks: Seq<IncidentEvidenceChunk>, primary_id: Seq<char>) -> Option<Seq<char>>
    decreases e.len(),
{
    if e.len() == 0 {
        None
    } else if chunks[e[0].index as int].case_id@ != primary_id {
        Some("primary chunk '"@ + chunks[e[0].index as int].chunk_id@ + "' case_id '"@
            + chunks[e[0].index as int].case_id@ + "' does not match primary card '"@ + primary_id + "'"@)
    } else {
        foreign_primary_entry(e.drop_first(), chunks, primary_id)
    }
}

/// The complaint about the first chosen alternative entry whose case has
/// no alternative card among `card_ids`.
pub open spec fn orphan_alternative_entry(e: Seq<RankedChunk>, chunks: Seq<IncidentEvidenceChunk>, card_ids: Seq<Seq<char>>) -> Option<Seq<char>>
    decreases e.len(),
{
    if e.len() == 0 {
        None
    } else if !card_ids.contains(chunks[e[0].index as int].case_id@) {
        Some("alternative chunk '"@ + chunks[e[0].index as int].chunk_id@ + "' case_id '"@
            + chunks[e[0].index as int].case_id@ + "' has no hydrated alternative card"@)
    } else {
        orphan_alternative_entry(e.drop_first(), chunks, card_ids)
    }
}

/// `p` carries the ids of source chunk `c`.
pub open spec fn carries_ids(p: PromptIncidentEvidenceChunk, c: IncidentEvidenceChunk) -> bool {
    p.chunk_id == c.chunk_id && p.case_id == c.case_id
}

proof fn lemma_foreign_matches(
    out: Seq<PromptIncidentEvidenceChunk>,
    e: Seq<RankedChunk>,
    chunks: Seq<IncidentEvidenceChunk>,
    primary_id: Seq<char>,
    card_ids: Seq<Seq<char>>,
)
    requires
        out.len() == e.len(),
        indices_below(e, chunks.len() as int),
        forall|i: int| 0 <= i < e.len() ==> carries_ids(#[trigger] out[i], chunks[e[i].index as int]),
    ensures
        first_foreign_primary_chunk(out, primary_id) == foreign_primary_entry(e, chunks, primary_id),
        first_orphan_alternative_chunk(out, card_ids) == orphan_alternative_entry(e, chunks, card_ids),
    decreases e.len(),
{
    if e.len() > 0 {
        assert(carries_ids(out[0], chunks[e[0].index as int]));
        let out2 = out.drop_first();
        let e2 = e.drop_first();
        assert forall|i: int| 0 <= i < e2.len() implies (#[trigger] e2[i]).index < chunks.len() by {
            assert(e2[i] == e[i + 1]);
        }
        assert forall|i: int| 0 <= i < e2.len() implies carries_ids(#[trigger] out2[i], chunks[e2[i].index as int]) by {
            assert(out2[i] == out[i + 1]);
            assert(e2[i] == e[i + 1]);
            assert(carries_ids(out[i + 1], chunks[e[i + 1].index as int]));
        }
        lemma_foreign_matches(out2, e2, chunks, primary_id, card_ids);
    }
}

/// Finds the first primary-role chunk of another case than the primary card.
fn check_primary_chunks(p: &Vec<PromptIncidentEvidenceChunk>, primary_id: &String) -> (r: Option<String>)
    ensures
        match first_foreign_primary_chunk(p@, primary_id@) {
            Some(m) => r matches Some(x) && x@ == m,
            None => r is None,
        },
{
    let mut i: usize = 0;
    assert(p@.skip(0) =~= p@);
    while i < p.len()
        invariant
            i <= p@.len(),
            first_foreign_primary_chunk(p@, primary_id@) == first_foreign_primary_chunk(p@.skip(i as int), primary_id@),
        decreases p@.len() - i,
    {
        assert(p@.skip(i as int).drop_first() =~= p@.skip(i + 1));
        assert(p@.skip(i as int)[0] == p@[i as int]);
        if !text_eq(p[i].case_id.as_str(), primary_id.as_str()) {
            let mut m = "primary chunk '".to_owned();
            m.append(p[i].chunk_id.as_str());
            m.append("' case_id '");
            m.append(p[i].case_id.as_str());
            m.append("' does not match primary card '");
            m.append(primary_id.as_str());
            m.append("'");
            return Some(m);
        }
        i = i + 1;
    }
    None
}

/// Finds the first alternative chunk whose case has no alternative card.
fn check_alternative_chunks(p: &Vec<PromptIncidentEvidenceChunk>, card_ids: &Vec<String>) -> (r: Option<String>)
    ensures
        match first_orphan_alternative_chunk(p@, string_views(card_ids@)) {
            Some(m) => r matches Some(x) && x@ == m,
            None => r is None,
        },
{
    let mut i: usize = 0;
    assert(p@.skip(0) =~= p@);
    while i < p.len()
        invariant
            i <= p@.len(),
            first_orphan_alternative_chunk(p@, string_views(card_ids@)) == first_orphan_alternative_chunk(p@.skip(i as int), string_views(card_ids@)),
        decreases p@.len() - i,
    {
        assert(p@.skip(i as int).drop_first() =~= p@.skip(i + 1));
        assert(p@.skip(i as int)[0] == p@[i as int]);
        if !contains_text(card_ids, &p[i].case_id) {
            let mut m = "alternative chunk '".to_owned();
            m.append(p[i].chunk_id.as_str());
            m.append("' case_id '");
            m.append(p[i].case_id.as_str());
            m.append("' has no hydrated alternative card");
            return Some(m);
        }
        i = i + 1;
    }
    None
}

/// The case ids of cards.
pub open spec fn card_ids(cards: Seq<IncidentCard>) -> Seq<Seq<char>> {
    cards.map_values(|c: IncidentCard| c.case_id@)
}

/// The case ids of cards, in order.
pub fn card_id_list(cards: &Vec<IncidentCard>) -> (r: Vec<String>)
    ensures
        string_views(r@) == card_ids(cards@),
{
    let mut r: Vec<String> = Vec::new();
    let mut i: usize = 0;
    while i < cards.len()
        invariant
            i <= cards@.len(),
            string_views(r@) == card_ids(cards@.take(i as int)),
        decreases cards@.len() - i,
    {
        let ghost before = r@;
        r.push(cards[i].case_id.clone());
        assert(string_views(r@) =~= string_views(before).push(cards@[i as int].case_id@));
        assert(card_ids(cards@.take(i + 1)) =~= card_ids(cards@.take(i as int)).push(cards@[i as int].case_id@));
        i = i + 1;
    }
    assert(cards@.take(cards@.len() as int) =~= cards@);
    r
}

/// Appends the chunks of `b` to `a`.
pub(crate) fn append_chunks(a: &mut Vec<PromptIncidentEvidenceChunk>, b: Vec<PromptIncidentEvidenceChunk>)
    ensures
        final(a)@ == old(a)@ + b@,
{
    let mut b = b;
    let ghost bs = b@;
    let mut rev: Vec<PromptIncidentEvidenceChunk> = Vec::new();
    while b.len() > 0
        invariant
            b@.len() + rev@.len() == bs.len(),
            b@ == bs.take(b@.len() as int),
            forall|j: int| 0 <= j < rev@.len() ==> rev@[j] == bs[bs.len() - 1 - j],
        decreases b@.len(),
    {
        let x = b.pop().unwrap();
        assert(b@ =~= bs.take(b@.len() as int));
        rev.push(x);
    }
    let ghost start = a@;
    while rev.len() > 0
        invariant
            rev@.len() <= bs.len(),
            a@ == start + bs.take(bs.len() - rev@.len()),
            forall|j: int| 0 <= j < rev@.len() ==> rev@[j] == bs[bs.len() - 1 - j],
        decreases rev@.len(),
    {
        let ghost k = bs.len() - rev@.len();
        let x = rev.pop().unwrap();
        a.push(x);
        assert(bs.take(k + 1) =~= bs.take(k).push(bs[k]));
    }
    assert(bs.take(bs.len() as int) =~= bs);
}

/// The chosen entries of each role, or the role that found nothing.
pub open spec fn primary_role_entries(ev: Seq<IncidentEvidenceChunk>, cp: PromptChunkPackingSettings) -> Result<
    (Seq<RankedChunk>, Seq<RankedChunk>, Seq<RankedChunk>),
    PromptEvidenceRole,
> {
    match role_selection(ev, cp.evidence_for_match, Seq::empty(), true) {
        None => Err(PromptEvidenceRole::EvidenceForMatch),
        Some(a) => match role_selection(ev, cp.first_check_hint, entry_ids(a, ev), true) {
            None => Err(PromptEvidenceRole::FirstCheckHint),
            Some(b) => match role_selection(
                ev,
                cp.supporting_explanation,
                entry_ids(a, ev) + entry_ids(b, ev),
                false,
            ) {
                None => Err(PromptEvidenceRole::SupportingExplanation),
                Some(c) => Ok((a, b, c)),
            },
        },
    }
}

proof fn lemma_prompt_ids(out: Seq<PromptIncidentEvidenceChunk>, e: Seq<RankedChunk>, chunks: Seq<IncidentEvidenceChunk>, role: PromptEvidenceRole)
    requires
        prompt_chunks_of(out, e, chunks, role),
    ensures
        prompt_chunk_ids(out) == entry_ids(e, chunks),
{
    assert(prompt_chunk_ids(out) =~= entry_ids(e, chunks));
}

/// `p` is the plan for the inputs: the primary roles' chunks, then the
/// alternative context, then at most `limit` theory chunks, with the JSON
/// context built from them.
pub open spec fn is_plan(
    p: PromptContextPlan,
    request: NormalizedUserRequest,
    query: StructuredUserQuery,
    primary: IncidentCard,
    alt_card_ids: Seq<Seq<char>>,
    ev: IncidentEvidenceRetrievalOutput,
    theory: TheoryEvidenceRetrievalOutput,
    cp: PromptChunkPackingSettings,
    policy: Seq<String>,
    a: Seq<RankedChunk>,
    b: Seq<RankedChunk>,
    c: Seq<RankedChunk>,
) -> bool {
    let taken = entry_ids(a, ev.primary_chunks@) + entry_ids(b, ev.primary_chunks@) + entry_ids(c, ev.primary_chunks@);
    let alt = alternative_context_entries(ev.alternative_chunks@, cp.alternative_context, alt_card_ids, taken);
    let na = a.len();
    let nb = b.len();
    let nc = c.len();
    let chunks = p.incident_evidence_chunks@;
    &&& chunks.len() == na + nb + nc + alt.len()
    &&& prompt_chunks_of(chunks.subrange(0, na as int), a, ev.primary_chunks@, PromptEvidenceRole::EvidenceForMatch)
    &&& prompt_chunks_of(chunks.subrange(na as int, (na + nb) as int), b, ev.primary_chunks@, PromptEvidenceRole::FirstCheckHint)
    &&& prompt_chunks_of(chunks.subrange((na + nb) as int, (na + nb + nc) as int), c, ev.primary_chunks@, PromptEvidenceRole::SupportingExplanation)
    &&& prompt_chunks_of(chunks.subrange((na + nb + nc) as int, chunks.len() as int), alt, ev.alternative_chunks@, PromptEvidenceRole::AlternativeContext)
    &&& p.theory_chunks@.len() == first_n(theory.chunks@, cp.mechanism_explanation.limit as int).len()
    &&& forall|i: int| 0 <= i < p.theory_chunks@.len() ==> is_theory_prompt_chunk(#[trigger] p.theory_chunks@[i], theory.chunks@[i])
    &&& p.context.task@ == "diagnostic_response"@
    &&& p.context.user_problem@ == request.query@
    &&& p.context.input_token_count == request.input_token_count
    &&& is_normalized_query(p.context.normalized_incident_query, query)
    &&& is_matched_card(p.context.matched_incident_card, primary)
    &&& p.context.incident_evidence_chunks@.len() == chunks.len()
    &&& forall|i: int| 0 <= i < chunks.len() ==> is_incident_chunk_dto(#[trigger] p.context.incident_evidence_chunks@[i], chunks[i])
    &&& p.context.theory_chunks@.len() == p.theory_chunks@.len()
    &&& forall|i: int| 0 <= i < p.theory_chunks@.len() ==> is_theory_chunk_dto(#[trigger] p.context.theory_chunks@[i], p.theory_chunks@[i])
    &&& p.context.policy_constraints@ == policy
}

/// Builds the prompt of a first diagnostic answer from the normalized
/// request, the structured query, the hydrated cards and the retrieved
/// evidence.
#[derive(Debug)]
pub struct PromptContextAssembly {
    settings: PromptContextSettings,
    prompt_asset: ContextPromptAsset,
}

impl PromptContextAssembly {
    /// The settings of an assembly always pass `validate_settings`.
    #[verifier::type_invariant]
    spec fn settings_are_valid(self) -> bool {
        settings_problem(self.settings) is None
    }
}

impl PromptContextAssembly {
    /// Checks the settings, then the prompt asset.
    pub fn new(settings: PromptContextSettings, prompt_asset: ContextPromptAsset) -> (r: Result<Self, PromptContextAssemblyError>)
        ensures
            match settings_problem(settings) {
                Some(m) => r matches Err(PromptContextAssemblyError::InvalidSettings(x)) && x@ == m,
                None => match context_asset_problem(prompt_asset) {
                    Some(m) => r matches Err(PromptContextAssemblyError::PromptAsset(x)) && x@ == m,
                    None => r matches Ok(s) && s.settings() == settings && s.asset() == prompt_asset,
                },
            },
    {
        validate_settings(&settings)?;
        match check_context_asset(&prompt_asset) {
            Err(m) => Err(PromptContextAssemblyError::PromptAsset(m)),
            Ok(()) => Ok(PromptContextAssembly { settings, prompt_asset }),
        }
    }

    /// The settings in use.
    pub closed spec fn settings(&self) -> PromptContextSettings {
        self.settings
    }

    /// The prompt asset in use.
    pub closed spec fn asset(&self) -> ContextPromptAsset {
        self.prompt_asset
    }

    /// Chooses the evidence and builds the JSON context: a missing primary
    /// card fails first; then each primary role in turn, a required role
    /// without evidence failing; then the alternative context and theory
    /// chunks; then chunks of the wrong case are refused.
    pub fn plan(
        &self,
        request: &NormalizedUserRequest,
        query: &StructuredUserQuery,
        cards: &CardHydrationOutput,
        incident_evidence: &IncidentEvidenceRetrievalOutput,
        theory_evidence: &TheoryEvidenceRetrievalOutput,
    ) -> (r: Result<PromptContextPlan, PromptContextAssemblyError>)
        ensures
            settings_problem(self.settings()) is None,
            match cards.primary {
                None => r == Err::<PromptContextPlan, _>(PromptContextAssemblyError::MissingPrimaryCard),
                Some(primary) => match primary_role_entries(incident_evidence.primary_chunks@, self.settings().chunk_packing) {
                    Err(role) => r == Err::<PromptContextPlan, _>(PromptContextAssemblyError::MissingRequiredEvidence { role }),
                    Ok((a, b, c)) => {
                        let ev = incident_evidence.primary_chunks@;
                        let taken = entry_ids(a, ev) + entry_ids(b, ev) + entry_ids(c, ev);
                        let alt = alternative_context_entries(
                            incident_evidence.alternative_chunks@,
                            self.settings().chunk_packing.alternative_context,
                            card_ids(cards.alternatives@),
                            taken,
                        );
                        match foreign_primary_entry(a + b + c, ev, primary.case_id@) {
                            Some(m) => r matches Err(PromptContextAssemblyError::InconsistentEvidence(x)) && x@ == m,
                            None => match orphan_alternative_entry(alt, incident_evidence.alternative_chunks@, card_ids(cards.alternatives@)) {
                                Some(m) => r matches Err(PromptContextAssemblyError::InconsistentEvidence(x)) && x@ == m,
                                None => r matches Ok(p) && is_plan(p, *request, *query, primary, card_ids(cards.alternatives@), *incident_evidence, *theory_evidence, self.settings().chunk_packing, self.asset().policy_constraints@, a, b, c)
                                    && roles_and_bounds(p, primary.case_id@, card_ids(cards.alternatives@), theory_evidence.chunks@.len() as int, self.settings().chunk_packing, a.len() as int, b.len() as int, c.len() as int),
                            },
                        }
                    },
                },
            },
    {
        proof {
            use_type_invariant(self);
        }
        let primary = match &cards.primary {
            None => {
                return Err(PromptContextAssemblyError::MissingPrimaryCard);
            },
            Some(p) => p,
        };
        let cp = &self.settings.chunk_packing;
        let ev = &incident_evidence.primary_chunks;
        let mut taken: Vec<String> = Vec::new();
        assert(string_views(taken@) =~= Seq::<Seq<char>>::empty());
        let efm = select_primary_role(ev, &cp.evidence_for_match, &mut taken, PromptEvidenceRole::EvidenceForMatch, true)?;
        let ghost a = role_selection(ev@, cp.evidence_for_match, Seq::empty(), true)->Some_0;
        proof {
            lemma_prompt_ids(efm@, a, ev@, PromptEvidenceRole::EvidenceForMatch);
            assert(string_views(taken@) =~= entry_ids(a, ev@));
        }
        let fch = select_primary_role(ev, &cp.first_check_hint, &mut taken, PromptEvidenceRole::FirstCheckHint, true)?;
        let ghost b = role_selection(ev@, cp.first_check_hint, entry_ids(a, ev@), true)->Some_0;
        proof {
            lemma_prompt_ids(fch@, b, ev@, PromptEvidenceRole::FirstCheckHint);
            assert(string_views(taken@) =~= entry_ids(a, ev@) + entry_ids(b, ev@));
        }
        let se = select_primary_role(ev, &cp.supporting_explanation, &mut taken, PromptEvidenceRole::SupportingExplanation, false)?;
        let ghost c = role_selection(ev@, cp.supporting_explanation, entry_ids(a, ev@) + entry_ids(b, ev@), false)->Some_0;
        proof {
            lemma_prompt_ids(se@, c, ev@, PromptEvidenceRole::SupportingExplanation);
            assert(string_views(taken@) =~= entry_ids(a, ev@) + entry_ids(b, ev@) + entry_ids(c, ev@));
            assert(primary_role_entries(ev@, *cp) == Ok::<(Seq<RankedChunk>, Seq<RankedChunk>, Seq<RankedChunk>), PromptEvidenceRole>((a, b, c)));
        }
        let ghost efm_v = efm@;
        let ghost fch_v = fch@;
        let ghost se_v = se@;
        let alt_ids = card_id_list(&cards.alternatives);
        let ac = select_alternative_context_chunks(&incident_evidence.alternative_chunks, &cp.alternative_context, &alt_ids, &taken);
        let ghost ac_v = ac@;
        let theory_chunks = select_theory_chunks(&theory_evidence.chunks, cp.mechanism_explanation.limit);
        let mut primary_chunks: Vec<PromptIncidentEvidenceChunk> = Vec::new();
        append_chunks(&mut primary_chunks, efm);
        append_chunks(&mut primary_chunks, fch);
        append_chunks(&mut primary_chunks, se);
        proof {
            let abc = a + b + c;
            let na = a.len();
            let nb = b.len();
            assert(primary_chunks@ =~= efm_v + fch_v + se_v);
            assert forall|i: int| 0 <= i < abc.len() implies (#[trigger] abc[i]).index < ev@.len() by {
                if i < na {
                    assert(abc[i] == a[i]);
                    assert(is_prompt_chunk(efm_v[i], ev@[a[i].index as int], PromptEvidenceRole::EvidenceForMatch));
                } else if i < na + nb {
                    assert(abc[i] == b[i - na]);
                    assert(is_prompt_chunk(fch_v[i - na], ev@[b[i - na].index as int], PromptEvidenceRole::FirstCheckHint));
                } else {
                    assert(abc[i] == c[i - na - nb]);
                    assert(is_prompt_chunk(se_v[i - na - nb], ev@[c[i - na - nb].index as int], PromptEvidenceRole::SupportingExplanation));
                }
            }
            assert forall|i: int| 0 <= i < abc.len() implies carries_ids(#[trigger] primary_chunks@[i], ev@[abc[i].index as int]) by {
                if i < na {
                    assert(abc[i] == a[i]);
                    assert(primary_chunks@[i] == efm_v[i]);
                    assert(is_prompt_chunk(efm_v[i], ev@[a[i].index as int], PromptEvidenceRole::EvidenceForMatch));
                } else if i < na + nb {
                    assert(abc[i] == b[i - na]);
                    assert(primary_chunks@[i] == fch_v[i - na]);
                    assert(is_prompt_chunk(fch_v[i - na], ev@[b[i - na].index as int], PromptEvidenceRole::FirstCheckHint));
                } else {
                    assert(abc[i] == c[i - na - nb]);
                    assert(primary_chunks@[i] == se_v[i - na - nb]);
                    assert(is_prompt_chunk(se_v[i - na - nb], ev@[c[i - na - nb].index as int], PromptEvidenceRole::SupportingExplanation));
                }
            }
            lemma_foreign_matches(primary_chunks@, abc, ev@, primary.case_id@, Seq::empty());
            let alt = alternative_context_entries(incident_evidence.alternative_chunks@, cp.alternative_context, string_views(alt_ids@), string_views(taken@));
            assert forall|i: int| 0 <= i < alt.len() implies (#[trigger] alt[i]).index < incident_evidence.alternative_chunks@.len() by {
                assert(is_prompt_chunk(ac_v[i], incident_evidence.alternative_chunks@[alt[i].index as int], PromptEvidenceRole::AlternativeContext));
            }
            assert forall|i: int| 0 <= i < alt.len() implies carries_ids(#[trigger] ac_v[i], incident_evidence.alternative_chunks@[alt[i].index as int]) by {
                assert(is_prompt_chunk(ac_v[i], incident_evidence.alternative_chunks@[alt[i].index as int], PromptEvidenceRole::AlternativeContext));
            }
            lemma_foreign_matches(ac_v, alt, incident_evidence.alternative_chunks@, Seq::empty(), string_views(alt_ids@));
        }
        match check_primary_chunks(&primary_chunks, &primary.case_id) {
            Some(m) => {
                return Err(PromptContextAssemblyError::InconsistentEvidence(m));
            },
            None => {},
        }
        match check_alternative_chunks(&ac, &alt_ids) {
            Some(m) => {
                return Err(PromptContextAssemblyError::InconsistentEvidence(m));
            },
            None => {},
        }
        let mut incident_chunks = primary_chunks;
        append_chunks(&mut incident_chunks, ac);
        let mut chunk_dtos: Vec<IncidentChunkDto> = Vec::new();
        let mut i: usize = 0;
        while i < incident_chunks.len()
            invariant
                i <= incident_chunks@.len(),
                chunk_dtos@.len() == i,
                forall|j: int| 0 <= j < i ==> is_incident_chunk_dto(#[trigger] chunk_dtos@[j], incident_chunks@[j]),
            decreases incident_chunks@.len() - i,
        {
            chunk_dtos.push(incident_chunk_to_dto(&incident_chunks[i]));
            i = i + 1;
        }
        let mut theory_dtos: Vec<TheoryChunkDto> = Vec::new();
        let mut k: usize = 0;
        while k < theory_chunks.len()
            invariant
                k <= theory_chunks@.len(),
                theory_dtos@.len() == k,
                forall|j: int| 0 <= j < k ==> is_theory_chunk_dto(#[trigger] theory_dtos@[j], theory_chunks@[j]),
            decreases theory_chunks@.len() - k,
        {
            theory_dtos.push(theory_chunk_to_dto(&theory_chunks[k]));
            k = k + 1;
        }
        let context = DiagnosticResponseContext {
            task: "diagnostic_response".to_owned(),
            user_problem: request.query.clone(),
            input_token_count: request.input_token_count,
            normalized_incident_query: build_normalized_incident_query(query),
            matched_incident_card: build_matched_incident_card(primary),
            incident_evidence_chunks: chunk_dtos,
            theory_chunks: theory_dtos,
            policy_constraints: copy_strings(&self.prompt_asset.policy_constraints),
        };
        proof {
            let na = a.len();
            let nb = b.len();
            let nc = c.len();
            let all = incident_chunks@;
            assert(all =~= efm_v + fch_v + se_v + ac_v);
            assert(all.subrange(0, na as int) =~= efm_v);
            assert(all.subrange(na as int, (na + nb) as int) =~= fch_v);
            assert(all.subrange((na + nb) as int, (na + nb + nc) as int) =~= se_v);
            assert(all.subrange((na + nb + nc) as int, all.len() as int) =~= ac_v);
        }
        let plan = PromptContextPlan { context, incident_evidence_chunks: incident_chunks, theory_chunks };
        proof {
            lemma_plan_roles_and_bounds(
                plan,
                *request,
                *query,
                *primary,
                card_ids(cards.alternatives@),
                *incident_evidence,
                *theory_evidence,
                self.settings,
                self.prompt_asset.policy_constraints@,
                a,
                b,
                c,
            );
        }
        Ok(plan)
    }

    /// The final prompt: the template with the serialized context in place
    /// of the context placeholder, with the response schema and the chosen
    /// chunks.
    pub fn render(&self, plan: PromptContextPlan, context_json: &str) -> (out: PromptContextAssemblyOutput)
        ensures
            out.prompt@ == replace_first_seq(self.asset().template@, self.asset().context_placeholder@, context_json@),
            json_equiv(out.response_schema, self.asset().response_schema),
            out.evidence_topology is None,
            out.incident_evidence_chunks@ == plan.incident_evidence_chunks@,
            out.theory_chunks@ == plan.theory_chunks@,
    {
        PromptContextAssemblyOutput {
            prompt: replace_first_text(&self.prompt_asset.template, self.prompt_asset.context_placeholder.as_str(), context_json),
            response_schema: copy_json(&self.prompt_asset.response_schema),
            evidence_topology: None,
            incident_evidence_chunks: plan.incident_evidence_chunks,
            theory_chunks: plan.theory_chunks,
        }
    }
}


proof fn lemma_primary_id_taken(
    out: Seq<PromptIncidentEvidenceChunk>,
    e: Seq<RankedChunk>,
    ev: Seq<IncidentEvidenceChunk>,
    role: PromptEvidenceRole,
    i: int,
)
    requires
        prompt_chunks_of(out, e, ev, role),
        0 <= i < out.len(),
    ensures
        entry_ids(e, ev).contains(out[i].chunk_id@),
{
    assert(is_prompt_chunk(out[i], ev[e[i].index as int], role));
    assert(entry_ids(e, ev)[i] == ev[e[i].index as int].chunk_id@);
}

/// In the prompt of a first answer no alternative-context chunk repeats a
/// chunk chosen for a primary role (evidence for the match, first-check
/// hint, supporting explanation).
pub proof fn lemma_plan_alternatives_disjoint(
    p: PromptContextPlan,
    request: NormalizedUserRequest,
    query: StructuredUserQuery,
    primary: IncidentCard,
    alt_card_ids: Seq<Seq<char>>,
    ev: IncidentEvidenceRetrievalOutput,
    theory: TheoryEvidenceRetrievalOutput,
    cp: PromptChunkPackingSettings,
    policy: Seq<String>,
    a: Seq<RankedChunk>,
    b: Seq<RankedChunk>,
    c: Seq<RankedChunk>,
)
    requires
        is_plan(p, request, query, primary, alt_card_ids, ev, theory, cp, policy, a, b, c),
    ensures
        forall|i: int, j: int|
            0 <= i < a.len() + b.len() + c.len() <= j < p.incident_evidence_chunks@.len() ==> (
            #[trigger] p.incident_evidence_chunks@[i]).chunk_id@ != (
            #[trigger] p.incident_evidence_chunks@[j]).chunk_id@,
{
    let pe = ev.primary_chunks@;
    let ae = ev.alternative_chunks@;
    let taken = entry_ids(a, pe) + entry_ids(b, pe) + entry_ids(c, pe);
    let alt = alternative_context_entries(ae, cp.alternative_context, alt_card_ids, taken);
    let chunks = p.incident_evidence_chunks@;
    let na = a.len() as int;
    let nb = b.len() as int;
    let nc = c.len() as int;
    lemma_alternative_context_bounded(ae, cp.alternative_context, alt_card_ids, taken);
    assert forall|i: int, j: int| 0 <= i < na + nb + nc <= j < chunks.len() implies (
    #[trigger] chunks[i]).chunk_id@ != (#[trigger] chunks[j]).chunk_id@ by {
        if i < na {
            let sub = chunks.subrange(0, na);
            assert(sub[i] == chunks[i]);
            lemma_primary_id_taken(sub, a, pe, PromptEvidenceRole::EvidenceForMatch, i);
            let k = choose|k: int| 0 <= k < entry_ids(a, pe).len() && entry_ids(a, pe)[k] == chunks[i].chunk_id@;
            assert(taken[k] == entry_ids(a, pe)[k]);
        } else if i < na + nb {
            let sub = chunks.subrange(na, na + nb);
            assert(sub[i - na] == chunks[i]);
            lemma_primary_id_taken(sub, b, pe, PromptEvidenceRole::FirstCheckHint, i - na);
            let k = choose|k: int| 0 <= k < entry_ids(b, pe).len() && entry_ids(b, pe)[k] == chunks[i].chunk_id@;
            assert(taken[na + k] == entry_ids(b, pe)[k]);
        } else {
            let sub = chunks.subrange(na + nb, na + nb + nc);
            assert(sub[i - na - nb] == chunks[i]);
            lemma_primary_id_taken(sub, c, pe, PromptEvidenceRole::SupportingExplanation, i - na - nb);
            let k = choose|k: int| 0 <= k < entry_ids(c, pe).len() && entry_ids(c, pe)[k] == chunks[i].chunk_id@;
            assert(taken[na + nb + k] == entry_ids(c, pe)[k]);
        }
        assert(taken.contains(chunks[i].chunk_id@));
        let sub = chunks.subrange(na + nb + nc, chunks.len() as int);
        let jj = j - (na + nb + nc);
        assert(sub[jj] == chunks[j]);
        assert(is_prompt_chunk(sub[jj], ae[alt[jj].index as int], PromptEvidenceRole::AlternativeContext));
        assert(!taken.contains(ae[alt[jj].index as int].chunk_id@));
    }
}

/// A role never reuses a chunk taken by an earlier role, unless it is a
/// required role that may fall back and every ranked chunk is taken.
pub proof fn lemma_role_selection_fresh(
    chunks: Seq<IncidentEvidenceChunk>,
    s: ChunkRolePackingSettings,
    taken: Seq<Seq<char>>,
    required: bool,
)
    requires
        entries_not_excluded(role_ranking(chunks, s), chunks, taken).len() > 0 || !required
            || !s.fallback_to_any_chunk,
    ensures
        role_selection(chunks, s, taken, required) matches Some(sel) ==> forall|i: int|
            0 <= i < sel.len() ==> !taken.contains(chunks[(#[trigger] sel[i]).index as int].chunk_id@),
{
    let ranking = role_ranking(chunks, s);
    let fresh = entries_not_excluded(ranking, chunks, taken);
    lemma_not_excluded_sub(ranking, chunks, taken);
    if s.limit > 0 {
        let pool = role_pool(ranking, chunks, taken, required, s.fallback_to_any_chunk);
        let sel = first_n(pool, s.limit as int);
        assert forall|i: int| 0 <= i < sel.len() implies !taken.contains(chunks[(#[trigger] sel[i]).index as int].chunk_id@) by {
            assert(sel[i] == pool[i]);
            if fresh.len() > 0 {
                assert(pool[i] == fresh[i]);
            }
        }
    }
}


/// The place of a prompt role in the order the prompt lists them.
pub open spec fn role_rank(role: PromptEvidenceRole) -> int {
    match role {
        PromptEvidenceRole::EvidenceForMatch => 0,
        PromptEvidenceRole::FirstCheckHint => 1,
        PromptEvidenceRole::SupportingExplanation => 2,
        PromptEvidenceRole::AlternativeContext => 3,
        PromptEvidenceRole::MechanismExplanation => 4,
    }
}

/// The chosen incident chunks of plan `p` run by role (`a_len` chunks of
/// evidence for the match, `b_len` first-check hints, `c_len` supporting
/// explanation, then alternative context); each required role gives at
/// least one chunk and no role more than its limit; the primary roles'
/// chunks belong to case `primary_id`, the alternative-context chunks to
/// cases among `alt_card_ids`; and there are the first
/// `mechanism_explanation.limit` of the `theory_len` theory chunks.
pub open spec fn roles_and_bounds(
    p: PromptContextPlan,
    primary_id: Seq<char>,
    alt_card_ids: Seq<Seq<char>>,
    theory_len: int,
    cp: PromptChunkPackingSettings,
    a_len: int,
    b_len: int,
    c_len: int,
) -> bool {
    let chunks = p.incident_evidence_chunks@;
    let na = a_len;
    let nb = b_len;
    let nc = c_len;
    &&& forall|i: int, j: int| 0 <= i <= j < chunks.len() ==> role_rank((#[trigger] chunks[i]).role) <= role_rank((#[trigger] chunks[j]).role)
    &&& forall|i: int| 0 <= i < na ==> (#[trigger] chunks[i]).role == PromptEvidenceRole::EvidenceForMatch
    &&& forall|i: int| na <= i < na + nb ==> (#[trigger] chunks[i]).role == PromptEvidenceRole::FirstCheckHint
    &&& forall|i: int| na + nb <= i < na + nb + nc ==> (#[trigger] chunks[i]).role == PromptEvidenceRole::SupportingExplanation
    &&& forall|i: int| na + nb + nc <= i < chunks.len() ==> (#[trigger] chunks[i]).role == PromptEvidenceRole::AlternativeContext
    &&& 1 <= na <= cp.evidence_for_match.limit
    &&& 1 <= nb <= cp.first_check_hint.limit
    &&& nc <= cp.supporting_explanation.limit
    &&& chunks.len() - (na + nb + nc) <= cp.alternative_context.limit
    &&& forall|i: int| 0 <= i < na + nb + nc ==> (#[trigger] chunks[i]).case_id@ == primary_id
    &&& forall|i: int| na + nb + nc <= i < chunks.len() ==> alt_card_ids.contains((#[trigger] chunks[i]).case_id@)
    &&& p.theory_chunks@.len() == if theory_len <= cp.mechanism_explanation.limit {
        theory_len
    } else {
        cp.mechanism_explanation.limit as int
    }
}

proof fn lemma_no_foreign_entry(e: Seq<RankedChunk>, chunks: Seq<IncidentEvidenceChunk>, primary_id: Seq<char>)
    requires
        foreign_primary_entry(e, chunks, primary_id) is None,
    ensures
        forall|k: int| 0 <= k < e.len() ==> chunks[(#[trigger] e[k]).index as int].case_id@ == primary_id,
    decreases e.len(),
{
    if e.len() > 0 {
        lemma_no_foreign_entry(e.drop_first(), chunks, primary_id);
        assert forall|k: int| 0 <= k < e.len() implies chunks[(#[trigger] e[k]).index as int].case_id@ == primary_id by {
            if k > 0 {
                assert(e[k] == e.drop_first()[k - 1]);
            }
        }
    }
}

proof fn lemma_no_orphan_entry(e: Seq<RankedChunk>, chunks: Seq<IncidentEvidenceChunk>, card_ids: Seq<Seq<char>>)
    requires
        orphan_alternative_entry(e, chunks, card_ids) is None,
    ensures
        forall|k: int| 0 <= k < e.len() ==> card_ids.contains(chunks[(#[trigger] e[k]).index as int].case_id@),
    decreases e.len(),
{
    if e.len() > 0 {
        lemma_no_orphan_entry(e.drop_first(), chunks, card_ids);
        assert forall|k: int| 0 <= k < e.len() implies card_ids.contains(chunks[(#[trigger] e[k]).index as int].case_id@) by {
            if k > 0 {
                assert(e[k] == e.drop_first()[k - 1]);
            }
        }
    }
}

proof fn lemma_segment_chunk(
    chunks: Seq<PromptIncidentEvidenceChunk>,
    lo: int,
    hi: int,
    e: Seq<RankedChunk>,
    src: Seq<IncidentEvidenceChunk>,
    role: PromptEvidenceRole,
    i: int,
)
    requires
        0 <= lo <= i < hi <= chunks.len(),
        prompt_chunks_of(chunks.subrange(lo, hi), e, src, role),
    ensures
        chunks[i].role == role,
        chunks[i].case_id == src[e[i - lo].index as int].case_id,
{
    let sub = chunks.subrange(lo, hi);
    assert(sub[i - lo] == chunks[i]);
    assert(is_prompt_chunk(sub[i - lo], src[e[i - lo].index as int], role));
}

/// In the prompt of a first answer built with valid settings, the chosen
/// incident chunks run by role: evidence for the match, then first-check
/// hints, then supporting explanation, then alternative context.  Each
/// required role gives at least one chunk, no role more than its limit;
/// the primary roles' chunks all belong to the primary card, the
/// alternative-context chunks to hydrated alternative cards; and the
/// theory chunks are the first `mechanism_explanation.limit` of those
/// retrieved (all when there are fewer).  The settings of an assembly are
/// always valid, so `plan` states this of every plan it returns.
pub proof fn lemma_plan_roles_and_bounds(
    p: PromptContextPlan,
    request: NormalizedUserRequest,
    query: StructuredUserQuery,
    primary: IncidentCard,
    alt_card_ids: Seq<Seq<char>>,
    ev: IncidentEvidenceRetrievalOutput,
    theory: TheoryEvidenceRetrievalOutput,
    settings: PromptContextSettings,
    policy: Seq<String>,
    a: Seq<RankedChunk>,
    b: Seq<RankedChunk>,
    c: Seq<RankedChunk>,
)
    requires
        settings_problem(settings) is None,
        primary_role_entries(ev.primary_chunks@, settings.chunk_packing) == Ok::<_, PromptEvidenceRole>((a, b, c)),
        foreign_primary_entry(a + b + c, ev.primary_chunks@, primary.case_id@) is None,
        orphan_alternative_entry(
            alternative_context_entries(
                ev.alternative_chunks@,
                settings.chunk_packing.alternative_context,
                alt_card_ids,
                entry_ids(a, ev.primary_chunks@) + entry_ids(b, ev.primary_chunks@) + entry_ids(c, ev.primary_chunks@),
            ),
            ev.alternative_chunks@,
            alt_card_ids,
        ) is None,
        is_plan(p, request, query, primary, alt_card_ids, ev, theory, settings.chunk_packing, policy, a, b, c),
    ensures
        roles_and_bounds(
            p,
            primary.case_id@,
            alt_card_ids,
            theory.chunks@.len() as int,
            settings.chunk_packing,
            a.len() as int,
            b.len() as int,
            c.len() as int,
        ),
{
    let cp = settings.chunk_packing;
    let pe = ev.primary_chunks@;
    let ae = ev.alternative_chunks@;
    let taken = entry_ids(a, pe) + entry_ids(b, pe) + entry_ids(c, pe);
    let alt = alternative_context_entries(ae, cp.alternative_context, alt_card_ids, taken);
    let chunks = p.incident_evidence_chunks@;
    let na = a.len() as int;
    let nb = b.len() as int;
    let nc = c.len() as int;
    let n = chunks.len() as int;
    lemma_alternative_context_bounded(ae, cp.alternative_context, alt_card_ids, taken);
    lemma_no_foreign_entry(a + b + c, pe, primary.case_id@);
    lemma_no_orphan_entry(alt, ae, alt_card_ids);
    assert forall|i: int| 0 <= i < n implies {
        &&& (i < na ==> chunks[i].role == PromptEvidenceRole::EvidenceForMatch)
        &&& (na <= i < na + nb ==> chunks[i].role == PromptEvidenceRole::FirstCheckHint)
        &&& (na + nb <= i < na + nb + nc ==> chunks[i].role == PromptEvidenceRole::SupportingExplanation)
        &&& (na + nb + nc <= i ==> chunks[i].role == PromptEvidenceRole::AlternativeContext)
        &&& (i < na + nb + nc ==> chunks[i].case_id@ == primary.case_id@)
        &&& (na + nb + nc <= i ==> alt_card_ids.contains(chunks[i].case_id@))
    } by {
        let abc = a + b + c;
        if i < na {
            lemma_segment_chunk(chunks, 0, na, a, pe, PromptEvidenceRole::EvidenceForMatch, i);
            assert(abc[i] == a[i]);
        } else if i < na + nb {
            lemma_segment_chunk(chunks, na, na + nb, b, pe, PromptEvidenceRole::FirstCheckHint, i);
            assert(abc[i] == b[i - na]);
        } else if i < na + nb + nc {
            lemma_segment_chunk(chunks, na + nb, na + nb + nc, c, pe, PromptEvidenceRole::SupportingExplanation, i);
            assert(abc[i] == c[i - na - nb]);
        } else {
            lemma_segment_chunk(chunks, na + nb + nc, n, alt, ae, PromptEvidenceRole::AlternativeContext, i);
            assert(alt[i - (na + nb + nc)] == alt[i - (na + nb + nc)]);
        }
    }
    assert forall|i: int, j: int| 0 <= i <= j < n implies role_rank((#[trigger] chunks[i]).role) <= role_rank(
        (#[trigger] chunks[j]).role,
    ) by {}
}


/// Checks the parsed prompt asset against its parsed schema: it passes
/// exactly when the schema compiles and accepts it; a compile error or a refusal is reported as an
/// invalid prompt asset with the message of `schema_failure_text`.
pub fn validate_asset_schema(schema: &JsonValue, asset: &JsonValue) -> (r: Result<(), PromptContextAssemblyError>)
    ensures
        r is Ok <==> schema_accepts(*schema, *asset),
        r is Err ==> r matches Err(PromptContextAssemblyError::PromptAsset(_)),
        r matches Err(PromptContextAssemblyError::PromptAsset(m)) ==> reports_schema_failure(*schema, m@),
{
    match check_asset_schema(schema, asset) {
        Ok(()) => Ok(()),
        Err(f) => Err(PromptContextAssemblyError::PromptAsset(schema_failure_message(f))),
    }
}


/// The prompt asset file's text read as JSON; when it does not parse, `invalid prompt asset JSON:` and the parser's message.
pub fn parse_asset_json(text: &str) -> (r: Result<JsonValue, PromptContextAssemblyError>)
    ensures
        r matches Ok(v) ==> json_text_value(text@) == Some(v),
        r is Err <==> json_text_value(text@) is None,
        r is Err ==> r matches Err(PromptContextAssemblyError::PromptAsset(_)),
        r matches Err(PromptContextAssemblyError::PromptAsset(m)) ==> "invalid prompt asset JSON: "@.is_prefix_of(m@),
{
    match parse_json_or_report(text, "invalid prompt asset JSON: ") {
        Ok(v) => Ok(v),
        Err(m) => Err(PromptContextAssemblyError::PromptAsset(m)),
    }
}

/// The schema file's text read as JSON; when it does not parse, `invalid prompt asset schema JSON:` and the parser's message.
pub fn parse_schema_json(text: &str) -> (r: Result<JsonValue, PromptContextAssemblyError>)
    ensures
        r matches Ok(v) ==> json_text_value(text@) == Some(v),
        r is Err <==> json_text_value(text@) is None,
        r is Err ==> r matches Err(PromptContextAssemblyError::PromptAsset(_)),
        r matches Err(PromptContextAssemblyError::PromptAsset(m)) ==> "invalid prompt asset schema JSON: "@.is_prefix_of(m@),
{
    match parse_json_or_report(text, "invalid prompt asset schema JSON: ") {
        Ok(v) => Ok(v),
        Err(m) => Err(PromptContextAssemblyError::PromptAsset(m)),
    }
}

} // verus!
