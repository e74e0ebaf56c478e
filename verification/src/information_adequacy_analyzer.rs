use vstd::prelude::*;

use crate::shared_types::{
    Confidence, ExtractedObservation, ObservationBoundaryResolution,
    ObservationBoundaryResolverOutput, ObservationExtractionOutput, ObservationPolarity,
    StructuredUserQuery, StructuredUserQuerySupportLevel, StructuredUserQueryTerm,
};

verus! {

/// A piece of information the assistant asks the user for.
#[derive(Clone, Copy, Debug, PartialEq, Eq, Structural, Hash)]
pub enum MissingInformationTopic {
    SymptomDescription,
    AffectedComponent,
    TriggerOrRecentChange,
    FailureMechanismHint,
    ExpectedVsActual,
    ObservedResult,
    ExecutionContext,
    CheckOutcome,
    ScopeOrBlastRadius,
    CorrectionTarget,
    TermClarification,
}

/// Whether the pipeline may continue with the information at hand.
#[derive(Clone, Copy, Debug, PartialEq, Eq, Structural, Hash)]
pub enum AdequacyStatus {
    Blocking,
    WeakButRunnable,
    Sufficient,
}

/// The verdict of the adequacy analyzer.
#[derive(Clone, Debug, PartialEq, Eq)]
pub struct AdequacyAssessment {
    pub status: AdequacyStatus,
    pub missing_information_topics: Vec<MissingInformationTopic>,
    pub follow_up_questions: Vec<String>,
    pub summary_reason: String,
}

/// Inputs the analyzer refuses.
#[derive(Clone, Debug, PartialEq, Eq)]
pub enum InformationAdequacyAnalyzerError {
    InvalidStructuredUserQuery(String),
    InvalidObservationExtractionOutput(String),
}

// ─── Canonical questions ──────────────────────────────────────────────────────

/// The follow-up question asked for each topic.
pub open spec fn canonical_question_text(topic: MissingInformationTopic) -> Seq<char> {
    match topic {
        MissingInformationTopic::SymptomDescription =>
            "What exactly are you observing: errors, timeouts, retries, stale data, leader changes, or another visible failure?"@,
        MissingInformationTopic::AffectedComponent =>
            "Which component or subsystem seems involved: for example the database, broker, lock service, scheduler, API gateway, or another part of the system?"@,
        MissingInformationTopic::TriggerOrRecentChange =>
            "What changed right before this started: for example a deploy, restart, failover, scaling event, config change, or traffic spike?"@,
        MissingInformationTopic::FailureMechanismHint =>
            "What failure pattern does this look closest to: for example timeout handling, replication lag, leader-election instability, lock contention, or resource exhaustion?"@,
        MissingInformationTopic::ExpectedVsActual =>
            "What did you expect to happen, and what happened instead?"@,
        MissingInformationTopic::ObservedResult =>
            "What was the exact observed result: for example the error message, timeout behavior, empty result, retry loop, or recovery signal?"@,
        MissingInformationTopic::ExecutionContext =>
            "Where and when did you observe this: for example which node, component, request path, environment, or time window?"@,
        MissingInformationTopic::CheckOutcome =>
            "What was the result of the check you ran: for example what did the command, log, metric, or status output show?"@,
        MissingInformationTopic::ScopeOrBlastRadius =>
            "How wide is the impact: is this limited to one node, shard, or request path, or does it affect the whole system?"@,
        MissingInformationTopic::CorrectionTarget =>
            "Which earlier assumption are you correcting, and what is the corrected fact now?"@,
        MissingInformationTopic::TermClarification =>
            "Some terms are still ambiguous. Can you restate the issue using the exact observed behavior and concrete component names?"@,
    }
}

/// Topics that only the initial-request analysis asks about.
pub open spec fn is_initial_request_topic(topic: MissingInformationTopic) -> bool {
    match topic {
        MissingInformationTopic::SymptomDescription => true,
        MissingInformationTopic::AffectedComponent => true,
        MissingInformationTopic::TriggerOrRecentChange => true,
        MissingInformationTopic::FailureMechanismHint => true,
        MissingInformationTopic::ExpectedVsActual => true,
        MissingInformationTopic::TermClarification => true,
        _ => false,
    }
}

/// Returns the canonical follow-up question for `topic`.
pub fn canonical_question(topic: MissingInformationTopic) -> (q: &'static str)
    ensures
        q@ == canonical_question_text(topic),
{
    match topic {
        MissingInformationTopic::SymptomDescription =>
            "What exactly are you observing: errors, timeouts, retries, stale data, leader changes, or another visible failure?",
        MissingInformationTopic::AffectedComponent =>
            "Which component or subsystem seems involved: for example the database, broker, lock service, scheduler, API gateway, or another part of the system?",
        MissingInformationTopic::TriggerOrRecentChange =>
            "What changed right before this started: for example a deploy, restart, failover, scaling event, config change, or traffic spike?",
        MissingInformationTopic::FailureMechanismHint =>
            "What failure pattern does this look closest to: for example timeout handling, replication lag, leader-election instability, lock contention, or resource exhaustion?",
        MissingInformationTopic::ExpectedVsActual =>
            "What did you expect to happen, and what happened instead?",
        MissingInformationTopic::ObservedResult =>
            "What was the exact observed result: for example the error message, timeout behavior, empty result, retry loop, or recovery signal?",
        MissingInformationTopic::ExecutionContext =>
            "Where and when did you observe this: for example which node, component, request path, environment, or time window?",
        MissingInformationTopic::CheckOutcome =>
            "What was the result of the check you ran: for example what did the command, log, metric, or status output show?",
        MissingInformationTopic::ScopeOrBlastRadius =>
            "How wide is the impact: is this limited to one node, shard, or request path, or does it affect the whole system?",
        MissingInformationTopic::CorrectionTarget =>
            "Which earlier assumption are you correcting, and what is the corrected fact now?",
        MissingInformationTopic::TermClarification =>
            "Some terms are still ambiguous. Can you restate the issue using the exact observed behavior and concrete component names?",
    }
}

/// `a` carries exactly the given status, topics (with their canonical
/// questions, in the same order) and summary.
pub open spec fn assessment_is(
    a: AdequacyAssessment,
    status: AdequacyStatus,
    topics: Seq<MissingInformationTopic>,
    summary: Seq<char>,
) -> bool {
    &&& a.status == status
    &&& a.missing_information_topics@ == topics
    &&& a.follow_up_questions@.len() == topics.len()
    &&& forall|i: int|
        0 <= i < topics.len() ==> #[trigger] a.follow_up_questions@[i]@ == canonical_question_text(
            topics[i],
        )
    &&& a.summary_reason@ == summary
}

fn topics_to_questions(topics: &Vec<MissingInformationTopic>) -> (questions: Vec<String>)
    ensures
        questions@.len() == topics@.len(),
        forall|i: int|
            0 <= i < topics@.len() ==> #[trigger] questions@[i]@ == canonical_question_text(
                topics@[i],
            ),
{
    let mut questions: Vec<String> = Vec::new();
    let mut i: usize = 0;
    while i < topics.len()
        invariant
            i <= topics@.len(),
            questions@.len() == i,
            forall|j: int|
                0 <= j < i ==> #[trigger] questions@[j]@ == canonical_question_text(topics@[j]),
        decreases topics@.len() - i,
    {
        let q = canonical_question(topics[i]).to_owned();
        questions.push(q);
        i = i + 1;
    }
    questions
}

fn build_assessment(
    status: AdequacyStatus,
    topics: Vec<MissingInformationTopic>,
    summary_reason: &'static str,
) -> (a: AdequacyAssessment)
    ensures
        assessment_is(a, status, topics@, summary_reason@),
{
    let follow_up_questions = topics_to_questions(&topics);
    AdequacyAssessment {
        status,
        missing_information_topics: topics,
        follow_up_questions,
        summary_reason: summary_reason.to_owned(),
    }
}

// ─── Topic selection ──────────────────────────────────────────────────────────

/// `seq![t]` when `cond` holds, the empty sequence otherwise.
pub open spec fn topic_if(cond: bool, t: MissingInformationTopic) -> Seq<MissingInformationTopic> {
    if cond {
        seq![t]
    } else {
        Seq::empty()
    }
}

/// At most the first three elements of `s`.
pub open spec fn first_three(s: Seq<MissingInformationTopic>) -> Seq<MissingInformationTopic> {
    if s.len() <= 3 {
        s
    } else {
        s.take(3)
    }
}

/// Initial-request topics whose condition holds, in priority order.
pub open spec fn initial_topic_candidates(
    symptom_signals: nat,
    scope: nat,
    triggers: nat,
    failure_modes: nat,
    anchors: nat,
    unresolved: nat,
) -> Seq<MissingInformationTopic> {
    topic_if(symptom_signals <= 1, MissingInformationTopic::SymptomDescription) + topic_if(
        scope == 0,
        MissingInformationTopic::AffectedComponent,
    ) + topic_if(triggers == 0, MissingInformationTopic::TriggerOrRecentChange) + topic_if(
        failure_modes == 0 && anchors < 2,
        MissingInformationTopic::FailureMechanismHint,
    ) + topic_if(symptom_signals > 0 && anchors < 2, MissingInformationTopic::ExpectedVsActual)
        + topic_if(unresolved >= 2, MissingInformationTopic::TermClarification)
}

/// Observation topics whose condition holds, in priority order.
pub open spec fn observation_topic_candidates(
    observations: nat,
    needs_more_context: bool,
    questions: nat,
    present: nat,
    absent: nat,
    corrected: nat,
    confidence: Confidence,
) -> Seq<MissingInformationTopic> {
    topic_if(
        observations == 0 || (observations == 1 && confidence == Confidence::Low),
        MissingInformationTopic::ObservedResult,
    ) + topic_if(needs_more_context && questions > 0, MissingInformationTopic::CheckOutcome)
        + topic_if(needs_more_context, MissingInformationTopic::ExecutionContext) + topic_if(
        observations > 0 && questions > 0 && present + absent > 0,
        MissingInformationTopic::ScopeOrBlastRadius,
    ) + topic_if(
        corrected > 0 && corrected == observations,
        MissingInformationTopic::CorrectionTarget,
    )
}

fn push_topic_if(topics: &mut Vec<MissingInformationTopic>, cond: bool, t: MissingInformationTopic)
    ensures
        final(topics)@ == old(topics)@ + topic_if(cond, t),
{
    if cond {
        topics.push(t);
    }
    proof {
        if !cond {
            assert(old(topics)@ + topic_if(cond, t) =~= old(topics)@);
        }
    }
}

fn select_initial_topics(
    symptom_signal_count: u128,
    scope_count: u128,
    trigger_count: u128,
    failure_mode_count: u128,
    diagnostic_anchor_count: u128,
    unresolved_count: u128,
) -> (topics: Vec<MissingInformationTopic>)
    ensures
        topics@ == first_three(
            initial_topic_candidates(
                symptom_signal_count as nat,
                scope_count as nat,
                trigger_count as nat,
                failure_mode_count as nat,
                diagnostic_anchor_count as nat,
                unresolved_count as nat,
            ),
        ),
{
    let mut topics: Vec<MissingInformationTopic> = Vec::new();
    push_topic_if(&mut topics, symptom_signal_count <= 1, MissingInformationTopic::SymptomDescription);
    push_topic_if(&mut topics, scope_count == 0, MissingInformationTopic::AffectedComponent);
    push_topic_if(&mut topics, trigger_count == 0, MissingInformationTopic::TriggerOrRecentChange);
    if topics.len() >= 3 {
        return topics;
    }
    push_topic_if(
        &mut topics,
        failure_mode_count == 0 && diagnostic_anchor_count < 2,
        MissingInformationTopic::FailureMechanismHint,
    );
    if topics.len() >= 3 {
        return topics;
    }
    push_topic_if(
        &mut topics,
        symptom_signal_count > 0 && diagnostic_anchor_count < 2,
        MissingInformationTopic::ExpectedVsActual,
    );
    if topics.len() >= 3 {
        return topics;
    }
    push_topic_if(&mut topics, unresolved_count >= 2, MissingInformationTopic::TermClarification);
    topics
}

fn select_observation_topics(
    observation_count: usize,
    needs_more_context: bool,
    question_count: usize,
    present_count: usize,
    absent_count: usize,
    corrected_count: usize,
    confidence: Confidence,
) -> (topics: Vec<MissingInformationTopic>)
    ensures
        topics@ == first_three(
            observation_topic_candidates(
                observation_count as nat,
                needs_more_context,
                question_count as nat,
                present_count as nat,
                absent_count as nat,
                corrected_count as nat,
                confidence,
            ),
        ),
{
    let mut topics: Vec<MissingInformationTopic> = Vec::new();
    push_topic_if(
        &mut topics,
        observation_count == 0 || (observation_count == 1 && confidence == Confidence::Low),
        MissingInformationTopic::ObservedResult,
    );
    push_topic_if(
        &mut topics,
        needs_more_context && question_count > 0,
        MissingInformationTopic::CheckOutcome,
    );
    push_topic_if(&mut topics, needs_more_context, MissingInformationTopic::ExecutionContext);
    if topics.len() >= 3 {
        return topics;
    }
    push_topic_if(
        &mut topics,
        observation_count > 0 && question_count > 0 && (present_count > 0 || absent_count > 0),
        MissingInformationTopic::ScopeOrBlastRadius,
    );
    if topics.len() >= 3 {
        return topics;
    }
    push_topic_if(
        &mut topics,
        corrected_count > 0 && corrected_count == observation_count,
        MissingInformationTopic::CorrectionTarget,
    );
    topics
}

// ─── Counting ─────────────────────────────────────────────────────────────────

/// Number of terms in `s` with support level `level`.
pub open spec fn count_support_level(
    s: Seq<StructuredUserQueryTerm>,
    level: StructuredUserQuerySupportLevel,
) -> nat
    decreases s.len(),
{
    if s.len() == 0 {
        0
    } else {
        count_support_level(s.drop_last(), level) + if s.last().support_level == level {
            1nat
        } else {
            0nat
        }
    }
}

/// Number of observations in `s` with polarity `p`.
pub open spec fn count_polarity(s: Seq<ExtractedObservation>, p: ObservationPolarity) -> nat
    decreases s.len(),
{
    if s.len() == 0 {
        0
    } else {
        count_polarity(s.drop_last(), p) + if s.last().polarity == p {
            1nat
        } else {
            0nat
        }
    }
}

/// Number of observations in `s` graded Medium or High.
pub open spec fn count_medium_or_higher(s: Seq<ExtractedObservation>) -> nat
    decreases s.len(),
{
    if s.len() == 0 {
        0
    } else {
        count_medium_or_higher(s.drop_last()) + if s.last().confidence != Confidence::Low {
            1nat
        } else {
            0nat
        }
    }
}

fn count_terms_with_level(
    terms: &Vec<StructuredUserQueryTerm>,
    level: StructuredUserQuerySupportLevel,
) -> (n: u128)
    ensures
        n == count_support_level(terms@, level),
        n <= terms@.len(),
        n <= usize::MAX,
{
    let mut n: u128 = 0;
    let mut i: usize = 0;
    while i < terms.len()
        invariant
            i <= terms@.len(),
            n == count_support_level(terms@.take(i as int), level),
            n <= i,
        decreases terms@.len() - i,
    {
        assert(terms@.take(i + 1).drop_last() =~= terms@.take(i as int));
        if terms[i].support_level == level {
            n = n + 1;
        }
        i = i + 1;
    }
    assert(terms@.take(terms@.len() as int) =~= terms@);
    n
}

/// Polarity and confidence tallies of a list of observations.
struct ObservationTally {
    present: usize,
    absent: usize,
    corrected: usize,
    medium_or_higher: usize,
}

fn tally_observations(observations: &Vec<ExtractedObservation>) -> (t: ObservationTally)
    ensures
        t.present == count_polarity(observations@, ObservationPolarity::Present),
        t.absent == count_polarity(observations@, ObservationPolarity::Absent),
        t.corrected == count_polarity(observations@, ObservationPolarity::Corrected),
        t.medium_or_higher == count_medium_or_higher(observations@),
{
    let mut t = ObservationTally { present: 0, absent: 0, corrected: 0, medium_or_higher: 0 };
    let mut i: usize = 0;
    while i < observations.len()
        invariant
            i <= observations@.len(),
            t.present == count_polarity(observations@.take(i as int), ObservationPolarity::Present),
            t.absent == count_polarity(observations@.take(i as int), ObservationPolarity::Absent),
            t.corrected == count_polarity(
                observations@.take(i as int),
                ObservationPolarity::Corrected,
            ),
            t.medium_or_higher == count_medium_or_higher(observations@.take(i as int)),
            t.present <= i,
            t.absent <= i,
            t.corrected <= i,
            t.medium_or_higher <= i,
        decreases observations@.len() - i,
    {
        assert(observations@.take(i + 1).drop_last() =~= observations@.take(i as int));
        let o = &observations[i];
        match o.polarity {
            ObservationPolarity::Present => {
                t.present = t.present + 1;
            },
            ObservationPolarity::Absent => {
                t.absent = t.absent + 1;
            },
            ObservationPolarity::Corrected => {
                t.corrected = t.corrected + 1;
            },
        }
        match o.confidence {
            Confidence::Low => {},
            _ => {
                t.medium_or_higher = t.medium_or_higher + 1;
            },
        }
        i = i + 1;
    }
    assert(observations@.take(observations@.len() as int) =~= observations@);
    t
}

// ─── Initial-request rules ────────────────────────────────────────────────────

/// Symptoms plus observability signals.
pub open spec fn symptom_signal_count(q: StructuredUserQuery) -> nat {
    q.symptoms@.len() + q.observability_signals@.len()
}

/// Affected subsystems plus named entities.
pub open spec fn scope_count(q: StructuredUserQuery) -> nat {
    q.affected_subsystems@.len() + q.entities@.len()
}

/// How many of the four diagnostic groups (symptom, failure mode, trigger,
/// scope) are non-empty.
pub open spec fn diagnostic_anchor_count(q: StructuredUserQuery) -> nat {
    (if symptom_signal_count(q) > 0 {
        1nat
    } else {
        0nat
    }) + (if q.failure_modes@.len() > 0 {
        1nat
    } else {
        0nat
    }) + (if q.triggers@.len() > 0 {
        1nat
    } else {
        0nat
    }) + (if scope_count(q) > 0 {
        1nat
    } else {
        0nat
    })
}

/// Terms at `level` among symptoms, subsystems, failure modes and system properties.
pub open spec fn support_level_term_count(
    q: StructuredUserQuery,
    level: StructuredUserQuerySupportLevel,
) -> nat {
    count_support_level(q.symptoms@, level) + count_support_level(q.affected_subsystems@, level)
        + count_support_level(q.failure_modes@, level) + count_support_level(
        q.system_properties@,
        level,
    )
}

/// The first rule of the initial analysis that applies (1..=4 block,
/// 5 is weak, 6 is sufficient).
pub open spec fn initial_rule(q: StructuredUserQuery) -> int {
    let ssc = symptom_signal_count(q);
    let scope = scope_count(q);
    let triggers = q.triggers@.len();
    let fm = q.failure_modes@.len();
    let anchors = diagnostic_anchor_count(q);
    let unresolved = q.unresolved_terms@.len();
    if ssc == 0 {
        1
    } else if anchors <= 1 {
        2
    } else if ssc > 0 && scope == 0 && triggers == 0 && fm == 0 {
        3
    } else if unresolved >= 2 && (ssc == 0 || anchors == 1) {
        4
    } else if ssc == 1 || scope == 0 || (triggers == 0 && fm == 0) || support_level_term_count(
        q,
        StructuredUserQuerySupportLevel::WeakInference,
    ) > support_level_term_count(q, StructuredUserQuerySupportLevel::Explicit) {
        5
    } else {
        6
    }
}

/// Status of the initial analysis.
pub open spec fn initial_status(q: StructuredUserQuery) -> AdequacyStatus {
    let r = initial_rule(q);
    if r <= 4 {
        AdequacyStatus::Blocking
    } else if r == 5 {
        AdequacyStatus::WeakButRunnable
    } else {
        AdequacyStatus::Sufficient
    }
}

/// Topics asked for by the initial analysis.
pub open spec fn initial_topics(q: StructuredUserQuery) -> Seq<MissingInformationTopic> {
    if initial_rule(q) == 6 {
        Seq::empty()
    } else {
        first_three(
            initial_topic_candidates(
                symptom_signal_count(q),
                scope_count(q),
                q.triggers@.len(),
                q.failure_modes@.len(),
                diagnostic_anchor_count(q),
                q.unresolved_terms@.len(),
            ),
        )
    }
}

/// Summary sentence of the initial analysis.
pub open spec fn initial_summary(q: StructuredUserQuery) -> Seq<char> {
    let r = initial_rule(q);
    if r == 1 {
        "The request does not describe any concrete symptom or observable behavior."@
    } else if r == 2 {
        "The request contains too little anchored diagnostic context to proceed safely."@
    } else if r == 3 {
        "The request names a symptom but does not anchor it to component, trigger, or failure pattern context."@
    } else if r == 4 {
        "The request remains too ambiguous because key terms are unresolved."@
    } else if r == 5 {
        "The request contains a usable signal but is still diagnostically thin."@
    } else {
        "The request contains enough diagnostic context to continue."@
    }
}

// ─── Observation rules ────────────────────────────────────────────────────────

/// The first rule of the observation analysis that applies (1..=4 block,
/// 5 is weak, 6 is sufficient).
pub open spec fn observation_rule(o: ObservationExtractionOutput) -> int {
    let n = o.observations@.len();
    let present = count_polarity(o.observations@, ObservationPolarity::Present);
    let absent = count_polarity(o.observations@, ObservationPolarity::Absent);
    let corrected = count_polarity(o.observations@, ObservationPolarity::Corrected);
    let questions = o.missing_context_questions@.len();
    if n == 0 {
        1
    } else if o.needs_more_context {
        2
    } else if n == 1 && o.confidence == Confidence::Low {
        3
    } else if corrected > 0 && present == 0 && absent == 0 && n == corrected && o.confidence
        == Confidence::Low {
        4
    } else if n == 1 || questions > 0 || count_medium_or_higher(o.observations@) == 0 || (
    corrected == n && o.confidence != Confidence::High) {
        5
    } else {
        6
    }
}

/// Status of the supported-observation analysis.
pub open spec fn observation_status(o: ObservationExtractionOutput) -> AdequacyStatus {
    let r = observation_rule(o);
    if r <= 4 {
        AdequacyStatus::Blocking
    } else if r == 5 {
        AdequacyStatus::WeakButRunnable
    } else {
        AdequacyStatus::Sufficient
    }
}

/// Topics asked for by the supported-observation analysis.
pub open spec fn observation_topics(o: ObservationExtractionOutput) -> Seq<MissingInformationTopic> {
    if observation_rule(o) == 6 {
        Seq::empty()
    } else {
        first_three(
            observation_topic_candidates(
                o.observations@.len(),
                o.needs_more_context,
                o.missing_context_questions@.len(),
                count_polarity(o.observations@, ObservationPolarity::Present),
                count_polarity(o.observations@, ObservationPolarity::Absent),
                count_polarity(o.observations@, ObservationPolarity::Corrected),
                o.confidence,
            ),
        )
    }
}

/// Summary sentence of the supported-observation analysis.
pub open spec fn observation_summary(o: ObservationExtractionOutput) -> Seq<char> {
    let r = observation_rule(o);
    if r == 1 {
        "The observation does not contain a concrete new diagnostic fact."@
    } else if r == 2 {
        "The observation requires more context before diagnostic update can proceed safely."@
    } else if r == 3 {
        "The observation is too weak and low-confidence for a safe diagnostic update."@
    } else if r == 4 {
        "The observation only corrects a prior assumption and is still too weak for a safe diagnostic update."@
    } else if r == 5 {
        "The observation contains a usable update signal but still lacks diagnostic strength."@
    } else {
        "The observation contains enough concrete diagnostic information to continue."@
    }
}

/// Topics asked for when the latest message is not a supported observation.
pub open spec fn unsupported_observation_topics() -> Seq<MissingInformationTopic> {
    seq![MissingInformationTopic::ObservedResult, MissingInformationTopic::ExecutionContext]
}

// ─── Analyzer ─────────────────────────────────────────────────────────────────

/// Decides whether the information gathered so far is enough to proceed.
#[derive(Debug)]
pub struct InformationAdequacyAnalyzer;

impl InformationAdequacyAnalyzer {
    pub fn new() -> (a: Self) {
        InformationAdequacyAnalyzer
    }

    /// Grades an initial incident report.
    pub fn analyze_initial(&self, query: &StructuredUserQuery) -> (r: Result<
        AdequacyAssessment,
        InformationAdequacyAnalyzerError,
    >)
        ensures
            r matches Ok(a) && assessment_is(
                a,
                initial_status(*query),
                initial_topics(*query),
                initial_summary(*query),
            ),
    {
        let symptom_signal_count: u128 = query.symptoms.len() as u128
            + query.observability_signals.len() as u128;
        let failure_mode_count: u128 = query.failure_modes.len() as u128;
        let trigger_count: u128 = query.triggers.len() as u128;
        let scope_count: u128 = query.affected_subsystems.len() as u128
            + query.entities.len() as u128;
        let unresolved_count: u128 = query.unresolved_terms.len() as u128;
        let mut diagnostic_anchor_count: u128 = 0;
        if symptom_signal_count > 0 {
            diagnostic_anchor_count = diagnostic_anchor_count + 1;
        }
        if failure_mode_count > 0 {
            diagnostic_anchor_count = diagnostic_anchor_count + 1;
        }
        if trigger_count > 0 {
            diagnostic_anchor_count = diagnostic_anchor_count + 1;
        }
        if scope_count > 0 {
            diagnostic_anchor_count = diagnostic_anchor_count + 1;
        }
        assert(diagnostic_anchor_count == self::diagnostic_anchor_count(*query));

        let topics = select_initial_topics(
            symptom_signal_count,
            scope_count,
            trigger_count,
            failure_mode_count,
            diagnostic_anchor_count,
            unresolved_count,
        );

        if symptom_signal_count == 0 {
            return Ok(
                build_assessment(
                    AdequacyStatus::Blocking,
                    topics,
                    "The request does not describe any concrete symptom or observable behavior.",
                ),
            );
        }
        if diagnostic_anchor_count <= 1 {
            return Ok(
                build_assessment(
                    AdequacyStatus::Blocking,
                    topics,
                    "The request contains too little anchored diagnostic context to proceed safely.",
                ),
            );
        }
        if symptom_signal_count > 0 && scope_count == 0 && trigger_count == 0 && failure_mode_count
            == 0 {
            return Ok(
                build_assessment(
                    AdequacyStatus::Blocking,
                    topics,
                    "The request names a symptom but does not anchor it to component, trigger, or failure pattern context.",
                ),
            );
        }
        if unresolved_count >= 2 && (symptom_signal_count == 0 || diagnostic_anchor_count == 1) {
            return Ok(
                build_assessment(
                    AdequacyStatus::Blocking,
                    topics,
                    "The request remains too ambiguous because key terms are unresolved.",
                ),
            );
        }

        let weak_terms = count_terms_with_level(
            &query.symptoms,
            StructuredUserQuerySupportLevel::WeakInference,
        ) + count_terms_with_level(
            &query.affected_subsystems,
            StructuredUserQuerySupportLevel::WeakInference,
        ) + count_terms_with_level(
            &query.failure_modes,
            StructuredUserQuerySupportLevel::WeakInference,
        ) + count_terms_with_level(
            &query.system_properties,
            StructuredUserQuerySupportLevel::WeakInference,
        );
        let explicit_terms = count_terms_with_level(
            &query.symptoms,
            StructuredUserQuerySupportLevel::Explicit,
        ) + count_terms_with_level(
            &query.affected_subsystems,
            StructuredUserQuerySupportLevel::Explicit,
        ) + count_terms_with_level(&query.failure_modes, StructuredUserQuerySupportLevel::Explicit)
            + count_terms_with_level(
            &query.system_properties,
            StructuredUserQuerySupportLevel::Explicit,
        );

        let is_weak = symptom_signal_count == 1 || scope_count == 0 || (trigger_count == 0
            && failure_mode_count == 0) || weak_terms > explicit_terms;
        if is_weak {
            return Ok(
                build_assessment(
                    AdequacyStatus::WeakButRunnable,
                    topics,
                    "The request contains a usable signal but is still diagnostically thin.",
                ),
            );
        }
        Ok(
            build_assessment(
                AdequacyStatus::Sufficient,
                Vec::new(),
                "The request contains enough diagnostic context to continue.",
            ),
        )
    }

    /// Grades an extracted follow-up observation.
    pub fn analyze_supported_observation(&self, observation: &ObservationExtractionOutput) -> (r:
        Result<AdequacyAssessment, InformationAdequacyAnalyzerError>)
        ensures
            r matches Ok(a) && assessment_is(
                a,
                observation_status(*observation),
                observation_topics(*observation),
                observation_summary(*observation),
            ),
    {
        let observation_count = observation.observations.len();
        let tally = tally_observations(&observation.observations);
        let question_count = observation.missing_context_questions.len();
        let topics = select_observation_topics(
            observation_count,
            observation.needs_more_context,
            question_count,
            tally.present,
            tally.absent,
            tally.corrected,
            observation.confidence,
        );

        if observation_count == 0 {
            return Ok(
                build_assessment(
                    AdequacyStatus::Blocking,
                    topics,
                    "The observation does not contain a concrete new diagnostic fact.",
                ),
            );
        }
        if observation.needs_more_context {
            return Ok(
                build_assessment(
                    AdequacyStatus::Blocking,
                    topics,
                    "The observation requires more context before diagnostic update can proceed safely.",
                ),
            );
        }
        if observation_count == 1 && observation.confidence == Confidence::Low {
            return Ok(
                build_assessment(
                    AdequacyStatus::Blocking,
                    topics,
                    "The observation is too weak and low-confidence for a safe diagnostic update.",
                ),
            );
        }
        if tally.corrected > 0 && tally.present == 0 && tally.absent == 0 && observation_count
            == tally.corrected && observation.confidence == Confidence::Low {
            return Ok(
                build_assessment(
                    AdequacyStatus::Blocking,
                    topics,
                    "The observation only corrects a prior assumption and is still too weak for a safe diagnostic update.",
                ),
            );
        }
        let is_weak = observation_count == 1 || question_count > 0 || tally.medium_or_higher == 0
            || (tally.corrected == observation_count && observation.confidence
            != Confidence::High);
        if is_weak {
            return Ok(
                build_assessment(
                    AdequacyStatus::WeakButRunnable,
                    topics,
                    "The observation contains a usable update signal but still lacks diagnostic strength.",
                ),
            );
        }
        Ok(
            build_assessment(
                AdequacyStatus::Sufficient,
                Vec::new(),
                "The observation contains enough concrete diagnostic information to continue.",
            ),
        )
    }

    /// Answers a follow-up message that is not a standalone observation;
    /// refuses an input that the boundary resolver marked as supported.
    pub fn analyze_unsupported_observation(
        &self,
        boundary_output: &ObservationBoundaryResolverOutput,
    ) -> (r: Result<AdequacyAssessment, InformationAdequacyAnalyzerError>)
        ensures
            boundary_output.resolution is Supported ==> r matches Err(
                InformationAdequacyAnalyzerError::InvalidObservationExtractionOutput(_),
            ),
            boundary_output.resolution is Unsupported ==> (r matches Ok(a) && assessment_is(
                a,
                AdequacyStatus::Blocking,
                unsupported_observation_topics(),
                "The latest user message is not yet a supported standalone diagnostic observation."@,
            )),
    {
        match &boundary_output.resolution {
            ObservationBoundaryResolution::Supported(_) => {
                return Err(
                    InformationAdequacyAnalyzerError::InvalidObservationExtractionOutput(
                        "boundary_output.resolution is Supported, expected Unsupported".to_owned(),
                    ),
                );
            },
            ObservationBoundaryResolution::Unsupported => {},
        }
        let mut topics: Vec<MissingInformationTopic> = Vec::new();
        topics.push(MissingInformationTopic::ObservedResult);
        topics.push(MissingInformationTopic::ExecutionContext);
        assert(topics@ =~= unsupported_observation_topics());
        Ok(
            build_assessment(
                AdequacyStatus::Blocking,
                topics,
                "The latest user message is not yet a supported standalone diagnostic observation.",
            ),
        )
    }
}


// ─── Laws ─────────────────────────────────────────────────────────────────────

/// Position of a topic in the analyzers' priority orders: initial-request
/// topics first (0..=5), then observation topics (6..=10).
pub open spec fn topic_rank(t: MissingInformationTopic) -> int {
    match t {
        MissingInformationTopic::SymptomDescription => 0,
        MissingInformationTopic::AffectedComponent => 1,
        MissingInformationTopic::TriggerOrRecentChange => 2,
        MissingInformationTopic::FailureMechanismHint => 3,
        MissingInformationTopic::ExpectedVsActual => 4,
        MissingInformationTopic::TermClarification => 5,
        MissingInformationTopic::ObservedResult => 6,
        MissingInformationTopic::CheckOutcome => 7,
        MissingInformationTopic::ExecutionContext => 8,
        MissingInformationTopic::ScopeOrBlastRadius => 9,
        MissingInformationTopic::CorrectionTarget => 10,
    }
}

/// Topics of `s` appear in strictly increasing rank, each within `[lo, hi]`.
pub open spec fn ranked_within(s: Seq<MissingInformationTopic>, lo: int, hi: int) -> bool {
    &&& forall|i: int, j: int|
        0 <= i < j < s.len() ==> topic_rank(#[trigger] s[i]) < topic_rank(#[trigger] s[j])
    &&& forall|i: int| 0 <= i < s.len() ==> lo <= topic_rank(#[trigger] s[i]) <= hi
}

/// No topic occurs twice in `s`.
pub open spec fn topics_distinct(s: Seq<MissingInformationTopic>) -> bool {
    forall|i: int, j: int| 0 <= i < j < s.len() ==> #[trigger] s[i] != #[trigger] s[j]
}

proof fn lemma_append_ranked(
    s: Seq<MissingInformationTopic>,
    cond: bool,
    t: MissingInformationTopic,
    lo: int,
    hi: int,
)
    requires
        ranked_within(s, lo, hi),
        hi < topic_rank(t),
        lo <= topic_rank(t),
    ensures
        ranked_within(s + topic_if(cond, t), lo, topic_rank(t)),
{
    let r = s + topic_if(cond, t);
    assert forall|i: int, j: int| 0 <= i < j < r.len() implies topic_rank(#[trigger] r[i])
        < topic_rank(#[trigger] r[j]) by {
        if j >= s.len() {
            assert(r[j] == t);
        }
    }
    assert forall|i: int| 0 <= i < r.len() implies lo <= topic_rank(#[trigger] r[i]) <= topic_rank(
        t,
    ) by {
        if i >= s.len() {
            assert(r[i] == t);
        }
    }
}

proof fn lemma_first_three_ranked(s: Seq<MissingInformationTopic>, lo: int, hi: int)
    requires
        ranked_within(s, lo, hi),
    ensures
        ranked_within(first_three(s), lo, hi),
        first_three(s).len() <= 3,
        first_three(s).len() == 0 ==> s.len() == 0,
        topics_distinct(first_three(s)),
{
    let f = first_three(s);
    assert forall|i: int, j: int| 0 <= i < j < f.len() implies #[trigger] f[i] != #[trigger] f[j] by {
        assert(topic_rank(f[i]) < topic_rank(f[j]));
    }
}

proof fn lemma_initial_candidates_ranked(
    ssc: nat,
    scope: nat,
    triggers: nat,
    fm: nat,
    anchors: nat,
    unresolved: nat,
)
    ensures
        ranked_within(initial_topic_candidates(ssc, scope, triggers, fm, anchors, unresolved), 0, 5),
{
    let s0 = topic_if(ssc <= 1, MissingInformationTopic::SymptomDescription);
    assert(ranked_within(s0, 0, 0));
    lemma_append_ranked(s0, scope == 0, MissingInformationTopic::AffectedComponent, 0, 0);
    let s1 = s0 + topic_if(scope == 0, MissingInformationTopic::AffectedComponent);
    lemma_append_ranked(s1, triggers == 0, MissingInformationTopic::TriggerOrRecentChange, 0, 1);
    let s2 = s1 + topic_if(triggers == 0, MissingInformationTopic::TriggerOrRecentChange);
    lemma_append_ranked(
        s2,
        fm == 0 && anchors < 2,
        MissingInformationTopic::FailureMechanismHint,
        0,
        2,
    );
    let s3 = s2 + topic_if(fm == 0 && anchors < 2, MissingInformationTopic::FailureMechanismHint);
    lemma_append_ranked(
        s3,
        ssc > 0 && anchors < 2,
        MissingInformationTopic::ExpectedVsActual,
        0,
        3,
    );
    let s4 = s3 + topic_if(ssc > 0 && anchors < 2, MissingInformationTopic::ExpectedVsActual);
    lemma_append_ranked(s4, unresolved >= 2, MissingInformationTopic::TermClarification, 0, 4);
}

proof fn lemma_observation_candidates_ranked(
    n: nat,
    needs_more_context: bool,
    questions: nat,
    present: nat,
    absent: nat,
    corrected: nat,
    confidence: Confidence,
)
    ensures
        ranked_within(
            observation_topic_candidates(
                n,
                needs_more_context,
                questions,
                present,
                absent,
                corrected,
                confidence,
            ),
            6,
            10,
        ),
{
    let s0 = topic_if(
        n == 0 || (n == 1 && confidence == Confidence::Low),
        MissingInformationTopic::ObservedResult,
    );
    assert(ranked_within(s0, 6, 6));
    lemma_append_ranked(
        s0,
        needs_more_context && questions > 0,
        MissingInformationTopic::CheckOutcome,
        6,
        6,
    );
    let s1 = s0 + topic_if(needs_more_context && questions > 0, MissingInformationTopic::CheckOutcome);
    lemma_append_ranked(s1, needs_more_context, MissingInformationTopic::ExecutionContext, 6, 7);
    let s2 = s1 + topic_if(needs_more_context, MissingInformationTopic::ExecutionContext);
    lemma_append_ranked(
        s2,
        n > 0 && questions > 0 && present + absent > 0,
        MissingInformationTopic::ScopeOrBlastRadius,
        6,
        8,
    );
    let s3 = s2 + topic_if(
        n > 0 && questions > 0 && present + absent > 0,
        MissingInformationTopic::ScopeOrBlastRadius,
    );
    lemma_append_ranked(
        s3,
        corrected > 0 && corrected == n,
        MissingInformationTopic::CorrectionTarget,
        6,
        9,
    );
}

/// The initial-request analysis asks for at most three topics, never the same
/// topic twice, only initial-request topics, at least one topic when it
/// blocks, and none when the request is sufficient.
pub proof fn lemma_initial_topics_well_formed(q: StructuredUserQuery)
    ensures
        initial_topics(q).len() <= 3,
        topics_distinct(initial_topics(q)),
        forall|i: int|
            0 <= i < initial_topics(q).len() ==> is_initial_request_topic(
                #[trigger] initial_topics(q)[i],
            ),
        initial_status(q) == AdequacyStatus::Blocking ==> initial_topics(q).len() > 0,
        initial_status(q) == AdequacyStatus::Sufficient ==> initial_topics(q).len() == 0,
{
    let c = initial_topic_candidates(
        symptom_signal_count(q),
        scope_count(q),
        q.triggers@.len(),
        q.failure_modes@.len(),
        diagnostic_anchor_count(q),
        q.unresolved_terms@.len(),
    );
    lemma_initial_candidates_ranked(
        symptom_signal_count(q),
        scope_count(q),
        q.triggers@.len(),
        q.failure_modes@.len(),
        diagnostic_anchor_count(q),
        q.unresolved_terms@.len(),
    );
    lemma_first_three_ranked(c, 0, 5);
    let t = initial_topics(q);
    assert forall|i: int| 0 <= i < t.len() implies is_initial_request_topic(#[trigger] t[i]) by {
        assert(0 <= topic_rank(t[i]) <= 5);
    }
    if initial_status(q) == AdequacyStatus::Blocking {
        if symptom_signal_count(q) <= 1 {
            assert(c.len() > 0);
        } else {
            assert(scope_count(q) == 0 || q.triggers@.len() == 0);
            assert(c.len() > 0);
        }
    }
}

/// The supported-observation analysis asks for at most three topics, never
/// the same topic twice, never an initial-request topic, at least one topic
/// when it blocks, and none when the observation is sufficient.
pub proof fn lemma_observation_topics_well_formed(o: ObservationExtractionOutput)
    ensures
        observation_topics(o).len() <= 3,
        topics_distinct(observation_topics(o)),
        forall|i: int|
            0 <= i < observation_topics(o).len() ==> !is_initial_request_topic(
                #[trigger] observation_topics(o)[i],
            ),
        observation_status(o) == AdequacyStatus::Blocking ==> observation_topics(o).len() > 0,
        observation_status(o) == AdequacyStatus::Sufficient ==> observation_topics(o).len() == 0,
{
    let n = o.observations@.len();
    let present = count_polarity(o.observations@, ObservationPolarity::Present);
    let absent = count_polarity(o.observations@, ObservationPolarity::Absent);
    let corrected = count_polarity(o.observations@, ObservationPolarity::Corrected);
    let questions = o.missing_context_questions@.len();
    let c = observation_topic_candidates(
        n,
        o.needs_more_context,
        questions,
        present,
        absent,
        corrected,
        o.confidence,
    );
    lemma_observation_candidates_ranked(
        n,
        o.needs_more_context,
        questions,
        present,
        absent,
        corrected,
        o.confidence,
    );
    lemma_first_three_ranked(c, 6, 10);
    let t = observation_topics(o);
    assert forall|i: int| 0 <= i < t.len() implies !is_initial_request_topic(#[trigger] t[i]) by {
        assert(6 <= topic_rank(t[i]) <= 10);
    }
    if observation_status(o) == AdequacyStatus::Blocking {
        assert(c.len() > 0);
    }
}

/// The answer to an unsupported follow-up asks for two distinct observation
/// topics and no initial-request topic.
pub proof fn lemma_unsupported_topics_well_formed()
    ensures
        unsupported_observation_topics().len() == 2,
        topics_distinct(unsupported_observation_topics()),
        forall|i: int|
            0 <= i < unsupported_observation_topics().len() ==> !is_initial_request_topic(
                #[trigger] unsupported_observation_topics()[i],
            ),
{
    let t = unsupported_observation_topics();
    assert(t[0] == MissingInformationTopic::ObservedResult);
    assert(t[1] == MissingInformationTopic::ExecutionContext);
}


// ─── Laws of the grading rules ────────────────────────────────────────────────

/// The terms of `s` at support level `level`, in order.
pub open spec fn terms_at(s: Seq<StructuredUserQueryTerm>, level: StructuredUserQuerySupportLevel) -> Seq<
    StructuredUserQueryTerm,
> {
    s.filter(|t: StructuredUserQueryTerm| t.support_level == level)
}

/// How many of the query's symptoms, affected subsystems, failure modes
/// and system properties are at support level `level`.
pub open spec fn graded_terms(q: StructuredUserQuery, level: StructuredUserQuerySupportLevel) -> nat {
    terms_at(q.symptoms@, level).len() + terms_at(q.affected_subsystems@, level).len() + terms_at(
        q.failure_modes@,
        level,
    ).len() + terms_at(q.system_properties@, level).len()
}

proof fn lemma_count_support_level_is_filter(s: Seq<StructuredUserQueryTerm>, level: StructuredUserQuerySupportLevel)
    ensures
        count_support_level(s, level) == terms_at(s, level).len(),
    decreases s.len(),
{
    reveal(Seq::filter);
    if s.len() > 0 {
        lemma_count_support_level_is_filter(s.drop_last(), level);
    }
}

/// An initial report that no blocking rule stops, and whose terms (among
/// symptoms, affected subsystems, failure modes and system properties)
/// are more often weak inferences than explicit, is graded weak but
/// runnable, never sufficient.
pub proof fn lemma_initial_weak_when_inferences_outnumber_explicit(q: StructuredUserQuery)
    requires
        initial_status(q) != AdequacyStatus::Blocking,
        graded_terms(q, StructuredUserQuerySupportLevel::WeakInference) > graded_terms(
            q,
            StructuredUserQuerySupportLevel::Explicit,
        ),
    ensures
        initial_status(q) == AdequacyStatus::WeakButRunnable,
        initial_summary(q) == "The request contains a usable signal but is still diagnostically thin."@,
{
    lemma_count_support_level_is_filter(q.symptoms@, StructuredUserQuerySupportLevel::WeakInference);
    lemma_count_support_level_is_filter(q.affected_subsystems@, StructuredUserQuerySupportLevel::WeakInference);
    lemma_count_support_level_is_filter(q.failure_modes@, StructuredUserQuerySupportLevel::WeakInference);
    lemma_count_support_level_is_filter(q.system_properties@, StructuredUserQuerySupportLevel::WeakInference);
    lemma_count_support_level_is_filter(q.symptoms@, StructuredUserQuerySupportLevel::Explicit);
    lemma_count_support_level_is_filter(q.affected_subsystems@, StructuredUserQuerySupportLevel::Explicit);
    lemma_count_support_level_is_filter(q.failure_modes@, StructuredUserQuerySupportLevel::Explicit);
    lemma_count_support_level_is_filter(q.system_properties@, StructuredUserQuerySupportLevel::Explicit);
}

proof fn lemma_medium_or_higher_counts(s: Seq<ExtractedObservation>)
    ensures
        (exists|i: int| 0 <= i < s.len() && (#[trigger] s[i]).confidence != Confidence::Low)
            ==> count_medium_or_higher(s) > 0,
        (forall|i: int| 0 <= i < s.len() ==> (#[trigger] s[i]).confidence == Confidence::Low)
            ==> count_medium_or_higher(s) == 0,
    decreases s.len(),
{
    if s.len() > 0 {
        let d = s.drop_last();
        lemma_medium_or_higher_counts(d);
        if exists|i: int| 0 <= i < s.len() && (#[trigger] s[i]).confidence != Confidence::Low {
            let i = choose|i: int| 0 <= i < s.len() && (#[trigger] s[i]).confidence != Confidence::Low;
            if i < s.len() - 1 {
                assert(d[i] == s[i]);
            }
        }
        if forall|i: int| 0 <= i < s.len() ==> (#[trigger] s[i]).confidence == Confidence::Low {
            assert forall|i: int| 0 <= i < d.len() implies (#[trigger] d[i]).confidence == Confidence::Low by {
                assert(d[i] == s[i]);
            }
            assert(s[s.len() - 1].confidence == Confidence::Low);
        }
    }
}

proof fn lemma_polarity_count_below(s: Seq<ExtractedObservation>, p: ObservationPolarity)
    ensures
        count_polarity(s, p) <= s.len(),
        (exists|i: int| 0 <= i < s.len() && (#[trigger] s[i]).polarity != p) ==> count_polarity(s, p) < s.len(),
    decreases s.len(),
{
    if s.len() > 0 {
        let d = s.drop_last();
        lemma_polarity_count_below(d, p);
        if exists|i: int| 0 <= i < s.len() && (#[trigger] s[i]).polarity != p {
            let i = choose|i: int| 0 <= i < s.len() && (#[trigger] s[i]).polarity != p;
            if i < s.len() - 1 {
                assert(d[i] == s[i]);
            }
        }
    }
}

/// A follow-up with at least two observations, no request for more
/// context, no open questions, at least one observation that is not a
/// correction and at least one graded Medium or High is sufficient: a Low
/// observation beside a stronger one does not weaken it.
pub proof fn lemma_observation_sufficient_with_one_strong(o: ObservationExtractionOutput)
    requires
        o.observations@.len() >= 2,
        !o.needs_more_context,
        o.missing_context_questions@.len() == 0,
        exists|i: int| 0 <= i < o.observations@.len() && (#[trigger] o.observations@[i]).confidence != Confidence::Low,
        exists|j: int| 0 <= j < o.observations@.len() && (#[trigger] o.observations@[j]).polarity
            != ObservationPolarity::Corrected,
    ensures
        observation_status(o) == AdequacyStatus::Sufficient,
        observation_topics(o).len() == 0,
        observation_summary(o) == "The observation contains enough concrete diagnostic information to continue."@,
{
    lemma_medium_or_higher_counts(o.observations@);
    lemma_polarity_count_below(o.observations@, ObservationPolarity::Corrected);
}

/// A follow-up whose observations are all graded Low is never sufficient.
pub proof fn lemma_observation_all_low_not_sufficient(o: ObservationExtractionOutput)
    requires
        forall|i: int| 0 <= i < o.observations@.len() ==> (#[trigger] o.observations@[i]).confidence == Confidence::Low,
    ensures
        observation_status(o) != AdequacyStatus::Sufficient,
{
    lemma_medium_or_higher_counts(o.observations@);
}


/// How the initial grading depends on the report.  With no symptom and no
/// observability signal it blocks.  A report that no blocking rule stops
/// is sufficient exactly when it has at least two symptoms or signals, a
/// named subsystem or entity, a trigger or failure mode, and no more weak
/// inferences than explicit terms; a sufficient report asks nothing.
pub proof fn lemma_initial_grading(q: StructuredUserQuery)
    ensures
        q.symptoms@.len() == 0 && q.observability_signals@.len() == 0 ==> initial_status(q)
            == AdequacyStatus::Blocking && initial_summary(q)
            == "The request does not describe any concrete symptom or observable behavior."@,
        initial_status(q) != AdequacyStatus::Blocking ==> (initial_status(q) == AdequacyStatus::Sufficient <==> (
        q.symptoms@.len() + q.observability_signals@.len() >= 2 && q.affected_subsystems@.len()
            + q.entities@.len() > 0 && (q.triggers@.len() > 0 || q.failure_modes@.len() > 0)
            && graded_terms(q, StructuredUserQuerySupportLevel::WeakInference) <= graded_terms(
            q,
            StructuredUserQuerySupportLevel::Explicit,
        ))),
        initial_status(q) == AdequacyStatus::Sufficient ==> initial_topics(q).len() == 0,
{
    lemma_count_support_level_is_filter(q.symptoms@, StructuredUserQuerySupportLevel::WeakInference);
    lemma_count_support_level_is_filter(q.affected_subsystems@, StructuredUserQuerySupportLevel::WeakInference);
    lemma_count_support_level_is_filter(q.failure_modes@, StructuredUserQuerySupportLevel::WeakInference);
    lemma_count_support_level_is_filter(q.system_properties@, StructuredUserQuerySupportLevel::WeakInference);
    lemma_count_support_level_is_filter(q.symptoms@, StructuredUserQuerySupportLevel::Explicit);
    lemma_count_support_level_is_filter(q.affected_subsystems@, StructuredUserQuerySupportLevel::Explicit);
    lemma_count_support_level_is_filter(q.failure_modes@, StructuredUserQuerySupportLevel::Explicit);
    lemma_count_support_level_is_filter(q.system_properties@, StructuredUserQuerySupportLevel::Explicit);
    lemma_initial_topics_well_formed(q);
}


/// How the follow-up grading depends on the extraction.  With no
/// observation, or when more context is needed, it blocks.  An extraction
/// that no blocking rule stops is sufficient exactly when it has at least
/// two observations, no open questions, at least one observation graded
/// Medium or High, and either a non-correction or high overall confidence;
/// a sufficient extraction asks nothing.
pub proof fn lemma_observation_grading(o: ObservationExtractionOutput)
    ensures
        o.observations@.len() == 0 || o.needs_more_context ==> observation_status(o) == AdequacyStatus::Blocking,
        observation_status(o) != AdequacyStatus::Blocking ==> (observation_status(o) == AdequacyStatus::Sufficient
            <==> (o.observations@.len() >= 2 && o.missing_context_questions@.len() == 0 && (exists|i: int|
            0 <= i < o.observations@.len() && (#[trigger] o.observations@[i]).confidence != Confidence::Low) && (
        o.confidence == Confidence::High || exists|j: int|
            0 <= j < o.observations@.len() && (#[trigger] o.observations@[j]).polarity
                != ObservationPolarity::Corrected))),
        observation_status(o) == AdequacyStatus::Sufficient ==> observation_topics(o).len() == 0,
{
    lemma_medium_or_higher_counts(o.observations@);
    lemma_polarity_count_below(o.observations@, ObservationPolarity::Corrected);
    let s = o.observations@;
    if count_polarity(s, ObservationPolarity::Corrected) != s.len() {
        lemma_polarity_not_all(s, ObservationPolarity::Corrected);
    }
    if forall|i: int| 0 <= i < s.len() ==> (#[trigger] s[i]).confidence == Confidence::Low {
    } else {
        let i = choose|i: int| !(0 <= i < s.len() ==> (#[trigger] s[i]).confidence == Confidence::Low);
        assert(s[i].confidence != Confidence::Low);
    }
}

proof fn lemma_polarity_not_all(s: Seq<ExtractedObservation>, p: ObservationPolarity)
    requires
        count_polarity(s, p) != s.len(),
    ensures
        exists|i: int| 0 <= i < s.len() && (#[trigger] s[i]).polarity != p,
    decreases s.len(),
{
    let d = s.drop_last();
    if s.last().polarity != p {
        assert(s[s.len() - 1].polarity != p);
    } else {
        lemma_polarity_not_all(d, p);
        let i = choose|i: int| 0 <= i < d.len() && (#[trigger] d[i]).polarity != p;
        assert(s[i] == d[i]);
    }
}

} // verus!
