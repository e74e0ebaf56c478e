use vstd::prelude::*;

use crate::json::{copy_json, json_equiv, json_text_value, parse_json_or_report, text_eq, JsonValue};
use crate::model::{
    finish_reason_acceptable, is_acceptable_finish, response_token_usage, token_usage_of,
    unusable_finish_message, unusable_finish_text, ModelClientError, ModelFinishReason,
    ModelGenerationRequest, ModelGenerationResponse, ModelMessage, ModelMessageRole,
    ModelResponseMode,
};
use crate::observation_boundary_resolver::{confidence_from_text, parse_confidence};
use crate::prompt_asset::{
    check_asset_schema, decimal_seq, decimal_text, reports_schema_failure, schema_accepts, schema_failure_message,
    PromptAsset,
};
use crate::shared_types::{
    Confidence, ExtractedObservation, ModelTokenUsage, ObservationBoundaryResolution,
    ObservationBoundaryResolverOutput, ObservationExtractionOutput, ObservationPolarity,
    ResolvedObservation,
};
use crate::text::{
    contains_seq, count_matches, count_text, replace_all_seq, replace_all_text,
    lemma_trim_seq_edges, replace_first_seq, replace_first_text, text_contains, trim_seq, trim_text,
};
use crate::input_normalization::is_unicode_whitespace;

verus! {

/// Where the resolved observation goes in the user template.
pub const USER_MESSAGE_PLACEHOLDER: &'static str = "{{user_message}}";

/// Settings of observation extraction.
#[derive(Clone, Debug, PartialEq, Eq)]
pub struct ObservationExtractionSettings {
    pub prompt_asset_path: String,
    pub max_output_tokens: u32,
}

/// Ways observation extraction fails.
#[derive(Clone, Debug, PartialEq, Eq)]
pub enum ObservationExtractionError {
    InvalidSettings(String),
    InvalidPromptAsset(String),
    UnsupportedBoundaryInput,
    ModelClient(ModelClientError),
    InvalidModelOutput {
        reason: String,
        finish_reason: Option<ModelFinishReason>,
        token_usage: ModelTokenUsage,
    },
}

/// One observation of the model's answer as it was read from JSON.
#[derive(Clone, Debug, PartialEq, Eq)]
pub struct RawExtractedObservation {
    pub statement: String,
    pub confidence: String,
    pub condition: Option<String>,
    pub polarity: String,
    pub time_relation: Option<String>,
    pub source_span: String,
}

/// The model's answer as it was read from JSON.
#[derive(Clone, Debug, PartialEq, Eq)]
pub struct RawObservationExtractionResponse {
    pub confidence: String,
    pub observations: Vec<RawExtractedObservation>,
    pub needs_more_context: bool,
    pub missing_context_questions: Vec<String>,
}

/// The polarity named by `s`, if any.
pub open spec fn polarity_from_text(s: Seq<char>) -> Option<ObservationPolarity> {
    if s == "present"@ {
        Some(ObservationPolarity::Present)
    } else if s == "absent"@ {
        Some(ObservationPolarity::Absent)
    } else if s == "corrected"@ {
        Some(ObservationPolarity::Corrected)
    } else {
        None
    }
}

/// Reads a polarity (`present`, `absent` or `corrected`).
pub fn parse_polarity(s: &str) -> (r: Option<ObservationPolarity>)
    ensures
        r == polarity_from_text(s@),
{
    if text_eq(s, "present") {
        Some(ObservationPolarity::Present)
    } else if text_eq(s, "absent") {
        Some(ObservationPolarity::Absent)
    } else if text_eq(s, "corrected") {
        Some(ObservationPolarity::Corrected)
    } else {
        None
    }
}

/// What is wrong with the settings, if anything.
pub open spec fn settings_problem(s: ObservationExtractionSettings) -> Option<Seq<char>> {
    if trim_seq(s.prompt_asset_path@).len() == 0 {
        Some("prompt_asset_path must not be empty"@)
    } else if s.max_output_tokens == 0 {
        Some("max_output_tokens must be greater than zero"@)
    } else {
        None
    }
}

/// Refuses a blank prompt asset path and a zero output-token budget.
pub fn validate_settings(s: &ObservationExtractionSettings) -> (r: Result<(), ObservationExtractionError>)
    ensures
        match settings_problem(*s) {
            Some(m) => r matches Err(ObservationExtractionError::InvalidSettings(x)) && x@ == m,
            None => r is Ok,
        },
{
    if trim_text(&s.prompt_asset_path).unicode_len() == 0 {
        return Err(
            ObservationExtractionError::InvalidSettings(
                "prompt_asset_path must not be empty".to_owned(),
            ),
        );
    }
    if s.max_output_tokens == 0 {
        return Err(
            ObservationExtractionError::InvalidSettings(
                "max_output_tokens must be greater than zero".to_owned(),
            ),
        );
    }
    Ok(())
}

/// What is wrong with the prompt asset, if anything: blank prompts, a
/// schema that is not an object, a placeholder that does not occur exactly
/// once, or any other `{{` / `}}` left in the template.
pub open spec fn asset_problem(a: PromptAsset) -> Option<Seq<char>> {
    let t = a.user_template@;
    let remainder = replace_all_seq(t, USER_MESSAGE_PLACEHOLDER@, ""@);
    if trim_seq(a.system_prompt@).len() == 0 {
        Some("system_prompt must be non-empty"@)
    } else if trim_seq(t).len() == 0 {
        Some("user_template must be non-empty"@)
    } else if !(a.response_schema is Object) {
        Some("response_schema must be a JSON object"@)
    } else if count_matches(t, USER_MESSAGE_PLACEHOLDER@) != 1 {
        Some(
            "user_template must contain exactly one "@ + USER_MESSAGE_PLACEHOLDER@
                + " placeholder, found "@ + decimal_seq(count_matches(t, USER_MESSAGE_PLACEHOLDER@)),
        )
    } else if contains_seq(remainder, "{{"@) || contains_seq(remainder, "}}"@) {
        Some("user_template contains unsupported placeholder constructs"@)
    } else {
        None
    }
}

/// Checks a prompt asset against the rules of `asset_problem`.
pub fn validate_prompt_asset(a: &PromptAsset) -> (r: Result<(), ObservationExtractionError>)
    ensures
        match asset_problem(*a) {
            Some(m) => r matches Err(ObservationExtractionError::InvalidPromptAsset(x)) && x@ == m,
            None => r is Ok,
        },
{
    if trim_text(&a.system_prompt).unicode_len() == 0 {
        return Err(
            ObservationExtractionError::InvalidPromptAsset(
                "system_prompt must be non-empty".to_owned(),
            ),
        );
    }
    if trim_text(&a.user_template).unicode_len() == 0 {
        return Err(
            ObservationExtractionError::InvalidPromptAsset(
                "user_template must be non-empty".to_owned(),
            ),
        );
    }
    match &a.response_schema {
        JsonValue::Object(_) => {},
        _ => {
            return Err(
                ObservationExtractionError::InvalidPromptAsset(
                    "response_schema must be a JSON object".to_owned(),
                ),
            );
        },
    }
    let um = count_text(&a.user_template, USER_MESSAGE_PLACEHOLDER);
    if um != 1 {
        let mut m = "user_template must contain exactly one ".to_owned();
        m.append(USER_MESSAGE_PLACEHOLDER);
        m.append(" placeholder, found ");
        let d = decimal_text(um);
        m.append(d.as_str());
        return Err(ObservationExtractionError::InvalidPromptAsset(m));
    }
    proof {
        reveal_strlit("{{user_message}}");
    }
    let remainder = replace_all_text(&a.user_template, USER_MESSAGE_PLACEHOLDER, "");
    if text_contains(&remainder, "{{") || text_contains(&remainder, "}}") {
        return Err(
            ObservationExtractionError::InvalidPromptAsset(
                "user_template contains unsupported placeholder constructs".to_owned(),
            ),
        );
    }
    Ok(())
}

/// What is wrong with one observation of the answer, if anything.
pub open spec fn observation_problem(o: RawExtractedObservation) -> Option<Seq<char>> {
    if confidence_from_text(o.confidence@) is None {
        Some("unknown observation confidence value: '"@ + o.confidence@ + "'"@)
    } else if polarity_from_text(o.polarity@) is None {
        Some("unknown polarity value: '"@ + o.polarity@ + "'"@)
    } else if trim_seq(o.statement@).len() == 0 {
        Some("observation statement is empty after trimming"@)
    } else if o.condition matches Some(c) && trim_seq(c@).len() == 0 {
        Some("observation condition is present but empty after trimming"@)
    } else if o.time_relation matches Some(t) && trim_seq(t@).len() == 0 {
        Some("observation time_relation is present but empty after trimming"@)
    } else if trim_seq(o.source_span@).len() == 0 {
        Some("observation source_span is empty after trimming"@)
    } else {
        None
    }
}

/// The problem of the first observation in `obs` that has one.
pub open spec fn first_observation_problem(obs: Seq<RawExtractedObservation>) -> Option<Seq<char>>
    decreases obs.len(),
{
    if obs.len() == 0 {
        None
    } else if observation_problem(obs[0]) is Some {
        observation_problem(obs[0])
    } else {
        first_observation_problem(obs.drop_first())
    }
}

/// What is wrong with a parsed answer, if anything.
pub open spec fn extraction_answer_problem(raw: RawObservationExtractionResponse) -> Option<
    Seq<char>,
> {
    let questions = raw.missing_context_questions@.len();
    if confidence_from_text(raw.confidence@) is None {
        Some("unknown top-level confidence value: '"@ + raw.confidence@ + "'"@)
    } else if !raw.needs_more_context && raw.observations@.len() == 0 {
        Some("needs_more_context=false but observations is empty"@)
    } else if !raw.needs_more_context && questions > 0 {
        Some("needs_more_context=false but missing_context_questions is non-empty"@)
    } else if raw.needs_more_context && (questions < 1 || questions > 2) {
        Some(
            "needs_more_context=true but missing_context_questions has "@ + decimal_seq(questions)
                + " items (must be 1\u{2013}2)"@,
        )
    } else {
        first_observation_problem(raw.observations@)
    }
}

/// `trim_seq` applied to an optional text.
pub open spec fn trimmed_option(o: Option<String>) -> Option<Seq<char>> {
    match o {
        Some(s) => Some(trim_seq(s@)),
        None => None,
    }
}

/// The view of an optional text.
pub open spec fn option_view(o: Option<String>) -> Option<Seq<char>> {
    match o {
        Some(s) => Some(s@),
        None => None,
    }
}

/// `e` is the acceptable raw observation `o` with its texts trimmed; its
/// source span is the trimmed span where that occurs in the resolved text
/// `resolved`, and the whole resolved text otherwise.
pub open spec fn is_extracted_from(
    e: ExtractedObservation,
    o: RawExtractedObservation,
    resolved: Seq<char>,
) -> bool {
    &&& e.statement@ == trim_seq(o.statement@)
    &&& confidence_from_text(o.confidence@) == Some(e.confidence)
    &&& polarity_from_text(o.polarity@) == Some(e.polarity)
    &&& option_view(e.condition) == trimmed_option(o.condition)
    &&& option_view(e.time_relation) == trimmed_option(o.time_relation)
    &&& e.source_span@ == (if contains_seq(resolved, trim_seq(o.source_span@)) {
        trim_seq(o.source_span@)
    } else {
        resolved
    })
}

/// The resolved observation text of a supported boundary resolution.
pub open spec fn resolved_text_of(input: ObservationBoundaryResolverOutput) -> Option<Seq<char>> {
    match input.resolution {
        ObservationBoundaryResolution::Supported(r) => Some(r.text@),
        ObservationBoundaryResolution::Unsupported => None,
    }
}

/// `r` is an invalid-output error with `reason`, carrying the finish reason
/// and token usage of `resp`.
pub open spec fn is_invalid_extraction_output(
    r: Result<ObservationExtractionOutput, ObservationExtractionError>,
    reason: Seq<char>,
    resp: ModelGenerationResponse,
) -> bool {
    r matches Err(
        ObservationExtractionError::InvalidModelOutput { reason: rs, finish_reason, token_usage },
    ) && rs@ == reason && finish_reason == resp.finish_reason && token_usage
        == response_token_usage(resp)
}

/// `out` is what the acceptable answer `raw` extracts from `input`, whose
/// resolved text is `resolved`.
pub open spec fn is_extraction_output(
    out: ObservationExtractionOutput,
    input: ObservationBoundaryResolverOutput,
    resolved: Seq<char>,
    raw: RawObservationExtractionResponse,
    resp: ModelGenerationResponse,
) -> bool {
    &&& out.normalized_user_input@ == input.normalized_user_input@
    &&& out.resolved_observation.text@ == resolved
    &&& confidence_from_text(raw.confidence@) == Some(out.confidence)
    &&& out.observations@.len() == raw.observations@.len()
    &&& forall|i: int|
        0 <= i < raw.observations@.len() ==> is_extracted_from(
            #[trigger] out.observations@[i],
            raw.observations@[i],
            resolved,
        )
    &&& out.needs_more_context == raw.needs_more_context
    &&& out.missing_context_questions@ == raw.missing_context_questions@
    &&& out.token_usage == response_token_usage(resp)
}

proof fn lemma_first_problem_at(obs: Seq<RawExtractedObservation>, i: int)
    requires
        0 <= i < obs.len(),
        forall|j: int| 0 <= j < i ==> observation_problem(#[trigger] obs[j]) is None,
        observation_problem(obs[i]) is Some,
    ensures
        first_observation_problem(obs) == observation_problem(obs[i]),
    decreases i,
{
    if i > 0 {
        let rest = obs.drop_first();
        assert(observation_problem(obs[0]) is None);
        assert forall|j: int| 0 <= j < i - 1 implies observation_problem(#[trigger] rest[j]) is None by {
            assert(rest[j] == obs[j + 1]);
        }
        lemma_first_problem_at(rest, i - 1);
    }
}

proof fn lemma_no_first_problem(obs: Seq<RawExtractedObservation>)
    requires
        forall|j: int| 0 <= j < obs.len() ==> observation_problem(#[trigger] obs[j]) is None,
    ensures
        first_observation_problem(obs) is None,
    decreases obs.len(),
{
    if obs.len() > 0 {
        let rest = obs.drop_first();
        assert(observation_problem(obs[0]) is None);
        assert forall|j: int| 0 <= j < rest.len() implies observation_problem(#[trigger] rest[j]) is None by {
            assert(rest[j] == obs[j + 1]);
        }
        lemma_no_first_problem(rest);
    }
}

/// Checks one raw observation and turns it into an extracted observation.
fn extract_observation(o: &RawExtractedObservation, resolved: &str) -> (r: Result<
    ExtractedObservation,
    String,
>)
    ensures
        match observation_problem(*o) {
            Some(m) => r matches Err(x) && x@ == m,
            None => r matches Ok(e) && is_extracted_from(e, *o, resolved@),
        },
{
    let confidence = match parse_confidence(&o.confidence) {
        None => {
            let mut m = "unknown observation confidence value: '".to_owned();
            m.append(o.confidence.as_str());
            m.append("'");
            return Err(m);
        },
        Some(c) => c,
    };
    let polarity = match parse_polarity(&o.polarity) {
        None => {
            let mut m = "unknown polarity value: '".to_owned();
            m.append(o.polarity.as_str());
            m.append("'");
            return Err(m);
        },
        Some(p) => p,
    };
    let statement = trim_text(&o.statement);
    if statement.unicode_len() == 0 {
        return Err("observation statement is empty after trimming".to_owned());
    }
    let condition = match &o.condition {
        Some(c) => {
            let t = trim_text(c);
            if t.unicode_len() == 0 {
                return Err("observation condition is present but empty after trimming".to_owned());
            }
            Some(t)
        },
        None => None,
    };
    let time_relation = match &o.time_relation {
        Some(c) => {
            let t = trim_text(c);
            if t.unicode_len() == 0 {
                return Err(
                    "observation time_relation is present but empty after trimming".to_owned(),
                );
            }
            Some(t)
        },
        None => None,
    };
    let span = trim_text(&o.source_span);
    if span.unicode_len() == 0 {
        return Err("observation source_span is empty after trimming".to_owned());
    }
    let source_span = if text_contains(resolved, span.as_str()) {
        span
    } else {
        resolved.to_owned()
    };
    Ok(
        ExtractedObservation {
            statement,
            confidence,
            condition,
            polarity,
            time_relation,
            source_span,
        },
    )
}

/// Extracts the observations of a resolved user message by asking the
/// model once.
#[derive(Debug)]
pub struct ObservationExtraction {
    prompt_asset: PromptAsset,
    max_output_tokens: u32,
}

impl ObservationExtraction {
    /// Checks the settings, then the prompt asset.
    pub fn new(settings: ObservationExtractionSettings, prompt_asset: PromptAsset) -> (r: Result<
        Self,
        ObservationExtractionError,
    >)
        ensures
            match settings_problem(settings) {
                Some(m) => r matches Err(ObservationExtractionError::InvalidSettings(x)) && x@ == m,
                None => match asset_problem(prompt_asset) {
                    Some(m) => r matches Err(ObservationExtractionError::InvalidPromptAsset(x)) && x@
                        == m,
                    None => r matches Ok(s) && s.asset() == prompt_asset && s.max_output_tokens()
                        == settings.max_output_tokens,
                },
            },
    {
        validate_settings(&settings)?;
        validate_prompt_asset(&prompt_asset)?;
        Ok(ObservationExtraction { prompt_asset, max_output_tokens: settings.max_output_tokens })
    }

    /// The prompt asset in use.
    pub closed spec fn asset(&self) -> PromptAsset {
        self.prompt_asset
    }

    /// The output-token budget of each request.
    pub closed spec fn max_output_tokens(&self) -> u32 {
        self.max_output_tokens
    }

    /// The output-token budget of each request.
    pub fn output_token_budget(&self) -> (n: u32)
        ensures
            n == self.max_output_tokens(),
    {
        self.max_output_tokens
    }

    /// The model request for a supported boundary resolution: the system
    /// prompt, the user template with the resolved text in place of its
    /// placeholder, the response schema and the output-token budget.  An
    /// unsupported resolution is refused.
    pub fn build_request(&self, input: &ObservationBoundaryResolverOutput) -> (r: Result<
        ModelGenerationRequest,
        ObservationExtractionError,
    >)
        ensures
            match resolved_text_of(*input) {
                None => r == Err::<ModelGenerationRequest, _>(
                    ObservationExtractionError::UnsupportedBoundaryInput,
                ),
                Some(t) => r matches Ok(req) && req.messages@.len() == 2 && req.messages@[0].role
                    == ModelMessageRole::System && req.messages@[0].content@
                    == self.asset().system_prompt@ && req.messages@[1].role
                    == ModelMessageRole::User && req.messages@[1].content@ == replace_first_seq(
                    self.asset().user_template@,
                    USER_MESSAGE_PLACEHOLDER@,
                    t,
                ) && (req.response_mode matches ModelResponseMode::JsonSchema(s) && json_equiv(
                    s,
                    self.asset().response_schema,
                )) && req.max_output_tokens == Some(self.max_output_tokens()),
            },
    {
        let resolved = match &input.resolution {
            ObservationBoundaryResolution::Supported(r) => r,
            ObservationBoundaryResolution::Unsupported => {
                return Err(ObservationExtractionError::UnsupportedBoundaryInput);
            },
        };
        let user_message = replace_first_text(
            &self.prompt_asset.user_template,
            USER_MESSAGE_PLACEHOLDER,
            &resolved.text,
        );
        let mut messages: Vec<ModelMessage> = Vec::new();
        messages.push(
            ModelMessage {
                role: ModelMessageRole::System,
                content: self.prompt_asset.system_prompt.clone(),
            },
        );
        messages.push(ModelMessage { role: ModelMessageRole::User, content: user_message });
        Ok(
            ModelGenerationRequest {
                messages,
                response_mode: ModelResponseMode::JsonSchema(
                    copy_json(&self.prompt_asset.response_schema),
                ),
                max_output_tokens: Some(self.max_output_tokens),
            },
        )
    }

    /// Turns the model's answer into extracted observations.  `parsed` is
    /// the answer content read as JSON, or the parser's message when it
    /// could not be.  An unsupported boundary resolution is refused first.
    pub fn on_response(
        &self,
        input: &ObservationBoundaryResolverOutput,
        response: Result<ModelGenerationResponse, ModelClientError>,
        parsed: Result<RawObservationExtractionResponse, String>,
    ) -> (r: Result<ObservationExtractionOutput, ObservationExtractionError>)
        ensures
            match resolved_text_of(*input) {
                None => r == Err::<ObservationExtractionOutput, _>(
                    ObservationExtractionError::UnsupportedBoundaryInput,
                ),
                Some(resolved) => match response {
                    Err(e) => r == Err::<ObservationExtractionOutput, _>(
                        ObservationExtractionError::ModelClient(e),
                    ),
                    Ok(resp) => if !finish_reason_acceptable(resp.finish_reason) {
                        is_invalid_extraction_output(
                            r,
                            unusable_finish_message(resp.finish_reason),
                            resp,
                        )
                    } else {
                        match parsed {
                            Err(e) => is_invalid_extraction_output(
                                r,
                                "model output is not valid JSON: "@ + e@,
                                resp,
                            ),
                            Ok(raw) => match extraction_answer_problem(raw) {
                                Some(m) => is_invalid_extraction_output(r, m, resp),
                                None => r matches Ok(out) && is_extraction_output(
                                    out,
                                    *input,
                                    resolved,
                                    raw,
                                    resp,
                                ),
                            },
                        }
                    },
                },
            },
    {
        let resolved = match &input.resolution {
            ObservationBoundaryResolution::Supported(r) => r,
            ObservationBoundaryResolution::Unsupported => {
                return Err(ObservationExtractionError::UnsupportedBoundaryInput);
            },
        };
        let resp = match response {
            Err(e) => {
                return Err(ObservationExtractionError::ModelClient(e));
            },
            Ok(resp) => resp,
        };
        let ghost resp0 = resp;
        let token_usage = token_usage_of(&resp);
        let ModelGenerationResponse { finish_reason, .. } = resp;
        if !is_acceptable_finish(&finish_reason) {
            let reason = unusable_finish_text(&finish_reason);
            return Err(
                ObservationExtractionError::InvalidModelOutput { reason, finish_reason, token_usage },
            );
        }
        let raw = match parsed {
            Err(e) => {
                let mut reason = "model output is not valid JSON: ".to_owned();
                reason.append(e.as_str());
                return Err(
                    ObservationExtractionError::InvalidModelOutput {
                        reason,
                        finish_reason,
                        token_usage,
                    },
                );
            },
            Ok(raw) => raw,
        };
        let confidence = match parse_confidence(&raw.confidence) {
            None => {
                let mut reason = "unknown top-level confidence value: '".to_owned();
                reason.append(raw.confidence.as_str());
                reason.append("'");
                return Err(
                    ObservationExtractionError::InvalidModelOutput {
                        reason,
                        finish_reason,
                        token_usage,
                    },
                );
            },
            Some(c) => c,
        };
        let questions = raw.missing_context_questions.len();
        if !raw.needs_more_context {
            if raw.observations.len() == 0 {
                return Err(
                    ObservationExtractionError::InvalidModelOutput {
                        reason: "needs_more_context=false but observations is empty".to_owned(),
                        finish_reason,
                        token_usage,
                    },
                );
            }
            if questions > 0 {
                return Err(
                    ObservationExtractionError::InvalidModelOutput {
                        reason: "needs_more_context=false but missing_context_questions is non-empty".to_owned(),
                        finish_reason,
                        token_usage,
                    },
                );
            }
        } else if questions < 1 || questions > 2 {
            let mut reason = "needs_more_context=true but missing_context_questions has ".to_owned();
            let d = decimal_text(questions);
            reason.append(d.as_str());
            reason.append(" items (must be 1\u{2013}2)");
            return Err(
                ObservationExtractionError::InvalidModelOutput { reason, finish_reason, token_usage },
            );
        }
        assert(extraction_answer_problem(raw) == first_observation_problem(raw.observations@));
        let mut observations: Vec<ExtractedObservation> = Vec::new();
        let mut i: usize = 0;
        while i < raw.observations.len()
            invariant
                extraction_answer_problem(raw) == first_observation_problem(raw.observations@),
                response == Ok::<ModelGenerationResponse, ModelClientError>(resp0),
                parsed == Ok::<RawObservationExtractionResponse, String>(raw),
                finish_reason_acceptable(resp0.finish_reason),
                resolved_text_of(*input) == Some(resolved.text@),
                finish_reason == resp0.finish_reason,
                token_usage == response_token_usage(resp0),
                i <= raw.observations@.len(),
                observations@.len() == i,
                forall|j: int|
                    0 <= j < i ==> observation_problem(#[trigger] raw.observations@[j]) is None,
                forall|j: int|
                    0 <= j < i ==> is_extracted_from(
                        #[trigger] observations@[j],
                        raw.observations@[j],
                        resolved.text@,
                    ),
            decreases raw.observations@.len() - i,
        {
            match extract_observation(&raw.observations[i], resolved.text.as_str()) {
                Err(reason) => {
                    proof {
                        lemma_first_problem_at(raw.observations@, i as int);
                    }
                    return Err(
                        ObservationExtractionError::InvalidModelOutput {
                            reason,
                            finish_reason,
                            token_usage,
                        },
                    );
                },
                Ok(e) => {
                    observations.push(e);
                },
            }
            i = i + 1;
        }
        proof {
            lemma_no_first_problem(raw.observations@);
        }
        Ok(
            ObservationExtractionOutput {
                normalized_user_input: input.normalized_user_input.clone(),
                resolved_observation: ResolvedObservation { text: resolved.text.clone() },
                confidence,
                observations,
                needs_more_context: raw.needs_more_context,
                missing_context_questions: raw.missing_context_questions,
                token_usage,
            },
        )
    }
}


/// Checks the parsed prompt asset against its parsed schema: it passes
/// exactly when the schema compiles and accepts it; a compile error or a refusal is reported as an
/// invalid prompt asset with the message of `schema_failure_text`.
pub fn validate_asset_schema(schema: &JsonValue, asset: &JsonValue) -> (r: Result<(), ObservationExtractionError>)
    ensures
        r is Ok <==> schema_accepts(*schema, *asset),
        r is Err ==> r matches Err(ObservationExtractionError::InvalidPromptAsset(_)),
        r matches Err(ObservationExtractionError::InvalidPromptAsset(m)) ==> reports_schema_failure(*schema, m@),
{
    match check_asset_schema(schema, asset) {
        Ok(()) => Ok(()),
        Err(f) => Err(ObservationExtractionError::InvalidPromptAsset(schema_failure_message(f))),
    }
}


/// The prompt asset file's text read as JSON; when it does not parse, `invalid prompt asset JSON:` and the parser's message.
pub fn parse_asset_json(text: &str) -> (r: Result<JsonValue, ObservationExtractionError>)
    ensures
        r matches Ok(v) ==> json_text_value(text@) == Some(v),
        r is Err <==> json_text_value(text@) is None,
        r is Err ==> r matches Err(ObservationExtractionError::InvalidPromptAsset(_)),
        r matches Err(ObservationExtractionError::InvalidPromptAsset(m)) ==> "invalid prompt asset JSON: "@.is_prefix_of(m@),
{
    match parse_json_or_report(text, "invalid prompt asset JSON: ") {
        Ok(v) => Ok(v),
        Err(m) => Err(ObservationExtractionError::InvalidPromptAsset(m)),
    }
}

/// The schema file's text read as JSON; when it does not parse, `invalid prompt asset schema JSON:` and the parser's message.
pub fn parse_schema_json(text: &str) -> (r: Result<JsonValue, ObservationExtractionError>)
    ensures
        r matches Ok(v) ==> json_text_value(text@) == Some(v),
        r is Err <==> json_text_value(text@) is None,
        r is Err ==> r matches Err(ObservationExtractionError::InvalidPromptAsset(_)),
        r matches Err(ObservationExtractionError::InvalidPromptAsset(m)) ==> "invalid prompt asset schema JSON: "@.is_prefix_of(m@),
{
    match parse_json_or_report(text, "invalid prompt asset schema JSON: ") {
        Ok(v) => Ok(v),
        Err(m) => Err(ObservationExtractionError::InvalidPromptAsset(m)),
    }
}


/// `t` neither starts nor ends with whitespace.
pub open spec fn trimmed_edges(t: Seq<char>) -> bool {
    t.len() > 0 ==> !is_unicode_whitespace(t[0]) && !is_unicode_whitespace(t.last())
}

proof fn lemma_each_without_problem(obs: Seq<RawExtractedObservation>)
    requires
        first_observation_problem(obs) is None,
    ensures
        forall|j: int| 0 <= j < obs.len() ==> observation_problem(#[trigger] obs[j]) is None,
    decreases obs.len(),
{
    if obs.len() > 0 {
        let rest = obs.drop_first();
        lemma_each_without_problem(rest);
        assert forall|j: int| 0 <= j < obs.len() implies observation_problem(#[trigger] obs[j]) is None by {
            if j > 0 {
                assert(obs[j] == rest[j - 1]);
            }
        }
    }
}

/// An accepted extraction never carries an empty or untrimmed text: every
/// extracted observation has a non-empty statement, its condition and time
/// relation are absent or non-empty, and none of these starts or ends with
/// whitespace.
pub proof fn lemma_accepted_extraction_has_no_empty_text(
    out: ObservationExtractionOutput,
    input: ObservationBoundaryResolverOutput,
    resolved: Seq<char>,
    raw: RawObservationExtractionResponse,
    resp: ModelGenerationResponse,
)
    requires
        extraction_answer_problem(raw) is None,
        is_extraction_output(out, input, resolved, raw, resp),
    ensures
        forall|i: int| 0 <= i < out.observations@.len() ==> {
            let e = #[trigger] out.observations@[i];
            &&& e.statement@.len() > 0
            &&& (e.condition matches Some(c) ==> c@.len() > 0)
            &&& (e.time_relation matches Some(t) ==> t@.len() > 0)
            &&& trimmed_edges(e.statement@)
            &&& (e.condition matches Some(c) ==> trimmed_edges(c@))
            &&& (e.time_relation matches Some(t) ==> trimmed_edges(t@))
        },
{
    lemma_each_without_problem(raw.observations@);
    assert forall|i: int| 0 <= i < out.observations@.len() implies {
        let e = #[trigger] out.observations@[i];
        &&& e.statement@.len() > 0
        &&& (e.condition matches Some(c) ==> c@.len() > 0)
        &&& (e.time_relation matches Some(t) ==> t@.len() > 0)
        &&& trimmed_edges(e.statement@)
        &&& (e.condition matches Some(c) ==> trimmed_edges(c@))
        &&& (e.time_relation matches Some(t) ==> trimmed_edges(t@))
    } by {
        let o = raw.observations@[i];
        assert(observation_problem(o) is None);
        assert(is_extracted_from(out.observations@[i], o, resolved));
        lemma_trim_seq_edges(o.statement@);
        if o.condition is Some {
            lemma_trim_seq_edges(o.condition->Some_0@);
        }
        if o.time_relation is Some {
            lemma_trim_seq_edges(o.time_relation->Some_0@);
        }
    }
}

} // verus!
