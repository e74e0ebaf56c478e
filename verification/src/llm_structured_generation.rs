use vstd::prelude::*;

use crate::json::{has_key, json_text_value, parse_json_text, JsonValue};
use crate::model::{
    finish_reason_acceptable, is_acceptable_finish, response_token_usage, token_usage_of,
    ModelClientError, ModelFinishReason, ModelGenerationRequest, ModelGenerationResponse,
    ModelMessage, ModelMessageRole, ModelResponseMode,
};
use crate::response_shape::{
    json_matches_expected_shape, json_same, rename_applies, rename_misnamed_field,
    repair_worthwhile, response_shape_ok, should_attempt_shape_repair, strip_applies,
    strip_extra_fields, stripped_from, unwrap_applies, unwrap_single_key, renamed_from,
    extra_indices, absent_response_keys, response_keys,
};
use crate::shared_types::ModelTokenUsage;

verus! {

/// Cap on the output tokens of a shape-repair request.
pub const REPAIR_MAX_OUTPUT_TOKENS_CAP: u32 = 2000;

/// Instructions that open a shape-repair prompt.
pub const REPAIR_PROMPT_HEAD: &'static str = "Repair the JSON shape only.\nDo not write a new answer from scratch.\nPreserve the original meaning and reuse existing text whenever possible.\nReturn exactly one valid JSON object and nothing else.\nRequired top-level keys exactly: [\"problem_understanding\",\"similar_practical_context\",\"first_check\",\"result_interpretation\",\"alternative_context_assessment\",\"active_hypotheses\"].\nRequired nested keys inside result_interpretation exactly: [\"supports_primary_if\",\"supports_competing_if\",\"inconclusive_if\"].\nConstraints:\n- active_hypotheses must be an array of 2 or 3 objects, each with: hypothesis (string), source (one of: primary_incident, alternative_context, theory_mechanism), confidence (one of: low, medium, high)\n- alternative_context_assessment must be an object with: used_as_hypothesis (boolean), reason (string)\n- inconclusive_if may be null\n- no markdown fences and no text outside JSON\n- preserve uncertainty and avoid definitive-root-cause language\n- keep every field concise\n- do not add extra top-level keys\n- if a required field is missing, fill it from the closest compatible content in the previous JSON\n- if no compatible content exists, use null only for nullable fields; otherwise use a short string\n\nReturn JSON in this exact shape:\n{\n  \"problem_understanding\": \"string\",\n  \"similar_practical_context\": \"string\",\n  \"first_check\": \"string\",\n  \"result_interpretation\": {\n    \"supports_primary_if\": \"string\",\n    \"supports_competing_if\": \"string\",\n    \"inconclusive_if\": \"string|null\"\n  },\n  \"alternative_context_assessment\": {\n    \"used_as_hypothesis\": true,\n    \"reason\": \"string\"\n  },\n  \"active_hypotheses\": [\n    {\"hypothesis\": \"string\", \"source\": \"primary_incident|alternative_context|theory_mechanism\", \"confidence\": \"low|medium|high\"}\n  ]\n}\n\nOriginal task prompt:\n";

/// Separates the original prompt from the invalid JSON in a repair prompt.
pub const REPAIR_PROMPT_MIDDLE: &'static str = "\n\nPrevious invalid JSON:\n";

/// Settings of structured generation.
#[derive(Clone, Copy, Debug, PartialEq, Eq)]
pub struct LlmStructuredGenerationSettings {
    pub max_output_tokens: u32,
}

/// Ways structured generation fails.
#[derive(Clone, Debug, PartialEq, Eq)]
pub enum LlmStructuredGenerationError {
    InvalidConfig(String),
    InvalidInput(String),
    Model(ModelClientError),
    InvalidModelOutput {
        reason: String,
        token_usage: ModelTokenUsage,
        finish_reason: Option<ModelFinishReason>,
    },
}

/// A diagnostic response and the tokens spent on it.
#[derive(Debug)]
pub struct LlmStructuredGenerationOutput {
    pub response_json: JsonValue,
    pub token_usage: ModelTokenUsage,
}

// ─── Token accounting ─────────────────────────────────────────────────────────

/// Sum of two optional counts, a missing count contributing nothing.
pub open spec fn combined_count(lhs: Option<usize>, rhs: Option<usize>) -> Option<int> {
    match (lhs, rhs) {
        (Some(a), Some(b)) => Some(a + b),
        (Some(a), None) => Some(a as int),
        (None, Some(b)) => Some(b as int),
        (None, None) => None,
    }
}

/// The sum of two optional counts fits in `usize`.
pub open spec fn counts_fit(lhs: Option<usize>, rhs: Option<usize>) -> bool {
    match (lhs, rhs) {
        (Some(a), Some(b)) => a + b <= usize::MAX,
        _ => true,
    }
}

/// Adds two optional counts.
pub fn combine_optional_counts(lhs: Option<usize>, rhs: Option<usize>) -> (r: Option<usize>)
    requires
        counts_fit(lhs, rhs),
    ensures
        match r {
            Some(n) => combined_count(lhs, rhs) == Some(n as int),
            None => combined_count(lhs, rhs) == None::<int>,
        },
{
    match (lhs, rhs) {
        (Some(a), Some(b)) => Some(a + b),
        (Some(a), None) => Some(a),
        (None, Some(b)) => Some(b),
        (None, None) => None,
    }
}

/// Every count of the two usages can be added without overflow.
pub open spec fn usages_fit(lhs: ModelTokenUsage, rhs: ModelTokenUsage) -> bool {
    &&& counts_fit(lhs.prompt_tokens, rhs.prompt_tokens)
    &&& counts_fit(lhs.completion_tokens, rhs.completion_tokens)
    &&& counts_fit(lhs.total_tokens, rhs.total_tokens)
}

/// An optional count as an optional integer.
pub open spec fn opt_int(o: Option<usize>) -> Option<int> {
    match o {
        Some(n) => Some(n as int),
        None => None,
    }
}

/// `u` is the member-wise sum of `lhs` and `rhs`.
pub open spec fn is_combined_usage(u: ModelTokenUsage, lhs: ModelTokenUsage, rhs: ModelTokenUsage) -> bool {
    &&& opt_int(u.prompt_tokens) == combined_count(lhs.prompt_tokens, rhs.prompt_tokens)
    &&& opt_int(u.completion_tokens) == combined_count(
        lhs.completion_tokens,
        rhs.completion_tokens,
    )
    &&& opt_int(u.total_tokens) == combined_count(lhs.total_tokens, rhs.total_tokens)
}

/// Adds two token usages member by member.
pub fn combine_token_usage(lhs: &ModelTokenUsage, rhs: &ModelTokenUsage) -> (u: ModelTokenUsage)
    requires
        usages_fit(*lhs, *rhs),
    ensures
        is_combined_usage(u, *lhs, *rhs),
{
    ModelTokenUsage {
        prompt_tokens: combine_optional_counts(lhs.prompt_tokens, rhs.prompt_tokens),
        completion_tokens: combine_optional_counts(lhs.completion_tokens, rhs.completion_tokens),
        total_tokens: combine_optional_counts(lhs.total_tokens, rhs.total_tokens),
    }
}

// ─── Repair prompt ────────────────────────────────────────────────────────────

/// The repair prompt for `original_prompt` and the invalid answer `invalid_json`.
pub open spec fn repair_prompt_text(original_prompt: Seq<char>, invalid_json: Seq<char>) -> Seq<char> {
    REPAIR_PROMPT_HEAD@ + original_prompt + REPAIR_PROMPT_MIDDLE@ + invalid_json + "\n"@
}

/// Builds the prompt that asks the model to fix the shape of its answer.
pub fn build_shape_repair_prompt(original_prompt: &str, invalid_json: &str) -> (p: String)
    ensures
        p@ == repair_prompt_text(original_prompt@, invalid_json@),
{
    let mut p = REPAIR_PROMPT_HEAD.to_owned();
    p.append(original_prompt);
    p.append(REPAIR_PROMPT_MIDDLE);
    p.append(invalid_json);
    p.append("\n");
    p
}

// ─── Generation ───────────────────────────────────────────────────────────────

/// The `{:?}` rendering of a string: quoted, with escapes.
pub uninterp spec fn str_debug_text(s: Seq<char>) -> Seq<char>;

/// Renders `s` with std's `Debug` for `str` (`format!("{:?}")`); the quoted,
/// escaped text is named, not stated.
#[verifier::external_body]
fn str_debug(s: &str) -> (r: String)
    ensures
        r@ == str_debug_text(s@),
{
    format!("{:?}", s)
}

/// The `{:?}` rendering of a finish reason: the variant's name, and for an
/// unknown reason its text in quotes within parentheses.
pub open spec fn finish_reason_debug_text(fr: ModelFinishReason) -> Seq<char> {
    match fr {
        ModelFinishReason::Stop => "Stop"@,
        ModelFinishReason::Length => "Length"@,
        ModelFinishReason::ContentFilter => "ContentFilter"@,
        ModelFinishReason::ToolCalls => "ToolCalls"@,
        ModelFinishReason::Unknown(s) => "Unknown("@ + str_debug_text(s@) + ")"@,
    }
}

/// Renders a finish reason as its `{:?}` text.
pub fn finish_reason_debug(fr: &ModelFinishReason) -> (s: String)
    ensures
        s@ == finish_reason_debug_text(*fr),
{
    match fr {
        ModelFinishReason::Stop => "Stop".to_owned(),
        ModelFinishReason::Length => "Length".to_owned(),
        ModelFinishReason::ContentFilter => "ContentFilter".to_owned(),
        ModelFinishReason::ToolCalls => "ToolCalls".to_owned(),
        ModelFinishReason::Unknown(u) => {
            let mut out = String::from_str("Unknown(");
            let quoted = str_debug(u.as_str());
            out.append(quoted.as_str());
            out.append(")");
            out
        },
    }
}

/// The text is empty or whitespace only.
pub open spec fn is_blank(s: Seq<char>) -> bool {
    forall|i: int| 0 <= i < s.len() ==> crate::input_normalization::is_unicode_whitespace(#[trigger] s[i])
}

/// Whether `s` is empty or whitespace only.
pub fn text_is_blank(s: &str) -> (r: bool)
    ensures
        r == is_blank(s@),
{
    let n = s.unicode_len();
    let mut i: usize = 0;
    while i < n
        invariant
            n == s@.len(),
            i <= n,
            forall|j: int| 0 <= j < i ==> crate::input_normalization::is_unicode_whitespace(#[trigger] s@[j]),
        decreases n - i,
    {
        if !crate::input_normalization::is_whitespace_char(s.get_char(i)) {
            return false;
        }
        i = i + 1;
    }
    true
}

/// The next step of a generation: done, or one repair request to send.
#[derive(Debug)]
pub enum GenerationStep {
    Finished(Result<LlmStructuredGenerationOutput, LlmStructuredGenerationError>),
    Repair { request: ModelGenerationRequest, token_usage: ModelTokenUsage },
}

/// What follows the first model answer `response` to `prompt`, given the
/// answer content read as JSON (`parsed`, `None` when it is not valid JSON)
/// and the output-token budget: a client error is passed on; a finish
/// reason other than `Stop` or none, text that is not JSON, and JSON that is
/// not an object are invalid output; an object of the response shape is the
/// answer; an object that a local repair (dropping unknown fields, taking
/// the one wrapped value, renaming the one misnamed field) brings to the
/// shape is answered repaired; an object worth it gets one repair request;
/// any other object is the answer as it is.
pub open spec fn initial_step(
    max_output_tokens: u32,
    prompt: Seq<char>,
    response: Result<ModelGenerationResponse, ModelClientError>,
    parsed: Option<JsonValue>,
    step: GenerationStep,
) -> bool {
    &&& (step matches GenerationStep::Finished(Ok(out)) ==> out.response_json is Object)
    &&& match response {
        Err(e) => step == GenerationStep::Finished(Err(LlmStructuredGenerationError::Model(e))),
        Ok(resp) => {
            let usage = response_token_usage(resp);
            if !finish_reason_acceptable(resp.finish_reason) {
                step matches GenerationStep::Finished(r) && is_invalid_output(
                    r,
                    "model stopped with a non-Stop finish reason"@,
                    usage,
                    resp.finish_reason,
                )
            } else {
                match parsed {
                    None => step matches GenerationStep::Finished(r) && is_invalid_output(
                        r,
                        "model response is not valid JSON"@,
                        usage,
                        resp.finish_reason,
                    ),
                    Some(p) => if !(p is Object) {
                        step matches GenerationStep::Finished(r) && is_invalid_output(
                            r,
                            "model response is not a JSON object"@,
                            usage,
                            resp.finish_reason,
                        )
                    } else if response_shape_ok(p) {
                        step matches GenerationStep::Finished(r) && is_output(r, p, usage)
                    } else if strip_applies(p) {
                        step matches GenerationStep::Finished(Ok(out)) && stripped_from(out.response_json, p)
                            && response_shape_ok(out.response_json) && out.token_usage == usage
                    } else if unwrap_applies(p) {
                        step matches GenerationStep::Finished(Ok(out)) && p matches JsonValue::Object(o)
                            && out.response_json == o@[0].1 && response_shape_ok(out.response_json)
                            && out.token_usage == usage
                    } else if rename_applies(p) {
                        step matches GenerationStep::Finished(Ok(out)) && p matches JsonValue::Object(o)
                            && renamed_from(out.response_json, p, extra_indices(o@)[0], absent_response_keys(o@)[0])
                            && response_shape_ok(out.response_json) && out.token_usage == usage
                    } else if repair_worthwhile(p) {
                        step matches GenerationStep::Repair { request, token_usage }
                            && token_usage == usage && request.messages@.len() == 1
                            && request.messages@[0].role == ModelMessageRole::User
                            && request.messages@[0].content@ == repair_prompt_text(prompt, resp.content@)
                            && request.response_mode == ModelResponseMode::JsonObject
                            && request.max_output_tokens == Some(
                                if max_output_tokens <= REPAIR_MAX_OUTPUT_TOKENS_CAP {
                                    max_output_tokens
                                } else {
                                    REPAIR_MAX_OUTPUT_TOKENS_CAP
                                },
                            )
                    } else {
                        step matches GenerationStep::Finished(Ok(out)) && json_same(out.response_json, p)
                            && out.token_usage == usage
                    },
                }
            }
        },
    }
}

/// The outcome once the repair answer `response` is in, given the usage of
/// the first answer and the repair content read as JSON (`parsed`, `None`
/// when it is not valid JSON): a client error is passed on; a length stop,
/// another finish reason than `Stop` or none, text that is not JSON, JSON
/// that is not an object, and an object not of the response shape are
/// invalid output; an object of the shape is the answer, with the usage of
/// both answers added.
pub open spec fn repair_outcome(
    first_usage: ModelTokenUsage,
    response: Result<ModelGenerationResponse, ModelClientError>,
    parsed: Option<JsonValue>,
    r: Result<LlmStructuredGenerationOutput, LlmStructuredGenerationError>,
) -> bool {
    &&& (r matches Ok(out) ==> out.response_json is Object)
    &&& match response {
        Err(e) => r == Err::<LlmStructuredGenerationOutput, LlmStructuredGenerationError>(
            LlmStructuredGenerationError::Model(e),
        ),
        Ok(resp) => {
            let usage = response_token_usage(resp);
            let fr = resp.finish_reason;
            if fr == Some(ModelFinishReason::Length) {
                r matches Err(LlmStructuredGenerationError::InvalidModelOutput { reason, token_usage, finish_reason })
                    && reason@ == "repair model hit output token limit"@
                    && is_combined_usage(token_usage, first_usage, usage) && finish_reason == fr
            } else if !finish_reason_acceptable(fr) {
                r matches Err(LlmStructuredGenerationError::InvalidModelOutput { reason, token_usage, finish_reason })
                    && reason@ == "repair model stopped with unexpected finish reason: "@
                    + finish_reason_debug_text(fr->Some_0)
                    && is_combined_usage(token_usage, first_usage, usage) && finish_reason == fr
            } else {
                match parsed {
                    None => is_invalid_output(r, "model response is not valid JSON"@, usage, fr),
                    Some(p) => if !(p is Object) {
                        is_invalid_output(r, "model response is not a JSON object"@, usage, fr)
                    } else if !response_shape_ok(p) {
                        r matches Err(LlmStructuredGenerationError::InvalidModelOutput { reason, token_usage, finish_reason })
                            && reason@ == "repair response JSON does not match expected shape"@
                            && is_combined_usage(token_usage, first_usage, usage) && finish_reason == fr
                    } else {
                        r matches Ok(out) && out.response_json == p && is_combined_usage(
                            out.token_usage,
                            first_usage,
                            usage,
                        )
                    },
                }
            }
        },
    }
}

/// The content of a model answer read as JSON; `None` for a client error.
pub open spec fn answer_json(response: Result<ModelGenerationResponse, ModelClientError>) -> Option<JsonValue> {
    match response {
        Ok(resp) => json_text_value(resp.content@),
        Err(_) => None,
    }
}

/// `r` is an invalid-output error with `reason`, `usage` and `fr`.
pub open spec fn is_invalid_output(
    r: Result<LlmStructuredGenerationOutput, LlmStructuredGenerationError>,
    reason: Seq<char>,
    usage: ModelTokenUsage,
    fr: Option<ModelFinishReason>,
) -> bool {
    r matches Err(LlmStructuredGenerationError::InvalidModelOutput { reason: rs, token_usage, finish_reason })
        && rs@ == reason && token_usage == usage && finish_reason == fr
}

/// `r` is a success carrying `value` and `usage`.
pub open spec fn is_output(
    r: Result<LlmStructuredGenerationOutput, LlmStructuredGenerationError>,
    value: JsonValue,
    usage: ModelTokenUsage,
) -> bool {
    r matches Ok(out) && out.response_json == value && out.token_usage == usage
}

/// Turns a model answer into a diagnostic response, asking for at most one
/// repair when the answer has the wrong shape.
#[derive(Debug)]
pub struct LlmStructuredGeneration {
    max_output_tokens: u32,
}

impl LlmStructuredGeneration {
    /// Refuses a zero output-token budget.
    pub fn new(settings: LlmStructuredGenerationSettings) -> (r: Result<Self, LlmStructuredGenerationError>)
        ensures
            settings.max_output_tokens == 0 <==> r matches Err(LlmStructuredGenerationError::InvalidConfig(_)),
            settings.max_output_tokens != 0 ==> r is Ok,
            r matches Ok(g) ==> g.max_output_tokens() == settings.max_output_tokens,
    {
        if settings.max_output_tokens == 0 {
            return Err(
                LlmStructuredGenerationError::InvalidConfig(
                    "max_output_tokens must be greater than zero".to_owned(),
                ),
            );
        }
        Ok(LlmStructuredGeneration { max_output_tokens: settings.max_output_tokens })
    }

    /// The output-token budget of each request.
    pub closed spec fn max_output_tokens(&self) -> u32 {
        self.max_output_tokens
    }

    /// The output-token budget of each request.
    pub fn output_token_budget(&self) -> (n: u32)
        ensures
            n == self.max_output_tokens(),
    {
        self.max_output_tokens
    }

    /// The first request: the prompt as the only user message, the response
    /// schema, and the output-token budget; a blank prompt is refused.
    pub fn initial_request(&self, prompt: &str, response_schema: JsonValue) -> (r: Result<
        ModelGenerationRequest,
        LlmStructuredGenerationError,
    >)
        ensures
            is_blank(prompt@) ==> r matches Err(LlmStructuredGenerationError::InvalidInput(_)),
            !is_blank(prompt@) ==> (r matches Ok(req) && req.messages@.len() == 1
                && req.messages@[0].role == ModelMessageRole::User && req.messages@[0].content@
                == prompt@ && req.response_mode == ModelResponseMode::JsonSchema(response_schema)
                && req.max_output_tokens == Some(self.max_output_tokens())),
    {
        if text_is_blank(prompt) {
            return Err(
                LlmStructuredGenerationError::InvalidInput(
                    "prompt must be non-empty after trimming".to_owned(),
                ),
            );
        }
        let mut messages: Vec<ModelMessage> = Vec::new();
        messages.push(ModelMessage { role: ModelMessageRole::User, content: prompt.to_owned() });
        Ok(
            ModelGenerationRequest {
                messages,
                response_mode: ModelResponseMode::JsonSchema(response_schema),
                max_output_tokens: Some(self.max_output_tokens),
            },
        )
    }

    /// Decides what follows the first model answer.  `parsed` is the answer
    /// content read as JSON (`None` when it is not valid JSON).
    pub fn decide_initial_response(
        &self,
        prompt: &str,
        response: Result<ModelGenerationResponse, ModelClientError>,
        parsed: Option<JsonValue>,
    ) -> (step: GenerationStep)
        ensures
            initial_step(self.max_output_tokens(), prompt@, response, parsed, step),

    {
        let resp = match response {
            Ok(r) => r,
            Err(e) => {
                return GenerationStep::Finished(Err(LlmStructuredGenerationError::Model(e)));
            },
        };
        let token_usage = token_usage_of(&resp);
        if !is_acceptable_finish(&resp.finish_reason) {
            return GenerationStep::Finished(
                Err(
                    LlmStructuredGenerationError::InvalidModelOutput {
                        reason: "model stopped with a non-Stop finish reason".to_owned(),
                        token_usage,
                        finish_reason: resp.finish_reason,
                    },
                ),
            );
        }
        let p = match parsed {
            Some(p) => p,
            None => {
                return GenerationStep::Finished(
                    Err(
                        LlmStructuredGenerationError::InvalidModelOutput {
                            reason: "model response is not valid JSON".to_owned(),
                            token_usage,
                            finish_reason: resp.finish_reason,
                        },
                    ),
                );
            },
        };
        let is_object = match &p {
            JsonValue::Object(_) => true,
            _ => false,
        };
        if !is_object {
            return GenerationStep::Finished(
                Err(
                    LlmStructuredGenerationError::InvalidModelOutput {
                        reason: "model response is not a JSON object".to_owned(),
                        token_usage,
                        finish_reason: resp.finish_reason,
                    },
                ),
            );
        }
        if json_matches_expected_shape(&p) {
            return GenerationStep::Finished(Ok(LlmStructuredGenerationOutput { response_json: p, token_usage }));
        }
        let p = match strip_extra_fields(p) {
            Ok(s) => {
                return GenerationStep::Finished(Ok(LlmStructuredGenerationOutput { response_json: s, token_usage }));
            },
            Err(p) => p,
        };
        let p = match unwrap_single_key(p) {
            Ok((inner, _key)) => {
                return GenerationStep::Finished(Ok(LlmStructuredGenerationOutput { response_json: inner, token_usage }));
            },
            Err(p) => p,
        };
        let ghost p0 = p;
        let p = match rename_misnamed_field(p) {
            Ok((renamed, _from, _to)) => {
                return GenerationStep::Finished(Ok(LlmStructuredGenerationOutput { response_json: renamed, token_usage }));
            },
            Err(p) => p,
        };
        proof {
            crate::response_shape::lemma_json_same_shape(p, p0);
        }
        if should_attempt_shape_repair(&p) {
            let budget = if self.max_output_tokens <= REPAIR_MAX_OUTPUT_TOKENS_CAP {
                self.max_output_tokens
            } else {
                REPAIR_MAX_OUTPUT_TOKENS_CAP
            };
            let mut messages: Vec<ModelMessage> = Vec::new();
            messages.push(
                ModelMessage {
                    role: ModelMessageRole::User,
                    content: build_shape_repair_prompt(prompt, resp.content.as_str()),
                },
            );
            return GenerationStep::Repair {
                request: ModelGenerationRequest {
                    messages,
                    response_mode: ModelResponseMode::JsonObject,
                    max_output_tokens: Some(budget),
                },
                token_usage,
            };
        }
        GenerationStep::Finished(Ok(LlmStructuredGenerationOutput { response_json: p, token_usage }))
    }

    /// Decides what follows the first model answer: its content is read as
    /// JSON (only when the finish reason is acceptable) and the answer is
    /// judged as `initial_step` says.
    pub fn on_initial_response(
        &self,
        prompt: &str,
        response: Result<ModelGenerationResponse, ModelClientError>,
    ) -> (step: GenerationStep)
        ensures
            initial_step(self.max_output_tokens(), prompt@, response, answer_json(response), step),
    {
        let parsed = match &response {
            Ok(resp) => if is_acceptable_finish(&resp.finish_reason) {
                match parse_json_text(resp.content.as_str()) {
                    Ok(v) => Some(v),
                    Err(_) => None,
                }
            } else {
                None
            },
            Err(_) => None,
        };
        self.decide_initial_response(prompt, response, parsed)
    }

    /// Decides the outcome once the repair answer is in: its content is read
    /// as JSON (only when the finish reason is acceptable) and the answer is
    /// judged as `repair_outcome` says.
    pub fn on_repair_response(
        &self,
        first_usage: ModelTokenUsage,
        response: Result<ModelGenerationResponse, ModelClientError>,
    ) -> (r: Result<LlmStructuredGenerationOutput, LlmStructuredGenerationError>)
        requires
            response matches Ok(resp) ==> usages_fit(first_usage, response_token_usage(resp)),
        ensures
            repair_outcome(first_usage, response, answer_json(response), r),
    {
        let parsed = match &response {
            Ok(resp) => if is_acceptable_finish(&resp.finish_reason) {
                match parse_json_text(resp.content.as_str()) {
                    Ok(v) => Some(v),
                    Err(_) => None,
                }
            } else {
                None
            },
            Err(_) => None,
        };
        self.decide_repair_response(first_usage, response, parsed)
    }

    /// Decides the outcome once the repair answer is in; `first_usage` is the
    /// usage of the first answer and `parsed` the repair content read as JSON
    /// (`None` when it is not valid JSON).
    pub fn decide_repair_response(
        &self,
        first_usage: ModelTokenUsage,
        response: Result<ModelGenerationResponse, ModelClientError>,
        parsed: Option<JsonValue>,
    ) -> (r: Result<LlmStructuredGenerationOutput, LlmStructuredGenerationError>)
        requires
            response matches Ok(resp) ==> usages_fit(first_usage, response_token_usage(resp)),
        ensures
            repair_outcome(first_usage, response, parsed, r),

    {
        let resp = match response {
            Ok(r) => r,
            Err(e) => {
                return Err(LlmStructuredGenerationError::Model(e));
            },
        };
        let usage = token_usage_of(&resp);
        let is_length = match &resp.finish_reason {
            Some(ModelFinishReason::Length) => true,
            _ => false,
        };
        if is_length {
            return Err(
                LlmStructuredGenerationError::InvalidModelOutput {
                    reason: "repair model hit output token limit".to_owned(),
                    token_usage: combine_token_usage(&first_usage, &usage),
                    finish_reason: resp.finish_reason,
                },
            );
        }
        if !is_acceptable_finish(&resp.finish_reason) {
            let mut reason = "repair model stopped with unexpected finish reason: ".to_owned();
            match &resp.finish_reason {
                Some(fr) => {
                    let text = finish_reason_debug(fr);
                    reason.append(text.as_str());
                },
                None => {},
            }
            return Err(
                LlmStructuredGenerationError::InvalidModelOutput {
                    reason,
                    token_usage: combine_token_usage(&first_usage, &usage),
                    finish_reason: resp.finish_reason,
                },
            );
        }
        let p = match parsed {
            Some(p) => p,
            None => {
                return Err(
                    LlmStructuredGenerationError::InvalidModelOutput {
                        reason: "model response is not valid JSON".to_owned(),
                        token_usage: usage,
                        finish_reason: resp.finish_reason,
                    },
                );
            },
        };
        let is_object = match &p {
            JsonValue::Object(_) => true,
            _ => false,
        };
        if !is_object {
            return Err(
                LlmStructuredGenerationError::InvalidModelOutput {
                    reason: "model response is not a JSON object".to_owned(),
                    token_usage: usage,
                    finish_reason: resp.finish_reason,
                },
            );
        }
        if !json_matches_expected_shape(&p) {
            return Err(
                LlmStructuredGenerationError::InvalidModelOutput {
                    reason: "repair response JSON does not match expected shape".to_owned(),
                    token_usage: combine_token_usage(&first_usage, &usage),
                    finish_reason: resp.finish_reason,
                },
            );
        }
        Ok(
            LlmStructuredGenerationOutput {
                response_json: p,
                token_usage: combine_token_usage(&first_usage, &usage),
            },
        )
    }
}


/// Over a whole generation: when the first answer ends normally and holds a
/// JSON object `v`, an accepted answer is a JSON object.  Without a repair
/// request (one model call) it is of the response shape, or it is `v`
/// itself (the same JSON) and `v` names none of the six response members;
/// after a repair request the repair answer is accepted only in the
/// response shape.
pub proof fn lemma_generation_answer_shape(
    max_output_tokens: u32,
    prompt: Seq<char>,
    first: ModelGenerationResponse,
    v: JsonValue,
    step: GenerationStep,
    second: Result<ModelGenerationResponse, ModelClientError>,
    second_parsed: Option<JsonValue>,
    r: Result<LlmStructuredGenerationOutput, LlmStructuredGenerationError>,
)
    requires
        finish_reason_acceptable(first.finish_reason),
        v is Object,
        initial_step(max_output_tokens, prompt, Ok(first), Some(v), step),
        step matches GenerationStep::Repair { token_usage, .. } ==> repair_outcome(token_usage, second, second_parsed, r),
    ensures
        step matches GenerationStep::Finished(Ok(out)) ==> out.response_json is Object && (response_shape_ok(out.response_json) || (
        json_same(out.response_json, v) && forall|i: int|
            0 <= i < 6 ==> !has_key(v->Object_0@, #[trigger] response_keys()[i]))),
        step is Repair ==> (r matches Ok(out) ==> out.response_json is Object && response_shape_ok(out.response_json)),
{
}

} // verus!
