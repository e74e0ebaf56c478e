use vstd::prelude::*;

use crate::json::{copy_json, json_equiv, json_text_value, parse_json_or_report, text_eq, JsonValue};
use crate::model::{
    finish_reason_acceptable, is_acceptable_finish, response_token_usage, token_usage_of,
    unusable_finish_message, unusable_finish_text, ModelClientError, ModelFinishReason,
    ModelGenerationRequest, ModelGenerationResponse, ModelMessage, ModelMessageRole,
    ModelResponseMode,
};
use crate::prompt_asset::{
    check_asset_schema, decimal_seq, decimal_text, reports_schema_failure, schema_accepts, schema_failure_message,
    PromptAsset,
};
use crate::shared_types::{
    Confidence, DiagnosticContextView, ModelTokenUsage, ObservationBoundaryResolution,
    ObservationBoundaryResolverOutput, ResolvedObservation,
};
use crate::json::copy_strings;
use crate::text::{
    contains_seq, count_matches, count_text, replace_all_seq, replace_all_text,
    replace_first_seq, replace_first_text, text_contains, trim_seq, trim_text,
};

verus! {

/// Where the compact diagnostic context goes in the user template.
pub const DIAGNOSTIC_CONTEXT_PLACEHOLDER: &'static str = "{{diagnostic_context}}";

/// Where the user's normalized input goes in the user template.
pub const USER_INPUT_PLACEHOLDER: &'static str = "{{normalized_user_input}}";

/// Settings of the observation boundary resolver.
#[derive(Clone, Debug, PartialEq, Eq)]
pub struct ObservationBoundaryResolverSettings {
    pub prompt_asset_path: String,
    pub max_output_tokens: u32,
}

/// Ways the observation boundary resolver fails.
#[derive(Clone, Debug, PartialEq, Eq)]
pub enum ObservationBoundaryResolverError {
    InvalidSettings(String),
    InvalidPromptAsset(String),
    InvalidContext(String),
    ModelClient(ModelClientError),
    InvalidModelOutput {
        reason: String,
        finish_reason: Option<ModelFinishReason>,
        token_usage: ModelTokenUsage,
    },
}

/// The model's answer as it was read from JSON.
#[derive(Clone, Debug, PartialEq, Eq)]
pub struct RawObservationBoundaryResponse {
    pub supported: bool,
    pub confidence: String,
    pub reason: String,
    pub full_query: Option<String>,
}

/// The diagnostic context as the prompt presents it.
#[derive(Clone, Debug, PartialEq, Eq)]
pub struct BoundaryPromptContext {
    pub problem_understanding: String,
    pub active_hypotheses: Vec<String>,
    pub latest_suggested_check: String,
}

/// The confidence grade named by `s`, if any.
pub open spec fn confidence_from_text(s: Seq<char>) -> Option<Confidence> {
    if s == "low"@ {
        Some(Confidence::Low)
    } else if s == "medium"@ {
        Some(Confidence::Medium)
    } else if s == "high"@ {
        Some(Confidence::High)
    } else {
        None
    }
}

/// Reads a confidence grade (`low`, `medium` or `high`).
pub fn parse_confidence(s: &str) -> (r: Option<Confidence>)
    ensures
        r == confidence_from_text(s@),
{
    if text_eq(s, "low") {
        Some(Confidence::Low)
    } else if text_eq(s, "medium") {
        Some(Confidence::Medium)
    } else if text_eq(s, "high") {
        Some(Confidence::High)
    } else {
        None
    }
}

/// What is wrong with the settings, if anything.
pub open spec fn settings_problem(s: ObservationBoundaryResolverSettings) -> Option<Seq<char>> {
    if trim_seq(s.prompt_asset_path@).len() == 0 {
        Some("prompt_asset_path must not be empty"@)
    } else if s.max_output_tokens == 0 {
        Some("max_output_tokens must be greater than zero"@)
    } else {
        None
    }
}

/// Refuses a blank prompt asset path and a zero output-token budget.
pub fn validate_settings(s: &ObservationBoundaryResolverSettings) -> (r: Result<
    (),
    ObservationBoundaryResolverError,
>)
    ensures
        match settings_problem(*s) {
            Some(m) => r matches Err(ObservationBoundaryResolverError::InvalidSettings(x)) && x@ == m,
            None => r is Ok,
        },
{
    if trim_text(&s.prompt_asset_path).unicode_len() == 0 {
        return Err(
            ObservationBoundaryResolverError::InvalidSettings(
                "prompt_asset_path must not be empty".to_owned(),
            ),
        );
    }
    if s.max_output_tokens == 0 {
        return Err(
            ObservationBoundaryResolverError::InvalidSettings(
                "max_output_tokens must be greater than zero".to_owned(),
            ),
        );
    }
    Ok(())
}

/// The refusal of a template that holds `n` copies of placeholder `ph`.
pub open spec fn placeholder_count_message(ph: Seq<char>, n: nat) -> Seq<char> {
    "user_template must contain exactly one "@ + ph + " placeholder, found "@ + decimal_seq(n)
}

/// The template with both placeholders taken out.
pub open spec fn template_remainder(t: Seq<char>) -> Seq<char> {
    replace_all_seq(
        replace_all_seq(t, DIAGNOSTIC_CONTEXT_PLACEHOLDER@, ""@),
        USER_INPUT_PLACEHOLDER@,
        ""@,
    )
}

/// What is wrong with the prompt asset, if anything: blank prompts, a
/// schema that is not an object, a placeholder that does not occur exactly
/// once, or any other `{{` / `}}` left in the template.
pub open spec fn asset_problem(a: PromptAsset) -> Option<Seq<char>> {
    let t = a.user_template@;
    if trim_seq(a.system_prompt@).len() == 0 {
        Some("system_prompt must be non-empty"@)
    } else if trim_seq(t).len() == 0 {
        Some("user_template must be non-empty"@)
    } else if !(a.response_schema is Object) {
        Some("response_schema must be a JSON object"@)
    } else if count_matches(t, DIAGNOSTIC_CONTEXT_PLACEHOLDER@) != 1 {
        Some(
            placeholder_count_message(
                DIAGNOSTIC_CONTEXT_PLACEHOLDER@,
                count_matches(t, DIAGNOSTIC_CONTEXT_PLACEHOLDER@),
            ),
        )
    } else if count_matches(t, USER_INPUT_PLACEHOLDER@) != 1 {
        Some(
            placeholder_count_message(
                USER_INPUT_PLACEHOLDER@,
                count_matches(t, USER_INPUT_PLACEHOLDER@),
            ),
        )
    } else if contains_seq(template_remainder(t), "{{"@) || contains_seq(
        template_remainder(t),
        "}}"@,
    ) {
        Some("user_template contains unsupported placeholder constructs"@)
    } else {
        None
    }
}

/// The refusal of a template that holds `n` copies of `ph`.
fn placeholder_count_text(ph: &str, n: usize) -> (m: String)
    ensures
        m@ == placeholder_count_message(ph@, n as nat),
{
    let mut m = "user_template must contain exactly one ".to_owned();
    m.append(ph);
    m.append(" placeholder, found ");
    let d = decimal_text(n);
    m.append(d.as_str());
    m
}

/// Checks a prompt asset against the rules of `asset_problem`.
pub fn validate_prompt_asset(a: &PromptAsset) -> (r: Result<(), ObservationBoundaryResolverError>)
    ensures
        match asset_problem(*a) {
            Some(m) => r matches Err(ObservationBoundaryResolverError::InvalidPromptAsset(x)) && x@
                == m,
            None => r is Ok,
        },
{
    if trim_text(&a.system_prompt).unicode_len() == 0 {
        return Err(
            ObservationBoundaryResolverError::InvalidPromptAsset(
                "system_prompt must be non-empty".to_owned(),
            ),
        );
    }
    if trim_text(&a.user_template).unicode_len() == 0 {
        return Err(
            ObservationBoundaryResolverError::InvalidPromptAsset(
                "user_template must be non-empty".to_owned(),
            ),
        );
    }
    match &a.response_schema {
        JsonValue::Object(_) => {},
        _ => {
            return Err(
                ObservationBoundaryResolverError::InvalidPromptAsset(
                    "response_schema must be a JSON object".to_owned(),
                ),
            );
        },
    }
    let dc = count_text(&a.user_template, DIAGNOSTIC_CONTEXT_PLACEHOLDER);
    if dc != 1 {
        return Err(
            ObservationBoundaryResolverError::InvalidPromptAsset(
                placeholder_count_text(DIAGNOSTIC_CONTEXT_PLACEHOLDER, dc),
            ),
        );
    }
    let ui = count_text(&a.user_template, USER_INPUT_PLACEHOLDER);
    if ui != 1 {
        return Err(
            ObservationBoundaryResolverError::InvalidPromptAsset(
                placeholder_count_text(USER_INPUT_PLACEHOLDER, ui),
            ),
        );
    }
    proof {
        reveal_strlit("{{diagnostic_context}}");
        reveal_strlit("{{normalized_user_input}}");
    }
    let without_context = replace_all_text(&a.user_template, DIAGNOSTIC_CONTEXT_PLACEHOLDER, "");
    let remainder = replace_all_text(&without_context, USER_INPUT_PLACEHOLDER, "");
    if text_contains(&remainder, "{{") || text_contains(&remainder, "}}") {
        return Err(
            ObservationBoundaryResolverError::InvalidPromptAsset(
                "user_template contains unsupported placeholder constructs".to_owned(),
            ),
        );
    }
    Ok(())
}

/// The compact context the prompt shows, or why the diagnostic context
/// cannot provide it.
pub fn boundary_prompt_context(ctx: &DiagnosticContextView) -> (r: Result<
    BoundaryPromptContext,
    ObservationBoundaryResolverError,
>)
    ensures
        match ctx.current_problem_understanding {
            None => r matches Err(ObservationBoundaryResolverError::InvalidContext(m)) && m@
                == "DiagnosticContext has no problem understanding entry"@,
            Some(pu) => match pu.text {
                None => r matches Err(ObservationBoundaryResolverError::InvalidContext(m)) && m@
                    == "current problem understanding text is None (iteration not yet closed)"@,
                Some(t) => match ctx.last_check {
                    None => r matches Err(ObservationBoundaryResolverError::InvalidContext(m)) && m@
                        == "DiagnosticContext has no suggested check"@,
                    Some(c) => r matches Ok(pc) && pc.problem_understanding@ == t@
                        && pc.active_hypotheses@ == ctx.active_hypotheses@
                        && pc.latest_suggested_check@ == c@,
                },
            },
        },
{
    let pu = match &ctx.current_problem_understanding {
        None => {
            return Err(
                ObservationBoundaryResolverError::InvalidContext(
                    "DiagnosticContext has no problem understanding entry".to_owned(),
                ),
            );
        },
        Some(pu) => pu,
    };
    let text = match &pu.text {
        None => {
            return Err(
                ObservationBoundaryResolverError::InvalidContext(
                    "current problem understanding text is None (iteration not yet closed)".to_owned(),
                ),
            );
        },
        Some(t) => t,
    };
    let check = match &ctx.last_check {
        None => {
            return Err(
                ObservationBoundaryResolverError::InvalidContext(
                    "DiagnosticContext has no suggested check".to_owned(),
                ),
            );
        },
        Some(c) => c,
    };
    Ok(
        BoundaryPromptContext {
            problem_understanding: text.clone(),
            active_hypotheses: copy_strings(&ctx.active_hypotheses),
            latest_suggested_check: check.clone(),
        },
    )
}

/// The user message: the template with the context JSON and the query put
/// in place of their placeholders, in that order.
pub open spec fn boundary_user_message(
    template: Seq<char>,
    context_json: Seq<char>,
    query: Seq<char>,
) -> Seq<char> {
    replace_first_seq(
        replace_first_seq(template, DIAGNOSTIC_CONTEXT_PLACEHOLDER@, context_json),
        USER_INPUT_PLACEHOLDER@,
        query,
    )
}

/// What is wrong with a parsed answer, if anything.
pub open spec fn boundary_answer_problem(raw: RawObservationBoundaryResponse) -> Option<Seq<char>> {
    if confidence_from_text(raw.confidence@) is None {
        Some("unknown confidence value: '"@ + raw.confidence@ + "'"@)
    } else if raw.supported {
        if raw.full_query matches Some(q) && trim_seq(q@).len() > 0 {
            None
        } else {
            Some("supported=true but full_query is null or empty"@)
        }
    } else if raw.full_query is Some {
        Some("supported=false but full_query is non-null"@)
    } else {
        None
    }
}

/// `r` is an invalid-output error with `reason`, carrying the finish reason
/// and token usage of `resp`.
pub open spec fn is_invalid_boundary_output(
    r: Result<ObservationBoundaryResolverOutput, ObservationBoundaryResolverError>,
    reason: Seq<char>,
    resp: ModelGenerationResponse,
) -> bool {
    r matches Err(
        ObservationBoundaryResolverError::InvalidModelOutput { reason: rs, finish_reason, token_usage },
    ) && rs@ == reason && finish_reason == resp.finish_reason && token_usage
        == response_token_usage(resp)
}

/// `out` is what an acceptable answer `raw` to `query` resolves to.
pub open spec fn is_boundary_output(
    out: ObservationBoundaryResolverOutput,
    query: Seq<char>,
    raw: RawObservationBoundaryResponse,
    resp: ModelGenerationResponse,
) -> bool {
    &&& out.normalized_user_input@ == query
    &&& confidence_from_text(raw.confidence@) == Some(out.confidence)
    &&& out.reason@ == raw.reason@
    &&& out.token_usage == response_token_usage(resp)
    &&& if raw.supported {
        out.resolution matches ObservationBoundaryResolution::Supported(ro)
            && raw.full_query matches Some(q) && ro.text@ == trim_seq(q@)
    } else {
        out.resolution == ObservationBoundaryResolution::Unsupported
    }
}

/// Decides whether a follow-up message is a standalone diagnostic
/// observation, by asking the model once.
#[derive(Debug)]
pub struct ObservationBoundaryResolver {
    prompt_asset: PromptAsset,
    max_output_tokens: u32,
}

impl ObservationBoundaryResolver {
    /// Checks the settings, then the prompt asset.
    pub fn new(
        settings: ObservationBoundaryResolverSettings,
        prompt_asset: PromptAsset,
    ) -> (r: Result<Self, ObservationBoundaryResolverError>)
        ensures
            match settings_problem(settings) {
                Some(m) => r matches Err(ObservationBoundaryResolverError::InvalidSettings(x)) && x@
                    == m,
                None => match asset_problem(prompt_asset) {
                    Some(m) => r matches Err(ObservationBoundaryResolverError::InvalidPromptAsset(x))
                        && x@ == m,
                    None => r matches Ok(s) && s.asset() == prompt_asset && s.max_output_tokens()
                        == settings.max_output_tokens,
                },
            },
    {
        validate_settings(&settings)?;
        validate_prompt_asset(&prompt_asset)?;
        Ok(ObservationBoundaryResolver { prompt_asset, max_output_tokens: settings.max_output_tokens })
    }

    /// The prompt asset in use.
    pub closed spec fn asset(&self) -> PromptAsset {
        self.prompt_asset
    }

    /// The output-token budget of each request.
    pub closed spec fn max_output_tokens(&self) -> u32 {
        self.max_output_tokens
    }

    /// The output-token budget of each request.
    pub fn output_token_budget(&self) -> (n: u32)
        ensures
            n == self.max_output_tokens(),
    {
        self.max_output_tokens
    }

    /// The model request for `query` with the serialized compact context
    /// `context_json`: the system prompt, the filled-in user template, the
    /// response schema and the output-token budget.
    pub fn build_request(&self, query: &str, context_json: &str) -> (req: ModelGenerationRequest)
        ensures
            req.messages@.len() == 2,
            req.messages@[0].role == ModelMessageRole::System,
            req.messages@[0].content@ == self.asset().system_prompt@,
            req.messages@[1].role == ModelMessageRole::User,
            req.messages@[1].content@ == boundary_user_message(
                self.asset().user_template@,
                context_json@,
                query@,
            ),
            req.response_mode matches ModelResponseMode::JsonSchema(s) && json_equiv(
                s,
                self.asset().response_schema,
            ),
            req.max_output_tokens == Some(self.max_output_tokens()),
    {
        let with_context = replace_first_text(
            &self.prompt_asset.user_template,
            DIAGNOSTIC_CONTEXT_PLACEHOLDER,
            context_json,
        );
        let user_message = replace_first_text(&with_context, USER_INPUT_PLACEHOLDER, query);
        let mut messages: Vec<ModelMessage> = Vec::new();
        messages.push(
            ModelMessage {
                role: ModelMessageRole::System,
                content: self.prompt_asset.system_prompt.clone(),
            },
        );
        messages.push(ModelMessage { role: ModelMessageRole::User, content: user_message });
        ModelGenerationRequest {
            messages,
            response_mode: ModelResponseMode::JsonSchema(copy_json(&self.prompt_asset.response_schema)),
            max_output_tokens: Some(self.max_output_tokens),
        }
    }

    /// Turns the model's answer into a resolution.  `parsed` is the answer
    /// content read as JSON, or the parser's message when it could not be.
    pub fn on_response(
        &self,
        query: &str,
        response: Result<ModelGenerationResponse, ModelClientError>,
        parsed: Result<RawObservationBoundaryResponse, String>,
    ) -> (r: Result<ObservationBoundaryResolverOutput, ObservationBoundaryResolverError>)
        ensures
            match response {
                Err(e) => r == Err::<ObservationBoundaryResolverOutput, _>(
                    ObservationBoundaryResolverError::ModelClient(e),
                ),
                Ok(resp) => if !finish_reason_acceptable(resp.finish_reason) {
                    is_invalid_boundary_output(r, unusable_finish_message(resp.finish_reason), resp)
                } else {
                    match parsed {
                        Err(e) => is_invalid_boundary_output(
                            r,
                            "model output is not valid JSON: "@ + e@,
                            resp,
                        ),
                        Ok(raw) => match boundary_answer_problem(raw) {
                            Some(m) => is_invalid_boundary_output(r, m, resp),
                            None => r matches Ok(out) && is_boundary_output(out, query@, raw, resp),
                        },
                    }
                },
            },
    {
        let resp = match response {
            Err(e) => {
                return Err(ObservationBoundaryResolverError::ModelClient(e));
            },
            Ok(resp) => resp,
        };
        let ghost resp0 = resp;
        let token_usage = token_usage_of(&resp);
        let ModelGenerationResponse { finish_reason, .. } = resp;
        if !is_acceptable_finish(&finish_reason) {
            let reason = unusable_finish_text(&finish_reason);
            return Err(
                ObservationBoundaryResolverError::InvalidModelOutput {
                    reason,
                    finish_reason,
                    token_usage,
                },
            );
        }
        let raw = match parsed {
            Err(e) => {
                let mut reason = "model output is not valid JSON: ".to_owned();
                reason.append(e.as_str());
                return Err(
                    ObservationBoundaryResolverError::InvalidModelOutput {
                        reason,
                        finish_reason,
                        token_usage,
                    },
                );
            },
            Ok(raw) => raw,
        };
        let confidence = match parse_confidence(&raw.confidence) {
            None => {
                let mut reason = "unknown confidence value: '".to_owned();
                reason.append(raw.confidence.as_str());
                reason.append("'");
                return Err(
                    ObservationBoundaryResolverError::InvalidModelOutput {
                        reason,
                        finish_reason,
                        token_usage,
                    },
                );
            },
            Some(c) => c,
        };
        let resolution = if raw.supported {
            let text = match &raw.full_query {
                Some(q) => trim_text(q),
                None => String::new(),
            };
            if text.unicode_len() == 0 {
                return Err(
                    ObservationBoundaryResolverError::InvalidModelOutput {
                        reason: "supported=true but full_query is null or empty".to_owned(),
                        finish_reason,
                        token_usage,
                    },
                );
            }
            ObservationBoundaryResolution::Supported(ResolvedObservation { text })
        } else {
            if raw.full_query.is_some() {
                return Err(
                    ObservationBoundaryResolverError::InvalidModelOutput {
                        reason: "supported=false but full_query is non-null".to_owned(),
                        finish_reason,
                        token_usage,
                    },
                );
            }
            ObservationBoundaryResolution::Unsupported
        };
        Ok(
            ObservationBoundaryResolverOutput {
                normalized_user_input: query.to_owned(),
                confidence,
                reason: raw.reason,
                resolution,
                token_usage,
            },
        )
    }
}


/// Checks the parsed prompt asset against its parsed schema: it passes
/// exactly when the schema compiles and accepts it; a compile error or a refusal is reported as an
/// invalid prompt asset with the message of `schema_failure_text`.
pub fn validate_asset_schema(schema: &JsonValue, asset: &JsonValue) -> (r: Result<(), ObservationBoundaryResolverError>)
    ensures
        r is Ok <==> schema_accepts(*schema, *asset),
        r is Err ==> r matches Err(ObservationBoundaryResolverError::InvalidPromptAsset(_)),
        r matches Err(ObservationBoundaryResolverError::InvalidPromptAsset(m)) ==> reports_schema_failure(*schema, m@),
{
    match check_asset_schema(schema, asset) {
        Ok(()) => Ok(()),
        Err(f) => Err(ObservationBoundaryResolverError::InvalidPromptAsset(schema_failure_message(f))),
    }
}


/// The prompt asset file's text read as JSON; when it does not parse, `invalid prompt asset JSON:` and the parser's message.
pub fn parse_asset_json(text: &str) -> (r: Result<JsonValue, ObservationBoundaryResolverError>)
    ensures
        r matches Ok(v) ==> json_text_value(text@) == Some(v),
        r is Err <==> json_text_value(text@) is None,
        r is Err ==> r matches Err(ObservationBoundaryResolverError::InvalidPromptAsset(_)),
        r matches Err(ObservationBoundaryResolverError::InvalidPromptAsset(m)) ==> "invalid prompt asset JSON: "@.is_prefix_of(m@),
{
    match parse_json_or_report(text, "invalid prompt asset JSON: ") {
        Ok(v) => Ok(v),
        Err(m) => Err(ObservationBoundaryResolverError::InvalidPromptAsset(m)),
    }
}

/// The schema file's text read as JSON; when it does not parse, `invalid prompt asset schema JSON:` and the parser's message.
pub fn parse_schema_json(text: &str) -> (r: Result<JsonValue, ObservationBoundaryResolverError>)
    ensures
        r matches Ok(v) ==> json_text_value(text@) == Some(v),
        r is Err <==> json_text_value(text@) is None,
        r is Err ==> r matches Err(ObservationBoundaryResolverError::InvalidPromptAsset(_)),
        r matches Err(ObservationBoundaryResolverError::InvalidPromptAsset(m)) ==> "invalid prompt asset schema JSON: "@.is_prefix_of(m@),
{
    match parse_json_or_report(text, "invalid prompt asset schema JSON: ") {
        Ok(v) => Ok(v),
        Err(m) => Err(ObservationBoundaryResolverError::InvalidPromptAsset(m)),
    }
}

} // verus!
