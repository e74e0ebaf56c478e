use vstd::prelude::*;

use crate::json::JsonValue;
use crate::shared_types::ModelTokenUsage;

verus! {

/// Why a model stopped generating.
#[derive(Clone, Debug, PartialEq, Eq)]
pub enum ModelFinishReason {
    Stop,
    Length,
    ContentFilter,
    ToolCalls,
    Unknown(String),
}

/// Failure of the model client itself.
#[derive(Clone, Debug, PartialEq, Eq)]
pub enum ModelClientError {
    Transport(String),
    Provider(String),
}

/// Author of a chat message.
#[derive(Clone, Copy, Debug, PartialEq, Eq, Structural)]
pub enum ModelMessageRole {
    System,
    User,
}

/// One chat message sent to the model.
#[derive(Debug)]
pub struct ModelMessage {
    pub role: ModelMessageRole,
    pub content: String,
}

/// How the model is asked to format its answer.
#[derive(Debug)]
pub enum ModelResponseMode {
    JsonObject,
    JsonSchema(JsonValue),
}

/// A generation request; the temperature is always zero.
#[derive(Debug)]
pub struct ModelGenerationRequest {
    pub messages: Vec<ModelMessage>,
    pub response_mode: ModelResponseMode,
    pub max_output_tokens: Option<u32>,
}

/// What the model returned.
#[derive(Clone, Debug, PartialEq, Eq)]
pub struct ModelGenerationResponse {
    pub content: String,
    pub finish_reason: Option<ModelFinishReason>,
    pub prompt_tokens: Option<usize>,
    pub completion_tokens: Option<usize>,
    pub total_tokens: Option<usize>,
}

/// The finish reason lets the caller use the content (`Stop`, or none given).
pub open spec fn finish_reason_acceptable(fr: Option<ModelFinishReason>) -> bool {
    fr matches None || fr matches Some(ModelFinishReason::Stop)
}

/// Whether the caller may use the content after finish reason `fr`.
pub fn is_acceptable_finish(fr: &Option<ModelFinishReason>) -> (r: bool)
    ensures
        r == finish_reason_acceptable(*fr),
{
    match fr {
        None => true,
        Some(ModelFinishReason::Stop) => true,
        _ => false,
    }
}

/// Token usage reported by a response.
pub open spec fn response_token_usage(r: ModelGenerationResponse) -> ModelTokenUsage {
    ModelTokenUsage {
        prompt_tokens: r.prompt_tokens,
        completion_tokens: r.completion_tokens,
        total_tokens: r.total_tokens,
    }
}

/// The token usage of a response.
pub fn token_usage_of(r: &ModelGenerationResponse) -> (u: ModelTokenUsage)
    ensures
        u == response_token_usage(*r),
{
    ModelTokenUsage {
        prompt_tokens: r.prompt_tokens,
        completion_tokens: r.completion_tokens,
        total_tokens: r.total_tokens,
    }
}

} // verus!

verus! {

/// Why an answer with an unusable finish reason is refused.
pub open spec fn unusable_finish_message(fr: Option<ModelFinishReason>) -> Seq<char> {
    if fr matches Some(ModelFinishReason::Length) {
        "model output truncated: finish_reason was length"@
    } else {
        "model returned unusable finish reason"@
    }
}

/// The refusal text for an answer with finish reason `fr`.
pub fn unusable_finish_text(fr: &Option<ModelFinishReason>) -> (s: String)
    ensures
        s@ == unusable_finish_message(*fr),
{
    match fr {
        Some(ModelFinishReason::Length) => "model output truncated: finish_reason was length".to_owned(),
        _ => "model returned unusable finish reason".to_owned(),
    }
}

} // verus!
