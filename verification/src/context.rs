use vstd::prelude::*;

verus! {

/// `tracing::Span`, a handle to a tracing span; carried through unopened.
#[verifier::external_type_specification]
#[verifier::external_body]
pub struct ExTracingSpan(tracing::Span);

/// `Clone` of `tracing::Span` (a new handle to the same span); nothing
/// about the handle is stated.
pub assume_specification[ <tracing::Span as Clone>::clone ](span: &tracing::Span) -> (r: tracing::Span);

/// Calls `tracing::Span::none`, which builds a span that records nothing;
/// nothing about the span is stated.
#[verifier::external_body]
fn disabled_span() -> (s: tracing::Span) {
    tracing::Span::none()
}

/// The OpenInference tracing parent under which pipeline steps report.
#[derive(Debug, Clone)]
pub struct OpenInferenceContext {
    pub root_span: tracing::Span,
}

/// Per-request context handed through the pipeline.
#[derive(Debug, Clone)]
pub struct Context {
    pub open_inference: OpenInferenceContext,
}

impl Context {
    pub fn new(open_inference: OpenInferenceContext) -> (c: Self)
        ensures
            c.open_inference == open_inference,
    {
        Context { open_inference }
    }

    /// A context whose spans record nothing.
    pub fn noop() -> (c: Self) {
        Context { open_inference: OpenInferenceContext { root_span: disabled_span() } }
    }
}

} // verus!
