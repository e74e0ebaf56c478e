use vstd::prelude::*;

use crate::chunk_selection::{PromptIncidentEvidenceChunk, PromptTheoryEvidenceChunk};
use crate::json::{text_eq, JsonValue};
use crate::shared_types::{string_views, DiscriminatingCheck, IncidentPhase, StructuredUserQueryTerm};
use crate::text::{contains_seq, count_matches, count_text, lemma_replace_first_inserts, replace_first_seq};

verus! {

/// Where the serialized JSON context goes in a response prompt template.
pub const JSON_CONTEXT_PLACEHOLDER: &'static str = "{{json_context}}";

/// A response prompt read from a prompt asset file: the template with its
/// context placeholder, the response schema and the policy constraints
/// handed to the model.
#[derive(Debug)]
pub struct ContextPromptAsset {
    pub version: String,
    pub name: String,
    pub template: String,
    pub context_placeholder: String,
    pub required_placeholders: Vec<String>,
    pub response_schema: JsonValue,
    pub policy_constraints: Vec<String>,
}

/// Which kinds of evidence a diagnostic-update prompt carries.
#[derive(Clone, Debug, PartialEq, Eq)]
pub struct EvidenceTopology {
    pub primary_evidence_roles: Vec<String>,
    pub alternative_context_present: bool,
    pub alternative_context_case_ids: Vec<String>,
    pub theory_evidence_present: bool,
}

/// A rendered prompt with the schema of its answer and the chunks it holds.
#[derive(Debug)]
pub struct PromptContextAssemblyOutput {
    pub prompt: String,
    pub response_schema: JsonValue,
    pub evidence_topology: Option<EvidenceTopology>,
    pub incident_evidence_chunks: Vec<PromptIncidentEvidenceChunk>,
    pub theory_chunks: Vec<PromptTheoryEvidenceChunk>,
}

/// What is wrong with a response prompt asset, if anything: the template
/// must hold the context placeholder exactly once, the asset must name it
/// and require it alone, give policy constraints, and carry an object
/// schema.
pub open spec fn context_asset_problem(a: ContextPromptAsset) -> Option<Seq<char>> {
    let n = count_matches(a.template@, JSON_CONTEXT_PLACEHOLDER@);
    if n == 0 {
        Some("template must contain exactly one {{json_context}} placeholder"@)
    } else if n > 1 {
        Some("template must contain exactly one {{json_context}} placeholder, found more than one"@)
    } else if a.context_placeholder@ != JSON_CONTEXT_PLACEHOLDER@ {
        Some("context_placeholder must be '{{json_context}}', got '"@ + a.context_placeholder@ + "'"@)
    } else if string_views(a.required_placeholders@) != seq!["json_context"@] {
        Some("required_placeholders must contain exactly [\"json_context\"]"@)
    } else if a.policy_constraints@.len() == 0 {
        Some("policy_constraints must be non-empty"@)
    } else if !(a.response_schema is Object) {
        Some("response_schema must be a JSON object"@)
    } else {
        None
    }
}

/// Checks a response prompt asset against `context_asset_problem`.
pub fn check_context_asset(a: &ContextPromptAsset) -> (r: Result<(), String>)
    ensures
        match context_asset_problem(*a) {
            Some(m) => r matches Err(x) && x@ == m,
            None => r is Ok,
        },
{
    let n = count_text(&a.template, JSON_CONTEXT_PLACEHOLDER);
    if n == 0 {
        return Err("template must contain exactly one {{json_context}} placeholder".to_owned());
    }
    if n > 1 {
        return Err(
            "template must contain exactly one {{json_context}} placeholder, found more than one".to_owned(),
        );
    }
    if !text_eq(a.context_placeholder.as_str(), JSON_CONTEXT_PLACEHOLDER) {
        let mut m = "context_placeholder must be '{{json_context}}', got '".to_owned();
        m.append(a.context_placeholder.as_str());
        m.append("'");
        return Err(m);
    }
    let required_ok = a.required_placeholders.len() == 1 && text_eq(
        a.required_placeholders[0].as_str(),
        "json_context",
    );
    proof {
        if required_ok {
            assert(string_views(a.required_placeholders@) =~= seq!["json_context"@]);
        } else if a.required_placeholders@.len() == 1 {
            assert(string_views(a.required_placeholders@)[0] == a.required_placeholders@[0]@);
            assert(seq!["json_context"@][0] == "json_context"@);
            assert(string_views(a.required_placeholders@)[0] != seq!["json_context"@][0]);
        } else {
            assert(string_views(a.required_placeholders@).len() != seq!["json_context"@].len());
        }
    }
    if !required_ok {
        return Err("required_placeholders must contain exactly [\"json_context\"]".to_owned());
    }
    if a.policy_constraints.len() == 0 {
        return Err("policy_constraints must be non-empty".to_owned());
    }
    match &a.response_schema {
        JsonValue::Object(_) => Ok(()),
        _ => Err("response_schema must be a JSON object".to_owned()),
    }
}

/// The non-empty texts of `s`, in order.
pub open spec fn non_empty_texts(s: Seq<Seq<char>>) -> Seq<Seq<char>>
    decreases s.len(),
{
    if s.len() == 0 {
        Seq::empty()
    } else if s.last().len() == 0 {
        non_empty_texts(s.drop_last())
    } else {
        non_empty_texts(s.drop_last()).push(s.last())
    }
}

/// The texts of `s` without repeats, each at its first occurrence.
pub open spec fn first_occurrences(s: Seq<Seq<char>>) -> Seq<Seq<char>>
    decreases s.len(),
{
    if s.len() == 0 {
        Seq::empty()
    } else {
        let rest = first_occurrences(s.drop_last());
        if rest.contains(s.last()) {
            rest
        } else {
            rest.push(s.last())
        }
    }
}

/// The term texts of structured query terms.
pub open spec fn term_texts(terms: Seq<StructuredUserQueryTerm>) -> Seq<Seq<char>> {
    terms.map_values(|t: StructuredUserQueryTerm| t.term@)
}

/// The questions of discriminating checks.
pub open spec fn check_questions(checks: Seq<DiscriminatingCheck>) -> Seq<Seq<char>> {
    checks.map_values(|c: DiscriminatingCheck| c.question@)
}

/// The symptoms and then the user-visible impacts of each phase, phase by
/// phase.
pub open spec fn phase_texts(phases: Seq<IncidentPhase>) -> Seq<Seq<char>>
    decreases phases.len(),
{
    if phases.len() == 0 {
        Seq::empty()
    } else {
        phase_texts(phases.drop_last()) + string_views(phases.last().symptoms@) + string_views(
            phases.last().user_visible_impact@,
        )
    }
}

/// The present texts among two optional ones, in order.
pub open spec fn present_texts(a: Option<String>, b: Option<String>) -> Seq<Seq<char>> {
    let first = match a {
        Some(x) => seq![x@],
        None => Seq::empty(),
    };
    match b {
        Some(y) => first.push(y@),
        None => first,
    }
}

/// Appends the non-empty texts of `v` to `out`.
pub fn push_non_empty(out: &mut Vec<String>, v: &Vec<String>)
    ensures
        string_views(final(out)@) == string_views(old(out)@) + non_empty_texts(string_views(v@)),
{
    let ghost start = string_views(out@);
    let mut i: usize = 0;
    while i < v.len()
        invariant
            i <= v@.len(),
            string_views(out@) == start + non_empty_texts(string_views(v@.take(i as int))),
        decreases v@.len() - i,
    {
        let ghost before = out@;
        assert(string_views(v@.take(i + 1)).drop_last() =~= string_views(v@.take(i as int)));
        assert(string_views(v@.take(i + 1)).last() == v@[i as int]@);
        if v[i].unicode_len() > 0 {
            out.push(v[i].clone());
            assert(string_views(out@) =~= string_views(before).push(v@[i as int]@));
        }
        i = i + 1;
    }
    assert(v@.take(v@.len() as int) =~= v@);
}

/// The non-empty texts of `v`, in order.
pub fn non_empty_copies(v: &Vec<String>) -> (r: Vec<String>)
    ensures
        string_views(r@) == non_empty_texts(string_views(v@)),
{
    let mut r: Vec<String> = Vec::new();
    push_non_empty(&mut r, v);
    assert(string_views(Seq::<String>::empty()) =~= Seq::<Seq<char>>::empty());
    assert(Seq::<Seq<char>>::empty() + non_empty_texts(string_views(v@)) =~= non_empty_texts(
        string_views(v@),
    ));
    r
}

/// The texts of `v` without repeats, each at its first occurrence.
pub fn first_occurrence_copies(v: &Vec<String>) -> (r: Vec<String>)
    ensures
        string_views(r@) == first_occurrences(string_views(v@)),
{
    let mut r: Vec<String> = Vec::new();
    let mut i: usize = 0;
    while i < v.len()
        invariant
            i <= v@.len(),
            string_views(r@) == first_occurrences(string_views(v@.take(i as int))),
        decreases v@.len() - i,
    {
        assert(string_views(v@.take(i + 1)).drop_last() =~= string_views(v@.take(i as int)));
        assert(string_views(v@.take(i + 1)).last() == v@[i as int]@);
        if !crate::chunk_selection::contains_text(&r, &v[i]) {
            let ghost before = r@;
            r.push(v[i].clone());
            assert(string_views(r@) =~= string_views(before).push(v@[i as int]@));
        }
        i = i + 1;
    }
    assert(v@.take(v@.len() as int) =~= v@);
    r
}

/// The term texts of structured query terms, in order.
pub fn term_text_list(terms: &Vec<StructuredUserQueryTerm>) -> (r: Vec<String>)
    ensures
        string_views(r@) == term_texts(terms@),
{
    let mut r: Vec<String> = Vec::new();
    let mut i: usize = 0;
    while i < terms.len()
        invariant
            i <= terms@.len(),
            string_views(r@) == term_texts(terms@.take(i as int)),
        decreases terms@.len() - i,
    {
        let ghost before = r@;
        r.push(terms[i].term.clone());
        assert(string_views(r@) =~= string_views(before).push(terms@[i as int].term@));
        assert(term_texts(terms@.take(i + 1)) =~= term_texts(terms@.take(i as int)).push(
            terms@[i as int].term@,
        ));
        i = i + 1;
    }
    assert(terms@.take(terms@.len() as int) =~= terms@);
    r
}

/// The questions of discriminating checks, in order.
pub fn check_question_list(checks: &Vec<DiscriminatingCheck>) -> (r: Vec<String>)
    ensures
        string_views(r@) == check_questions(checks@),
{
    let mut r: Vec<String> = Vec::new();
    let mut i: usize = 0;
    while i < checks.len()
        invariant
            i <= checks@.len(),
            string_views(r@) == check_questions(checks@.take(i as int)),
        decreases checks@.len() - i,
    {
        let ghost before = r@;
        r.push(checks[i].question.clone());
        assert(string_views(r@) =~= string_views(before).push(checks@[i as int].question@));
        assert(check_questions(checks@.take(i + 1)) =~= check_questions(checks@.take(i as int)).push(
            checks@[i as int].question@,
        ));
        i = i + 1;
    }
    assert(checks@.take(checks@.len() as int) =~= checks@);
    r
}

/// The symptoms and user-visible impacts of the phases, phase by phase.
pub fn phase_text_list(phases: &Vec<IncidentPhase>) -> (r: Vec<String>)
    ensures
        string_views(r@) == phase_texts(phases@),
{
    let mut r: Vec<String> = Vec::new();
    let mut i: usize = 0;
    while i < phases.len()
        invariant
            i <= phases@.len(),
            string_views(r@) == phase_texts(phases@.take(i as int)),
        decreases phases@.len() - i,
    {
        assert(phases@.take(i + 1).drop_last() =~= phases@.take(i as int));
        assert(phases@.take(i + 1).last() == phases@[i as int]);
        append_texts(&mut r, &phases[i].symptoms);
        append_texts(&mut r, &phases[i].user_visible_impact);
        i = i + 1;
    }
    assert(phases@.take(phases@.len() as int) =~= phases@);
    r
}

/// Appends copies of `v` to `out`.
pub fn append_texts(out: &mut Vec<String>, v: &Vec<String>)
    ensures
        string_views(final(out)@) == string_views(old(out)@) + string_views(v@),
{
    let ghost start = string_views(out@);
    let mut i: usize = 0;
    while i < v.len()
        invariant
            i <= v@.len(),
            string_views(out@) == start + string_views(v@.take(i as int)),
        decreases v@.len() - i,
    {
        let ghost before = out@;
        out.push(v[i].clone());
        assert(string_views(out@) =~= string_views(before).push(v@[i as int]@));
        assert(string_views(v@.take(i + 1)) =~= string_views(v@.take(i as int)).push(v@[i as int]@));
        i = i + 1;
    }
    assert(v@.take(v@.len() as int) =~= v@);
}

/// The present texts among two optional ones, in order.
pub fn present_text_list(a: &Option<String>, b: &Option<String>) -> (r: Vec<String>)
    ensures
        string_views(r@) == present_texts(*a, *b),
{
    let mut r: Vec<String> = Vec::new();
    match a {
        Some(x) => r.push(x.clone()),
        None => {},
    }
    let ghost mid = r@;
    match b {
        Some(y) => r.push(y.clone()),
        None => {},
    }
    assert(string_views(r@) =~= present_texts(*a, *b));
    r
}


/// A prompt asset that passes its checks holds its context placeholder
/// exactly once, so the rendered prompt carries the whole serialized
/// context.
pub proof fn lemma_rendered_prompt_holds_context(a: ContextPromptAsset, context_json: Seq<char>)
    requires
        context_asset_problem(a) is None,
    ensures
        contains_seq(replace_first_seq(a.template@, a.context_placeholder@, context_json), context_json),
{
    lemma_replace_first_inserts(a.template@, a.context_placeholder@, context_json);
}

} // verus!
