use vstd::prelude::*;

use crate::json::{
    find_key, has_key, is_json_string, is_json_string_in, lemma_obj_get_absent,
    lemma_obj_get_first_match, member_is_string, obj_get, object_get, object_has_key, text_eq,
    JsonValue,
};

verus! {

// ─── The expected response shape ──────────────────────────────────────────────

/// Top-level members of a diagnostic response, in their canonical order.
pub open spec fn response_keys() -> Seq<Seq<char>> {
    seq![
        "problem_understanding"@,
        "similar_practical_context"@,
        "first_check"@,
        "result_interpretation"@,
        "alternative_context_assessment"@,
        "active_hypotheses"@,
    ]
}

/// Members of `result_interpretation`, in their canonical order.
pub open spec fn result_interpretation_keys() -> Seq<Seq<char>> {
    seq!["supports_primary_if"@, "supports_competing_if"@, "inconclusive_if"@]
}

/// Allowed values of a hypothesis `source`.
pub open spec fn hypothesis_sources() -> Seq<Seq<char>> {
    seq!["primary_incident"@, "alternative_context"@, "theory_mechanism"@]
}

/// Allowed values of a hypothesis `confidence`.
pub open spec fn hypothesis_confidences() -> Seq<Seq<char>> {
    seq!["low"@, "medium"@, "high"@]
}

/// Every key of `keys` names a member of `entries`.
pub open spec fn has_all_keys(entries: Seq<(String, JsonValue)>, keys: Seq<Seq<char>>) -> bool {
    forall|i: int| 0 <= i < keys.len() ==> has_key(entries, #[trigger] keys[i])
}

/// One active hypothesis: exactly `hypothesis`, `source` and `confidence`.
pub open spec fn hypothesis_item_ok(v: JsonValue) -> bool {
    match v {
        JsonValue::Object(o) => {
            &&& o@.len() == 3
            &&& is_json_string(obj_get(o@, "hypothesis"@))
            &&& is_json_string_in(obj_get(o@, "source"@), hypothesis_sources())
            &&& is_json_string_in(obj_get(o@, "confidence"@), hypothesis_confidences())
        },
        _ => false,
    }
}

/// Two or three well-formed hypotheses.
pub open spec fn hypotheses_ok(v: Option<JsonValue>) -> bool {
    match v {
        Some(JsonValue::Array(a)) => {
            &&& 2 <= a@.len() <= 3
            &&& forall|i: int| 0 <= i < a@.len() ==> hypothesis_item_ok(#[trigger] a@[i])
        },
        _ => false,
    }
}

/// The member values of a result interpretation have the right types.
pub open spec fn result_interpretation_fields_ok(o: Seq<(String, JsonValue)>) -> bool {
    &&& is_json_string(obj_get(o, "supports_primary_if"@))
    &&& is_json_string(obj_get(o, "supports_competing_if"@))
    &&& (obj_get(o, "inconclusive_if"@) matches Some(JsonValue::Null) || is_json_string(
        obj_get(o, "inconclusive_if"@),
    ))
}

/// A result interpretation with exactly its three members.
pub open spec fn result_interpretation_ok(v: Option<JsonValue>) -> bool {
    match v {
        Some(JsonValue::Object(o)) => {
            &&& o@.len() == 3
            &&& has_all_keys(o@, result_interpretation_keys())
            &&& result_interpretation_fields_ok(o@)
        },
        _ => false,
    }
}

/// An alternative-context assessment: `used_as_hypothesis` and `reason`.
pub open spec fn assessment_ok(v: Option<JsonValue>) -> bool {
    match v {
        Some(JsonValue::Object(o)) => {
            &&& o@.len() == 2
            &&& obj_get(o@, "used_as_hypothesis"@) matches Some(JsonValue::Bool(_))
            &&& is_json_string(obj_get(o@, "reason"@))
        },
        _ => false,
    }
}

/// Top-level members other than `result_interpretation` have the right shape.
pub open spec fn top_fields_ok(o: Seq<(String, JsonValue)>) -> bool {
    &&& is_json_string(obj_get(o, "problem_understanding"@))
    &&& is_json_string(obj_get(o, "similar_practical_context"@))
    &&& hypotheses_ok(obj_get(o, "active_hypotheses"@))
    &&& is_json_string(obj_get(o, "first_check"@))
    &&& assessment_ok(obj_get(o, "alternative_context_assessment"@))
}

/// `v` is a diagnostic response of exactly the expected shape.
pub open spec fn response_shape_ok(v: JsonValue) -> bool {
    match v {
        JsonValue::Object(o) => {
            &&& o@.len() == 6
            &&& has_all_keys(o@, response_keys())
            &&& top_fields_ok(o@)
            &&& result_interpretation_ok(obj_get(o@, "result_interpretation"@))
        },
        _ => false,
    }
}

proof fn lemma_reveal_keys()
    ensures
        response_keys()[0] == "problem_understanding"@,
        response_keys()[1] == "similar_practical_context"@,
        response_keys()[2] == "first_check"@,
        response_keys()[3] == "result_interpretation"@,
        response_keys()[4] == "alternative_context_assessment"@,
        response_keys()[5] == "active_hypotheses"@,
        response_keys().len() == 6,
        result_interpretation_keys()[0] == "supports_primary_if"@,
        result_interpretation_keys()[1] == "supports_competing_if"@,
        result_interpretation_keys()[2] == "inconclusive_if"@,
        result_interpretation_keys().len() == 3,
        forall|i: int, j: int|
            0 <= i < j < 6 ==> #[trigger] response_keys()[i] != #[trigger] response_keys()[j],
        forall|i: int, j: int|
            0 <= i < j < 3 ==> #[trigger] result_interpretation_keys()[i]
                != #[trigger] result_interpretation_keys()[j],
{
    reveal_strlit("problem_understanding");
    reveal_strlit("similar_practical_context");
    reveal_strlit("first_check");
    reveal_strlit("result_interpretation");
    reveal_strlit("alternative_context_assessment");
    reveal_strlit("active_hypotheses");
    reveal_strlit("supports_primary_if");
    reveal_strlit("supports_competing_if");
    reveal_strlit("inconclusive_if");
    let k = response_keys();
    let r = result_interpretation_keys();
    assert forall|i: int, j: int| 0 <= i < j < 6 implies #[trigger] k[i] != #[trigger] k[j] by {
        assert(k[i].len() != k[j].len() || k[i][0] != k[j][0] || k[i][1] != k[j][1]);
    }
    assert forall|i: int, j: int| 0 <= i < j < 3 implies #[trigger] r[i] != #[trigger] r[j] by {
        assert(r[i].len() != r[j].len() || r[i][9] != r[j][9]);
    }
}

// ─── Shape check ──────────────────────────────────────────────────────────────

fn string_among(v: Option<&JsonValue>, allowed: &[&str; 3]) -> (r: bool)
    requires
        allowed@.len() == 3,
    ensures
        r == match v {
            Some(JsonValue::String(s)) => seq![allowed[0]@, allowed[1]@, allowed[2]@].contains(
                s@,
            ),
            _ => false,
        },
{
    match v {
        Some(JsonValue::String(s)) => {
            let a = text_eq(s.as_str(), allowed[0]);
            let b = text_eq(s.as_str(), allowed[1]);
            let c = text_eq(s.as_str(), allowed[2]);
            let ghost sq = seq![allowed[0]@, allowed[1]@, allowed[2]@];
            proof {
                if a {
                    assert(sq[0] == s@);
                }
                if b {
                    assert(sq[1] == s@);
                }
                if c {
                    assert(sq[2] == s@);
                }
            }
            a || b || c
        },
        _ => false,
    }
}

fn hypothesis_item_matches(v: &JsonValue) -> (r: bool)
    ensures
        r == hypothesis_item_ok(*v),
{
    match v {
        JsonValue::Object(o) => {
            if o.len() != 3 {
                return false;
            }
            if !member_is_string(o, "hypothesis") {
                return false;
            }
            let sources: [&str; 3] = ["primary_incident", "alternative_context", "theory_mechanism"];
            let confidences: [&str; 3] = ["low", "medium", "high"];
            assert(seq![sources[0]@, sources[1]@, sources[2]@] == hypothesis_sources());
            assert(seq![confidences[0]@, confidences[1]@, confidences[2]@]
                == hypothesis_confidences());
            string_among(object_get(o, "source"), &sources) && string_among(
                object_get(o, "confidence"),
                &confidences,
            )
        },
        _ => false,
    }
}

fn all_hypothesis_items_match(a: &Vec<JsonValue>) -> (r: bool)
    ensures
        r == forall|j: int| 0 <= j < a@.len() ==> hypothesis_item_ok(#[trigger] a@[j]),
{
    let mut i: usize = 0;
    while i < a.len()
        invariant
            i <= a@.len(),
            forall|j: int| 0 <= j < i ==> hypothesis_item_ok(#[trigger] a@[j]),
        decreases a@.len() - i,
    {
        if !hypothesis_item_matches(&a[i]) {
            assert(!hypothesis_item_ok(a@[i as int]));
            return false;
        }
        i = i + 1;
    }
    true
}

fn hypotheses_match(v: Option<&JsonValue>) -> (r: bool)
    ensures
        r == hypotheses_ok(
            match v {
                Some(x) => Some(*x),
                None => None,
            },
        ),
{
    match v {
        Some(JsonValue::Array(a)) => {
            if a.len() < 2 || a.len() > 3 {
                return false;
            }
            all_hypothesis_items_match(a)
        },
        _ => false,
    }
}

fn result_interpretation_fields_match(o: &Vec<(String, JsonValue)>) -> (r: bool)
    ensures
        r == result_interpretation_fields_ok(o@),
{
    if !member_is_string(o, "supports_primary_if") {
        return false;
    }
    if !member_is_string(o, "supports_competing_if") {
        return false;
    }
    match object_get(o, "inconclusive_if") {
        Some(JsonValue::Null) => true,
        Some(JsonValue::String(_)) => true,
        _ => false,
    }
}

fn has_result_interpretation_keys(o: &Vec<(String, JsonValue)>) -> (r: bool)
    ensures
        r == has_all_keys(o@, result_interpretation_keys()),
{
    proof {
        lemma_reveal_keys();
    }
    let r = object_has_key(o, "supports_primary_if") && object_has_key(o, "supports_competing_if")
        && object_has_key(o, "inconclusive_if");
    proof {
        let k = result_interpretation_keys();
        if has_all_keys(o@, k) {
            assert(has_key(o@, k[0]) && has_key(o@, k[1]) && has_key(o@, k[2]));
        }
    }
    r
}

fn result_interpretation_matches(v: Option<&JsonValue>) -> (r: bool)
    ensures
        r == result_interpretation_ok(
            match v {
                Some(x) => Some(*x),
                None => None,
            },
        ),
{
    match v {
        Some(JsonValue::Object(o)) => {
            o.len() == 3 && has_result_interpretation_keys(o) && result_interpretation_fields_match(
                o,
            )
        },
        _ => false,
    }
}

fn assessment_matches(v: Option<&JsonValue>) -> (r: bool)
    ensures
        r == assessment_ok(
            match v {
                Some(x) => Some(*x),
                None => None,
            },
        ),
{
    match v {
        Some(JsonValue::Object(o)) => {
            if o.len() != 2 {
                return false;
            }
            let used = match object_get(o, "used_as_hypothesis") {
                Some(JsonValue::Bool(_)) => true,
                _ => false,
            };
            used && member_is_string(o, "reason")
        },
        _ => false,
    }
}

fn top_fields_match(o: &Vec<(String, JsonValue)>) -> (r: bool)
    ensures
        r == top_fields_ok(o@),
{
    member_is_string(o, "problem_understanding") && member_is_string(
        o,
        "similar_practical_context",
    ) && hypotheses_match(object_get(o, "active_hypotheses")) && member_is_string(
        o,
        "first_check",
    ) && assessment_matches(object_get(o, "alternative_context_assessment"))
}

fn has_response_keys(o: &Vec<(String, JsonValue)>) -> (r: bool)
    ensures
        r == has_all_keys(o@, response_keys()),
{
    proof {
        lemma_reveal_keys();
    }
    let r = object_has_key(o, "problem_understanding") && object_has_key(
        o,
        "similar_practical_context",
    ) && object_has_key(o, "first_check") && object_has_key(o, "result_interpretation")
        && object_has_key(o, "alternative_context_assessment") && object_has_key(
        o,
        "active_hypotheses",
    );
    proof {
        let k = response_keys();
        if has_all_keys(o@, k) {
            assert(has_key(o@, k[0]) && has_key(o@, k[1]) && has_key(o@, k[2]));
            assert(has_key(o@, k[3]) && has_key(o@, k[4]) && has_key(o@, k[5]));
        }
    }
    r
}

/// Whether `v` is a diagnostic response of exactly the expected shape.
pub fn json_matches_expected_shape(v: &JsonValue) -> (r: bool)
    ensures
        r == response_shape_ok(*v),
{
    match v {
        JsonValue::Object(o) => {
            o.len() == 6 && has_response_keys(o) && top_fields_match(o)
                && result_interpretation_matches(object_get(o, "result_interpretation"))
        },
        _ => false,
    }
}

/// Whether a response that fails the shape check is worth a repair request:
/// it is an object with at least one expected top-level member.
pub open spec fn repair_worthwhile(v: JsonValue) -> bool {
    match v {
        JsonValue::Object(o) => exists|i: int| 0 <= i < 6 && has_key(o@, #[trigger] response_keys()[i]),
        _ => false,
    }
}

/// Whether a response is an object naming at least one expected member.
pub fn should_attempt_shape_repair(v: &JsonValue) -> (r: bool)
    ensures
        r == repair_worthwhile(*v),
{
    proof {
        lemma_reveal_keys();
    }
    match v {
        JsonValue::Object(o) => {
            let r = object_has_key(o, "problem_understanding") || object_has_key(
                o,
                "similar_practical_context",
            ) || object_has_key(o, "first_check") || object_has_key(o, "result_interpretation")
                || object_has_key(o, "alternative_context_assessment") || object_has_key(
                o,
                "active_hypotheses",
            );
            proof {
                let ghost k = response_keys();
                if r {
                    if has_key(o@, k[0]) {
                    } else if has_key(o@, k[1]) {
                    } else if has_key(o@, k[2]) {
                    } else if has_key(o@, k[3]) {
                    } else if has_key(o@, k[4]) {
                    } else {
                        assert(has_key(o@, k[5]));
                    }
                }
            }
            r
        },
        _ => false,
    }
}


// ─── Taking members out of an object ──────────────────────────────────────────

proof fn lemma_obj_get_remove(e: Seq<(String, JsonValue)>, i: int, k: Seq<char>)
    requires
        0 <= i < e.len(),
        e[i].0@ != k,
    ensures
        obj_get(e.remove(i), k) == obj_get(e, k),
    decreases i,
{
    if i == 0 {
        assert(e.remove(0) =~= e.drop_first());
    } else {
        assert(e.remove(i)[0] == e[0]);
        if e[0].0@ != k {
            assert(e.remove(i).drop_first() =~= e.drop_first().remove(i - 1));
            lemma_obj_get_remove(e.drop_first(), i - 1, k);
        }
    }
}

/// Lookups in entries whose keys are exactly `keys`, in order, all distinct.
proof fn lemma_obj_get_ordered(n: Seq<(String, JsonValue)>, keys: Seq<Seq<char>>, i: int)
    requires
        n.len() == keys.len(),
        forall|j: int| 0 <= j < n.len() ==> (#[trigger] n[j]).0@ == keys[j],
        forall|a: int, b: int| 0 <= a < b < keys.len() ==> #[trigger] keys[a] != #[trigger] keys[b],
        0 <= i < n.len(),
    ensures
        obj_get(n, keys[i]) == Some(n[i].1),
        has_key(n, keys[i]),
{
    assert forall|j: int| 0 <= j < i implies (#[trigger] n[j]).0@ != keys[i] by {
        assert(keys[j] != keys[i]);
    }
    lemma_obj_get_first_match(n, keys[i], i);
}

/// Removes and returns the first member named `key`; lookups of every other
/// key are unchanged.
fn take_member(entries: &mut Vec<(String, JsonValue)>, key: &str) -> (m: (String, JsonValue))
    requires
        has_key(old(entries)@, key@),
    ensures
        m.0@ == key@,
        obj_get(old(entries)@, key@) == Some(m.1),
        final(entries)@.len() == old(entries)@.len() - 1,
        forall|k: Seq<char>|
            k != key@ ==> #[trigger] obj_get(final(entries)@, k) == obj_get(old(entries)@, k),
{
    let i = find_key(entries, key).unwrap();
    let ghost before = entries@;
    let m = entries.remove(i);
    proof {
        assert forall|k: Seq<char>| k != key@ implies #[trigger] obj_get(entries@, k) == obj_get(
            before,
            k,
        ) by {
            lemma_obj_get_remove(before, i as int, k);
        }
    }
    m
}

// ─── Stripping unknown members ────────────────────────────────────────────────

/// `result_interpretation` is acceptable once stripped of unknown members.
pub open spec fn result_interpretation_ok_after_strip(v: Option<JsonValue>) -> bool {
    match v {
        Some(JsonValue::Object(m)) => if has_all_keys(m@, result_interpretation_keys()) {
            result_interpretation_fields_ok(m@)
        } else {
            result_interpretation_ok(v)
        },
        _ => result_interpretation_ok(v),
    }
}

/// Dropping unknown members (at the top level and inside
/// `result_interpretation`) turns `v` into a response of the expected shape.
pub open spec fn strip_applies(v: JsonValue) -> bool {
    match v {
        JsonValue::Object(o) => {
            &&& has_all_keys(o@, response_keys())
            &&& top_fields_ok(o@)
            &&& result_interpretation_ok_after_strip(obj_get(o@, "result_interpretation"@))
        },
        _ => false,
    }
}

/// `n` holds, in the order of `keys`, the members of `src` named by `keys`
/// (position `except` aside).
pub open spec fn members_in_order(
    n: Seq<(String, JsonValue)>,
    keys: Seq<Seq<char>>,
    src: Seq<(String, JsonValue)>,
    except: int,
) -> bool {
    &&& n.len() == keys.len()
    &&& forall|i: int|
        0 <= i < n.len() ==> (#[trigger] n[i]).0@ == keys[i] && (i != except ==> obj_get(
            src,
            keys[i],
        ) == Some(n[i].1))
}

/// `new` is `old` with unknown members removed when `old` is an object
/// holding all three interpretation members, and `old` itself otherwise.
pub open spec fn result_interpretation_stripped(new: JsonValue, old: Option<JsonValue>) -> bool {
    match old {
        Some(JsonValue::Object(m)) => if has_all_keys(m@, result_interpretation_keys()) {
            new matches JsonValue::Object(k) && members_in_order(
                k@,
                result_interpretation_keys(),
                m@,
                -1,
            )
        } else {
            old == Some(new)
        },
        _ => old == Some(new),
    }
}

/// `s` is `v` reduced to the expected members in canonical order.
pub open spec fn stripped_from(s: JsonValue, v: JsonValue) -> bool {
    match (s, v) {
        (JsonValue::Object(n), JsonValue::Object(o)) => {
            &&& members_in_order(n@, response_keys(), o@, 3)
            &&& result_interpretation_stripped(n@[3].1, obj_get(o@, "result_interpretation"@))
        },
        _ => false,
    }
}

fn result_interpretation_matches_after_strip(v: Option<&JsonValue>) -> (r: bool)
    ensures
        r == result_interpretation_ok_after_strip(
            match v {
                Some(x) => Some(*x),
                None => None,
            },
        ),
{
    match v {
        Some(JsonValue::Object(m)) => {
            if has_result_interpretation_keys(m) {
                result_interpretation_fields_match(m)
            } else {
                result_interpretation_matches(v)
            }
        },
        _ => result_interpretation_matches(v),
    }
}

fn strip_result_interpretation(v: JsonValue) -> (r: JsonValue)
    ensures
        result_interpretation_stripped(r, Some(v)),
{
    proof {
        lemma_reveal_keys();
    }
    match v {
        JsonValue::Object(mut m) => {
            if !has_result_interpretation_keys(&m) {
                return JsonValue::Object(m);
            }
            let ghost m0 = m@;
            let ghost k = result_interpretation_keys();
            assert(has_key(m@, k[0]) && has_key(m@, k[1]) && has_key(m@, k[2]));
            let a = take_member(&mut m, "supports_primary_if");
            assert(obj_get(m@, k[1]) == obj_get(m0, k[1]));
            assert(obj_get(m@, k[2]) == obj_get(m0, k[2]));
            let b = take_member(&mut m, "supports_competing_if");
            assert(obj_get(m@, k[2]) == obj_get(m0, k[2]));
            let c = take_member(&mut m, "inconclusive_if");
            let mut out: Vec<(String, JsonValue)> = Vec::new();
            out.push(a);
            out.push(b);
            out.push(c);
            let ghost n = out@;
            assert(members_in_order(n, k, m0, -1)) by {
                assert forall|i: int| 0 <= i < n.len() implies (#[trigger] n[i]).0@ == k[i] && (i
                    != -1 ==> obj_get(m0, k[i]) == Some(n[i].1)) by {
                    if i == 0 {
                    } else if i == 1 {
                    } else {
                    }
                }
            }
            JsonValue::Object(out)
        },
        other => other,
    }
}

proof fn lemma_stripped_shape(s: JsonValue, v: JsonValue)
    requires
        strip_applies(v),
        stripped_from(s, v),
    ensures
        response_shape_ok(s),
{
    lemma_reveal_keys();
    let keys = response_keys();
    let o = v->Object_0@;
    let n = s->Object_0@;
    assert forall|i: int| 0 <= i < 6 implies obj_get(n, #[trigger] keys[i]) == Some(n[i].1) by {
        lemma_obj_get_ordered(n, keys, i);
    }
    assert(has_all_keys(n, keys)) by {
        assert forall|i: int| 0 <= i < keys.len() implies has_key(n, #[trigger] keys[i]) by {
            lemma_obj_get_ordered(n, keys, i);
        }
    }
    assert(obj_get(n, keys[0]) == obj_get(o, keys[0]));
    assert(obj_get(n, keys[1]) == obj_get(o, keys[1]));
    assert(obj_get(n, keys[2]) == obj_get(o, keys[2]));
    assert(obj_get(n, keys[4]) == obj_get(o, keys[4]));
    assert(obj_get(n, keys[5]) == obj_get(o, keys[5]));
    let old_ri = obj_get(o, keys[3]);
    let new_ri = n[3].1;
    match old_ri {
        Some(JsonValue::Object(m)) => {
            if has_all_keys(m@, result_interpretation_keys()) {
                let rk = result_interpretation_keys();
                let kk = new_ri->Object_0@;
                assert forall|i: int| 0 <= i < 3 implies obj_get(kk, #[trigger] rk[i]) == Some(
                    kk[i].1,
                ) by {
                    lemma_obj_get_ordered(kk, rk, i);
                }
                assert(has_all_keys(kk, rk)) by {
                    assert forall|i: int| 0 <= i < rk.len() implies has_key(kk, #[trigger] rk[i]) by {
                        lemma_obj_get_ordered(kk, rk, i);
                    }
                }
                assert(obj_get(kk, rk[0]) == obj_get(m@, rk[0]));
                assert(obj_get(kk, rk[1]) == obj_get(m@, rk[1]));
                assert(obj_get(kk, rk[2]) == obj_get(m@, rk[2]));
            }
        },
        _ => {},
    }
}

/// Drops members the response shape does not know (at the top level and
/// inside `result_interpretation`) when that yields the expected shape;
/// hands `v` back unchanged otherwise.
pub fn strip_extra_fields(v: JsonValue) -> (r: Result<JsonValue, JsonValue>)
    ensures
        strip_applies(v) ==> (r matches Ok(s) && stripped_from(s, v) && response_shape_ok(s)),
        !strip_applies(v) ==> r == Err::<JsonValue, JsonValue>(v),
{
    proof {
        lemma_reveal_keys();
    }
    let ghost v0 = v;
    match v {
        JsonValue::Object(mut e) => {
            let applies = has_response_keys(&e) && top_fields_match(&e)
                && result_interpretation_matches_after_strip(
                object_get(&e, "result_interpretation"),
            );
            if !applies {
                return Err(JsonValue::Object(e));
            }
            let ghost e0 = e@;
            let ghost k = response_keys();
            assert(has_key(e0, k[0]) && has_key(e0, k[1]) && has_key(e0, k[2]));
            assert(has_key(e0, k[3]) && has_key(e0, k[4]) && has_key(e0, k[5]));
            let pu = take_member(&mut e, "problem_understanding");
            let spc = take_member(&mut e, "similar_practical_context");
            assert(obj_get(e@, k[2]) == obj_get(e0, k[2]));
            let fc = take_member(&mut e, "first_check");
            assert(obj_get(e@, k[3]) == obj_get(e0, k[3]));
            let ri = take_member(&mut e, "result_interpretation");
            assert(obj_get(e@, k[4]) == obj_get(e0, k[4]));
            assert(obj_get(e@, k[5]) == obj_get(e0, k[5]));
            let aca = take_member(&mut e, "alternative_context_assessment");
            assert(obj_get(e@, k[5]) == obj_get(e0, k[5]));
            let ah = take_member(&mut e, "active_hypotheses");
            let (ri_key, ri_value) = ri;
            let ri_value = strip_result_interpretation(ri_value);
            let mut out: Vec<(String, JsonValue)> = Vec::new();
            out.push(pu);
            out.push(spc);
            out.push(fc);
            out.push((ri_key, ri_value));
            out.push(aca);
            out.push(ah);
            let s = JsonValue::Object(out);
            assert(stripped_from(s, v0)) by {
                let n = out@;
                assert forall|i: int| 0 <= i < n.len() implies (#[trigger] n[i]).0@ == k[i] && (i
                    != 3 ==> obj_get(e0, k[i]) == Some(n[i].1)) by {
                    if i == 0 {
                    } else if i == 1 {
                    } else if i == 2 {
                    } else if i == 3 {
                    } else if i == 4 {
                    } else {
                    }
                }
            }
            proof {
                lemma_stripped_shape(s, v0);
            }
            Ok(s)
        },
        other => Err(other),
    }
}


// ─── Unwrapping a single-member wrapper ───────────────────────────────────────

/// `v` is an object with a single member whose value has the expected shape.
pub open spec fn unwrap_applies(v: JsonValue) -> bool {
    match v {
        JsonValue::Object(o) => o@.len() == 1 && response_shape_ok(o@[0].1),
        _ => false,
    }
}

/// Replaces a single-member wrapper object by its member's value when that
/// value has the expected shape; hands `v` back unchanged otherwise.
pub fn unwrap_single_key(v: JsonValue) -> (r: Result<(JsonValue, String), JsonValue>)
    ensures
        unwrap_applies(v) ==> (r matches Ok((inner, key)) && v matches JsonValue::Object(o) && inner
            == o@[0].1 && key == o@[0].0),
        !unwrap_applies(v) ==> r == Err::<(JsonValue, String), JsonValue>(v),
{
    match v {
        JsonValue::Object(mut e) => {
            if e.len() != 1 || !json_matches_expected_shape(&e[0].1) {
                return Err(JsonValue::Object(e));
            }
            let (key, inner) = e.remove(0);
            Ok((inner, key))
        },
        other => Err(other),
    }
}

// ─── Renaming a single misnamed member ────────────────────────────────────────

/// `a` and `b` hold the same JSON: the same scalar, or containers with the
/// same elements (members) in the same order.
pub open spec fn json_same(a: JsonValue, b: JsonValue) -> bool {
    match (a, b) {
        (JsonValue::Object(x), JsonValue::Object(y)) => x@ == y@,
        (JsonValue::Array(x), JsonValue::Array(y)) => x@ == y@,
        (JsonValue::String(x), JsonValue::String(y)) => x@ == y@,
        (JsonValue::Number(x), JsonValue::Number(y)) => x@ == y@,
        _ => a == b,
    }
}

/// Values holding the same JSON agree on the shape check and on whether a
/// repair is worth asking for.
pub proof fn lemma_json_same_shape(a: JsonValue, b: JsonValue)
    requires
        json_same(a, b),
    ensures
        response_shape_ok(a) == response_shape_ok(b),
        repair_worthwhile(a) == repair_worthwhile(b),
{
}

/// `k` is one of the expected top-level member names.
pub open spec fn is_response_key(k: Seq<char>) -> bool {
    response_keys().contains(k)
}

/// Positions of members whose names are not expected.
pub open spec fn extra_indices(e: Seq<(String, JsonValue)>) -> Seq<int>
    decreases e.len(),
{
    if e.len() == 0 {
        Seq::empty()
    } else {
        let r = extra_indices(e.drop_last());
        if !is_response_key(e.last().0@) {
            r.push(e.len() - 1)
        } else {
            r
        }
    }
}

/// `seq![k]` when `cond` holds, the empty sequence otherwise.
pub open spec fn key_if(cond: bool, k: Seq<char>) -> Seq<Seq<char>> {
    if cond {
        seq![k]
    } else {
        Seq::empty()
    }
}

/// Expected member names absent from `e`, in canonical order.
pub open spec fn absent_response_keys(e: Seq<(String, JsonValue)>) -> Seq<Seq<char>> {
    key_if(!has_key(e, "problem_understanding"@), "problem_understanding"@) + key_if(
        !has_key(e, "similar_practical_context"@),
        "similar_practical_context"@,
    ) + key_if(!has_key(e, "first_check"@), "first_check"@) + key_if(
        !has_key(e, "result_interpretation"@),
        "result_interpretation"@,
    ) + key_if(!has_key(e, "alternative_context_assessment"@), "alternative_context_assessment"@)
        + key_if(!has_key(e, "active_hypotheses"@), "active_hypotheses"@)
}

/// `s` is the six-member object `v` with its one unknown member (at `x`)
/// moved to the end under the one missing name `missing`.
pub open spec fn renamed_from(s: JsonValue, v: JsonValue, x: int, missing: Seq<char>) -> bool {
    match (s, v) {
        (JsonValue::Object(n), JsonValue::Object(o)) => {
            &&& 0 <= x < o@.len()
            &&& n@.len() == o@.len()
            &&& n@.take(o@.len() - 1) == o@.remove(x)
            &&& n@[o@.len() - 1].0@ == missing
            &&& n@[o@.len() - 1].1 == o@[x].1
        },
        _ => false,
    }
}

/// `v` has six members, exactly one unknown and exactly one expected name
/// missing, and giving the unknown member that name yields the expected shape.
pub open spec fn rename_applies(v: JsonValue) -> bool {
    match v {
        JsonValue::Object(o) => {
            &&& o@.len() == 6
            &&& extra_indices(o@).len() == 1
            &&& absent_response_keys(o@).len() == 1
            &&& exists|s: JsonValue|
                renamed_from(s, v, extra_indices(o@)[0], absent_response_keys(o@)[0])
                    && #[trigger] response_shape_ok(s)
        },
        _ => false,
    }
}

proof fn lemma_extra_indices_bounded(e: Seq<(String, JsonValue)>)
    ensures
        forall|i: int|
            0 <= i < extra_indices(e).len() ==> 0 <= #[trigger] extra_indices(e)[i] < e.len(),
    decreases e.len(),
{
    if e.len() > 0 {
        lemma_extra_indices_bounded(e.drop_last());
        let r = extra_indices(e.drop_last());
        let t = extra_indices(e);
        assert forall|i: int| 0 <= i < t.len() implies 0 <= #[trigger] t[i] < e.len() by {
            if i < r.len() {
                assert(t[i] == r[i]);
            }
        }
    }
}

proof fn lemma_obj_get_same_views(a: Seq<(String, JsonValue)>, b: Seq<(String, JsonValue)>, k: Seq<char>)
    requires
        a.len() == b.len(),
        forall|j: int| 0 <= j < a.len() ==> (#[trigger] a[j]).0@ == b[j].0@ && a[j].1 == b[j].1,
    ensures
        obj_get(a, k) == obj_get(b, k),
    decreases a.len(),
{
    if a.len() > 0 {
        assert(a[0].0@ == b[0].0@);
        let a1 = a.drop_first();
        let b1 = b.drop_first();
        assert forall|j: int| 0 <= j < a1.len() implies (#[trigger] a1[j]).0@ == b1[j].0@ && a1[j].1
            == b1[j].1 by {
            assert(a1[j] == a[j + 1] && b1[j] == b[j + 1]);
        }
        lemma_obj_get_same_views(a1, b1, k);
    }
}

proof fn lemma_renamed_shape_unique(s1: JsonValue, s2: JsonValue, v: JsonValue, x: int, m: Seq<char>)
    requires
        renamed_from(s1, v, x, m),
        renamed_from(s2, v, x, m),
    ensures
        response_shape_ok(s1) == response_shape_ok(s2),
{
    let a = s1->Object_0@;
    let b = s2->Object_0@;
    let n = v->Object_0@.len();
    assert forall|j: int| 0 <= j < a.len() implies (#[trigger] a[j]).0@ == b[j].0@ && a[j].1 == b[j].1 by {
        if j < n - 1 {
            assert(a[j] == a.take(n - 1)[j]);
            assert(b[j] == b.take(n - 1)[j]);
        }
    }
    assert forall|k: Seq<char>| #[trigger] obj_get(a, k) == obj_get(b, k) by {
        lemma_obj_get_same_views(a, b, k);
    }
    assert(has_all_keys(a, response_keys()) == has_all_keys(b, response_keys()));
}

fn is_response_key_exec(k: &String) -> (r: bool)
    ensures
        r == is_response_key(k@),
{
    proof {
        lemma_reveal_keys();
    }
    let r = text_eq(k.as_str(), "problem_understanding") || text_eq(
        k.as_str(),
        "similar_practical_context",
    ) || text_eq(k.as_str(), "first_check") || text_eq(k.as_str(), "result_interpretation")
        || text_eq(k.as_str(), "alternative_context_assessment") || text_eq(
        k.as_str(),
        "active_hypotheses",
    );
    proof {
        let ks = response_keys();
        if r {
            if k@ == ks[0] {
            } else if k@ == ks[1] {
            } else if k@ == ks[2] {
            } else if k@ == ks[3] {
            } else if k@ == ks[4] {
            } else {
                assert(k@ == ks[5]);
            }
        }
    }
    r
}

/// Number of unknown members and the position of the last one.
fn scan_extra_members(e: &Vec<(String, JsonValue)>) -> (r: (usize, usize))
    ensures
        r.0 == extra_indices(e@).len(),
        r.0 >= 1 ==> r.1 == extra_indices(e@).last(),
{
    let mut count: usize = 0;
    let mut last: usize = 0;
    let mut i: usize = 0;
    while i < e.len()
        invariant
            i <= e@.len(),
            count == extra_indices(e@.take(i as int)).len(),
            count <= i,
            count >= 1 ==> last == extra_indices(e@.take(i as int)).last(),
        decreases e@.len() - i,
    {
        assert(e@.take(i + 1).drop_last() =~= e@.take(i as int));
        if !is_response_key_exec(&e[i].0) {
            count = count + 1;
            last = i;
        }
        i = i + 1;
    }
    assert(e@.take(e@.len() as int) =~= e@);
    (count, last)
}

fn push_key_if(keys: &mut Vec<&'static str>, cond: bool, k: &'static str)
    ensures
        final(keys)@.map_values(|s: &str| s@) == old(keys)@.map_values(|s: &str| s@) + key_if(cond, k@),
{
    let ghost before = keys@.map_values(|s: &str| s@);
    if cond {
        keys.push(k);
        assert(keys@.map_values(|s: &str| s@) =~= before + key_if(cond, k@));
    } else {
        assert(before + key_if(cond, k@) =~= before);
    }
}

fn absent_response_keys_exec(e: &Vec<(String, JsonValue)>) -> (r: Vec<&'static str>)
    ensures
        r@.map_values(|s: &str| s@) == absent_response_keys(e@),
{
    let mut keys: Vec<&'static str> = Vec::new();
    assert(keys@.map_values(|s: &str| s@) =~= Seq::<Seq<char>>::empty());
    push_key_if(&mut keys, !object_has_key(e, "problem_understanding"), "problem_understanding");
    push_key_if(
        &mut keys,
        !object_has_key(e, "similar_practical_context"),
        "similar_practical_context",
    );
    push_key_if(&mut keys, !object_has_key(e, "first_check"), "first_check");
    push_key_if(&mut keys, !object_has_key(e, "result_interpretation"), "result_interpretation");
    push_key_if(
        &mut keys,
        !object_has_key(e, "alternative_context_assessment"),
        "alternative_context_assessment",
    );
    push_key_if(&mut keys, !object_has_key(e, "active_hypotheses"), "active_hypotheses");
    assert(keys@.map_values(|s: &str| s@) =~= absent_response_keys(e@));
    keys
}

/// Gives the one unknown member of a six-member object the one missing
/// expected name when that yields the expected shape, returning the renamed
/// object with the old and new names; hands `v` back unchanged otherwise.
pub fn rename_misnamed_field(v: JsonValue) -> (r: Result<(JsonValue, String, String), JsonValue>)
    ensures
        rename_applies(v) ==> (r matches Ok((s, from, to)) && v matches JsonValue::Object(o)
            && renamed_from(s, v, extra_indices(o@)[0], absent_response_keys(o@)[0])
            && response_shape_ok(s) && from == o@[extra_indices(o@)[0]].0 && to@
            == absent_response_keys(o@)[0]),
        !rename_applies(v) ==> (r matches Err(w) && json_same(w, v)),
{
    let ghost v0 = v;
    match v {
        JsonValue::Object(mut e) => {
            let ghost e0 = e@;
            if e.len() != 6 {
                return Err(JsonValue::Object(e));
            }
            let (extra_count, x) = scan_extra_members(&e);
            let missing = absent_response_keys_exec(&e);
            if extra_count != 1 || missing.len() != 1 {
                return Err(JsonValue::Object(e));
            }
            let ghost xs = extra_indices(e0);
            assert(xs.last() == xs[0]);
            proof {
                lemma_extra_indices_bounded(e0);
            }
            assert(x < e.len());
            let missing_key: &'static str = missing[0];
            assert(missing_key@ == absent_response_keys(e0)[0]);
            let (from, value) = e.remove(x);
            let ghost removed = e@;
            let to = missing_key.to_owned();
            e.push((to, value));
            assert(removed == e0.remove(x as int));
            let candidate = JsonValue::Object(e);
            assert(renamed_from(candidate, v0, x as int, missing_key@)) by {
                assert(e@.take(5) =~= removed);
            }
            if json_matches_expected_shape(&candidate) {
                assert(rename_applies(v0));
                let to = missing_key.to_owned();
                return Ok((candidate, from, to));
            }
            proof {
                assert forall|s: JsonValue| renamed_from(s, v0, x as int, missing_key@) implies !(
                #[trigger] response_shape_ok(s)) by {
                    lemma_renamed_shape_unique(s, candidate, v0, x as int, missing_key@);
                }
            }
            match candidate {
                JsonValue::Object(mut e2) => {
                    let (_, value) = e2.pop().unwrap();
                    e2.insert(x, (from, value));
                    assert(e2@ =~= e0);
                    assert(!rename_applies(v0));
                    Err(JsonValue::Object(e2))
                },
                _ => {
                    proof {
                        assert(false);
                    }
                    Err(candidate)
                },
            }
        },
        other => Err(other),
    }
}


/// An answer in the response shape has two or three active hypotheses,
/// each naming its source as "primary_incident", "alternative_context" or
/// "theory_mechanism" and its confidence as "low", "medium" or "high".
pub proof fn lemma_shape_hypothesis_values(v: JsonValue)
    requires
        response_shape_ok(v),
    ensures
        v matches JsonValue::Object(o) && obj_get(o@, "active_hypotheses"@) matches Some(JsonValue::Array(a))
            && 2 <= a@.len() <= 3 && forall|i: int| 0 <= i < a@.len() ==> {
            &&& (#[trigger] a@[i]) matches JsonValue::Object(h)
            &&& obj_get(h@, "confidence"@) matches Some(JsonValue::String(c))
            &&& (c@ == "low"@ || c@ == "medium"@ || c@ == "high"@)
            &&& obj_get(h@, "source"@) matches Some(JsonValue::String(src))
            &&& (src@ == "primary_incident"@ || src@ == "alternative_context"@ || src@ == "theory_mechanism"@)
        },
{
    let o = v->Object_0;
    let a = obj_get(o@, "active_hypotheses"@)->Some_0->Array_0;
    assert forall|i: int| 0 <= i < a@.len() implies {
        &&& (#[trigger] a@[i]) matches JsonValue::Object(h)
        &&& obj_get(h@, "confidence"@) matches Some(JsonValue::String(c))
        &&& (c@ == "low"@ || c@ == "medium"@ || c@ == "high"@)
        &&& obj_get(h@, "source"@) matches Some(JsonValue::String(src))
        &&& (src@ == "primary_incident"@ || src@ == "alternative_context"@ || src@ == "theory_mechanism"@)
    } by {
        assert(hypothesis_item_ok(a@[i]));
        let h = a@[i]->Object_0;
        let c = obj_get(h@, "confidence"@)->Some_0->String_0;
        let k = choose|k: int| 0 <= k < hypothesis_confidences().len() && hypothesis_confidences()[k] == c@;
        let src = obj_get(h@, "source"@)->Some_0->String_0;
        let m = choose|m: int| 0 <= m < hypothesis_sources().len() && hypothesis_sources()[m] == src@;
    }
}


/// An answer in the response shape is an object of six members:
/// `problem_understanding`, `similar_practical_context` and `first_check`
/// are strings; `result_interpretation` has exactly `supports_primary_if`
/// and `supports_competing_if` (strings) and `inconclusive_if` (a string
/// or null); `alternative_context_assessment` has exactly
/// `used_as_hypothesis` (a boolean) and `reason` (a string); and each
/// active hypothesis has exactly `hypothesis` (a string), `source` and
/// `confidence`.
pub proof fn lemma_shape_members(v: JsonValue)
    requires
        response_shape_ok(v),
    ensures
        v matches JsonValue::Object(o) && {
            &&& o@.len() == 6
            &&& obj_get(o@, "problem_understanding"@) matches Some(JsonValue::String(_))
            &&& obj_get(o@, "similar_practical_context"@) matches Some(JsonValue::String(_))
            &&& obj_get(o@, "first_check"@) matches Some(JsonValue::String(_))
            &&& obj_get(o@, "result_interpretation"@) matches Some(JsonValue::Object(r)) && {
                &&& r@.len() == 3
                &&& obj_get(r@, "supports_primary_if"@) matches Some(JsonValue::String(_))
                &&& obj_get(r@, "supports_competing_if"@) matches Some(JsonValue::String(_))
                &&& (is_json_string(obj_get(r@, "inconclusive_if"@)) || obj_get(r@, "inconclusive_if"@)
                    == Some(JsonValue::Null))
            }
            &&& obj_get(o@, "alternative_context_assessment"@) matches Some(JsonValue::Object(x)) && {
                &&& x@.len() == 2
                &&& obj_get(x@, "used_as_hypothesis"@) matches Some(JsonValue::Bool(_))
                &&& obj_get(x@, "reason"@) matches Some(JsonValue::String(_))
            }
            &&& obj_get(o@, "active_hypotheses"@) matches Some(JsonValue::Array(a)) && forall|i: int|
                0 <= i < a@.len() ==> {
                    &&& (#[trigger] a@[i]) matches JsonValue::Object(h)
                    &&& h@.len() == 3
                    &&& obj_get(h@, "hypothesis"@) matches Some(JsonValue::String(_))
                }
        },
{
    let o = v->Object_0;
    let a = obj_get(o@, "active_hypotheses"@)->Some_0->Array_0;
    assert forall|i: int| 0 <= i < a@.len() implies {
        &&& (#[trigger] a@[i]) matches JsonValue::Object(h)
        &&& h@.len() == 3
        &&& obj_get(h@, "hypothesis"@) matches Some(JsonValue::String(_))
    } by {
        assert(hypothesis_item_ok(a@[i]));
    }
}

/// Every hypothesis object of exactly three members, with a string
/// `hypothesis`, a `source` among "primary_incident",
/// "alternative_context" and "theory_mechanism", and a `confidence` among
/// "low", "medium" and "high", is a well-formed active hypothesis.
pub proof fn lemma_hypothesis_item_accepted(o: Vec<(String, JsonValue)>)
    requires
        o@.len() == 3,
        obj_get(o@, "hypothesis"@) matches Some(JsonValue::String(_)),
        obj_get(o@, "source"@) matches Some(JsonValue::String(s)) && (s@ == "primary_incident"@ || s@
            == "alternative_context"@ || s@ == "theory_mechanism"@),
        obj_get(o@, "confidence"@) matches Some(JsonValue::String(c)) && (c@ == "low"@ || c@ == "medium"@ || c@
            == "high"@),
    ensures
        hypothesis_item_ok(JsonValue::Object(o)),
{
    let s = obj_get(o@, "source"@)->Some_0->String_0;
    let c = obj_get(o@, "confidence"@)->Some_0->String_0;
    if s@ == "primary_incident"@ {
        assert(hypothesis_sources()[0] == s@);
    } else if s@ == "alternative_context"@ {
        assert(hypothesis_sources()[1] == s@);
    } else {
        assert(hypothesis_sources()[2] == s@);
    }
    if c@ == "low"@ {
        assert(hypothesis_confidences()[0] == c@);
    } else if c@ == "medium"@ {
        assert(hypothesis_confidences()[1] == c@);
    } else {
        assert(hypothesis_confidences()[2] == c@);
    }
}

} // verus!
