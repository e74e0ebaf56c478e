use vstd::prelude::*;

verus! {

/// A JSON document.  Numbers keep their textual form; an object keeps its
/// members in order, and a key is looked up at its first occurrence.
#[derive(Debug, PartialEq)]
pub enum JsonValue {
    Null,
    Bool(bool),
    Number(String),
    String(String),
    Array(Vec<JsonValue>),
    Object(Vec<(String, JsonValue)>),
}

/// The value of the first member of `entries` named `key`.
pub open spec fn obj_get(entries: Seq<(String, JsonValue)>, key: Seq<char>) -> Option<JsonValue>
    decreases entries.len(),
{
    if entries.len() == 0 {
        None
    } else if entries[0].0@ == key {
        Some(entries[0].1)
    } else {
        obj_get(entries.drop_first(), key)
    }
}

/// `entries` has a member named `key`.
pub open spec fn has_key(entries: Seq<(String, JsonValue)>, key: Seq<char>) -> bool {
    obj_get(entries, key) is Some
}

/// The value is present and a JSON string.
pub open spec fn is_json_string(v: Option<JsonValue>) -> bool {
    v matches Some(JsonValue::String(_))
}

/// The value is present and a JSON string among `allowed`.
pub open spec fn is_json_string_in(v: Option<JsonValue>, allowed: Seq<Seq<char>>) -> bool {
    match v {
        Some(JsonValue::String(s)) => allowed.contains(s@),
        _ => false,
    }
}

/// Equality of two texts: true exactly when both hold the same characters.
pub(crate) fn text_eq(a: &str, b: &str) -> (r: bool)
    ensures
        r == (a@ == b@),
{
    let n = a.unicode_len();
    if n != b.unicode_len() {
        return false;
    }
    let mut i: usize = 0;
    while i < n
        invariant
            n == a@.len(),
            n == b@.len(),
            i <= n,
            forall|j: int| 0 <= j < i ==> a@[j] == b@[j],
        decreases n - i,
    {
        if a.get_char(i) != b.get_char(i) {
            return false;
        }
        i = i + 1;
    }
    assert(a@ =~= b@);
    true
}

/// A member named `key` with no earlier member of that name is the one
/// lookup finds.
pub proof fn lemma_obj_get_first_match(entries: Seq<(String, JsonValue)>, key: Seq<char>, i: int)
    requires
        0 <= i < entries.len(),
        entries[i].0@ == key,
        forall|j: int| 0 <= j < i ==> (#[trigger] entries[j]).0@ != key,
    ensures
        obj_get(entries, key) == Some(entries[i].1),
    decreases i,
{
    if i > 0 {
        let rest = entries.drop_first();
        assert forall|j: int| 0 <= j < i - 1 implies (#[trigger] rest[j]).0@ != key by {
            assert(rest[j] == entries[j + 1]);
        }
        lemma_obj_get_first_match(rest, key, i - 1);
    }
}

/// With no member named `key`, lookup finds nothing.
pub proof fn lemma_obj_get_absent(entries: Seq<(String, JsonValue)>, key: Seq<char>)
    requires
        forall|j: int| 0 <= j < entries.len() ==> (#[trigger] entries[j]).0@ != key,
    ensures
        obj_get(entries, key) is None,
    decreases entries.len(),
{
    if entries.len() > 0 {
        let rest = entries.drop_first();
        assert forall|j: int| 0 <= j < rest.len() implies (#[trigger] rest[j]).0@ != key by {
            assert(rest[j] == entries[j + 1]);
        }
        lemma_obj_get_absent(rest, key);
    }
}

/// Position of the first member named `key`, if any.
pub fn find_key(entries: &Vec<(String, JsonValue)>, key: &str) -> (r: Option<usize>)
    ensures
        match r {
            Some(i) => i < entries@.len() && entries@[i as int].0@ == key@ && obj_get(
                entries@,
                key@,
            ) == Some(entries@[i as int].1) && forall|j: int|
                0 <= j < i ==> (#[trigger] entries@[j]).0@ != key@,
            None => obj_get(entries@, key@) is None && forall|j: int|
                0 <= j < entries@.len() ==> (#[trigger] entries@[j]).0@ != key@,
        },
{
    let mut i: usize = 0;
    while i < entries.len()
        invariant
            i <= entries@.len(),
            forall|j: int| 0 <= j < i ==> (#[trigger] entries@[j]).0@ != key@,
        decreases entries@.len() - i,
    {
        if text_eq(entries[i].0.as_str(), key) {
            proof {
                lemma_obj_get_first_match(entries@, key@, i as int);
            }
            return Some(i);
        }
        i = i + 1;
    }
    proof {
        lemma_obj_get_absent(entries@, key@);
    }
    None
}

/// The value of the first member named `key`, if any.
pub fn object_get<'a>(entries: &'a Vec<(String, JsonValue)>, key: &str) -> (r: Option<
    &'a JsonValue,
>)
    ensures
        match r {
            Some(v) => obj_get(entries@, key@) == Some(*v),
            None => obj_get(entries@, key@) is None,
        },
{
    match find_key(entries, key) {
        Some(i) => Some(&entries[i].1),
        None => None,
    }
}

/// Whether `entries` has a member named `key`.
pub fn object_has_key(entries: &Vec<(String, JsonValue)>, key: &str) -> (r: bool)
    ensures
        r == has_key(entries@, key@),
{
    find_key(entries, key).is_some()
}

/// Whether the member named `key` is a JSON string.
pub fn member_is_string(entries: &Vec<(String, JsonValue)>, key: &str) -> (r: bool)
    ensures
        r == is_json_string(obj_get(entries@, key@)),
{
    match object_get(entries, key) {
        Some(JsonValue::String(_)) => true,
        _ => false,
    }
}

} // verus!

verus! {

/// `a` and `b` hold the same JSON document, nested at most `d` levels deep:
/// the same scalar, or containers whose members agree in order, name and
/// value.
pub open spec fn json_equiv_within(a: JsonValue, b: JsonValue, d: nat) -> bool
    decreases d,
{
    if d == 0 {
        false
    } else {
        match (a, b) {
            (JsonValue::Null, JsonValue::Null) => true,
            (JsonValue::Bool(x), JsonValue::Bool(y)) => x == y,
            (JsonValue::Number(x), JsonValue::Number(y)) => x@ == y@,
            (JsonValue::String(x), JsonValue::String(y)) => x@ == y@,
            (JsonValue::Array(x), JsonValue::Array(y)) => x@.len() == y@.len() && forall|i: int|
                0 <= i < x@.len() ==> json_equiv_within(
                    #[trigger] x@[i],
                    y@[i],
                    (d - 1) as nat,
                ),
            (JsonValue::Object(x), JsonValue::Object(y)) => x@.len() == y@.len() && forall|i: int|
                0 <= i < x@.len() ==> (#[trigger] x@[i]).0@ == y@[i].0@ && json_equiv_within(
                    x@[i].1,
                    y@[i].1,
                    (d - 1) as nat,
                ),
            _ => false,
        }
    }
}

/// `a` and `b` hold the same JSON document.
pub open spec fn json_equiv(a: JsonValue, b: JsonValue) -> bool {
    exists|d: nat| json_equiv_within(a, b, d)
}

proof fn lemma_equiv_within_mono(a: JsonValue, b: JsonValue, d: nat, e: nat)
    requires
        json_equiv_within(a, b, d),
        d <= e,
    ensures
        json_equiv_within(a, b, e),
    decreases d,
{
    match (a, b) {
        (JsonValue::Array(x), JsonValue::Array(y)) => {
            assert forall|i: int| 0 <= i < x@.len() implies json_equiv_within(
                #[trigger] x@[i],
                y@[i],
                (e - 1) as nat,
            ) by {
                lemma_equiv_within_mono(x@[i], y@[i], (d - 1) as nat, (e - 1) as nat);
            }
        },
        (JsonValue::Object(x), JsonValue::Object(y)) => {
            assert forall|i: int| 0 <= i < x@.len() implies (#[trigger] x@[i]).0@ == y@[i].0@
                && json_equiv_within(x@[i].1, y@[i].1, (e - 1) as nat) by {
                lemma_equiv_within_mono(x@[i].1, y@[i].1, (d - 1) as nat, (e - 1) as nat);
            }
        },
        _ => {},
    }
}

fn copy_json_within(v: &JsonValue) -> (r: (JsonValue, Ghost<nat>))
    ensures
        json_equiv_within(r.0, *v, r.1@),
    decreases v,
{
    match v {
        JsonValue::Null => (JsonValue::Null, Ghost(1)),
        JsonValue::Bool(b) => (JsonValue::Bool(*b), Ghost(1)),
        JsonValue::Number(n) => (JsonValue::Number(n.clone()), Ghost(1)),
        JsonValue::String(s) => (JsonValue::String(s.clone()), Ghost(1)),
        JsonValue::Array(items) => {
            let mut out: Vec<JsonValue> = Vec::new();
            let ghost mut depth: nat = 0;
            let mut i: usize = 0;
            while i < items.len()
                invariant
                    *v is Array,
                    v->Array_0 == *items,
                    i <= items@.len(),
                    out@.len() == i,
                    forall|j: int| 0 <= j < i ==> json_equiv_within(#[trigger] out@[j], items@[j], depth),
                decreases items@.len() - i,
            {
                proof {
                    assert(decreases_to!(*v => v->Array_0));
                    assert(decreases_to!(*items => items@));
                    assert(decreases_to!(items@ => items@[i as int]));
                }
                let (c, Ghost(dc)) = copy_json_within(&items[i]);
                let ghost old_depth = depth;
                proof {
                    depth = if dc > depth { dc } else { depth };
                    assert forall|j: int| 0 <= j < i implies json_equiv_within(
                        #[trigger] out@[j],
                        items@[j],
                        depth,
                    ) by {
                        lemma_equiv_within_mono(out@[j], items@[j], old_depth, depth);
                    }
                    lemma_equiv_within_mono(c, items@[i as int], dc, depth);
                }
                out.push(c);
                i = i + 1;
            }
            (JsonValue::Array(out), Ghost(depth + 1))
        },
        JsonValue::Object(entries) => {
            let mut out: Vec<(String, JsonValue)> = Vec::new();
            let ghost mut depth: nat = 0;
            let mut i: usize = 0;
            while i < entries.len()
                invariant
                    *v is Object,
                    v->Object_0 == *entries,
                    i <= entries@.len(),
                    out@.len() == i,
                    forall|j: int| 0 <= j < i ==> (#[trigger] out@[j]).0@ == entries@[j].0@
                        && json_equiv_within(out@[j].1, entries@[j].1, depth),
                decreases entries@.len() - i,
            {
                proof {
                    assert(decreases_to!(*v => v->Object_0));
                    assert(decreases_to!(*entries => entries@));
                    assert(decreases_to!(entries@ => entries@[i as int]));
                    assert(decreases_to!(entries@[i as int] => entries@[i as int].1));
                }
                let (c, Ghost(dc)) = copy_json_within(&entries[i].1);
                let ghost old_depth = depth;
                proof {
                    depth = if dc > depth { dc } else { depth };
                    assert forall|j: int| 0 <= j < i implies (#[trigger] out@[j]).0@ == entries@[j].0@
                        && json_equiv_within(out@[j].1, entries@[j].1, depth) by {
                        lemma_equiv_within_mono(out@[j].1, entries@[j].1, old_depth, depth);
                    }
                    lemma_equiv_within_mono(c, entries@[i as int].1, dc, depth);
                }
                out.push((entries[i].0.clone(), c));
                i = i + 1;
            }
            (JsonValue::Object(out), Ghost(depth + 1))
        },
    }
}

/// A copy of `v`: the same JSON document.
pub fn copy_json(v: &JsonValue) -> (r: JsonValue)
    ensures
        json_equiv(r, *v),
{
    let (r, Ghost(d)) = copy_json_within(v);
    r
}

/// A copy of a list of strings.
pub fn copy_strings(v: &Vec<String>) -> (r: Vec<String>)
    ensures
        r@ == v@,
{
    let mut out: Vec<String> = Vec::new();
    let mut i: usize = 0;
    while i < v.len()
        invariant
            i <= v@.len(),
            out@ == v@.take(i as int),
        decreases v@.len() - i,
    {
        out.push(v[i].clone());
        assert(out@ =~= v@.take(i + 1));
        i = i + 1;
    }
    assert(v@.take(v@.len() as int) =~= v@);
    out
}


// ─── JSON text ────────────────────────────────────────────────────────────────

/// `serde_json::Value`, the JSON value of the `serde_json` and `jsonschema`
/// crates.
#[verifier::external_type_specification]
#[verifier::external_body]
pub struct ExSerdeJsonValue(serde_json::Value);

/// Builds the `serde_json::Value` that holds the same JSON, member for
/// member (of a repeated object member the last one stays, as `serde_json`
/// keeps it when it parses text); nothing is stated of the opaque result.
#[verifier::external_body]
pub(crate) fn to_serde_value(v: &JsonValue) -> serde_json::Value {
    match v {
        JsonValue::Null => serde_json::Value::Null,
        JsonValue::Bool(b) => serde_json::Value::Bool(*b),
        JsonValue::Number(n) => serde_json::from_str(n).unwrap_or(serde_json::Value::Null),
        JsonValue::String(s) => serde_json::Value::String(s.clone()),
        JsonValue::Array(a) => serde_json::Value::Array(a.iter().map(to_serde_value).collect()),
        JsonValue::Object(o) => serde_json::Value::Object(
            o.iter().map(|(k, x)| (k.clone(), to_serde_value(x))).collect(),
        ),
    }
}

/// Builds the library's `JsonValue` that holds the same JSON, member for
/// member in the order the `serde_json` map yields them, numbers in their
/// `serde_json` text; nothing is stated of it here.
#[verifier::external_body]
fn from_serde_value(v: &serde_json::Value) -> JsonValue {
    match v {
        serde_json::Value::Null => JsonValue::Null,
        serde_json::Value::Bool(b) => JsonValue::Bool(*b),
        serde_json::Value::Number(n) => JsonValue::Number(n.to_string()),
        serde_json::Value::String(s) => JsonValue::String(s.clone()),
        serde_json::Value::Array(a) => JsonValue::Array(a.iter().map(from_serde_value).collect()),
        serde_json::Value::Object(o) => JsonValue::Object(
            o.iter().map(|(k, x)| (k.clone(), from_serde_value(x))).collect(),
        ),
    }
}

/// The JSON document that `text` holds, as `serde_json::from_str` reads it
/// into a `serde_json::Value`; `None` when it does not parse.
pub uninterp spec fn json_text_value(text: Seq<char>) -> Option<JsonValue>;

/// Parses `text` with `serde_json::from_str::<serde_json::Value>` and
/// converts the value.  Stated: the value is `json_text_value(text)`, and
/// the parse fails exactly when that is `None`; `Err` carries the parser's
/// message, which is not stated.
#[verifier::external_body]
pub(crate) fn parse_json_text(text: &str) -> (r: Result<JsonValue, String>)
    ensures
        r matches Ok(v) ==> json_text_value(text@) == Some(v),
        r is Err <==> json_text_value(text@) is None,
{
    match serde_json::from_str::<serde_json::Value>(text) {
        Ok(v) => Ok(from_serde_value(&v)),
        Err(e) => Err(e.to_string()),
    }
}

/// The JSON document in `text`, or, when it does not parse, `prefix`
/// followed by the parser's message.
pub fn parse_json_or_report(text: &str, prefix: &str) -> (r: Result<JsonValue, String>)
    ensures
        r matches Ok(v) ==> json_text_value(text@) == Some(v),
        r is Err <==> json_text_value(text@) is None,
        r matches Err(m) ==> prefix@.is_prefix_of(m@),
{
    match parse_json_text(text) {
        Ok(v) => Ok(v),
        Err(e) => {
            let mut m = prefix.to_owned();
            m.append(e.as_str());
            assert(prefix@.is_prefix_of(m@)) by {
                assert(m@.subrange(0, prefix@.len() as int) =~= prefix@);
            }
            Err(m)
        },
    }
}

} // verus!
