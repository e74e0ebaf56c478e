use vstd::prelude::*;

use crate::json::{to_serde_value, JsonValue};
use crate::shared_types::string_views;
use crate::text::{ends_with_seq, replace_first_seq, replace_first_text, text_ends_with};

verus! {

/// A chat prompt read from a prompt asset file: the system prompt, the user
/// message template with its placeholders, and the JSON schema the answer
/// must follow.
#[derive(Debug)]
pub struct PromptAsset {
    pub version: String,
    pub system_prompt: String,
    pub user_template: String,
    pub response_schema: JsonValue,
}

/// The decimal digits.
pub const DECIMAL_DIGITS: &'static str = "0123456789";

/// The digit of `d` (for `d < 10`).
pub open spec fn digit_seq(d: nat) -> Seq<char> {
    DECIMAL_DIGITS@.subrange(d as int, d as int + 1)
}

/// The decimal rendering of `n`, without sign or leading zeros.
pub open spec fn decimal_seq(n: nat) -> Seq<char>
    decreases n,
{
    if n < 10 {
        digit_seq(n)
    } else {
        decimal_seq(n / 10) + digit_seq(n % 10)
    }
}

/// Renders `n` in decimal (what `format!("{}", n)` gives).
pub fn decimal_text(n: usize) -> (s: String)
    ensures
        s@ == decimal_seq(n as nat),
    decreases n,
{
    proof {
        reveal_strlit("0123456789");
    }
    if n < 10 {
        String::from_str(DECIMAL_DIGITS.substring_char(n, n + 1))
    } else {
        let mut s = decimal_text(n / 10);
        let d = n % 10;
        s.append(DECIMAL_DIGITS.substring_char(d, d + 1));
        s
    }
}

/// The value is a JSON object.
pub open spec fn is_json_object(v: JsonValue) -> bool {
    v is Object
}

/// The schema file name for a prompt asset file name: a
/// `.manual_test.json` name has that suffix's first occurrence replaced by
/// `.schema.json`, any other name the first occurrence of `.json`.
pub open spec fn schema_file_name_of(f: Seq<char>) -> Seq<char> {
    if ends_with_seq(f, ".manual_test.json"@) {
        replace_first_seq(f, ".manual_test.json"@, ".schema.json"@)
    } else {
        replace_first_seq(f, ".json"@, ".schema.json"@)
    }
}

/// The name of the schema file that sits beside the prompt asset file
/// `file_name`.
pub fn schema_file_name(file_name: &str) -> (r: String)
    ensures
        r@ == schema_file_name_of(file_name@),
{
    if text_ends_with(file_name, ".manual_test.json") {
        replace_first_text(file_name, ".manual_test.json", ".schema.json")
    } else {
        replace_first_text(file_name, ".json", ".schema.json")
    }
}

/// The schema file name of a prompt asset file name that ends with
/// `.json`; `None` for any other name.
pub fn json_schema_file_name(file_name: &str) -> (r: Option<String>)
    ensures
        ends_with_seq(file_name@, ".json"@) ==> (r matches Some(n) && n@ == schema_file_name_of(file_name@)),
        !ends_with_seq(file_name@, ".json"@) ==> r is None,
{
    if text_ends_with(file_name, ".json") {
        Some(schema_file_name(file_name))
    } else {
        None
    }
}

// ─── Schema validation of a prompt asset ──────────────────────────────────────

/// Whether the JSON schema `schema` compiles and then accepts `instance`
/// (what `jsonschema::Validator::is_valid` answers for the compiled schema).
pub uninterp spec fn schema_accepts(schema: JsonValue, instance: JsonValue) -> bool;

/// Whether `jsonschema::options().build` compiles the JSON schema `schema`.
pub uninterp spec fn schema_compiles(schema: JsonValue) -> bool;

/// Compiles `schema` with `jsonschema::options().build` and validates
/// `instance` with the compiled validator (`is_valid`, and `iter_errors` for
/// the messages, each rendered with its `Display`).  `Err` carries the
/// compile error's message.  Stated: `Err` comes exactly when the schema
/// does not compile (`schema_compiles`), a schema that does not compile
/// accepts nothing, and the verdict is `schema_accepts`; the messages are
/// not stated.
#[verifier::external_body]
pub(crate) fn check_against_schema(schema: &JsonValue, instance: &JsonValue) -> (r: Result<(bool, Vec<String>), String>)
    ensures
        r matches Ok((b, _)) ==> b == schema_accepts(*schema, *instance),
        r is Err <==> !schema_compiles(*schema),
        r is Err ==> !schema_accepts(*schema, *instance),
{
    let validator = match jsonschema::options().build(&to_serde_value(schema)) {
        Ok(v) => v,
        Err(e) => return Err(e.to_string()),
    };
    let instance = to_serde_value(instance);
    let errors = validator.iter_errors(&instance).map(|e| e.to_string()).collect();
    Ok((validator.is_valid(&instance), errors))
}

/// Why a prompt asset failed its schema check.
#[derive(Clone, Debug, PartialEq, Eq)]
pub enum SchemaCheckFailure {
    /// The schema did not compile; the compiler's message.
    Compile(String),
    /// The schema refused the asset; the validation messages joined by `; `.
    Rejected(String),
}

/// `items` joined with `sep` between each two.
pub open spec fn joined(items: Seq<Seq<char>>, sep: Seq<char>) -> Seq<char>
    decreases items.len(),
{
    if items.len() == 0 {
        Seq::empty()
    } else if items.len() == 1 {
        items[0]
    } else {
        joined(items.drop_last(), sep) + sep + items.last()
    }
}

/// `items` joined with `sep` between each two.
pub fn join_texts(items: &Vec<String>, sep: &str) -> (r: String)
    ensures
        r@ == joined(string_views(items@), sep@),
{
    let mut out = String::new();
    let mut i: usize = 0;
    while i < items.len()
        invariant
            i <= items@.len(),
            out@ == joined(string_views(items@.take(i as int)), sep@),
        decreases items@.len() - i,
    {
        let ghost before = out@;
        if i > 0 {
            out.append(sep);
        }
        out.append(items[i].as_str());
        proof {
            let v = string_views(items@.take(i + 1));
            assert(string_views(items@.take(i + 1)).drop_last() =~= string_views(items@.take(i as int)));
            assert(v.last() == items@[i as int]@);
            if i == 0 {
                assert(before =~= Seq::<char>::empty());
                assert(out@ =~= items@[0]@);
            } else {
                assert(out@ =~= before + sep@ + items@[i as int]@);
            }
        }
        i = i + 1;
    }
    assert(items@.take(items@.len() as int) =~= items@);
    out
}

/// The verdict of a schema check from what the validator answered: the
/// compile error, acceptance, or the refusal with its messages joined.
pub fn schema_verdict(outcome: Result<(bool, Vec<String>), String>) -> (r: Result<(), SchemaCheckFailure>)
    ensures
        match outcome {
            Err(e) => r == Err::<(), SchemaCheckFailure>(SchemaCheckFailure::Compile(e)),
            Ok((valid, errors)) => if valid {
                r is Ok
            } else {
                r matches Err(SchemaCheckFailure::Rejected(m)) && m@ == joined(string_views(errors@), "; "@)
            },
        },
{
    match outcome {
        Err(e) => Err(SchemaCheckFailure::Compile(e)),
        Ok((valid, errors)) => {
            if valid {
                Ok(())
            } else {
                Err(SchemaCheckFailure::Rejected(join_texts(&errors, "; ")))
            }
        },
    }
}

/// Checks a parsed prompt asset against its parsed schema: it passes
/// exactly when the schema compiles and accepts it.
pub fn check_asset_schema(schema: &JsonValue, asset: &JsonValue) -> (r: Result<(), SchemaCheckFailure>)
    ensures
        r is Ok <==> schema_accepts(*schema, *asset),
        r matches Err(SchemaCheckFailure::Compile(_)) <==> !schema_compiles(*schema),
        r matches Err(SchemaCheckFailure::Rejected(_)) <==> schema_compiles(*schema) && !schema_accepts(
            *schema,
            *asset,
        ),
{
    schema_verdict(check_against_schema(schema, asset))
}

/// The message of a failed schema check, as the chat prompt steps and the
/// first-answer assembly report it.
pub open spec fn schema_failure_text(f: SchemaCheckFailure) -> Seq<char> {
    match f {
        SchemaCheckFailure::Compile(e) => "prompt asset schema compile error: "@ + e@,
        SchemaCheckFailure::Rejected(m) => "prompt asset schema validation failed: "@ + m@,
    }
}

/// `m` reports a failed schema check of `schema` as the chat prompt steps
/// and the first-answer assembly do: as a compile error when the schema
/// does not compile, as a failed validation otherwise.
pub open spec fn reports_schema_failure(schema: JsonValue, m: Seq<char>) -> bool {
    if schema_compiles(schema) {
        "prompt asset schema validation failed: "@.is_prefix_of(m)
    } else {
        "prompt asset schema compile error: "@.is_prefix_of(m)
    }
}

/// The message of a failed schema check.
pub fn schema_failure_message(f: SchemaCheckFailure) -> (m: String)
    ensures
        m@ == schema_failure_text(f),
        f is Compile ==> "prompt asset schema compile error: "@.is_prefix_of(m@),
        f is Rejected ==> "prompt asset schema validation failed: "@.is_prefix_of(m@),
{
    match f {
        SchemaCheckFailure::Compile(e) => {
            let mut m = String::from_str("prompt asset schema compile error: ");
            let ghost head = m@;
            m.append(e.as_str());
            assert(m@.subrange(0, head.len() as int) =~= head);
            m
        },
        SchemaCheckFailure::Rejected(r) => {
            let mut m = String::from_str("prompt asset schema validation failed: ");
            let ghost head = m@;
            m.append(r.as_str());
            assert(m@.subrange(0, head.len() as int) =~= head);
            m
        },
    }
}

} // verus!
