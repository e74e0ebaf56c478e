use distributed_diagnostics::prompt_asset::{decimal_text, json_schema_file_name, schema_file_name};
use distributed_diagnostics::text::{
    count_text, find_text, replace_all_text, replace_first_text, text_contains, text_ends_with, trim_text,
};

#[test]
fn trim_matches_str_trim() {
    for s in ["", "   ", "  a b  ", "\u{3000}x\u{a0}", "\tline\n", "no-space"] {
        assert_eq!(trim_text(s), s.trim(), "{s:?}");
        assert_eq!(trim_text(&trim_text(s)), trim_text(s));
    }
}

#[test]
fn find_counts_and_contains_match_str() {
    let s = "ab{{x}}cd{{x}}{{x}}e";
    assert_eq!(find_text(s, "{{x}}"), Some(2));
    assert_eq!(find_text(s, "zz"), None);
    assert_eq!(count_text(s, "{{x}}"), 3);
    assert_eq!(count_text("aaaa", "aa"), "aaaa".matches("aa").count());
    assert!(text_contains(s, "cd"));
    assert!(!text_contains(s, "dc"));
    assert_eq!(find_text("h\u{e9}llo", "llo"), Some(2));
}

#[test]
fn replace_first_and_all_match_str() {
    let s = "A {{p}} B {{p}} C";
    assert_eq!(replace_first_text(s, "{{p}}", "x"), s.replacen("{{p}}", "x", 1));
    assert_eq!(replace_all_text(s, "{{p}}", ""), s.replace("{{p}}", ""));
    assert_eq!(replace_first_text("none here", "{{p}}", "x"), "none here");
}

#[test]
fn replacing_a_present_placeholder_inserts_the_text() {
    let template = "before {{json_context}} after";
    let json = "{\"k\":1}";
    let out = replace_first_text(template, "{{json_context}}", json);
    assert!(out.contains(json));
    assert_eq!(out.chars().count(), template.chars().count() - "{{json_context}}".chars().count() + json.chars().count());
}

#[test]
fn ends_with_matches_str() {
    assert!(text_ends_with("asset.json", ".json"));
    assert!(!text_ends_with("asset.json5", ".json"));
    assert!(!text_ends_with("on", ".json"));
    assert!(text_ends_with("x", ""));
}

#[test]
fn decimal_text_matches_display() {
    for n in [0usize, 7, 10, 42, 1000, 123456789] {
        assert_eq!(decimal_text(n), n.to_string());
    }
}

#[test]
fn schema_file_names_follow_the_asset_name() {
    assert_eq!(schema_file_name("obr_prompt.json"), "obr_prompt.schema.json");
    assert_eq!(schema_file_name("baseline.manual_test.json"), "baseline.schema.json");
    assert_eq!(schema_file_name("a.json.json"), "a.schema.json.json");
    assert_eq!(schema_file_name("noext"), "noext");
    assert_eq!(json_schema_file_name("my_asset.json").as_deref(), Some("my_asset.schema.json"));
    assert_eq!(json_schema_file_name("my_asset.yaml"), None);
}
