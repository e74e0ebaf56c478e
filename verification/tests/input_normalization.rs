use distributed_diagnostics::input_normalization::{
    collapse_query_whitespace, split_words, InputNormalization, InputNormalizationError, TokenCounter,
    TokenizerError, UserRequest, WordLevelTokenizer,
};

fn make_normalization(max_input_tokens: usize) -> InputNormalization<WordLevelTokenizer> {
    InputNormalization::new(WordLevelTokenizer::new(None), max_input_tokens)
}

fn req(query: &str) -> UserRequest {
    UserRequest { query: query.to_string() }
}

// ── whitespace normalization ─────────────────────────────────────────────

#[test]
fn leading_and_trailing_whitespace_are_trimmed() {
    let result = make_normalization(100).normalize(req("  service down  ")).unwrap();
    assert_eq!(result.query, "service down");
}

#[test]
fn newlines_are_flattened() {
    let result = make_normalization(100).normalize(req("service\ndown")).unwrap();
    assert_eq!(result.query, "service down");
}

#[test]
fn tabs_and_mixed_whitespace_are_canonicalized() {
    let result = make_normalization(100).normalize(req("service\t \t down")).unwrap();
    assert_eq!(result.query, "service down");
}

// ── empty query errors ───────────────────────────────────────────────────

#[test]
fn empty_query_after_normalization_fails_with_empty_query() {
    let result = make_normalization(100).normalize(req("   "));
    assert!(matches!(result, Err(InputNormalizationError::EmptyQuery)), "expected EmptyQuery, got {result:?}");
}

#[test]
fn tokenizer_failure_is_reported_as_tokenizer_error() {
    let norm = InputNormalization::new(WordLevelTokenizer::new(Some(vec!["service".to_string()])), 100);
    let result = norm.normalize(req("unknownterm"));
    assert!(matches!(result, Err(InputNormalizationError::Tokenizer(_))), "expected Tokenizer error, got {result:?}");
}

// ── token ceiling ────────────────────────────────────────────────────────

#[test]
fn query_at_exactly_max_tokens_succeeds() {
    let result = make_normalization(2).normalize(req("service down"));
    assert!(result.is_ok(), "expected Ok, got {result:?}");
}

#[test]
fn query_exceeding_max_tokens_fails_with_input_too_long() {
    let result = make_normalization(1).normalize(req("service down"));
    assert!(
        matches!(result, Err(InputNormalizationError::InputTooLong { token_count: 2, max_input_tokens: 1 })),
        "expected InputTooLong, got {result:?}"
    );
}

// ── successful output fields ─────────────────────────────────────────────

#[test]
fn successful_normalization_returns_canonical_query() {
    let result = make_normalization(100).normalize(req("  service   down  ")).unwrap();
    assert_eq!(result.query, "service down");
}

#[test]
fn successful_normalization_returns_correct_token_count() {
    let result = make_normalization(100).normalize(req("service down")).unwrap();
    assert_eq!(result.input_token_count, 2);
}

// ── collapsing and token decisions ───────────────────────────────────────

#[test]
fn collapsing_twice_changes_nothing() {
    let once = collapse_query_whitespace(" a \u{2003}\u{a0} b\r\n\tc ");
    assert_eq!(once, "a b c");
    assert_eq!(collapse_query_whitespace(&once), once);
}

#[test]
fn zero_tokens_counts_as_empty_query() {
    let norm = make_normalization(5);
    assert_eq!(norm.check_token_count("x".to_string(), Ok(0)), Err(InputNormalizationError::EmptyQuery));
    assert_eq!(
        norm.check_token_count("x".to_string(), Ok(5)).unwrap().input_token_count,
        5
    );
    assert_eq!(
        norm.check_token_count("x".to_string(), Err(TokenizerError { message: "m".to_string() })),
        Err(InputNormalizationError::Tokenizer(TokenizerError { message: "m".to_string() }))
    );
}

#[test]
fn normalizing_a_normalized_query_changes_nothing() {
    let sut = make_normalization(100);
    let first = sut.normalize(req(" \t disk   full\n on  node-3 ")).unwrap();
    assert_eq!(first.query, "disk full on node-3");
    let second = sut.normalize(req(&first.query)).unwrap();
    assert_eq!(second, first);
}

#[test]
fn word_level_tokenizer_counts_whitespace_separated_words() {
    assert_eq!(split_words(" a\u{2003}bc \n d "), vec!["a", "bc", "d"]);
    assert_eq!(WordLevelTokenizer::new(None).count_tokens("service down now"), Ok(3));
    assert_eq!(WordLevelTokenizer::new(None).count_tokens("   "), Ok(0));
}

#[test]
fn word_level_tokenizer_refuses_first_word_outside_vocabulary() {
    let t = WordLevelTokenizer::new(Some(vec!["service".to_string(), "down".to_string()]));
    assert_eq!(t.count_tokens("service down"), Ok(2));
    assert_eq!(
        t.count_tokens("service up later"),
        Err(TokenizerError { message: "no token for `up`".to_string() })
    );
}

#[test]
fn tokenizer_error_message_is_passed_on() {
    let norm = InputNormalization::new(WordLevelTokenizer::new(Some(vec!["service".to_string()])), 100);
    assert_eq!(
        norm.normalize(req("service outage")),
        Err(InputNormalizationError::Tokenizer(TokenizerError { message: "no token for `outage`".to_string() }))
    );
}
