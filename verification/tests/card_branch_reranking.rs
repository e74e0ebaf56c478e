use distributed_diagnostics::card_branch_reranking::{CardBranchReranking, CardBranchRerankingError};
use distributed_diagnostics::shared_types::{
    CandidateCard, CandidateCardRetrievalOutput, CardSelectionContext, CardSelectionSnapshot,
    PrimaryCardStatus, RunIterationId,
};


fn reranker() -> CardBranchReranking {
    CardBranchReranking::new()
}

fn iter_id() -> RunIterationId {
    RunIterationId(7)
}

fn card(id: &str) -> CandidateCard {
    CandidateCard { case_id: id.to_string(), score_bits: 0.9f32.to_bits() }
}

fn fresh(cards: Vec<CandidateCard>) -> CandidateCardRetrievalOutput {
    let primary = cards.first().cloned();
    let alternatives = cards.iter().skip(1).cloned().collect();
    CandidateCardRetrievalOutput {
        ranked_candidates: cards,
        primary,
        alternatives,
    }
}

fn fresh_no_primary(cards: Vec<CandidateCard>) -> CandidateCardRetrievalOutput {
    CandidateCardRetrievalOutput {
        ranked_candidates: cards,
        primary: None,
        alternatives: vec![],
    }
}

fn history_one(
    primary_id: &str,
    status: PrimaryCardStatus,
    alternatives: Vec<&str>,
) -> CardSelectionContext {
    CardSelectionContext {
        history: vec![CardSelectionSnapshot {
            iteration_id: iter_id(),
            primary_card_id: primary_id.to_string(),
            primary_card_status: status,
            alternative_card_ids: alternatives.into_iter().map(|s| s.to_string()).collect(),
            challenger_card_ids: vec![],
        }],
    }
}

// five fresh candidates anchored on p1
fn five_fresh(primary: &str, rest: &[&str]) -> CandidateCardRetrievalOutput {
    let mut all = vec![card(primary)];
    all.extend(rest.iter().map(|s| card(s)));
    fresh(all)
}

// ─── Constructor ─────────────────────────────────────────────────────────

#[test]
fn new_constructs_stateless_reranker() {
    let _ = CardBranchReranking::new();
}

// ─── Validation errors ────────────────────────────────────────────────────

#[test]
fn empty_history_fails() {
    let ctx = CardSelectionContext { history: vec![] };
    let f = five_fresh("p1", &["a", "b", "c", "d"]);
    let err = reranker().rerank(&f, &ctx).unwrap_err();
    assert!(matches!(err, CardBranchRerankingError::EmptyCardSelectionHistory));
}

#[test]
fn missing_primary_fails() {
    let ctx = history_one("p1", PrimaryCardStatus::Tentative, vec![]);
    let f = fresh_no_primary(vec![card("p1"), card("a"), card("b"), card("c"), card("d")]);
    let err = reranker().rerank(&f, &ctx).unwrap_err();
    assert!(matches!(err, CardBranchRerankingError::MissingFreshPrimary));
}

#[test]
fn duplicate_ids_in_ranked_candidates_fail() {
    let ctx = history_one("p1", PrimaryCardStatus::Tentative, vec![]);
    let f = CandidateCardRetrievalOutput {
        ranked_candidates: vec![card("p1"), card("a"), card("a"), card("c"), card("d")],
        primary: Some(card("p1")),
        alternatives: vec![],
    };
    let err = reranker().rerank(&f, &ctx).unwrap_err();
    assert!(matches!(err, CardBranchRerankingError::DuplicateFreshCandidate { card_id } if card_id == "a"));
}

#[test]
fn primary_mismatch_with_ranked_candidates_fails() {
    let ctx = history_one("p1", PrimaryCardStatus::Tentative, vec![]);
    let f = CandidateCardRetrievalOutput {
        ranked_candidates: vec![card("x"), card("a"), card("b"), card("c"), card("d")],
        primary: Some(card("p1")),
        alternatives: vec![],
    };
    let err = reranker().rerank(&f, &ctx).unwrap_err();
    assert!(matches!(err, CardBranchRerankingError::FreshPrimaryMismatch));
}

#[test]
fn fewer_than_five_ranked_candidates_fail() {
    let ctx = history_one("p1", PrimaryCardStatus::Tentative, vec![]);
    let f = fresh(vec![card("p1"), card("a"), card("b"), card("c")]);
    let err = reranker().rerank(&f, &ctx).unwrap_err();
    assert!(matches!(err, CardBranchRerankingError::InsufficientFreshCandidateWindow));
}

// ─── Primary selection — Tentative ────────────────────────────────────────

#[test]
fn tentative_primary_within_top2_becomes_sticky() {
    // previous primary "p1" is at rank 1 → preserved, status → Sticky
    let ctx = history_one("p1", PrimaryCardStatus::Tentative, vec![]);
    let f = five_fresh("p1", &["a", "b", "c", "d"]);
    let out = reranker().rerank(&f, &ctx).unwrap();
    assert_eq!(out.primary_card_id, "p1");
    assert_eq!(out.primary_card_status, PrimaryCardStatus::Sticky);
}

#[test]
fn tentative_primary_at_rank2_becomes_sticky() {
    // previous primary "p1" is at rank 2 → preserved
    let ctx = history_one("p1", PrimaryCardStatus::Tentative, vec![]);
    let f = five_fresh("x", &["p1", "b", "c", "d"]);
    // But wait - "x" is ranked 1, "p1" is ranked 2, and primary = Some("x")
    // This is a valid fresh result where "x" is the new top candidate.
    // Previous primary "p1" is at fresh rank 2, within tentative window (top 2).
    // But the primary field must correspond to ranked_candidates[0] = "x".
    // The module should treat the *previous* primary "p1" at rank 2 → preserve it, status Sticky.
    let out = reranker().rerank(&f, &ctx).unwrap();
    assert_eq!(out.primary_card_id, "p1");
    assert_eq!(out.primary_card_status, PrimaryCardStatus::Sticky);
}

#[test]
fn tentative_primary_below_top2_is_replaced() {
    // previous primary "p1" at rank 3 → replace with fresh rank-1
    let ctx = history_one("p1", PrimaryCardStatus::Tentative, vec![]);
    let f = five_fresh("new1", &["new2", "p1", "c", "d"]);
    let out = reranker().rerank(&f, &ctx).unwrap();
    assert_eq!(out.primary_card_id, "new1");
    assert_eq!(out.primary_card_status, PrimaryCardStatus::Tentative);
}

#[test]
fn tentative_primary_absent_from_fresh_is_replaced() {
    let ctx = history_one("gone", PrimaryCardStatus::Tentative, vec![]);
    let f = five_fresh("new1", &["a", "b", "c", "d"]);
    let out = reranker().rerank(&f, &ctx).unwrap();
    assert_eq!(out.primary_card_id, "new1");
    assert_eq!(out.primary_card_status, PrimaryCardStatus::Tentative);
}

// ─── Primary selection — Sticky ───────────────────────────────────────────

#[test]
fn sticky_primary_within_top4_stays_sticky() {
    let ctx = history_one("p1", PrimaryCardStatus::Sticky, vec![]);
    // p1 at rank 4
    let f = five_fresh("x", &["y", "z", "p1", "d"]);
    let out = reranker().rerank(&f, &ctx).unwrap();
    assert_eq!(out.primary_card_id, "p1");
    assert_eq!(out.primary_card_status, PrimaryCardStatus::Sticky);
}

#[test]
fn sticky_primary_below_top4_is_replaced() {
    let ctx = history_one("p1", PrimaryCardStatus::Sticky, vec![]);
    // p1 at rank 5 → replaced
    let f = five_fresh("x", &["y", "z", "w", "p1"]);
    let out = reranker().rerank(&f, &ctx).unwrap();
    assert_eq!(out.primary_card_id, "x");
    assert_eq!(out.primary_card_status, PrimaryCardStatus::Tentative);
}

#[test]
fn sticky_primary_absent_from_fresh_is_replaced() {
    let ctx = history_one("gone", PrimaryCardStatus::Sticky, vec![]);
    let f = five_fresh("new1", &["a", "b", "c", "d"]);
    let out = reranker().rerank(&f, &ctx).unwrap();
    assert_eq!(out.primary_card_id, "new1");
    assert_eq!(out.primary_card_status, PrimaryCardStatus::Tentative);
}

// ─── Alternative selection ────────────────────────────────────────────────

#[test]
fn historical_alternatives_within_top5_are_preserved_in_order() {
    // Previous alts: ["a2", "a1"]. Both within top 5 fresh ranks.
    let ctx = history_one("p1", PrimaryCardStatus::Sticky, vec!["a2", "a1"]);
    // fresh: p1=1, a1=2, a2=3, c=4, d=5
    let f = five_fresh("p1", &["a1", "a2", "c", "d"]);
    let out = reranker().rerank(&f, &ctx).unwrap();
    // preserved in historical order: ["a2", "a1"]
    assert_eq!(out.alternative_card_ids, vec!["a2", "a1"]);
}

#[test]
fn historical_alternatives_outside_top5_are_dropped() {
    // Previous alt "old" is not in fresh top 5
    let ctx = history_one("p1", PrimaryCardStatus::Sticky, vec!["old"]);
    let f = five_fresh("p1", &["a", "b", "c", "d"]);
    // "old" absent → drop. Fill from fresh: a, b
    let out = reranker().rerank(&f, &ctx).unwrap();
    assert!(!out.alternative_card_ids.contains(&"old".to_string()));
    assert!(out.alternative_card_ids.len() <= 2);
}

#[test]
fn alternatives_filled_from_fresh_when_fewer_than_two_preserved() {
    // No historical alternatives preserved
    let ctx = history_one("p1", PrimaryCardStatus::Tentative, vec![]);
    let f = five_fresh("p1", &["a", "b", "c", "d"]);
    let out = reranker().rerank(&f, &ctx).unwrap();
    assert_eq!(out.alternative_card_ids, vec!["a", "b"]);
}

#[test]
fn primary_never_appears_in_alternatives() {
    let ctx = history_one("p1", PrimaryCardStatus::Sticky, vec!["p1", "a"]);
    let f = five_fresh("p1", &["a", "b", "c", "d"]);
    let out = reranker().rerank(&f, &ctx).unwrap();
    assert!(!out.alternative_card_ids.contains(&out.primary_card_id));
}

#[test]
fn challenger_card_ids_always_empty() {
    let ctx = history_one("p1", PrimaryCardStatus::Tentative, vec![]);
    let f = five_fresh("p1", &["a", "b", "c", "d"]);
    let out = reranker().rerank(&f, &ctx).unwrap();
    assert!(out.challenger_card_ids.is_empty());
}

#[test]
fn alternatives_never_exceed_two() {
    let ctx = history_one("p1", PrimaryCardStatus::Tentative, vec!["a", "b"]);
    let f = five_fresh("p1", &["a", "b", "c", "d"]);
    let out = reranker().rerank(&f, &ctx).unwrap();
    assert!(out.alternative_card_ids.len() <= 2);
}

// ─── Alternatives as two filters ─────────────────────────────────────────

#[test]
fn alternatives_are_eligible_history_then_fresh_fill() {
    // fresh ranks: p1 a b c d e x; history alternatives: x (rank 7, outside
    // the window), c (kept), p1 (the primary); the one free slot takes the
    // first fresh id that is neither the primary nor kept: a.
    let ctx = history_one("p1", PrimaryCardStatus::Sticky, vec!["x", "c", "p1"]);
    let f = five_fresh("p1", &["a", "b", "c", "d", "e", "x"]);
    let out = reranker().rerank(&f, &ctx).unwrap();
    assert_eq!(out.primary_card_id, "p1");
    assert_eq!(out.alternative_card_ids, vec!["c".to_string(), "a".to_string()]);
}

#[test]
fn alternatives_keep_only_first_two_eligible_history_entries() {
    let ctx = history_one("p1", PrimaryCardStatus::Sticky, vec!["d", "b", "c"]);
    let f = five_fresh("p1", &["a", "b", "c", "d"]);
    let out = reranker().rerank(&f, &ctx).unwrap();
    assert_eq!(out.alternative_card_ids, vec!["d".to_string(), "b".to_string()]);
}
