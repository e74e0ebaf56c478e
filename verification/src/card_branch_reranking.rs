use vstd::prelude::*;

use crate::shared_types::{
    candidate_ids, string_views, CandidateCard, CandidateCardRetrievalOutput,
    CardBranchRerankingOutput, CardSelectionContext, PrimaryCardStatus,
};

verus! {

/// Inputs that re-ranking refuses.
#[derive(Clone, Debug, PartialEq, Eq)]
pub enum CardBranchRerankingError {
    EmptyCardSelectionHistory,
    MissingFreshPrimary,
    DuplicateFreshCandidate { card_id: String },
    FreshPrimaryMismatch,
    InsufficientFreshCandidateWindow,
}

/// Ranks within which a tentative primary is kept.
pub const TENTATIVE_RETENTION_WINDOW: usize = 2;

/// Ranks within which a sticky primary is kept.
pub const STICKY_RETENTION_WINDOW: usize = 4;

/// Ranks within which an earlier alternative is kept.
pub const ALTERNATIVE_ELIGIBILITY_WINDOW: usize = 5;

/// Most alternatives re-ranking returns.
pub const MAX_ALTERNATIVES: usize = 2;

/// Fewest fresh candidates re-ranking accepts.
pub const MIN_FRESH_WINDOW: usize = 5;

// ─── Specification ────────────────────────────────────────────────────────────

/// `ids[j]` already occurs before position `j`.
pub open spec fn dup_at(ids: Seq<Seq<char>>, j: int) -> bool {
    ids.take(j).contains(ids[j])
}

/// No id before position `j` repeats an earlier one.
pub open spec fn no_dup_before(ids: Seq<Seq<char>>, j: int) -> bool {
    forall|k: int| 0 <= k < j ==> !#[trigger] dup_at(ids, k)
}

/// Some id occurs twice.
pub open spec fn has_dup(ids: Seq<Seq<char>>) -> bool {
    exists|j: int| 0 <= j < ids.len() && #[trigger] dup_at(ids, j)
}

/// Ranks within which a primary with `status` is kept.
pub open spec fn retention_window(status: PrimaryCardStatus) -> int {
    match status {
        PrimaryCardStatus::Tentative => TENTATIVE_RETENTION_WINDOW as int,
        PrimaryCardStatus::Sticky => STICKY_RETENTION_WINDOW as int,
    }
}

/// The previous primary is still within its retention window.
pub open spec fn primary_retained(
    ids: Seq<Seq<char>>,
    previous: Seq<char>,
    status: PrimaryCardStatus,
) -> bool {
    ids.take(retention_window(status)).contains(previous)
}

/// The primary chosen by re-ranking.
pub open spec fn reranked_primary(
    ids: Seq<Seq<char>>,
    previous: Seq<char>,
    status: PrimaryCardStatus,
) -> Seq<char> {
    if primary_retained(ids, previous, status) {
        previous
    } else {
        ids[0]
    }
}

/// The status of the primary chosen by re-ranking.
pub open spec fn reranked_status(
    ids: Seq<Seq<char>>,
    previous: Seq<char>,
    status: PrimaryCardStatus,
) -> PrimaryCardStatus {
    if primary_retained(ids, previous, status) {
        PrimaryCardStatus::Sticky
    } else {
        PrimaryCardStatus::Tentative
    }
}

/// Earlier alternatives, in their order, that are still within the top
/// fresh ranks and differ from the new primary.
pub open spec fn kept_alternatives(
    history: Seq<Seq<char>>,
    ids: Seq<Seq<char>>,
    primary: Seq<char>,
) -> Seq<Seq<char>>
    decreases history.len(),
{
    if history.len() == 0 {
        Seq::empty()
    } else {
        let rest = kept_alternatives(history.drop_last(), ids, primary);
        let a = history.last();
        if ids.take(ALTERNATIVE_ELIGIBILITY_WINDOW as int).contains(a) && a != primary {
            rest.push(a)
        } else {
            rest
        }
    }
}

/// Tops `alts` up from `fresh`, in order, with ids that are neither the
/// primary nor already present, until there are two.
pub open spec fn fill_alternatives(
    alts: Seq<Seq<char>>,
    fresh: Seq<Seq<char>>,
    primary: Seq<char>,
) -> Seq<Seq<char>>
    decreases fresh.len(),
{
    if alts.len() >= MAX_ALTERNATIVES || fresh.len() == 0 {
        alts
    } else {
        let id = fresh[0];
        let next = if id != primary && !alts.contains(id) {
            alts.push(id)
        } else {
            alts
        };
        fill_alternatives(next, fresh.drop_first(), primary)
    }
}

/// At most the first two elements of `s`.
pub open spec fn first_two(s: Seq<Seq<char>>) -> Seq<Seq<char>> {
    if s.len() <= MAX_ALTERNATIVES {
        s
    } else {
        s.take(MAX_ALTERNATIVES as int)
    }
}

/// The alternatives chosen by re-ranking.
pub open spec fn reranked_alternatives(
    history: Seq<Seq<char>>,
    ids: Seq<Seq<char>>,
    primary: Seq<char>,
) -> Seq<Seq<char>> {
    first_two(fill_alternatives(kept_alternatives(history, ids, primary), ids, primary))
}

/// The fresh primary disagrees with the first ranked candidate.
pub open spec fn primary_mismatch(fresh: CandidateCardRetrievalOutput) -> bool {
    &&& fresh.ranked_candidates@.len() > 0
    &&& fresh.primary matches Some(p)
    &&& fresh.ranked_candidates@[0].case_id@ != p.case_id@
}

/// Re-ranking accepts these inputs.
pub open spec fn rerank_accepts(
    fresh: CandidateCardRetrievalOutput,
    context: CardSelectionContext,
) -> bool {
    &&& context.history@.len() > 0
    &&& fresh.primary is Some
    &&& !primary_mismatch(fresh)
    &&& !has_dup(candidate_ids(fresh.ranked_candidates@))
    &&& fresh.ranked_candidates@.len() >= MIN_FRESH_WINDOW
}

// ─── Helpers ──────────────────────────────────────────────────────────────────

fn prefix_contains(cards: &Vec<CandidateCard>, n: usize, x: &String) -> (r: bool)
    requires
        n <= cards@.len(),
    ensures
        r == candidate_ids(cards@).take(n as int).contains(x@),
{
    let ghost ids = candidate_ids(cards@);
    let mut i: usize = 0;
    while i < n
        invariant
            n <= cards@.len(),
            ids == candidate_ids(cards@),
            i <= n,
            forall|k: int| 0 <= k < i ==> ids[k] != x@,
        decreases n - i,
    {
        if cards[i].case_id == *x {
            assert(ids.take(n as int)[i as int] == x@);
            return true;
        }
        i = i + 1;
    }
    assert forall|k: int| 0 <= k < n implies #[trigger] ids.take(n as int)[k] != x@ by {
        assert(ids.take(n as int)[k] == ids[k]);
    }
    false
}

fn strings_contain(v: &Vec<String>, x: &String) -> (r: bool)
    ensures
        r == string_views(v@).contains(x@),
{
    let ghost s = string_views(v@);
    let mut i: usize = 0;
    while i < v.len()
        invariant
            s == string_views(v@),
            i <= v@.len(),
            forall|k: int| 0 <= k < i ==> s[k] != x@,
        decreases v@.len() - i,
    {
        if v[i] == *x {
            assert(s[i as int] == x@);
            return true;
        }
        i = i + 1;
    }
    false
}

/// Returns the first position whose id repeats an earlier one, if any.
fn find_first_duplicate(cards: &Vec<CandidateCard>) -> (r: Option<usize>)
    ensures
        ({
            let ids = candidate_ids(cards@);
            match r {
                Some(j) => j < ids.len() && dup_at(ids, j as int) && no_dup_before(ids, j as int),
                None => !has_dup(ids),
            }
        }),
{
    let ghost ids = candidate_ids(cards@);
    let mut j: usize = 0;
    while j < cards.len()
        invariant
            ids == candidate_ids(cards@),
            j <= cards@.len(),
            no_dup_before(ids, j as int),
        decreases cards@.len() - j,
    {
        let mut k: usize = 0;
        while k < j
            invariant
                ids == candidate_ids(cards@),
                j < cards@.len(),
                no_dup_before(ids, j as int),
                k <= j,
                forall|m: int| 0 <= m < k ==> ids[m] != ids[j as int],
            decreases j - k,
        {
            if cards[k].case_id == cards[j].case_id {
                assert(ids[k as int] == cards@[k as int].case_id@);
                assert(ids[j as int] == cards@[j as int].case_id@);
                assert(ids.take(j as int)[k as int] == ids[j as int]);
                assert(dup_at(ids, j as int));
                return Some(j);
            }
            k = k + 1;
        }
        assert(!dup_at(ids, j as int)) by {
            assert forall|m: int| 0 <= m < j implies #[trigger] ids.take(j as int)[m] != ids[j as int] by {
                assert(ids.take(j as int)[m] == ids[m]);
            }
        }
        j = j + 1;
    }
    None
}

// ─── Re-ranking ───────────────────────────────────────────────────────────────

/// Reconciles freshly retrieved candidates with the previous card selection.
#[derive(Debug, Default)]
pub struct CardBranchReranking {}

impl CardBranchReranking {
    pub fn new() -> (r: Self) {
        CardBranchReranking {  }
    }

    /// Chooses the primary and alternative cards for the next iteration.
    pub fn rerank(
        &self,
        fresh_candidates: &CandidateCardRetrievalOutput,
        card_selection_context: &CardSelectionContext,
    ) -> (r: Result<CardBranchRerankingOutput, CardBranchRerankingError>)
        ensures
            ({
                let ids = candidate_ids(fresh_candidates.ranked_candidates@);
                let history = card_selection_context.history@;
                &&& history.len() == 0 ==> r == Err::<
                    CardBranchRerankingOutput,
                    CardBranchRerankingError,
                >(CardBranchRerankingError::EmptyCardSelectionHistory)
                &&& history.len() > 0 && fresh_candidates.primary is None ==> r == Err::<
                    CardBranchRerankingOutput,
                    CardBranchRerankingError,
                >(CardBranchRerankingError::MissingFreshPrimary)
                &&& history.len() > 0 && fresh_candidates.primary is Some && primary_mismatch(
                    *fresh_candidates,
                ) ==> r == Err::<CardBranchRerankingOutput, CardBranchRerankingError>(
                    CardBranchRerankingError::FreshPrimaryMismatch,
                )
                &&& history.len() > 0 && fresh_candidates.primary is Some && !primary_mismatch(
                    *fresh_candidates,
                ) && has_dup(ids) ==> (r matches Err(
                    CardBranchRerankingError::DuplicateFreshCandidate { card_id },
                ) && exists|j: int|
                    0 <= j < ids.len() && dup_at(ids, j) && no_dup_before(ids, j) && card_id@
                        == #[trigger] ids[j])
                &&& history.len() > 0 && fresh_candidates.primary is Some && !primary_mismatch(
                    *fresh_candidates,
                ) && !has_dup(ids) && ids.len() < MIN_FRESH_WINDOW ==> r == Err::<
                    CardBranchRerankingOutput,
                    CardBranchRerankingError,
                >(CardBranchRerankingError::InsufficientFreshCandidateWindow)
                &&& rerank_accepts(*fresh_candidates, *card_selection_context) ==> ({
                    let last = history.last();
                    let primary = reranked_primary(
                        ids,
                        last.primary_card_id@,
                        last.primary_card_status,
                    );
                    &&& r matches Ok(out)
                    &&& out.primary_card_id@ == primary
                    &&& out.primary_card_status == reranked_status(
                        ids,
                        last.primary_card_id@,
                        last.primary_card_status,
                    )
                    &&& string_views(out.alternative_card_ids@) == reranked_alternatives(
                        string_views(last.alternative_card_ids@),
                        ids,
                        primary,
                    )
                    &&& out.challenger_card_ids@.len() == 0
                })
            }),
    {
        let ghost ids = candidate_ids(fresh_candidates.ranked_candidates@);
        if card_selection_context.history.len() == 0 {
            return Err(CardBranchRerankingError::EmptyCardSelectionHistory);
        }
        let fresh_primary = match &fresh_candidates.primary {
            Some(p) => p,
            None => {
                return Err(CardBranchRerankingError::MissingFreshPrimary);
            },
        };
        let fresh = &fresh_candidates.ranked_candidates;
        if fresh.len() > 0 {
            if fresh[0].case_id != fresh_primary.case_id {
                return Err(CardBranchRerankingError::FreshPrimaryMismatch);
            }
        }
        match find_first_duplicate(fresh) {
            Some(j) => {
                return Err(
                    CardBranchRerankingError::DuplicateFreshCandidate {
                        card_id: fresh[j].case_id.clone(),
                    },
                );
            },
            None => {},
        }
        if fresh.len() < MIN_FRESH_WINDOW {
            return Err(CardBranchRerankingError::InsufficientFreshCandidateWindow);
        }

        let last = &card_selection_context.history[card_selection_context.history.len() - 1];
        let previous_primary = &last.primary_card_id;
        let window = match last.primary_card_status {
            PrimaryCardStatus::Tentative => TENTATIVE_RETENTION_WINDOW,
            PrimaryCardStatus::Sticky => STICKY_RETENTION_WINDOW,
        };
        let retained = prefix_contains(fresh, window, previous_primary);
        let new_primary_id: String;
        let new_primary_status: PrimaryCardStatus;
        if retained {
            new_primary_id = previous_primary.clone();
            new_primary_status = PrimaryCardStatus::Sticky;
        } else {
            new_primary_id = fresh[0].case_id.clone();
            new_primary_status = PrimaryCardStatus::Tentative;
        }
        let ghost primary = new_primary_id@;

        // Earlier alternatives still within the eligibility window.
        let history_alts = &last.alternative_card_ids;
        let ghost hist = string_views(history_alts@);
        let mut alternatives: Vec<String> = Vec::new();
        let mut i: usize = 0;
        while i < history_alts.len()
            invariant
                hist == string_views(history_alts@),
                ids == candidate_ids(fresh@),
                fresh@.len() >= MIN_FRESH_WINDOW,
                primary == new_primary_id@,
                i <= history_alts@.len(),
                string_views(alternatives@) == kept_alternatives(hist.take(i as int), ids, primary),
            decreases history_alts@.len() - i,
        {
            assert(hist.take(i + 1).drop_last() =~= hist.take(i as int));
            let a = &history_alts[i];
            let eligible = prefix_contains(fresh, ALTERNATIVE_ELIGIBILITY_WINDOW, a);
            if eligible && *a != new_primary_id {
                alternatives.push(a.clone());
                assert(string_views(alternatives@) =~= kept_alternatives(
                    hist.take(i as int),
                    ids,
                    primary,
                ).push(a@));
            }
            i = i + 1;
        }
        assert(hist.take(hist.len() as int) =~= hist);
        let ghost kept = string_views(alternatives@);
        assert(ids.skip(0) =~= ids);

        // Top up from the fresh ranking.
        let mut i: usize = 0;
        while i < fresh.len() && alternatives.len() < MAX_ALTERNATIVES
            invariant
                ids == candidate_ids(fresh@),
                primary == new_primary_id@,
                i <= fresh@.len(),
                fill_alternatives(string_views(alternatives@), ids.skip(i as int), primary)
                    == fill_alternatives(kept, ids, primary),
            decreases fresh@.len() - i,
        {
            let id = &fresh[i].case_id;
            let ghost before = string_views(alternatives@);
            assert(ids.skip(i as int)[0] == id@);
            assert(ids.skip(i as int).drop_first() =~= ids.skip(i + 1));
            if *id != new_primary_id && !strings_contain(&alternatives, id) {
                alternatives.push(id.clone());
                assert(string_views(alternatives@) =~= before.push(id@));
            }
            i = i + 1;
        }
        assert(ids.skip(ids.len() as int).len() == 0);
        assert(fill_alternatives(string_views(alternatives@), ids.skip(i as int), primary)
            == string_views(alternatives@));
        let ghost filled = string_views(alternatives@);
        alternatives.truncate(MAX_ALTERNATIVES);
        assert(string_views(alternatives@) =~= first_two(filled));
        assert(ids =~= ids.skip(0));
        Ok(
            CardBranchRerankingOutput {
                primary_card_id: new_primary_id,
                primary_card_status: new_primary_status,
                alternative_card_ids: alternatives,
                challenger_card_ids: Vec::new(),
            },
        )
    }
}


// ─── Laws ─────────────────────────────────────────────────────────────────────

/// Every element of `s` differs from `x` and occurs in `ids`.
pub open spec fn excludes_and_drawn_from(
    s: Seq<Seq<char>>,
    x: Seq<char>,
    ids: Seq<Seq<char>>,
) -> bool {
    forall|i: int| 0 <= i < s.len() ==> #[trigger] s[i] != x && ids.contains(s[i])
}

proof fn lemma_kept_alternatives_excludes(
    history: Seq<Seq<char>>,
    ids: Seq<Seq<char>>,
    primary: Seq<char>,
)
    requires
        ids.len() >= ALTERNATIVE_ELIGIBILITY_WINDOW,
    ensures
        excludes_and_drawn_from(kept_alternatives(history, ids, primary), primary, ids),
    decreases history.len(),
{
    if history.len() > 0 {
        lemma_kept_alternatives_excludes(history.drop_last(), ids, primary);
        let rest = kept_alternatives(history.drop_last(), ids, primary);
        let a = history.last();
        let top = ids.take(ALTERNATIVE_ELIGIBILITY_WINDOW as int);
        if top.contains(a) && a != primary {
            let k = choose|k: int| 0 <= k < top.len() && top[k] == a;
            assert(ids[k] == a);
            let r = rest.push(a);
            assert forall|i: int| 0 <= i < r.len() implies #[trigger] r[i] != primary && ids.contains(
                r[i],
            ) by {
                if i < rest.len() {
                    assert(r[i] == rest[i]);
                }
            }
        }
    }
}

proof fn lemma_fill_alternatives_excludes(
    alts: Seq<Seq<char>>,
    fresh: Seq<Seq<char>>,
    primary: Seq<char>,
    ids: Seq<Seq<char>>,
)
    requires
        excludes_and_drawn_from(alts, primary, ids),
        forall|i: int| 0 <= i < fresh.len() ==> ids.contains(#[trigger] fresh[i]),
    ensures
        excludes_and_drawn_from(fill_alternatives(alts, fresh, primary), primary, ids),
    decreases fresh.len(),
{
    if alts.len() < MAX_ALTERNATIVES && fresh.len() > 0 {
        let id = fresh[0];
        let next = if id != primary && !alts.contains(id) {
            alts.push(id)
        } else {
            alts
        };
        assert(ids.contains(fresh[0]));
        assert forall|i: int| 0 <= i < next.len() implies #[trigger] next[i] != primary
            && ids.contains(next[i]) by {
            if i < alts.len() {
                assert(next[i] == alts[i]);
            }
        }
        assert forall|i: int| 0 <= i < fresh.drop_first().len() implies ids.contains(
            #[trigger] fresh.drop_first()[i],
        ) by {
            assert(fresh.drop_first()[i] == fresh[i + 1]);
        }
        lemma_fill_alternatives_excludes(next, fresh.drop_first(), primary, ids);
    }
}

/// Re-ranking returns at most two alternatives; none of them is the new
/// primary, and each is one of the fresh candidates.
pub proof fn lemma_reranked_alternatives_well_formed(
    history: Seq<Seq<char>>,
    ids: Seq<Seq<char>>,
    primary: Seq<char>,
)
    requires
        ids.len() >= MIN_FRESH_WINDOW,
    ensures
        reranked_alternatives(history, ids, primary).len() <= MAX_ALTERNATIVES,
        excludes_and_drawn_from(reranked_alternatives(history, ids, primary), primary, ids),
{
    lemma_kept_alternatives_excludes(history, ids, primary);
    assert forall|i: int| 0 <= i < ids.len() implies ids.contains(#[trigger] ids[i]) by {}
    lemma_fill_alternatives_excludes(kept_alternatives(history, ids, primary), ids, primary, ids);
    let f = fill_alternatives(kept_alternatives(history, ids, primary), ids, primary);
    let r = first_two(f);
    assert forall|i: int| 0 <= i < r.len() implies #[trigger] r[i] != primary && ids.contains(r[i]) by {
        assert(r[i] == f[i]);
    }
}

/// The primary chosen by re-ranking is always one of the fresh candidates;
/// it is the previous primary exactly when that one is kept (and then
/// sticky), the top fresh candidate otherwise (and then tentative).
pub proof fn lemma_reranked_primary_is_fresh(
    ids: Seq<Seq<char>>,
    previous: Seq<char>,
    status: PrimaryCardStatus,
)
    requires
        ids.len() >= MIN_FRESH_WINDOW,
    ensures
        ids.contains(reranked_primary(ids, previous, status)),
        reranked_status(ids, previous, status) == PrimaryCardStatus::Sticky <==> reranked_primary(
            ids,
            previous,
            status,
        ) == previous && primary_retained(ids, previous, status),
        reranked_status(ids, previous, status) == PrimaryCardStatus::Tentative ==> reranked_primary(
            ids,
            previous,
            status,
        ) == ids[0],
{
    let top = ids.take(retention_window(status));
    if top.contains(previous) {
        let k = choose|k: int| 0 <= k < top.len() && top[k] == previous;
        assert(ids[k] == previous);
    } else {
        assert(ids[0] == ids[0]);
    }
}


/// Earlier alternatives still eligible against `ids` beside `primary`.
pub open spec fn eligible_history(ids: Seq<Seq<char>>, primary: Seq<char>) -> spec_fn(Seq<char>) -> bool {
    |a: Seq<char>| ids.take(ALTERNATIVE_ELIGIBILITY_WINDOW as int).contains(a) && a != primary
}

/// Fresh ids that may fill a free alternative slot beside `primary` and `kept`.
pub open spec fn fill_candidate(kept: Seq<Seq<char>>, primary: Seq<char>) -> spec_fn(Seq<char>) -> bool {
    |id: Seq<char>| id != primary && !kept.contains(id)
}

/// No element of `s` occurs twice.
pub open spec fn all_distinct(s: Seq<Seq<char>>) -> bool {
    forall|i: int, j: int| 0 <= i < j < s.len() ==> s[i] != s[j]
}

proof fn lemma_kept_alternatives_is_filter(
    history: Seq<Seq<char>>,
    ids: Seq<Seq<char>>,
    primary: Seq<char>,
)
    ensures
        kept_alternatives(history, ids, primary) == history.filter(eligible_history(ids, primary)),
    decreases history.len(),
{
    reveal(Seq::filter);
    if history.len() > 0 {
        lemma_kept_alternatives_is_filter(history.drop_last(), ids, primary);
    }
}

proof fn lemma_no_dup_distinct(ids: Seq<Seq<char>>)
    requires
        !has_dup(ids),
    ensures
        all_distinct(ids),
{
    assert forall|i: int, j: int| 0 <= i < j < ids.len() implies ids[i] != ids[j] by {
        assert(!dup_at(ids, j));
        assert(ids.take(j)[i] == ids[i]);
    }
}

proof fn lemma_fill_alternatives_is_filter(
    alts: Seq<Seq<char>>,
    fresh: Seq<Seq<char>>,
    primary: Seq<char>,
    kept: Seq<Seq<char>>,
)
    requires
        all_distinct(fresh),
        forall|i: int| 0 <= i < fresh.len() ==> (alts.contains(#[trigger] fresh[i]) <==> kept.contains(fresh[i])),
    ensures
        first_two(fill_alternatives(alts, fresh, primary)) == first_two(
            alts + fresh.filter(fill_candidate(kept, primary)),
        ),
    decreases fresh.len(),
{
    let pred = fill_candidate(kept, primary);
    if fresh.len() == 0 {
        assert(fresh.filter(pred) =~= Seq::<Seq<char>>::empty()) by {
            reveal(Seq::filter);
        }
        assert(alts + fresh.filter(pred) =~= alts);
    } else if alts.len() >= MAX_ALTERNATIVES {
        let all = alts + fresh.filter(pred);
        assert(first_two(all) =~= first_two(alts));
    } else {
        let id = fresh[0];
        let rest = fresh.drop_first();
        assert(fresh =~= seq![id] + rest);
        rest.lemma_filter_prepend(id, pred);
        assert(alts.contains(id) <==> kept.contains(id));
        let next = if id != primary && !alts.contains(id) {
            alts.push(id)
        } else {
            alts
        };
        assert forall|i: int| 0 <= i < rest.len() implies (next.contains(#[trigger] rest[i])
            <==> kept.contains(rest[i])) by {
            assert(rest[i] == fresh[i + 1]);
            assert(fresh[0] != fresh[i + 1]);
            if next.contains(rest[i]) && !alts.contains(rest[i]) {
                let k = choose|k: int| 0 <= k < next.len() && next[k] == rest[i];
                assert(k == alts.len());
            }
            if alts.contains(rest[i]) {
                let k = choose|k: int| 0 <= k < alts.len() && alts[k] == rest[i];
                assert(next[k] == rest[i]);
            }
        }
        assert forall|i: int, j: int| 0 <= i < j < rest.len() implies rest[i] != rest[j] by {
            assert(rest[i] == fresh[i + 1]);
            assert(rest[j] == fresh[j + 1]);
        }
        lemma_fill_alternatives_is_filter(next, rest, primary, kept);
        if pred(id) {
            assert(next + rest.filter(pred) =~= alts + fresh.filter(pred));
        } else {
            assert(next == alts);
            assert(fresh.filter(pred) =~= rest.filter(pred));
        }
    }
}

/// The alternatives chosen by re-ranking, in the form of two filters over
/// fresh candidates without repeats: the earlier alternatives, in their
/// order, that rank within the eligibility window and differ from the new
/// primary; then the fresh candidates, in rank order, that are neither the
/// primary nor among those kept; of all these, the first two.
pub proof fn lemma_reranked_alternatives_filter_form(
    history: Seq<Seq<char>>,
    ids: Seq<Seq<char>>,
    primary: Seq<char>,
)
    requires
        !has_dup(ids),
    ensures
        ({
            let kept = history.filter(eligible_history(ids, primary));
            reranked_alternatives(history, ids, primary) == first_two(
                kept + ids.filter(fill_candidate(kept, primary)),
            )
        }),
{
    lemma_kept_alternatives_is_filter(history, ids, primary);
    lemma_no_dup_distinct(ids);
    let kept = history.filter(eligible_history(ids, primary));
    lemma_fill_alternatives_is_filter(kept, ids, primary, kept);
}

} // verus!
