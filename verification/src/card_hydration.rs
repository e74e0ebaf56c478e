use vstd::prelude::*;

use crate::json::text_eq;
use crate::shared_types::{
    candidate_ids, copy_card, same_card, CandidateCardRetrievalOutput, CardHydrationOutput,
    IncidentCard,
};

verus! {

/// Failure reported by the incident card store.
#[derive(Clone, Debug, PartialEq, Eq)]
pub enum IncidentCardStoreError {
    Query(String),
    Decode(String),
}

/// Ways card hydration fails.
#[derive(Clone, Debug, PartialEq, Eq)]
pub enum CardHydrationError {
    MissingCard { case_id: String },
    Store(IncidentCardStoreError),
}

/// The case ids to fetch: the primary's first, then the alternatives' in
/// order.
pub open spec fn requested_ids(c: CandidateCardRetrievalOutput) -> Seq<Seq<char>> {
    match c.primary {
        Some(p) => seq![p.case_id@] + candidate_ids(c.alternatives@),
        None => candidate_ids(c.alternatives@),
    }
}

/// The card the store returned for `id`: the last one with that case id.
pub open spec fn card_lookup(cards: Seq<IncidentCard>, id: Seq<char>) -> Option<IncidentCard>
    decreases cards.len(),
{
    if cards.len() == 0 {
        None
    } else if cards.last().case_id@ == id {
        Some(cards.last())
    } else {
        card_lookup(cards.drop_last(), id)
    }
}

/// The first of `ids` for which the store returned no card.
pub open spec fn first_missing(ids: Seq<Seq<char>>, cards: Seq<IncidentCard>) -> Option<Seq<char>>
    decreases ids.len(),
{
    if ids.len() == 0 {
        None
    } else if card_lookup(cards, ids[0]) is None {
        Some(ids[0])
    } else {
        first_missing(ids.drop_first(), cards)
    }
}

/// `h` holds a copy of the returned card for `id`.
pub open spec fn hydrated_as(h: IncidentCard, cards: Seq<IncidentCard>, id: Seq<char>) -> bool {
    card_lookup(cards, id) matches Some(c) && same_card(h, c)
}

/// `out` is the hydration of `c` from the returned `cards`: each candidate
/// replaced, in place and in order, by its card.
pub open spec fn is_hydration(
    out: CardHydrationOutput,
    c: CandidateCardRetrievalOutput,
    cards: Seq<IncidentCard>,
) -> bool {
    &&& match c.primary {
        Some(p) => out.primary matches Some(h) && hydrated_as(h, cards, p.case_id@),
        None => out.primary is None,
    }
    &&& out.alternatives@.len() == c.alternatives@.len()
    &&& forall|i: int|
        0 <= i < c.alternatives@.len() ==> hydrated_as(
            #[trigger] out.alternatives@[i],
            cards,
            c.alternatives@[i].case_id@,
        )
}

proof fn lemma_card_lookup_at(cards: Seq<IncidentCard>, id: Seq<char>, k: int)
    requires
        0 <= k < cards.len(),
        cards[k].case_id@ == id,
        forall|j: int| k < j < cards.len() ==> (#[trigger] cards[j]).case_id@ != id,
    ensures
        card_lookup(cards, id) == Some(cards[k]),
    decreases cards.len(),
{
    if k < cards.len() - 1 {
        let rest = cards.drop_last();
        assert forall|j: int| k < j < rest.len() implies (#[trigger] rest[j]).case_id@ != id by {
            assert(rest[j] == cards[j]);
        }
        lemma_card_lookup_at(rest, id, k);
    }
}

proof fn lemma_card_lookup_none(cards: Seq<IncidentCard>, id: Seq<char>)
    requires
        forall|j: int| 0 <= j < cards.len() ==> (#[trigger] cards[j]).case_id@ != id,
    ensures
        card_lookup(cards, id) is None,
    decreases cards.len(),
{
    if cards.len() > 0 {
        let rest = cards.drop_last();
        assert forall|j: int| 0 <= j < rest.len() implies (#[trigger] rest[j]).case_id@ != id by {
            assert(rest[j] == cards[j]);
        }
        lemma_card_lookup_none(rest, id);
    }
}

proof fn lemma_first_missing_at(ids: Seq<Seq<char>>, cards: Seq<IncidentCard>, i: int)
    requires
        0 <= i < ids.len(),
        forall|j: int| 0 <= j < i ==> card_lookup(cards, #[trigger] ids[j]) is Some,
        card_lookup(cards, ids[i]) is None,
    ensures
        first_missing(ids, cards) == Some(ids[i]),
    decreases i,
{
    if i > 0 {
        let rest = ids.drop_first();
        assert(card_lookup(cards, ids[0]) is Some);
        assert forall|j: int| 0 <= j < i - 1 implies card_lookup(cards, #[trigger] rest[j]) is Some by {
            assert(rest[j] == ids[j + 1]);
        }
        lemma_first_missing_at(rest, cards, i - 1);
    }
}

proof fn lemma_none_missing(ids: Seq<Seq<char>>, cards: Seq<IncidentCard>)
    requires
        forall|j: int| 0 <= j < ids.len() ==> card_lookup(cards, #[trigger] ids[j]) is Some,
    ensures
        first_missing(ids, cards) is None,
    decreases ids.len(),
{
    if ids.len() > 0 {
        let rest = ids.drop_first();
        assert(card_lookup(cards, ids[0]) is Some);
        assert forall|j: int| 0 <= j < rest.len() implies card_lookup(cards, #[trigger] rest[j]) is Some by {
            assert(rest[j] == ids[j + 1]);
        }
        lemma_none_missing(rest, cards);
    }
}

/// The returned card for `id`, copied.
fn lookup_card(cards: &Vec<IncidentCard>, id: &String) -> (r: Option<IncidentCard>)
    ensures
        match card_lookup(cards@, id@) {
            None => r is None,
            Some(c) => r matches Some(h) && same_card(h, c),
        },
{
    let mut k: usize = cards.len();
    while k > 0
        invariant
            k <= cards@.len(),
            forall|j: int| k <= j < cards@.len() ==> (#[trigger] cards@[j]).case_id@ != id@,
        decreases k,
    {
        if text_eq(cards[k - 1].case_id.as_str(), id.as_str()) {
            proof {
                lemma_card_lookup_at(cards@, id@, k - 1);
            }
            return Some(copy_card(&cards[k - 1]));
        }
        k = k - 1;
    }
    proof {
        lemma_card_lookup_none(cards@, id@);
    }
    None
}

/// Replaces the retrieved candidates by their full incident cards, fetched
/// from the card store in one call.
#[derive(Debug)]
pub struct CardHydration {}

impl CardHydration {
    /// A card hydration step.
    pub fn new() -> (r: Self) {
        CardHydration {  }
    }

    /// The case ids to ask the store for, primary first; `None` when there
    /// is no candidate and the store is not called.
    pub fn requested_case_ids(&self, candidates: &CandidateCardRetrievalOutput) -> (r: Option<
        Vec<String>,
    >)
        ensures
            match r {
                None => candidates.primary is None && candidates.alternatives@.len() == 0,
                Some(ids) => !(candidates.primary is None && candidates.alternatives@.len() == 0)
                    && crate::shared_types::string_views(ids@) == requested_ids(*candidates),
            },
    {
        if candidates.primary.is_none() && candidates.alternatives.len() == 0 {
            return None;
        }
        let mut ids: Vec<String> = Vec::new();
        let ghost mut expected: Seq<Seq<char>> = Seq::empty();
        if let Some(p) = &candidates.primary {
            ids.push(p.case_id.clone());
            proof {
                expected = seq![p.case_id@];
            }
        }
        assert(crate::shared_types::string_views(ids@) =~= expected);
        let mut i: usize = 0;
        while i < candidates.alternatives.len()
            invariant
                i <= candidates.alternatives@.len(),
                crate::shared_types::string_views(ids@) == expected + candidate_ids(
                    candidates.alternatives@.take(i as int),
                ),
                expected == match candidates.primary {
                    Some(p) => seq![p.case_id@],
                    None => Seq::<Seq<char>>::empty(),
                },
            decreases candidates.alternatives@.len() - i,
        {
            let ghost before = ids@;
            ids.push(candidates.alternatives[i].case_id.clone());
            assert(crate::shared_types::string_views(ids@) =~= crate::shared_types::string_views(
                before,
            ).push(candidates.alternatives@[i as int].case_id@));
            assert(candidate_ids(candidates.alternatives@.take(i + 1)) =~= candidate_ids(
                candidates.alternatives@.take(i as int),
            ).push(candidates.alternatives@[i as int].case_id@));
            assert(crate::shared_types::string_views(ids@) =~= expected + candidate_ids(
                candidates.alternatives@.take(i + 1),
            ));
            i = i + 1;
        }
        assert(candidates.alternatives@.take(candidates.alternatives@.len() as int)
            =~= candidates.alternatives@);
        assert(expected + candidate_ids(candidates.alternatives@) =~= requested_ids(*candidates));
        Some(ids)
    }

    /// Matches the cards the store returned to the candidates: the first
    /// requested case id without a card is reported missing; otherwise each
    /// candidate gets its card, primary and alternatives kept apart and in
    /// order.
    pub fn assemble(&self, candidates: &CandidateCardRetrievalOutput, cards: &Vec<IncidentCard>) -> (r:
        Result<CardHydrationOutput, CardHydrationError>)
        ensures
            match first_missing(requested_ids(*candidates), cards@) {
                Some(id) => r matches Err(CardHydrationError::MissingCard { case_id }) && case_id@
                    == id,
                None => r matches Ok(out) && is_hydration(out, *candidates, cards@),
            },
    {
        let ghost ids = requested_ids(*candidates);
        let ghost offset: int = if candidates.primary is Some {
            1
        } else {
            0
        };
        let primary = match &candidates.primary {
            Some(p) => {
                match lookup_card(cards, &p.case_id) {
                    None => {
                        proof {
                            lemma_first_missing_at(ids, cards@, 0);
                        }
                        return Err(CardHydrationError::MissingCard { case_id: p.case_id.clone() });
                    },
                    Some(h) => Some(h),
                }
            },
            None => None,
        };
        let mut alternatives: Vec<IncidentCard> = Vec::new();
        let mut i: usize = 0;
        while i < candidates.alternatives.len()
            invariant
                ids == requested_ids(*candidates),
                offset == (if candidates.primary is Some {
                    1int
                } else {
                    0int
                }),
                ids.len() == offset + candidates.alternatives@.len(),
                forall|j: int|
                    0 <= j < candidates.alternatives@.len() ==> ids[offset + j]
                        == (#[trigger] candidates.alternatives@[j]).case_id@,
                forall|j: int| 0 <= j < offset ==> card_lookup(cards@, #[trigger] ids[j]) is Some,
                i <= candidates.alternatives@.len(),
                alternatives@.len() == i,
                forall|j: int|
                    0 <= j < i ==> hydrated_as(
                        #[trigger] alternatives@[j],
                        cards@,
                        candidates.alternatives@[j].case_id@,
                    ),
            decreases candidates.alternatives@.len() - i,
        {
            let id = &candidates.alternatives[i].case_id;
            match lookup_card(cards, id) {
                None => {
                    proof {
                        assert forall|j: int| 0 <= j < offset + i implies card_lookup(
                            cards@,
                            #[trigger] ids[j],
                        ) is Some by {
                            if j >= offset {
                                assert(ids[j] == candidates.alternatives@[j - offset].case_id@);
                                assert(hydrated_as(
                                    alternatives@[j - offset],
                                    cards@,
                                    candidates.alternatives@[j - offset].case_id@,
                                ));
                            }
                        }
                        lemma_first_missing_at(ids, cards@, offset + i);
                    }
                    return Err(CardHydrationError::MissingCard { case_id: id.clone() });
                },
                Some(h) => {
                    alternatives.push(h);
                },
            }
            i = i + 1;
        }
        proof {
            assert forall|j: int| 0 <= j < ids.len() implies card_lookup(
                cards@,
                #[trigger] ids[j],
            ) is Some by {
                if j >= offset {
                    assert(ids[j] == candidates.alternatives@[j - offset].case_id@);
                    assert(hydrated_as(
                        alternatives@[j - offset],
                        cards@,
                        candidates.alternatives@[j - offset].case_id@,
                    ));
                }
            }
            lemma_none_missing(ids, cards@);
        }
        Ok(CardHydrationOutput { primary, alternatives })
    }

    /// The hydration result for what the store answered: its error wrapped,
    /// or the assembly of the returned cards.
    pub fn on_store_result(
        &self,
        candidates: &CandidateCardRetrievalOutput,
        result: Result<Vec<IncidentCard>, IncidentCardStoreError>,
    ) -> (r: Result<CardHydrationOutput, CardHydrationError>)
        ensures
            match result {
                Err(e) => r == Err::<CardHydrationOutput, _>(CardHydrationError::Store(e)),
                Ok(cards) => match first_missing(requested_ids(*candidates), cards@) {
                    Some(id) => r matches Err(CardHydrationError::MissingCard { case_id }) && case_id@
                        == id,
                    None => r matches Ok(out) && is_hydration(out, *candidates, cards@),
                },
            },
    {
        match result {
            Err(e) => Err(CardHydrationError::Store(e)),
            Ok(cards) => self.assemble(candidates, &cards),
        }
    }
}


proof fn lemma_card_lookup_id(cards: Seq<IncidentCard>, id: Seq<char>)
    ensures
        card_lookup(cards, id) matches Some(c) ==> c.case_id@ == id,
    decreases cards.len(),
{
    if cards.len() > 0 && cards.last().case_id@ != id {
        lemma_card_lookup_id(cards.drop_last(), id);
    }
}

/// Hydration keeps the partition of the candidates: the hydrated primary
/// card is the primary candidate's case, and the hydrated alternatives are
/// the alternative candidates' cases, in the same order.
pub proof fn lemma_hydration_keeps_partition(
    out: CardHydrationOutput,
    c: CandidateCardRetrievalOutput,
    cards: Seq<IncidentCard>,
)
    requires
        is_hydration(out, c, cards),
    ensures
        match c.primary {
            Some(p) => out.primary matches Some(h) && h.case_id@ == p.case_id@,
            None => out.primary is None,
        },
        out.alternatives@.len() == c.alternatives@.len(),
        forall|i: int|
            0 <= i < c.alternatives@.len() ==> (#[trigger] out.alternatives@[i]).case_id@
                == c.alternatives@[i].case_id@,
{
    if let Some(p) = c.primary {
        lemma_card_lookup_id(cards, p.case_id@);
    }
    assert forall|i: int| 0 <= i < c.alternatives@.len() implies (#[trigger] out.alternatives@[i]).case_id@
        == c.alternatives@[i].case_id@ by {
        assert(hydrated_as(out.alternatives@[i], cards, c.alternatives@[i].case_id@));
        lemma_card_lookup_id(cards, c.alternatives@[i].case_id@);
    }
}

} // verus!
