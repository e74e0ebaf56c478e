use vstd::prelude::*;

use crate::shared_types::{
    candidate_ids, CandidateCard, CandidateCardRetrievalOutput, CollectionRetrievalSettings,
};

verus! {

/// Failure reported by the cards collection.
#[derive(Clone, Debug, PartialEq, Eq)]
pub enum CardsCollectionError {
    InvalidRequest(String),
    Unavailable(String),
}

/// Ways candidate card retrieval fails.
#[derive(Clone, Debug, PartialEq, Eq)]
pub enum CandidateCardRetrievalError {
    InvalidConfiguration(String),
    Collection(CardsCollectionError),
    MetricsComputation(String),
}

/// One hit of a card search.
#[derive(Clone, Debug, PartialEq, Eq)]
pub struct CardSearchHit {
    pub case_id: String,
    pub score_bits: u32,
}

/// The search sent to the cards collection.
#[derive(Clone, Debug, PartialEq, Eq)]
pub struct CardSearchRequest {
    pub user_query: String,
    pub limit: usize,
    pub score_threshold_bits: u32,
}

/// Exponent field of a single-precision float.
pub open spec fn float_exponent(bits: u32) -> u32 {
    (bits >> 23u32) & 0xffu32
}

/// Mantissa field of a single-precision float.
pub open spec fn float_mantissa(bits: u32) -> u32 {
    bits & 0x7f_ffffu32
}

/// The float is a NaN.
pub open spec fn float_is_nan(bits: u32) -> bool {
    float_exponent(bits) == 0xff && float_mantissa(bits) != 0
}

/// The float is an infinity.
pub open spec fn float_is_infinite(bits: u32) -> bool {
    float_exponent(bits) == 0xff && float_mantissa(bits) == 0
}

/// The float compares below zero (`x < 0.0`): a negative sign, and neither
/// a NaN nor negative zero.
pub open spec fn float_is_below_zero(bits: u32) -> bool {
    &&& (bits >> 31u32) == 1
    &&& !float_is_nan(bits)
    &&& !(float_exponent(bits) == 0 && float_mantissa(bits) == 0)
}

/// Whether the float with bit pattern `bits` compares below zero.
pub fn below_zero(bits: u32) -> (r: bool)
    ensures
        r == float_is_below_zero(bits),
{
    let exponent = (bits >> 23u32) & 0xffu32;
    let mantissa = bits & 0x7f_ffffu32;
    (bits >> 31u32) == 1 && !(exponent == 0xff && mantissa != 0) && !(exponent == 0 && mantissa == 0)
}

/// Whether the float with bit pattern `bits` is a NaN.
pub fn is_nan(bits: u32) -> (r: bool)
    ensures
        r == float_is_nan(bits),
{
    ((bits >> 23u32) & 0xffu32) == 0xff && (bits & 0x7f_ffffu32) != 0
}

/// Whether the float with bit pattern `bits` is an infinity.
pub fn is_infinite(bits: u32) -> (r: bool)
    ensures
        r == float_is_infinite(bits),
{
    ((bits >> 23u32) & 0xffu32) == 0xff && (bits & 0x7f_ffffu32) == 0
}

/// What is wrong with the settings, if anything, checked in this order.
pub open spec fn retrieval_settings_problem(s: CollectionRetrievalSettings) -> Option<Seq<char>> {
    if s.top_k == 0 {
        Some("top_k must be greater than 0"@)
    } else if s.top_k < 1 + s.max_alternatives {
        Some("top_k must be at least 1 + max_alternatives"@)
    } else if float_is_below_zero(s.score_threshold_bits) {
        Some("score_threshold must not be negative"@)
    } else if float_is_nan(s.score_threshold_bits) {
        Some("score_threshold must not be NaN"@)
    } else if float_is_infinite(s.score_threshold_bits) {
        Some("score_threshold must not be infinite"@)
    } else if s.max_alternatives > 2 {
        Some("max_alternatives must not exceed 2"@)
    } else {
        None
    }
}

/// The candidates of a non-empty hit list: the first hit is the primary,
/// the next `max_alternatives` hits (or fewer) are the alternatives.
pub open spec fn selected_alternatives(hits: Seq<CardSearchHit>, max_alternatives: int) -> Seq<
    CardSearchHit,
> {
    let end = if hits.len() < 1 + max_alternatives {
        hits.len() as int
    } else {
        1 + max_alternatives
    };
    hits.subrange(1, end)
}

/// `c` is the candidate card of hit `h`.
pub open spec fn card_of_hit(c: CandidateCard, h: CardSearchHit) -> bool {
    c.case_id@ == h.case_id@ && c.score_bits == h.score_bits
}

/// `cs` are the candidate cards of `hs`, in order.
pub open spec fn cards_of_hits(cs: Seq<CandidateCard>, hs: Seq<CardSearchHit>) -> bool {
    cs.len() == hs.len() && forall|i: int| 0 <= i < hs.len() ==> card_of_hit(#[trigger] cs[i], hs[i])
}

/// `out` is what the hits `hits` give with at most `max_alternatives`
/// alternatives: nothing for no hits; otherwise the first hit as primary,
/// the following hits as alternatives, and both, in order, as the ranking.
pub open spec fn is_selection(
    out: CandidateCardRetrievalOutput,
    hits: Seq<CardSearchHit>,
    max_alternatives: int,
) -> bool {
    if hits.len() == 0 {
        out.primary is None && out.alternatives@.len() == 0 && out.ranked_candidates@.len() == 0
    } else {
        let alts = selected_alternatives(hits, max_alternatives);
        &&& out.primary matches Some(p) && card_of_hit(p, hits[0])
        &&& cards_of_hits(out.alternatives@, alts)
        &&& cards_of_hits(out.ranked_candidates@, seq![hits[0]] + alts)
    }
}

/// Finds the incident cards closest to the user's query: one search of the
/// cards collection, whose first hit becomes the primary card.
#[derive(Debug)]
pub struct CandidateCardRetrieval {
    top_k: usize,
    max_alternatives: usize,
    score_threshold_bits: u32,
}

impl CandidateCardRetrieval {
    /// Checks the settings in the order of `retrieval_settings_problem`.
    pub fn new(settings: CollectionRetrievalSettings) -> (r: Result<Self, CandidateCardRetrievalError>)
        ensures
            match retrieval_settings_problem(settings) {
                Some(m) => r matches Err(CandidateCardRetrievalError::InvalidConfiguration(x)) && x@
                    == m,
                None => r matches Ok(s) && s.settings() == settings,
            },
    {
        if settings.top_k == 0 {
            return Err(
                CandidateCardRetrievalError::InvalidConfiguration(
                    "top_k must be greater than 0".to_owned(),
                ),
            );
        }
        if settings.top_k <= settings.max_alternatives {
            return Err(
                CandidateCardRetrievalError::InvalidConfiguration(
                    "top_k must be at least 1 + max_alternatives".to_owned(),
                ),
            );
        }
        if below_zero(settings.score_threshold_bits) {
            return Err(
                CandidateCardRetrievalError::InvalidConfiguration(
                    "score_threshold must not be negative".to_owned(),
                ),
            );
        }
        if is_nan(settings.score_threshold_bits) {
            return Err(
                CandidateCardRetrievalError::InvalidConfiguration(
                    "score_threshold must not be NaN".to_owned(),
                ),
            );
        }
        if is_infinite(settings.score_threshold_bits) {
            return Err(
                CandidateCardRetrievalError::InvalidConfiguration(
                    "score_threshold must not be infinite".to_owned(),
                ),
            );
        }
        if settings.max_alternatives > 2 {
            return Err(
                CandidateCardRetrievalError::InvalidConfiguration(
                    "max_alternatives must not exceed 2".to_owned(),
                ),
            );
        }
        Ok(
            CandidateCardRetrieval {
                top_k: settings.top_k,
                max_alternatives: settings.max_alternatives,
                score_threshold_bits: settings.score_threshold_bits,
            },
        )
    }

    /// The settings in use.
    pub closed spec fn settings(&self) -> CollectionRetrievalSettings {
        CollectionRetrievalSettings {
            top_k: self.top_k,
            max_alternatives: self.max_alternatives,
            score_threshold_bits: self.score_threshold_bits,
        }
    }

    /// The search for `query`: the query unchanged, `top_k` as the limit and
    /// the score threshold.
    pub fn search_request(&self, query: &str) -> (req: CardSearchRequest)
        ensures
            req.user_query@ == query@,
            req.limit == self.settings().top_k,
            req.score_threshold_bits == self.settings().score_threshold_bits,
    {
        CardSearchRequest {
            user_query: query.to_owned(),
            limit: self.top_k,
            score_threshold_bits: self.score_threshold_bits,
        }
    }

    /// Splits the hits, best first, into the primary card and at most
    /// `max_alternatives` alternatives.
    pub fn select_candidates(&self, hits: Vec<CardSearchHit>) -> (out: CandidateCardRetrievalOutput)
        ensures
            is_selection(out, hits@, self.settings().max_alternatives as int),
    {
        if hits.len() == 0 {
            return CandidateCardRetrievalOutput {
                ranked_candidates: Vec::new(),
                primary: None,
                alternatives: Vec::new(),
            };
        }
        let ghost alts = selected_alternatives(hits@, self.max_alternatives as int);
        let end: usize = if hits.len() - 1 < self.max_alternatives {
            hits.len()
        } else {
            1 + self.max_alternatives
        };
        let primary = CandidateCard { case_id: hits[0].case_id.clone(), score_bits: hits[0].score_bits };
        let mut ranked: Vec<CandidateCard> = Vec::new();
        ranked.push(CandidateCard { case_id: hits[0].case_id.clone(), score_bits: hits[0].score_bits });
        let mut alternatives: Vec<CandidateCard> = Vec::new();
        let mut i: usize = 1;
        while i < end
            invariant
                1 <= i <= end,
                end <= hits@.len(),
                alts == hits@.subrange(1, end as int),
                alternatives@.len() == i - 1,
                ranked@.len() == i,
                card_of_hit(ranked@[0], hits@[0]),
                forall|j: int| 0 <= j < i - 1 ==> card_of_hit(#[trigger] alternatives@[j], alts[j]),
                forall|j: int| 1 <= j < i ==> card_of_hit(#[trigger] ranked@[j], alts[j - 1]),
            decreases end - i,
        {
            alternatives.push(
                CandidateCard { case_id: hits[i].case_id.clone(), score_bits: hits[i].score_bits },
            );
            ranked.push(CandidateCard { case_id: hits[i].case_id.clone(), score_bits: hits[i].score_bits });
            i = i + 1;
        }
        CandidateCardRetrievalOutput { ranked_candidates: ranked, primary: Some(primary), alternatives }
    }

    /// The retrieval result for what the collection answered: its error
    /// wrapped, or the selection of its hits.
    pub fn on_search_result(
        &self,
        result: Result<Vec<CardSearchHit>, CardsCollectionError>,
    ) -> (r: Result<CandidateCardRetrievalOutput, CandidateCardRetrievalError>)
        ensures
            match result {
                Err(e) => r == Err::<CandidateCardRetrievalOutput, _>(
                    CandidateCardRetrievalError::Collection(e),
                ),
                Ok(hits) => r matches Ok(out) && is_selection(
                    out,
                    hits@,
                    self.settings().max_alternatives as int,
                ),
            },
    {
        match result {
            Err(e) => Err(CandidateCardRetrievalError::Collection(e)),
            Ok(hits) => Ok(self.select_candidates(hits)),
        }
    }
}


/// A selection holds at most `max_alternatives` alternatives, fewer than
/// the hits; its ranking is the primary card followed by the alternatives
/// (same case ids and scores, in order).
pub proof fn lemma_selection_ranking(
    out: CandidateCardRetrievalOutput,
    hits: Seq<CardSearchHit>,
    max_alternatives: int,
)
    requires
        is_selection(out, hits, max_alternatives),
        0 <= max_alternatives,
    ensures
        out.alternatives@.len() <= max_alternatives,
        out.alternatives@.len() < hits.len() || hits.len() == 0,
        match out.primary {
            Some(p) => out.ranked_candidates@.len() == 1 + out.alternatives@.len()
                && out.ranked_candidates@[0].case_id@ == p.case_id@
                && out.ranked_candidates@[0].score_bits == p.score_bits
                && forall|i: int| 0 <= i < out.alternatives@.len() ==> (#[trigger] out.alternatives@[i]).case_id@
                    == out.ranked_candidates@[i + 1].case_id@ && out.alternatives@[i].score_bits
                    == out.ranked_candidates@[i + 1].score_bits,
            None => out.ranked_candidates@.len() == 0 && out.alternatives@.len() == 0,
        },
{
    if hits.len() > 0 {
        let alts = selected_alternatives(hits, max_alternatives);
        let ranked = seq![hits[0]] + alts;
        assert(ranked[0] == hits[0]);
        assert(card_of_hit(out.ranked_candidates@[0], hits[0]));
        assert forall|i: int| 0 <= i < out.alternatives@.len() implies (#[trigger] out.alternatives@[i]).case_id@
            == out.ranked_candidates@[i + 1].case_id@ && out.alternatives@[i].score_bits
            == out.ranked_candidates@[i + 1].score_bits by {
            assert(ranked[i + 1] == alts[i]);
            assert(card_of_hit(out.alternatives@[i], alts[i]));
            assert(card_of_hit(out.ranked_candidates@[i + 1], ranked[i + 1]));
        }
    }
}

} // verus!
