use vstd::prelude::*;

use crate::shared_types::{
    candidate_ids, string_views, CandidateCardRetrievalOutput, CollectionRetrievalSettings,
    IncidentEvidenceChunk, IncidentEvidenceRetrievalOutput,
};

verus! {

/// Failure reported by the practice chunks collection.
#[derive(Clone, Debug, PartialEq, Eq)]
pub enum PracticeChunksCollectionError {
    InvalidRequest(String),
    Unavailable(String),
}

/// Ways incident evidence retrieval fails.
#[derive(Clone, Debug, PartialEq, Eq)]
pub enum IncidentEvidenceRetrievalError {
    InvalidSettings(String),
    Collection(PracticeChunksCollectionError),
    MetricsComputation(String),
}

/// A search of the practice chunks collection, restricted to some cases and
/// some chunk tags.
#[derive(Clone, Debug, PartialEq, Eq)]
pub struct PracticeChunkSearchRequest {
    pub user_query: String,
    pub case_ids: Vec<String>,
    pub chunk_tags: Vec<String>,
    pub limit: usize,
    pub score_threshold_bits: u32,
}

/// One hit of a practice chunk search.
#[derive(Clone, Debug, PartialEq, Eq)]
pub struct PracticeChunkSearchHit {
    pub chunk_id: String,
    pub case_id: String,
    pub score_bits: u32,
    pub chunk_tags: Vec<String>,
    pub text: String,
}

/// The searches to run, in order: the primary card's, then the
/// alternatives'.
#[derive(Clone, Debug, PartialEq, Eq)]
pub struct EvidenceSearchPlan {
    pub primary: Option<PracticeChunkSearchRequest>,
    pub alternatives: Option<PracticeChunkSearchRequest>,
}

/// Chunk tags searched for the primary card: what happened and how it was
/// investigated.
pub open spec fn primary_tag_texts() -> Seq<Seq<char>> {
    seq![
        "chunk_role:symptom"@,
        "chunk_role:impact"@,
        "chunk_role:timeline"@,
        "chunk_role:symptom_change"@,
        "chunk_role:investigation"@,
        "chunk_role:diagnostic_step"@,
        "chunk_role:hypothesis_update"@,
        "chunk_role:recovery"@,
    ]
}

/// Chunk tags searched for the alternative cards: why it happened.
pub open spec fn alternative_tag_texts() -> Seq<Seq<char>> {
    seq![
        "chunk_role:failure_mode"@,
        "chunk_role:root_cause"@,
        "chunk_role:contributing_factor"@,
        "chunk_role:uncertainty"@,
        "chunk_role:lesson"@,
    ]
}

/// The chunk tags searched for the primary card.
pub fn primary_tags() -> (v: Vec<String>)
    ensures
        string_views(v@) == primary_tag_texts(),
{
    let mut v: Vec<String> = Vec::new();
    v.push("chunk_role:symptom".to_owned());
    v.push("chunk_role:impact".to_owned());
    v.push("chunk_role:timeline".to_owned());
    v.push("chunk_role:symptom_change".to_owned());
    v.push("chunk_role:investigation".to_owned());
    v.push("chunk_role:diagnostic_step".to_owned());
    v.push("chunk_role:hypothesis_update".to_owned());
    v.push("chunk_role:recovery".to_owned());
    assert(string_views(v@) =~= primary_tag_texts());
    v
}

/// The chunk tags searched for the alternative cards.
pub fn alternative_tags() -> (v: Vec<String>)
    ensures
        string_views(v@) == alternative_tag_texts(),
{
    let mut v: Vec<String> = Vec::new();
    v.push("chunk_role:failure_mode".to_owned());
    v.push("chunk_role:root_cause".to_owned());
    v.push("chunk_role:contributing_factor".to_owned());
    v.push("chunk_role:uncertainty".to_owned());
    v.push("chunk_role:lesson".to_owned());
    assert(string_views(v@) =~= alternative_tag_texts());
    v
}

/// `r` searches for `query` among the chunks of `case_ids` tagged with one
/// of `tags`, with the limit and threshold of `s`.
pub open spec fn is_search(
    r: PracticeChunkSearchRequest,
    query: Seq<char>,
    case_ids: Seq<Seq<char>>,
    tags: Seq<Seq<char>>,
    s: CollectionRetrievalSettings,
) -> bool {
    &&& r.user_query@ == query
    &&& string_views(r.case_ids@) == case_ids
    &&& string_views(r.chunk_tags@) == tags
    &&& r.limit == s.top_k
    &&& r.score_threshold_bits == s.score_threshold_bits
}

/// `c` is the evidence chunk of hit `h`.
pub open spec fn chunk_of_hit(c: IncidentEvidenceChunk, h: PracticeChunkSearchHit) -> bool {
    &&& c.chunk_id == h.chunk_id
    &&& c.case_id == h.case_id
    &&& c.score_bits == h.score_bits
    &&& c.chunk_tags == h.chunk_tags
    &&& c.text == h.text
}

/// `cs` are the evidence chunks of `hs`, in order.
pub open spec fn chunks_of_hits(cs: Seq<IncidentEvidenceChunk>, hs: Seq<PracticeChunkSearchHit>) -> bool {
    cs.len() == hs.len() && forall|i: int| 0 <= i < hs.len() ==> chunk_of_hit(#[trigger] cs[i], hs[i])
}

/// The hits of a branch that was searched, none for one that was not.
pub open spec fn branch_hits(
    r: Option<Result<Vec<PracticeChunkSearchHit>, PracticeChunksCollectionError>>,
) -> Seq<PracticeChunkSearchHit> {
    match r {
        Some(Ok(hits)) => hits@,
        _ => Seq::empty(),
    }
}

/// Turns search hits into evidence chunks, in order.
pub fn map_hits(hits: Vec<PracticeChunkSearchHit>) -> (chunks: Vec<IncidentEvidenceChunk>)
    ensures
        chunks_of_hits(chunks@, hits@),
{
    let ghost hs = hits@;
    let mut rest = hits;
    let mut rev: Vec<IncidentEvidenceChunk> = Vec::new();
    while rest.len() > 0
        invariant
            rest@.len() + rev@.len() == hs.len(),
            rest@ == hs.take(rest@.len() as int),
            forall|j: int|
                0 <= j < rev@.len() ==> chunk_of_hit(#[trigger] rev@[j], hs[hs.len() - 1 - j]),
        decreases rest@.len(),
    {
        let h = rest.pop().unwrap();
        assert(rest@ =~= hs.take(rest@.len() as int));
        rev.push(
            IncidentEvidenceChunk {
                chunk_id: h.chunk_id,
                case_id: h.case_id,
                score_bits: h.score_bits,
                chunk_tags: h.chunk_tags,
                text: h.text,
            },
        );
    }
    let ghost n = rev@.len();
    let mut chunks: Vec<IncidentEvidenceChunk> = Vec::new();
    while rev.len() > 0
        invariant
            n == hs.len(),
            rev@.len() + chunks@.len() == n,
            forall|j: int|
                0 <= j < rev@.len() ==> chunk_of_hit(#[trigger] rev@[j], hs[n - 1 - j]),
            forall|j: int| 0 <= j < chunks@.len() ==> chunk_of_hit(#[trigger] chunks@[j], hs[j]),
        decreases rev@.len(),
    {
        let ghost k = chunks@.len();
        let c = rev.pop().unwrap();
        assert(chunk_of_hit(c, hs[n - 1 - rev@.len()]));
        chunks.push(c);
    }
    chunks
}

/// Gathers the evidence chunks of the candidate cards: one search for the
/// primary card, one for all alternatives, each with its own tag set.
#[derive(Debug)]
pub struct IncidentEvidenceRetrieval {
    settings: CollectionRetrievalSettings,
}

impl IncidentEvidenceRetrieval {
    /// Refuses a zero `top_k`.
    pub fn new(settings: CollectionRetrievalSettings) -> (r: Result<Self, IncidentEvidenceRetrievalError>)
        ensures
            settings.top_k == 0 ==> (r matches Err(IncidentEvidenceRetrievalError::InvalidSettings(m))
                && m@ == "top_k must be greater than 0"@),
            settings.top_k != 0 ==> (r matches Ok(s) && s.settings() == settings),
    {
        if settings.top_k == 0 {
            return Err(
                IncidentEvidenceRetrievalError::InvalidSettings(
                    "top_k must be greater than 0".to_owned(),
                ),
            );
        }
        Ok(IncidentEvidenceRetrieval { settings })
    }

    /// The settings in use.
    pub closed spec fn settings(&self) -> CollectionRetrievalSettings {
        self.settings
    }

    /// The searches for `query`: the primary card's chunks with the primary
    /// tags when there is a primary card, then all alternatives' chunks, in
    /// their order, with the alternative tags when there are alternatives.
    pub fn plan(&self, query: &str, candidates: &CandidateCardRetrievalOutput) -> (p: EvidenceSearchPlan)
        ensures
            match candidates.primary {
                Some(c) => p.primary matches Some(r) && is_search(
                    r,
                    query@,
                    seq![c.case_id@],
                    primary_tag_texts(),
                    self.settings(),
                ),
                None => p.primary is None,
            },
            if candidates.alternatives@.len() > 0 {
                p.alternatives matches Some(r) && is_search(
                    r,
                    query@,
                    candidate_ids(candidates.alternatives@),
                    alternative_tag_texts(),
                    self.settings(),
                )
            } else {
                p.alternatives is None
            },
    {
        let primary = match &candidates.primary {
            Some(c) => {
                let mut ids: Vec<String> = Vec::new();
                ids.push(c.case_id.clone());
                assert(string_views(ids@) =~= seq![c.case_id@]);
                Some(
                    PracticeChunkSearchRequest {
                        user_query: query.to_owned(),
                        case_ids: ids,
                        chunk_tags: primary_tags(),
                        limit: self.settings.top_k,
                        score_threshold_bits: self.settings.score_threshold_bits,
                    },
                )
            },
            None => None,
        };
        let alternatives = if candidates.alternatives.len() > 0 {
            let mut ids: Vec<String> = Vec::new();
            let mut i: usize = 0;
            while i < candidates.alternatives.len()
                invariant
                    i <= candidates.alternatives@.len(),
                    string_views(ids@) == candidate_ids(candidates.alternatives@.take(i as int)),
                decreases candidates.alternatives@.len() - i,
            {
                let ghost before = ids@;
                ids.push(candidates.alternatives[i].case_id.clone());
                assert(string_views(ids@) =~= string_views(before).push(
                    candidates.alternatives@[i as int].case_id@,
                ));
                assert(candidate_ids(candidates.alternatives@.take(i + 1)) =~= candidate_ids(
                    candidates.alternatives@.take(i as int),
                ).push(candidates.alternatives@[i as int].case_id@));
                i = i + 1;
            }
            assert(candidates.alternatives@.take(candidates.alternatives@.len() as int)
                =~= candidates.alternatives@);
            Some(
                PracticeChunkSearchRequest {
                    user_query: query.to_owned(),
                    case_ids: ids,
                    chunk_tags: alternative_tags(),
                    limit: self.settings.top_k,
                    score_threshold_bits: self.settings.score_threshold_bits,
                },
            )
        } else {
            None
        };
        EvidenceSearchPlan { primary, alternatives }
    }

    /// The alternatives' search to send once the primary search has
    /// answered (`None` when there was no primary search): none after a
    /// failed primary search, whose error ends the retrieval; otherwise the
    /// planned one.
    pub fn alternative_search_to_send(
        &self,
        planned: Option<PracticeChunkSearchRequest>,
        primary: &Option<Result<Vec<PracticeChunkSearchHit>, PracticeChunksCollectionError>>,
    ) -> (r: Option<PracticeChunkSearchRequest>)
        ensures
            match primary {
                Some(Err(_)) => r is None,
                _ => r == planned,
            },
    {
        match primary {
            Some(Err(_)) => None,
            _ => planned,
        }
    }

    /// The retrieval result from what the planned searches answered (`None`
    /// for a search that was not run): the primary search's error first,
    /// then the alternatives', otherwise the hits of each branch as chunks.
    pub fn assemble(
        &self,
        primary: Option<Result<Vec<PracticeChunkSearchHit>, PracticeChunksCollectionError>>,
        alternatives: Option<Result<Vec<PracticeChunkSearchHit>, PracticeChunksCollectionError>>,
    ) -> (r: Result<IncidentEvidenceRetrievalOutput, IncidentEvidenceRetrievalError>)
        ensures
            match (primary, alternatives) {
                (Some(Err(e)), _) => r == Err::<IncidentEvidenceRetrievalOutput, _>(
                    IncidentEvidenceRetrievalError::Collection(e),
                ),
                (_, Some(Err(e))) => r == Err::<IncidentEvidenceRetrievalOutput, _>(
                    IncidentEvidenceRetrievalError::Collection(e),
                ),
                _ => r matches Ok(out) && chunks_of_hits(out.primary_chunks@, branch_hits(primary))
                    && chunks_of_hits(out.alternative_chunks@, branch_hits(alternatives)),
            },
    {
        let primary_chunks = match primary {
            Some(Err(e)) => {
                return Err(IncidentEvidenceRetrievalError::Collection(e));
            },
            Some(Ok(hits)) => map_hits(hits),
            None => Vec::new(),
        };
        let alternative_chunks = match alternatives {
            Some(Err(e)) => {
                return Err(IncidentEvidenceRetrievalError::Collection(e));
            },
            Some(Ok(hits)) => map_hits(hits),
            None => Vec::new(),
        };
        Ok(IncidentEvidenceRetrievalOutput { primary_chunks, alternative_chunks })
    }
}

} // verus!
