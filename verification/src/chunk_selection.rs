use vstd::prelude::*;

use crate::json::text_eq;
use crate::shared_types::{IncidentEvidenceChunk, TheoryEvidenceChunk};

verus! {

/// The role a chunk tag gives to a piece of an incident write-up.
#[derive(Clone, Copy, Debug, PartialEq, Eq, Structural, Hash)]
pub enum IncidentChunkTag {
    Symptom,
    Impact,
    Timeline,
    SymptomChange,
    Investigation,
    DiagnosticStep,
    HypothesisUpdate,
    Recovery,
    FailureMode,
    RootCause,
    ContributingFactor,
    Uncertainty,
    Lesson,
}

/// The text form of a chunk tag.
pub open spec fn tag_text(t: IncidentChunkTag) -> Seq<char> {
    match t {
        IncidentChunkTag::Symptom => "chunk_role:symptom"@,
        IncidentChunkTag::Impact => "chunk_role:impact"@,
        IncidentChunkTag::Timeline => "chunk_role:timeline"@,
        IncidentChunkTag::SymptomChange => "chunk_role:symptom_change"@,
        IncidentChunkTag::Investigation => "chunk_role:investigation"@,
        IncidentChunkTag::DiagnosticStep => "chunk_role:diagnostic_step"@,
        IncidentChunkTag::HypothesisUpdate => "chunk_role:hypothesis_update"@,
        IncidentChunkTag::Recovery => "chunk_role:recovery"@,
        IncidentChunkTag::FailureMode => "chunk_role:failure_mode"@,
        IncidentChunkTag::RootCause => "chunk_role:root_cause"@,
        IncidentChunkTag::ContributingFactor => "chunk_role:contributing_factor"@,
        IncidentChunkTag::Uncertainty => "chunk_role:uncertainty"@,
        IncidentChunkTag::Lesson => "chunk_role:lesson"@,
    }
}

/// The chunk tag written `s`, if any.
pub open spec fn tag_from_text(s: Seq<char>) -> Option<IncidentChunkTag> {
    if s == "chunk_role:symptom"@ {
        Some(IncidentChunkTag::Symptom)
    } else if s == "chunk_role:impact"@ {
        Some(IncidentChunkTag::Impact)
    } else if s == "chunk_role:timeline"@ {
        Some(IncidentChunkTag::Timeline)
    } else if s == "chunk_role:symptom_change"@ {
        Some(IncidentChunkTag::SymptomChange)
    } else if s == "chunk_role:investigation"@ {
        Some(IncidentChunkTag::Investigation)
    } else if s == "chunk_role:diagnostic_step"@ {
        Some(IncidentChunkTag::DiagnosticStep)
    } else if s == "chunk_role:hypothesis_update"@ {
        Some(IncidentChunkTag::HypothesisUpdate)
    } else if s == "chunk_role:recovery"@ {
        Some(IncidentChunkTag::Recovery)
    } else if s == "chunk_role:failure_mode"@ {
        Some(IncidentChunkTag::FailureMode)
    } else if s == "chunk_role:root_cause"@ {
        Some(IncidentChunkTag::RootCause)
    } else if s == "chunk_role:contributing_factor"@ {
        Some(IncidentChunkTag::ContributingFactor)
    } else if s == "chunk_role:uncertainty"@ {
        Some(IncidentChunkTag::Uncertainty)
    } else if s == "chunk_role:lesson"@ {
        Some(IncidentChunkTag::Lesson)
    } else {
        None
    }
}

/// Reads a chunk tag.
pub fn parse_chunk_tag(s: &str) -> (r: Option<IncidentChunkTag>)
    ensures
        r == tag_from_text(s@),
{
    if text_eq(s, "chunk_role:symptom") {
        Some(IncidentChunkTag::Symptom)
    } else if text_eq(s, "chunk_role:impact") {
        Some(IncidentChunkTag::Impact)
    } else if text_eq(s, "chunk_role:timeline") {
        Some(IncidentChunkTag::Timeline)
    } else if text_eq(s, "chunk_role:symptom_change") {
        Some(IncidentChunkTag::SymptomChange)
    } else if text_eq(s, "chunk_role:investigation") {
        Some(IncidentChunkTag::Investigation)
    } else if text_eq(s, "chunk_role:diagnostic_step") {
        Some(IncidentChunkTag::DiagnosticStep)
    } else if text_eq(s, "chunk_role:hypothesis_update") {
        Some(IncidentChunkTag::HypothesisUpdate)
    } else if text_eq(s, "chunk_role:recovery") {
        Some(IncidentChunkTag::Recovery)
    } else if text_eq(s, "chunk_role:failure_mode") {
        Some(IncidentChunkTag::FailureMode)
    } else if text_eq(s, "chunk_role:root_cause") {
        Some(IncidentChunkTag::RootCause)
    } else if text_eq(s, "chunk_role:contributing_factor") {
        Some(IncidentChunkTag::ContributingFactor)
    } else if text_eq(s, "chunk_role:uncertainty") {
        Some(IncidentChunkTag::Uncertainty)
    } else if text_eq(s, "chunk_role:lesson") {
        Some(IncidentChunkTag::Lesson)
    } else {
        None
    }
}

/// The text form of a chunk tag.
pub fn chunk_tag_text(t: IncidentChunkTag) -> (s: &'static str)
    ensures
        s@ == tag_text(t),
{
    match t {
        IncidentChunkTag::Symptom => "chunk_role:symptom",
        IncidentChunkTag::Impact => "chunk_role:impact",
        IncidentChunkTag::Timeline => "chunk_role:timeline",
        IncidentChunkTag::SymptomChange => "chunk_role:symptom_change",
        IncidentChunkTag::Investigation => "chunk_role:investigation",
        IncidentChunkTag::DiagnosticStep => "chunk_role:diagnostic_step",
        IncidentChunkTag::HypothesisUpdate => "chunk_role:hypothesis_update",
        IncidentChunkTag::Recovery => "chunk_role:recovery",
        IncidentChunkTag::FailureMode => "chunk_role:failure_mode",
        IncidentChunkTag::RootCause => "chunk_role:root_cause",
        IncidentChunkTag::ContributingFactor => "chunk_role:contributing_factor",
        IncidentChunkTag::Uncertainty => "chunk_role:uncertainty",
        IncidentChunkTag::Lesson => "chunk_role:lesson",
    }
}

/// Why a chunk is put in the prompt.
#[derive(Clone, Copy, Debug, PartialEq, Eq, Structural, Hash)]
pub enum PromptEvidenceRole {
    EvidenceForMatch,
    FirstCheckHint,
    SupportingExplanation,
    AlternativeContext,
    MechanismExplanation,
}

/// Where the chunks of a role come from.
#[derive(Clone, Copy, Debug, PartialEq, Eq, Structural, Hash)]
pub enum ChunkPackingSource {
    PrimaryIncident,
    AlternativeIncident,
    Theory,
}

/// How the chunks of one prompt role are chosen: from which source, how
/// many, how many per case, which tags first, and whether an untagged chunk
/// may stand in.
#[derive(Clone, Debug, PartialEq, Eq)]
pub struct ChunkRolePackingSettings {
    pub source: ChunkPackingSource,
    pub limit: usize,
    pub per_case_limit: Option<usize>,
    pub tag_priority: Vec<IncidentChunkTag>,
    pub fallback_to_any_chunk: bool,
}

/// An incident chunk chosen for the prompt; `score_bits` is the IEEE-754
/// bit pattern of its retrieval score.
#[derive(Clone, Debug, PartialEq, Eq)]
pub struct PromptIncidentEvidenceChunk {
    pub role: PromptEvidenceRole,
    pub chunk_id: String,
    pub case_id: String,
    pub score_bits: u32,
    pub chunk_tags: Vec<IncidentChunkTag>,
    pub text: String,
}

/// A theory chunk chosen for the prompt; `score_bits` is the IEEE-754 bit
/// pattern of its retrieval score.
#[derive(Clone, Debug, PartialEq, Eq)]
pub struct PromptTheoryEvidenceChunk {
    pub role: PromptEvidenceRole,
    pub chunk_id: String,
    pub score_bits: u32,
    pub text: String,
}

/// A candidate chunk of a role: its tag bucket, its score key and its
/// position among the source chunks.
#[derive(Clone, Copy, Debug, PartialEq, Eq, Structural)]
pub struct RankedChunk {
    pub bucket: usize,
    pub score_key: i64,
    pub index: usize,
}

/// A key that orders single-precision floats as `<` does, both zeros
/// alike: the magnitude bits, negated for a negative sign.
pub open spec fn score_key_of(bits: u32) -> int {
    let magnitude = bits & 0x7fff_ffffu32;
    if (bits >> 31u32) == 0 {
        magnitude as int
    } else {
        -(magnitude as int)
    }
}

/// The score key of a float bit pattern.
pub fn score_key(bits: u32) -> (k: i64)
    ensures
        k == score_key_of(bits),
{
    let magnitude = bits & 0x7fff_ffffu32;
    if (bits >> 31u32) == 0 {
        magnitude as i64
    } else {
        -(magnitude as i64)
    }
}

/// `a` goes before `b`: a better tag bucket, then a higher score, then an
/// earlier position.
pub open spec fn ranks_before(a: RankedChunk, b: RankedChunk) -> bool {
    ||| a.bucket < b.bucket
    ||| a.bucket == b.bucket && a.score_key > b.score_key
    ||| a.bucket == b.bucket && a.score_key == b.score_key && a.index < b.index
}

/// Whether `a` goes before `b`.
fn ranked_before(a: &RankedChunk, b: &RankedChunk) -> (r: bool)
    ensures
        r == ranks_before(*a, *b),
{
    a.bucket < b.bucket || (a.bucket == b.bucket && a.score_key > b.score_key) || (a.bucket
        == b.bucket && a.score_key == b.score_key && a.index < b.index)
}

/// The first position of `t` in `priority`.
pub open spec fn priority_index(priority: Seq<IncidentChunkTag>, t: IncidentChunkTag) -> Option<nat>
    decreases priority.len(),
{
    if priority.len() == 0 {
        None
    } else if priority[0] == t {
        Some(0)
    } else {
        match priority_index(priority.drop_first(), t) {
            Some(i) => Some(i + 1),
            None => None,
        }
    }
}

/// The smaller of two optional positions.
pub open spec fn min_index(a: Option<nat>, b: Option<nat>) -> Option<nat> {
    match (a, b) {
        (Some(x), Some(y)) => Some(if x <= y {
            x
        } else {
            y
        }),
        (Some(x), None) => Some(x),
        (None, Some(y)) => Some(y),
        (None, None) => None,
    }
}

/// The best priority position among the recognised tags of `tags`.
pub open spec fn best_tag_index(tags: Seq<String>, priority: Seq<IncidentChunkTag>) -> Option<nat>
    decreases tags.len(),
{
    if tags.len() == 0 {
        None
    } else {
        let here = match tag_from_text(tags.last()@) {
            Some(t) => priority_index(priority, t),
            None => None,
        };
        min_index(best_tag_index(tags.drop_last(), priority), here)
    }
}

/// The tag bucket of a chunk for a role: its best priority position, the
/// bucket after all priorities when untagged chunks may stand in, and none
/// when the chunk is not eligible.
pub open spec fn tag_bucket(c: IncidentEvidenceChunk, s: ChunkRolePackingSettings) -> Option<nat> {
    match best_tag_index(c.chunk_tags@, s.tag_priority@) {
        Some(i) => Some(i),
        None => if s.fallback_to_any_chunk {
            Some(s.tag_priority@.len())
        } else {
            None
        },
    }
}

/// The eligible chunks of `chunks` for a role, in source order.
pub open spec fn eligible_entries(chunks: Seq<IncidentEvidenceChunk>, s: ChunkRolePackingSettings) -> Seq<
    RankedChunk,
>
    decreases chunks.len(),
{
    if chunks.len() == 0 {
        Seq::empty()
    } else {
        let rest = eligible_entries(chunks.drop_last(), s);
        match tag_bucket(chunks.last(), s) {
            Some(b) => rest.push(
                RankedChunk {
                    bucket: b as usize,
                    score_key: score_key_of(chunks.last().score_bits) as i64,
                    index: (chunks.len() - 1) as usize,
                },
            ),
            None => rest,
        }
    }
}

/// `x` inserted into `r` before the first entry it goes before.
pub open spec fn insert_ranked(r: Seq<RankedChunk>, x: RankedChunk) -> Seq<RankedChunk>
    decreases r.len(),
{
    if r.len() == 0 {
        seq![x]
    } else if ranks_before(x, r[0]) {
        seq![x] + r
    } else {
        seq![r[0]] + insert_ranked(r.drop_first(), x)
    }
}

/// The entries `e` in ranking order.
pub open spec fn rank_entries(e: Seq<RankedChunk>) -> Seq<RankedChunk>
    decreases e.len(),
{
    if e.len() == 0 {
        Seq::empty()
    } else {
        insert_ranked(rank_entries(e.drop_last()), e.last())
    }
}

/// The ranked candidates of a role.
pub open spec fn role_ranking(chunks: Seq<IncidentEvidenceChunk>, s: ChunkRolePackingSettings) -> Seq<
    RankedChunk,
> {
    rank_entries(eligible_entries(chunks, s))
}

/// The recognised tags of `tags`, in order.
pub open spec fn recognized_tags(tags: Seq<String>) -> Seq<IncidentChunkTag>
    decreases tags.len(),
{
    if tags.len() == 0 {
        Seq::empty()
    } else {
        match tag_from_text(tags.last()@) {
            Some(t) => recognized_tags(tags.drop_last()).push(t),
            None => recognized_tags(tags.drop_last()),
        }
    }
}

/// `p` is the source chunk `c` put in the prompt in role `role`.
pub open spec fn is_prompt_chunk(p: PromptIncidentEvidenceChunk, c: IncidentEvidenceChunk, role: PromptEvidenceRole) -> bool {
    &&& p.role == role
    &&& p.chunk_id == c.chunk_id
    &&& p.case_id == c.case_id
    &&& p.score_bits == c.score_bits
    &&& p.chunk_tags@ == recognized_tags(c.chunk_tags@)
    &&& p.text == c.text
}

/// `out` are the chunks of `entries`, in order, in role `role`.
pub open spec fn prompt_chunks_of(
    out: Seq<PromptIncidentEvidenceChunk>,
    entries: Seq<RankedChunk>,
    chunks: Seq<IncidentEvidenceChunk>,
    role: PromptEvidenceRole,
) -> bool {
    &&& out.len() == entries.len()
    &&& forall|i: int|
        0 <= i < entries.len() ==> entries[i].index < chunks.len() && is_prompt_chunk(
            #[trigger] out[i],
            chunks[entries[i].index as int],
            role,
        )
}

/// The first `n` entries of `s` (all of them when there are fewer).
pub open spec fn first_n<A>(s: Seq<A>, n: int) -> Seq<A> {
    if s.len() <= n {
        s
    } else {
        s.take(n)
    }
}

/// The position of `t` in `priority`.
fn find_priority(priority: &Vec<IncidentChunkTag>, t: IncidentChunkTag) -> (r: Option<usize>)
    ensures
        match r {
            Some(i) => priority_index(priority@, t) == Some(i as nat),
            None => priority_index(priority@, t) is None,
        },
{
    let mut i: usize = 0;
    assert(priority@.skip(0) =~= priority@);
    while i < priority.len()
        invariant
            i <= priority@.len(),
            forall|j: int| 0 <= j < i ==> priority@[j] != t,
            priority_index(priority@, t) == match priority_index(priority@.skip(i as int), t) {
                Some(k) => Some((k + i) as nat),
                None => None::<nat>,
            },
        decreases priority@.len() - i,
    {
        assert(priority@.skip(i as int).drop_first() =~= priority@.skip(i + 1));
        if priority[i] == t {
            return Some(i);
        }
        i = i + 1;
    }
    assert(priority@.skip(i as int).len() == 0);
    None
}

/// The best priority position among the recognised tags.
fn best_tag(tags: &Vec<String>, priority: &Vec<IncidentChunkTag>) -> (r: Option<usize>)
    ensures
        match r {
            Some(i) => best_tag_index(tags@, priority@) == Some(i as nat),
            None => best_tag_index(tags@, priority@) is None,
        },
{
    let mut best: Option<usize> = None;
    let mut i: usize = 0;
    while i < tags.len()
        invariant
            i <= tags@.len(),
            match best {
                Some(b) => best_tag_index(tags@.take(i as int), priority@) == Some(b as nat),
                None => best_tag_index(tags@.take(i as int), priority@) is None,
            },
        decreases tags@.len() - i,
    {
        assert(tags@.take(i + 1).drop_last() =~= tags@.take(i as int));
        match parse_chunk_tag(tags[i].as_str()) {
            Some(t) => {
                match find_priority(priority, t) {
                    Some(idx) => {
                        best = Some(
                            match best {
                                Some(prev) => if prev <= idx {
                                    prev
                                } else {
                                    idx
                                },
                                None => idx,
                            },
                        );
                    },
                    None => {},
                }
            },
            None => {},
        }
        i = i + 1;
    }
    assert(tags@.take(tags@.len() as int) =~= tags@);
    best
}

/// The eligible chunks of a role, in source order.
fn collect_eligible(chunks: &Vec<IncidentEvidenceChunk>, s: &ChunkRolePackingSettings) -> (r: Vec<
    RankedChunk,
>)
    ensures
        r@ == eligible_entries(chunks@, *s),
{
    let mut r: Vec<RankedChunk> = Vec::new();
    let mut i: usize = 0;
    while i < chunks.len()
        invariant
            i <= chunks@.len(),
            r@ == eligible_entries(chunks@.take(i as int), *s),
        decreases chunks@.len() - i,
    {
        assert(chunks@.take(i + 1).drop_last() =~= chunks@.take(i as int));
        assert(chunks@.take(i + 1).last() == chunks@[i as int]);
        let bucket = match best_tag(&chunks[i].chunk_tags, &s.tag_priority) {
            Some(b) => Some(b),
            None => if s.fallback_to_any_chunk {
                Some(s.tag_priority.len())
            } else {
                None
            },
        };
        match bucket {
            Some(b) => {
                r.push(RankedChunk { bucket: b, score_key: score_key(chunks[i].score_bits), index: i });
            },
            None => {},
        }
        i = i + 1;
    }
    assert(chunks@.take(chunks@.len() as int) =~= chunks@);
    r
}

proof fn lemma_insert_at(r: Seq<RankedChunk>, x: RankedChunk, p: int)
    requires
        0 <= p <= r.len(),
        forall|j: int| 0 <= j < p ==> !ranks_before(x, #[trigger] r[j]),
        p == r.len() || ranks_before(x, r[p]),
    ensures
        insert_ranked(r, x) == r.insert(p, x),
    decreases p,
{
    if r.len() == 0 {
        assert(r.insert(p, x) =~= seq![x]);
    } else if p == 0 {
        assert(r.insert(0, x) =~= seq![x] + r);
    } else {
        let rest = r.drop_first();
        assert(!ranks_before(x, r[0]));
        assert forall|j: int| 0 <= j < p - 1 implies !ranks_before(x, #[trigger] rest[j]) by {
            assert(rest[j] == r[j + 1]);
        }
        if p < r.len() {
            assert(rest[p - 1] == r[p]);
        }
        lemma_insert_at(rest, x, p - 1);
        assert(seq![r[0]] + rest.insert(p - 1, x) =~= r.insert(p, x));
    }
}

/// The entries in ranking order.
fn rank_all(eligible: &Vec<RankedChunk>) -> (ranked: Vec<RankedChunk>)
    ensures
        ranked@ == rank_entries(eligible@),
{
    let mut ranked: Vec<RankedChunk> = Vec::new();
    let mut i: usize = 0;
    while i < eligible.len()
        invariant
            i <= eligible@.len(),
            ranked@ == rank_entries(eligible@.take(i as int)),
        decreases eligible@.len() - i,
    {
        let x = eligible[i];
        let mut p: usize = 0;
        while p < ranked.len() && !ranked_before(&x, &ranked[p])
            invariant
                p <= ranked@.len(),
                forall|j: int| 0 <= j < p ==> !ranks_before(x, #[trigger] ranked@[j]),
            decreases ranked@.len() - p,
        {
            p = p + 1;
        }
        proof {
            lemma_insert_at(ranked@, x, p as int);
            assert(eligible@.take(i + 1).drop_last() =~= eligible@.take(i as int));
            assert(eligible@.take(i + 1).last() == x);
        }
        ranked.insert(p, x);
        i = i + 1;
    }
    assert(eligible@.take(eligible@.len() as int) =~= eligible@);
    ranked
}

/// The ranked candidates of a role: the eligible chunks in ranking order.
pub fn compute_eligible_incident_chunks(
    chunks: &Vec<IncidentEvidenceChunk>,
    s: &ChunkRolePackingSettings,
) -> (r: Vec<RankedChunk>)
    ensures
        r@ == role_ranking(chunks@, *s),
{
    let eligible = collect_eligible(chunks, s);
    rank_all(&eligible)
}

/// The recognised tags of a chunk, in order.
fn recognized_chunk_tags(tags: &Vec<String>) -> (r: Vec<IncidentChunkTag>)
    ensures
        r@ == recognized_tags(tags@),
{
    let mut r: Vec<IncidentChunkTag> = Vec::new();
    let mut i: usize = 0;
    while i < tags.len()
        invariant
            i <= tags@.len(),
            r@ == recognized_tags(tags@.take(i as int)),
        decreases tags@.len() - i,
    {
        assert(tags@.take(i + 1).drop_last() =~= tags@.take(i as int));
        match parse_chunk_tag(tags[i].as_str()) {
            Some(t) => r.push(t),
            None => {},
        }
        i = i + 1;
    }
    assert(tags@.take(tags@.len() as int) =~= tags@);
    r
}

/// A source chunk as put in the prompt in role `role`: its recognised tags
/// only.
pub fn make_prompt_incident_chunk(source: &IncidentEvidenceChunk, role: PromptEvidenceRole) -> (p:
    PromptIncidentEvidenceChunk)
    ensures
        is_prompt_chunk(p, *source, role),
{
    PromptIncidentEvidenceChunk {
        role,
        chunk_id: source.chunk_id.clone(),
        case_id: source.case_id.clone(),
        score_bits: source.score_bits,
        chunk_tags: recognized_chunk_tags(&source.chunk_tags),
        text: source.text.clone(),
    }
}

/// The chunks of the first `n` entries, in order, in role `role`.
pub(crate) fn take_prompt_chunks(
    entries: &Vec<RankedChunk>,
    n: usize,
    chunks: &Vec<IncidentEvidenceChunk>,
    role: PromptEvidenceRole,
) -> (out: Vec<PromptIncidentEvidenceChunk>)
    requires
        forall|i: int| 0 <= i < entries@.len() ==> (#[trigger] entries@[i]).index < chunks@.len(),
    ensures
        prompt_chunks_of(out@, first_n(entries@, n as int), chunks@, role),
{
    let end = if entries.len() <= n {
        entries.len()
    } else {
        n
    };
    let ghost taken = first_n(entries@, n as int);
    assert(taken =~= entries@.take(end as int));
    let mut out: Vec<PromptIncidentEvidenceChunk> = Vec::new();
    let mut i: usize = 0;
    while i < end
        invariant
            end <= entries@.len(),
            taken == entries@.take(end as int),
            forall|j: int| 0 <= j < entries@.len() ==> (#[trigger] entries@[j]).index < chunks@.len(),
            i <= end,
            out@.len() == i,
            forall|j: int|
                0 <= j < i ==> is_prompt_chunk(
                    #[trigger] out@[j],
                    chunks@[entries@[j].index as int],
                    role,
                ),
        decreases end - i,
    {
        let e = entries[i];
        out.push(make_prompt_incident_chunk(&chunks[e.index], role));
        i = i + 1;
    }
    out
}

proof fn lemma_eligible_indices(chunks: Seq<IncidentEvidenceChunk>, s: ChunkRolePackingSettings)
    requires
        chunks.len() <= usize::MAX,
    ensures
        forall|i: int|
            0 <= i < eligible_entries(chunks, s).len() ==> (#[trigger] eligible_entries(
                chunks,
                s,
            )[i]).index < chunks.len(),
    decreases chunks.len(),
{
    if chunks.len() > 0 {
        let rest = eligible_entries(chunks.drop_last(), s);
        lemma_eligible_indices(chunks.drop_last(), s);
        let e = eligible_entries(chunks, s);
        assert forall|i: int| 0 <= i < e.len() implies (#[trigger] e[i]).index < chunks.len() by {
            if i < rest.len() {
                assert(e[i] == rest[i]);
            }
        }
    }
}

proof fn lemma_insert_ranked_bounded(r: Seq<RankedChunk>, x: RankedChunk, n: int)
    requires
        forall|i: int| 0 <= i < r.len() ==> (#[trigger] r[i]).index < n,
        x.index < n,
    ensures
        forall|i: int|
            0 <= i < insert_ranked(r, x).len() ==> (#[trigger] insert_ranked(r, x)[i]).index < n,
    decreases r.len(),
{
    if r.len() > 0 && !ranks_before(x, r[0]) {
        let rest = r.drop_first();
        lemma_insert_ranked_bounded(rest, x, n);
        let ins = insert_ranked(r, x);
        assert forall|i: int| 0 <= i < ins.len() implies (#[trigger] ins[i]).index < n by {
            if i > 0 {
                assert(ins[i] == insert_ranked(rest, x)[i - 1]);
            }
        }
    }
}

proof fn lemma_rank_entries_bounded(e: Seq<RankedChunk>, n: int)
    requires
        forall|i: int| 0 <= i < e.len() ==> (#[trigger] e[i]).index < n,
    ensures
        forall|i: int| 0 <= i < rank_entries(e).len() ==> (#[trigger] rank_entries(e)[i]).index < n,
    decreases e.len(),
{
    if e.len() > 0 {
        let d = e.drop_last();
        assert forall|i: int| 0 <= i < d.len() implies (#[trigger] d[i]).index < n by {
            assert(d[i] == e[i]);
        }
        lemma_rank_entries_bounded(d, n);
        lemma_insert_ranked_bounded(rank_entries(d), e.last(), n);
    }
}

/// Every ranked entry points at one of the source chunks.
pub(crate) proof fn lemma_ranking_indices(chunks: Seq<IncidentEvidenceChunk>, s: ChunkRolePackingSettings)
    requires
        chunks.len() <= usize::MAX,
    ensures
        forall|i: int|
            0 <= i < role_ranking(chunks, s).len() ==> (#[trigger] role_ranking(chunks, s)[i]).index
                < chunks.len(),
{
    lemma_eligible_indices(chunks, s);
    lemma_rank_entries_bounded(eligible_entries(chunks, s), chunks.len() as int);
}

/// `r` is in ranking order: every entry goes before each later one.
pub open spec fn in_ranking_order(r: Seq<RankedChunk>) -> bool {
    forall|i: int, j: int| 0 <= i < j < r.len() ==> ranks_before(#[trigger] r[i], #[trigger] r[j])
}

/// No two entries point at the same source chunk.
pub open spec fn distinct_indices(e: Seq<RankedChunk>) -> bool {
    forall|i: int, j: int|
        0 <= i < e.len() && 0 <= j < e.len() && i != j ==> (#[trigger] e[i]).index != (#[trigger] e[j]).index
}

proof fn lemma_insert_ranked_order(r: Seq<RankedChunk>, x: RankedChunk)
    requires
        in_ranking_order(r),
        forall|i: int| 0 <= i < r.len() ==> (#[trigger] r[i]).index != x.index,
    ensures
        in_ranking_order(insert_ranked(r, x)),
        insert_ranked(r, x).to_multiset() =~= r.to_multiset().insert(x),
    decreases r.len(),
{
    broadcast use vstd::seq_lib::group_to_multiset_ensures;
    broadcast use vstd::multiset::group_multiset_axioms;

    if r.len() == 0 {
        assert(seq![x] =~= Seq::<RankedChunk>::empty().push(x));
    } else if ranks_before(x, r[0]) {
        let ins = seq![x] + r;
        assert forall|i: int, j: int| 0 <= i < j < ins.len() implies ranks_before(
            #[trigger] ins[i],
            #[trigger] ins[j],
        ) by {
            assert(ins[j] == r[j - 1]);
            if i == 0 {
                if j > 1 {
                    assert(ranks_before(r[0], r[j - 1]));
                }
            } else {
                assert(ins[i] == r[i - 1]);
            }
        }
        vstd::seq_lib::lemma_multiset_commutative(seq![x], r);
        assert(seq![x] =~= Seq::<RankedChunk>::empty().push(x));
    } else {
        let rest = r.drop_first();
        assert forall|i: int, j: int| 0 <= i < j < rest.len() implies ranks_before(
            #[trigger] rest[i],
            #[trigger] rest[j],
        ) by {
            assert(rest[i] == r[i + 1]);
            assert(rest[j] == r[j + 1]);
        }
        assert forall|i: int| 0 <= i < rest.len() implies (#[trigger] rest[i]).index != x.index by {
            assert(rest[i] == r[i + 1]);
        }
        lemma_insert_ranked_order(rest, x);
        let tail = insert_ranked(rest, x);
        let ins = seq![r[0]] + tail;
        assert(r[0].index != x.index);
        assert(ranks_before(r[0], x));
        assert forall|k: int| 0 <= k < tail.len() implies ranks_before(r[0], #[trigger] tail[k]) by {
            assert(tail.contains(tail[k]));
            assert(tail.to_multiset().count(tail[k]) > 0);
            if tail[k] != x {
                assert(rest.to_multiset().insert(x).count(tail[k]) == rest.to_multiset().count(tail[k]));
                assert(rest.to_multiset().count(tail[k]) > 0);
                assert(rest.contains(tail[k]));
                let m = choose|m: int| 0 <= m < rest.len() && rest[m] == tail[k];
                assert(rest[m] == r[m + 1]);
            }
        }
        assert forall|i: int, j: int| 0 <= i < j < ins.len() implies ranks_before(
            #[trigger] ins[i],
            #[trigger] ins[j],
        ) by {
            assert(ins[j] == tail[j - 1]);
            if i > 0 {
                assert(ins[i] == tail[i - 1]);
            }
        }
        vstd::seq_lib::lemma_multiset_commutative(seq![r[0]], tail);
        vstd::seq_lib::lemma_multiset_commutative(seq![r[0]], rest);
        assert(r =~= seq![r[0]] + rest);
    }
}

proof fn lemma_rank_entries_order(e: Seq<RankedChunk>)
    requires
        distinct_indices(e),
    ensures
        in_ranking_order(rank_entries(e)),
        rank_entries(e).to_multiset() =~= e.to_multiset(),
    decreases e.len(),
{
    broadcast use vstd::seq_lib::group_to_multiset_ensures;

    if e.len() > 0 {
        let d = e.drop_last();
        let x = e.last();
        assert forall|i: int, j: int| 0 <= i < d.len() && 0 <= j < d.len() && i != j implies (
        #[trigger] d[i]).index != (#[trigger] d[j]).index by {
            assert(d[i] == e[i]);
            assert(d[j] == e[j]);
        }
        lemma_rank_entries_order(d);
        let r = rank_entries(d);
        assert forall|i: int| 0 <= i < r.len() implies (#[trigger] r[i]).index != x.index by {
            assert(r.contains(r[i]));
            assert(d.to_multiset().count(r[i]) > 0);
            assert(d.contains(r[i]));
            let m = choose|m: int| 0 <= m < d.len() && d[m] == r[i];
            assert(d[m] == e[m]);
            assert(x == e[e.len() - 1]);
        }
        lemma_insert_ranked_order(r, x);
        assert(e =~= d.push(x));
    }
}

proof fn lemma_eligible_increasing(chunks: Seq<IncidentEvidenceChunk>, s: ChunkRolePackingSettings)
    requires
        chunks.len() <= usize::MAX,
    ensures
        forall|i: int, j: int|
            0 <= i < j < eligible_entries(chunks, s).len() ==> (#[trigger] eligible_entries(chunks, s)[i]).index
                < (#[trigger] eligible_entries(chunks, s)[j]).index,
    decreases chunks.len(),
{
    if chunks.len() > 0 {
        let rest = eligible_entries(chunks.drop_last(), s);
        lemma_eligible_increasing(chunks.drop_last(), s);
        lemma_eligible_indices(chunks.drop_last(), s);
        let e = eligible_entries(chunks, s);
        assert forall|i: int, j: int| 0 <= i < j < e.len() implies (#[trigger] e[i]).index < (
        #[trigger] e[j]).index by {
            assert(e[i] == rest[i]);
            if j < rest.len() {
                assert(e[j] == rest[j]);
            } else {
                assert(e[j].index == chunks.len() - 1);
            }
        }
    }
}

/// The ranking of a role is a strict order of exactly its eligible chunks:
/// a better tag bucket first, then a higher score, then the earlier source
/// position, and no eligible chunk is dropped or repeated.
pub proof fn lemma_role_ranking_ordered(chunks: Seq<IncidentEvidenceChunk>, s: ChunkRolePackingSettings)
    requires
        chunks.len() <= usize::MAX,
    ensures
        in_ranking_order(role_ranking(chunks, s)),
        role_ranking(chunks, s).to_multiset() == eligible_entries(chunks, s).to_multiset(),
{
    let e = eligible_entries(chunks, s);
    lemma_eligible_increasing(chunks, s);
    assert forall|i: int, j: int| 0 <= i < e.len() && 0 <= j < e.len() && i != j implies (
    #[trigger] e[i]).index != (#[trigger] e[j]).index by {
        if i < j {
            assert(e[i].index < e[j].index);
        } else {
            assert(e[j].index < e[i].index);
        }
    }
    lemma_rank_entries_order(e);
}

/// The chunks of a primary-incident role, without regard to other roles:
/// the first `limit` of the ranking (none for a zero limit).
pub fn select_primary_role_chunks(
    chunks: &Vec<IncidentEvidenceChunk>,
    s: &ChunkRolePackingSettings,
    role: PromptEvidenceRole,
) -> (out: Vec<PromptIncidentEvidenceChunk>)
    ensures
        prompt_chunks_of(out@, first_n(role_ranking(chunks@, *s), s.limit as int), chunks@, role),
{
    let ranked = compute_eligible_incident_chunks(chunks, s);
    let n = chunks.len();
    proof {
        lemma_ranking_indices(chunks@, *s);
    }
    take_prompt_chunks(&ranked, s.limit, chunks, role)
}

/// `t` is the theory chunk `c` put in the prompt as a mechanism explanation.
pub open spec fn is_theory_prompt_chunk(t: PromptTheoryEvidenceChunk, c: TheoryEvidenceChunk) -> bool {
    &&& t.role == PromptEvidenceRole::MechanismExplanation
    &&& t.chunk_id == c.chunk_id
    &&& t.score_bits == c.score_bits
    &&& t.text == c.text
}

/// The first `limit` theory chunks, in order, as mechanism explanations.
pub fn select_theory_chunks(chunks: &Vec<TheoryEvidenceChunk>, limit: usize) -> (out: Vec<
    PromptTheoryEvidenceChunk,
>)
    ensures
        out@.len() == first_n(chunks@, limit as int).len(),
        forall|i: int|
            0 <= i < out@.len() ==> is_theory_prompt_chunk(#[trigger] out@[i], chunks@[i]),
{
    let end = if chunks.len() <= limit {
        chunks.len()
    } else {
        limit
    };
    let mut out: Vec<PromptTheoryEvidenceChunk> = Vec::new();
    let mut i: usize = 0;
    while i < end
        invariant
            end <= chunks@.len(),
            end == first_n(chunks@, limit as int).len(),
            i <= end,
            out@.len() == i,
            forall|j: int| 0 <= j < i ==> is_theory_prompt_chunk(#[trigger] out@[j], chunks@[j]),
        decreases end - i,
    {
        out.push(
            PromptTheoryEvidenceChunk {
                role: PromptEvidenceRole::MechanismExplanation,
                chunk_id: chunks[i].chunk_id.clone(),
                score_bits: chunks[i].score_bits,
                text: chunks[i].text.clone(),
            },
        );
        i = i + 1;
    }
    out
}

// ─── Alternative context ─────────────────────────────────────────────────────

/// Every entry points at one of `n` source chunks.
pub open spec fn indices_below(e: Seq<RankedChunk>, n: int) -> bool {
    forall|i: int| 0 <= i < e.len() ==> (#[trigger] e[i]).index < n
}

/// The entries of `e` whose chunk id is not among `excluded`, in order.
pub open spec fn entries_not_excluded(
    e: Seq<RankedChunk>,
    chunks: Seq<IncidentEvidenceChunk>,
    excluded: Seq<Seq<char>>,
) -> Seq<RankedChunk>
    decreases e.len(),
{
    if e.len() == 0 {
        Seq::empty()
    } else {
        let rest = entries_not_excluded(e.drop_last(), chunks, excluded);
        if excluded.contains(chunks[e.last().index as int].chunk_id@) {
            rest
        } else {
            rest.push(e.last())
        }
    }
}

/// The entries of `e` whose chunk belongs to case `c`, in order.
pub open spec fn entries_of_case(
    e: Seq<RankedChunk>,
    chunks: Seq<IncidentEvidenceChunk>,
    c: Seq<char>,
) -> Seq<RankedChunk>
    decreases e.len(),
{
    if e.len() == 0 {
        Seq::empty()
    } else {
        let rest = entries_of_case(e.drop_last(), chunks, c);
        if chunks[e.last().index as int].case_id@ == c {
            rest.push(e.last())
        } else {
            rest
        }
    }
}

/// The ranked candidates of case `c` for the alternative context: its
/// eligible chunks not already chosen for another role.
pub open spec fn case_pool(
    chunks: Seq<IncidentEvidenceChunk>,
    s: ChunkRolePackingSettings,
    excluded: Seq<Seq<char>>,
    c: Seq<char>,
) -> Seq<RankedChunk> {
    rank_entries(
        entries_of_case(entries_not_excluded(eligible_entries(chunks, s), chunks, excluded), chunks, c),
    )
}

/// The case ids of `chunks` in order of first appearance.
pub open spec fn distinct_case_ids(chunks: Seq<IncidentEvidenceChunk>) -> Seq<Seq<char>>
    decreases chunks.len(),
{
    if chunks.len() == 0 {
        Seq::empty()
    } else {
        let rest = distinct_case_ids(chunks.drop_last());
        if rest.contains(chunks.last().case_id@) {
            rest
        } else {
            rest.push(chunks.last().case_id@)
        }
    }
}

/// The order in which cases take turns: the alternative cards' order, or,
/// without cards, the chunks' own order of cases.
pub open spec fn alternative_case_order(
    card_ids: Seq<Seq<char>>,
    chunks: Seq<IncidentEvidenceChunk>,
) -> Seq<Seq<char>> {
    if card_ids.len() > 0 {
        card_ids
    } else {
        distinct_case_ids(chunks)
    }
}

/// How many chunks case `c` has given so far.
pub open spec fn taken_count(m: Map<Seq<char>, nat>, c: Seq<char>) -> nat {
    if m.dom().contains(c) {
        m[c]
    } else {
        0
    }
}

/// One turn of every case in `order` from position `k`: a case gives its
/// next ranked chunk unless the selection is full, the case has reached
/// `per_case`, or its pool is spent.
pub open spec fn round_from(
    order: Seq<Seq<char>>,
    k: int,
    pools: spec_fn(Seq<char>) -> Seq<RankedChunk>,
    per_case: nat,
    limit: nat,
    counts: Map<Seq<char>, nat>,
    sel: Seq<RankedChunk>,
) -> (Map<Seq<char>, nat>, Seq<RankedChunk>)
    decreases order.len() - k,
{
    if k < 0 || k >= order.len() || sel.len() >= limit {
        (counts, sel)
    } else {
        let c = order[k];
        let n = taken_count(counts, c);
        if n >= per_case || n >= pools(c).len() {
            round_from(order, k + 1, pools, per_case, limit, counts, sel)
        } else {
            round_from(order, k + 1, pools, per_case, limit, counts.insert(c, n + 1), sel.push(pools(c)[n as int]))
        }
    }
}

/// A round never takes chunks back.
pub proof fn lemma_round_grows(
    order: Seq<Seq<char>>,
    k: int,
    pools: spec_fn(Seq<char>) -> Seq<RankedChunk>,
    per_case: nat,
    limit: nat,
    counts: Map<Seq<char>, nat>,
    sel: Seq<RankedChunk>,
)
    ensures
        round_from(order, k, pools, per_case, limit, counts, sel).1.len() >= sel.len(),
    decreases order.len() - k,
{
    if !(k < 0 || k >= order.len() || sel.len() >= limit) {
        let c = order[k];
        let n = taken_count(counts, c);
        if n >= per_case || n >= pools(c).len() {
            lemma_round_grows(order, k + 1, pools, per_case, limit, counts, sel);
        } else {
            lemma_round_grows(order, k + 1, pools, per_case, limit, counts.insert(c, n + 1), sel.push(pools(c)[n as int]));
        }
    }
}

/// Rounds until a round gives nothing or the selection is full.
pub open spec fn rounds(
    order: Seq<Seq<char>>,
    pools: spec_fn(Seq<char>) -> Seq<RankedChunk>,
    per_case: nat,
    limit: nat,
    counts: Map<Seq<char>, nat>,
    sel: Seq<RankedChunk>,
) -> Seq<RankedChunk>
    decreases limit - sel.len(),
{
    let next = round_from(order, 0, pools, per_case, limit, counts, sel);
    if next.1.len() <= sel.len() || next.1.len() >= limit || sel.len() >= limit {
        next.1
    } else {
        proof {
            lemma_round_grows(order, 0, pools, per_case, limit, counts, sel);
        }
        rounds(order, pools, per_case, limit, next.0, next.1)
    }
}

/// The alternative-context entries: cases take turns in `alternative_case_order`,
/// each giving its ranked chunks one per round, at most `per_case_limit`
/// per case (no bound when unset) and `limit` in all.
pub open spec fn alternative_context_entries(
    chunks: Seq<IncidentEvidenceChunk>,
    s: ChunkRolePackingSettings,
    card_ids: Seq<Seq<char>>,
    excluded: Seq<Seq<char>>,
) -> Seq<RankedChunk> {
    if s.limit == 0 {
        Seq::empty()
    } else {
        rounds(
            alternative_case_order(card_ids, chunks),
            |c: Seq<char>| case_pool(chunks, s, excluded, c),
            match s.per_case_limit {
                Some(n) => n as nat,
                None => usize::MAX as nat,
            },
            s.limit as nat,
            Map::empty(),
            Seq::empty(),
        )
    }
}

proof fn lemma_insert_ranked_multiset(r: Seq<RankedChunk>, x: RankedChunk)
    ensures
        insert_ranked(r, x).to_multiset() =~= r.to_multiset().insert(x),
    decreases r.len(),
{
    broadcast use vstd::seq_lib::group_to_multiset_ensures;
    broadcast use vstd::multiset::group_multiset_axioms;

    if r.len() == 0 {
        assert(seq![x] =~= Seq::<RankedChunk>::empty().push(x));
    } else if ranks_before(x, r[0]) {
        vstd::seq_lib::lemma_multiset_commutative(seq![x], r);
        assert(seq![x] =~= Seq::<RankedChunk>::empty().push(x));
    } else {
        let rest = r.drop_first();
        lemma_insert_ranked_multiset(rest, x);
        vstd::seq_lib::lemma_multiset_commutative(seq![r[0]], insert_ranked(rest, x));
        vstd::seq_lib::lemma_multiset_commutative(seq![r[0]], rest);
        assert(r =~= seq![r[0]] + rest);
    }
}

proof fn lemma_rank_entries_contains(e: Seq<RankedChunk>)
    ensures
        rank_entries(e).to_multiset() =~= e.to_multiset(),
        forall|i: int| 0 <= i < rank_entries(e).len() ==> e.contains(#[trigger] rank_entries(e)[i]),
    decreases e.len(),
{
    broadcast use vstd::seq_lib::group_to_multiset_ensures;

    if e.len() > 0 {
        lemma_rank_entries_contains(e.drop_last());
        lemma_insert_ranked_multiset(rank_entries(e.drop_last()), e.last());
        assert(e =~= e.drop_last().push(e.last()));
    }
    let r = rank_entries(e);
    assert forall|i: int| 0 <= i < r.len() implies e.contains(#[trigger] r[i]) by {
        assert(r.contains(r[i]));
        assert(e.to_multiset().count(r[i]) > 0);
    }
}

/// The entries kept by `entries_not_excluded` are entries of `e` whose
/// chunk is not excluded.
pub(crate) proof fn lemma_not_excluded_sub(e: Seq<RankedChunk>, chunks: Seq<IncidentEvidenceChunk>, excluded: Seq<Seq<char>>)
    ensures
        forall|i: int|
            0 <= i < entries_not_excluded(e, chunks, excluded).len() ==> e.contains(
                #[trigger] entries_not_excluded(e, chunks, excluded)[i],
            ) && !excluded.contains(chunks[entries_not_excluded(e, chunks, excluded)[i].index as int].chunk_id@),
    decreases e.len(),
{
    if e.len() > 0 {
        let d = e.drop_last();
        lemma_not_excluded_sub(d, chunks, excluded);
        let rest = entries_not_excluded(d, chunks, excluded);
        let r = entries_not_excluded(e, chunks, excluded);
        assert forall|i: int| 0 <= i < r.len() implies e.contains(#[trigger] r[i])
            && !excluded.contains(chunks[r[i].index as int].chunk_id@) by {
            if i < rest.len() {
                assert(r[i] == rest[i]);
                let m = choose|m: int| 0 <= m < d.len() && d[m] == rest[i];
                assert(e[m] == d[m]);
            } else {
                assert(r[i] == e.last());
                assert(e[e.len() - 1] == e.last());
            }
        }
    }
}

proof fn lemma_of_case_sub(e: Seq<RankedChunk>, chunks: Seq<IncidentEvidenceChunk>, c: Seq<char>)
    ensures
        forall|i: int|
            0 <= i < entries_of_case(e, chunks, c).len() ==> e.contains(#[trigger] entries_of_case(e, chunks, c)[i])
                && chunks[entries_of_case(e, chunks, c)[i].index as int].case_id@ == c,
    decreases e.len(),
{
    if e.len() > 0 {
        let d = e.drop_last();
        lemma_of_case_sub(d, chunks, c);
        let rest = entries_of_case(d, chunks, c);
        let r = entries_of_case(e, chunks, c);
        assert forall|i: int| 0 <= i < r.len() implies e.contains(#[trigger] r[i])
            && chunks[r[i].index as int].case_id@ == c by {
            if i < rest.len() {
                assert(r[i] == rest[i]);
                let m = choose|m: int| 0 <= m < d.len() && d[m] == rest[i];
                assert(e[m] == d[m]);
            } else {
                assert(r[i] == e.last());
                assert(e[e.len() - 1] == e.last());
            }
        }
    }
}

/// `x` may stand in the alternative context of `chunks`: an eligible chunk
/// of the role, not excluded, whose case is `c`.
pub open spec fn pool_entry_ok(
    x: RankedChunk,
    chunks: Seq<IncidentEvidenceChunk>,
    s: ChunkRolePackingSettings,
    excluded: Seq<Seq<char>>,
    c: Seq<char>,
) -> bool {
    &&& eligible_entries(chunks, s).contains(x)
    &&& !excluded.contains(chunks[x.index as int].chunk_id@)
    &&& chunks[x.index as int].case_id@ == c
}

proof fn lemma_case_pool_ok(
    chunks: Seq<IncidentEvidenceChunk>,
    s: ChunkRolePackingSettings,
    excluded: Seq<Seq<char>>,
    c: Seq<char>,
)
    ensures
        forall|i: int|
            0 <= i < case_pool(chunks, s, excluded, c).len() ==> pool_entry_ok(
                #[trigger] case_pool(chunks, s, excluded, c)[i],
                chunks,
                s,
                excluded,
                c,
            ),
{
    let e = eligible_entries(chunks, s);
    let ne = entries_not_excluded(e, chunks, excluded);
    let oc = entries_of_case(ne, chunks, c);
    lemma_not_excluded_sub(e, chunks, excluded);
    lemma_of_case_sub(ne, chunks, c);
    lemma_rank_entries_contains(oc);
    let p = case_pool(chunks, s, excluded, c);
    assert forall|i: int| 0 <= i < p.len() implies pool_entry_ok(#[trigger] p[i], chunks, s, excluded, c) by {
        assert(oc.contains(p[i]));
        let a = choose|a: int| 0 <= a < oc.len() && oc[a] == p[i];
        assert(ne.contains(oc[a]));
        let b = choose|b: int| 0 <= b < ne.len() && ne[b] == oc[a];
        assert(e.contains(ne[b]));
    }
}

proof fn lemma_round_from_ok(
    order: Seq<Seq<char>>,
    k: int,
    pools: spec_fn(Seq<char>) -> Seq<RankedChunk>,
    per_case: nat,
    limit: nat,
    counts: Map<Seq<char>, nat>,
    sel: Seq<RankedChunk>,
    ok: spec_fn(RankedChunk) -> bool,
)
    requires
        forall|c: Seq<char>, i: int| order.contains(c) && 0 <= i < pools(c).len() ==> ok(#[trigger] pools(c)[i]),
        forall|i: int| 0 <= i < sel.len() ==> ok(#[trigger] sel[i]),
        sel.len() <= limit,
    ensures
        forall|i: int|
            0 <= i < round_from(order, k, pools, per_case, limit, counts, sel).1.len() ==> ok(
                #[trigger] round_from(order, k, pools, per_case, limit, counts, sel).1[i],
            ),
        round_from(order, k, pools, per_case, limit, counts, sel).1.len() <= limit,
    decreases order.len() - k,
{
    if !(k < 0 || k >= order.len() || sel.len() >= limit) {
        let c = order[k];
        let n = taken_count(counts, c);
        if n >= per_case || n >= pools(c).len() {
            lemma_round_from_ok(order, k + 1, pools, per_case, limit, counts, sel, ok);
        } else {
            let sel2 = sel.push(pools(c)[n as int]);
            assert(order.contains(c));
            assert(ok(pools(c)[n as int]));
            assert forall|i: int| 0 <= i < sel2.len() implies ok(#[trigger] sel2[i]) by {
                if i < sel.len() {
                    assert(sel2[i] == sel[i]);
                }
            }
            lemma_round_from_ok(order, k + 1, pools, per_case, limit, counts.insert(c, n + 1), sel2, ok);
        }
    }
}

proof fn lemma_rounds_ok(
    order: Seq<Seq<char>>,
    pools: spec_fn(Seq<char>) -> Seq<RankedChunk>,
    per_case: nat,
    limit: nat,
    counts: Map<Seq<char>, nat>,
    sel: Seq<RankedChunk>,
    ok: spec_fn(RankedChunk) -> bool,
)
    requires
        forall|c: Seq<char>, i: int| order.contains(c) && 0 <= i < pools(c).len() ==> ok(#[trigger] pools(c)[i]),
        forall|i: int| 0 <= i < sel.len() ==> ok(#[trigger] sel[i]),
        sel.len() <= limit,
    ensures
        forall|i: int|
            0 <= i < rounds(order, pools, per_case, limit, counts, sel).len() ==> ok(
                #[trigger] rounds(order, pools, per_case, limit, counts, sel)[i],
            ),
        rounds(order, pools, per_case, limit, counts, sel).len() <= limit,
    decreases limit - sel.len(),
{
    let next = round_from(order, 0, pools, per_case, limit, counts, sel);
    lemma_round_from_ok(order, 0, pools, per_case, limit, counts, sel, ok);
    if !(next.1.len() <= sel.len() || next.1.len() >= limit || sel.len() >= limit) {
        lemma_rounds_ok(order, pools, per_case, limit, next.0, next.1, ok);
    }
}

/// The alternative context never holds more than `limit` chunks, and each
/// of them is an eligible chunk of the role, not among the chunks already
/// chosen for other roles, and of a case that takes turns (an alternative
/// card's case, or, without cards, a case of the chunks).
pub proof fn lemma_alternative_context_bounded(
    chunks: Seq<IncidentEvidenceChunk>,
    s: ChunkRolePackingSettings,
    card_ids: Seq<Seq<char>>,
    excluded: Seq<Seq<char>>,
)
    ensures
        alternative_context_entries(chunks, s, card_ids, excluded).len() <= s.limit,
        forall|i: int|
            0 <= i < alternative_context_entries(chunks, s, card_ids, excluded).len() ==> {
                let x = #[trigger] alternative_context_entries(chunks, s, card_ids, excluded)[i];
                &&& eligible_entries(chunks, s).contains(x)
                &&& !excluded.contains(chunks[x.index as int].chunk_id@)
                &&& alternative_case_order(card_ids, chunks).contains(chunks[x.index as int].case_id@)
            },
{
    if s.limit > 0 {
        let order = alternative_case_order(card_ids, chunks);
        let pools = |c: Seq<char>| case_pool(chunks, s, excluded, c);
        let ok = |x: RankedChunk| {
            &&& eligible_entries(chunks, s).contains(x)
            &&& !excluded.contains(chunks[x.index as int].chunk_id@)
            &&& order.contains(chunks[x.index as int].case_id@)
        };
        let per_case: nat = match s.per_case_limit {
            Some(n) => n as nat,
            None => usize::MAX as nat,
        };
        assert forall|c: Seq<char>, i: int| order.contains(c) && 0 <= i < pools(c).len() implies ok(
            #[trigger] pools(c)[i],
        ) by {
            lemma_case_pool_ok(chunks, s, excluded, c);
            assert(pool_entry_ok(case_pool(chunks, s, excluded, c)[i], chunks, s, excluded, c));
        }
        lemma_rounds_ok(order, pools, per_case, s.limit as nat, Map::empty(), Seq::empty(), ok);
        let r = alternative_context_entries(chunks, s, card_ids, excluded);
        assert(r == rounds(order, pools, per_case, s.limit as nat, Map::empty(), Seq::empty()));
        assert forall|i: int| 0 <= i < r.len() implies {
            let x = #[trigger] r[i];
            &&& eligible_entries(chunks, s).contains(x)
            &&& !excluded.contains(chunks[x.index as int].chunk_id@)
            &&& order.contains(chunks[x.index as int].case_id@)
        } by {
            assert(ok(r[i]));
        }
    }
}

/// How many entries of `sel` are chunks of case `c`.
pub open spec fn case_count(sel: Seq<RankedChunk>, chunks: Seq<IncidentEvidenceChunk>, c: Seq<char>) -> nat
    decreases sel.len(),
{
    if sel.len() == 0 {
        0
    } else {
        case_count(sel.drop_last(), chunks, c) + if chunks[sel.last().index as int].case_id@ == c {
            1nat
        } else {
            0nat
        }
    }
}

proof fn lemma_round_from_counts(
    order: Seq<Seq<char>>,
    k: int,
    chunks: Seq<IncidentEvidenceChunk>,
    pools: spec_fn(Seq<char>) -> Seq<RankedChunk>,
    per_case: nat,
    limit: nat,
    counts: Map<Seq<char>, nat>,
    sel: Seq<RankedChunk>,
)
    requires
        forall|c: Seq<char>, i: int|
            order.contains(c) && 0 <= i < pools(c).len() ==> chunks[(#[trigger] pools(c)[i]).index as int].case_id@ == c,
        forall|c: Seq<char>| #[trigger] case_count(sel, chunks, c) == taken_count(counts, c),
        forall|c: Seq<char>| #[trigger] taken_count(counts, c) <= per_case,
    ensures
        forall|c: Seq<char>|
            #[trigger] case_count(round_from(order, k, pools, per_case, limit, counts, sel).1, chunks, c)
                == taken_count(round_from(order, k, pools, per_case, limit, counts, sel).0, c),
        forall|c: Seq<char>|
            #[trigger] taken_count(round_from(order, k, pools, per_case, limit, counts, sel).0, c) <= per_case,
    decreases order.len() - k,
{
    let r = round_from(order, k, pools, per_case, limit, counts, sel);
    if k < 0 || k >= order.len() || sel.len() >= limit {
        assert(r == (counts, sel));
    } else {
        let c = order[k];
        let n = taken_count(counts, c);
        if n >= per_case || n >= pools(c).len() {
            lemma_round_from_counts(order, k + 1, chunks, pools, per_case, limit, counts, sel);
            assert(r == round_from(order, k + 1, pools, per_case, limit, counts, sel));
        } else {
            let x = pools(c)[n as int];
            let sel2 = sel.push(x);
            let counts2 = counts.insert(c, n + 1);
            assert(order.contains(c));
            assert(chunks[x.index as int].case_id@ == c);
            assert(sel2.drop_last() =~= sel);
            assert forall|d: Seq<char>| #[trigger] case_count(sel2, chunks, d) == taken_count(counts2, d) by {
                assert(case_count(sel2, chunks, d) == case_count(sel, chunks, d) + if chunks[x.index as int].case_id@
                    == d {
                    1nat
                } else {
                    0nat
                });
                assert(case_count(sel, chunks, d) == taken_count(counts, d));
            }
            assert forall|d: Seq<char>| #[trigger] taken_count(counts2, d) <= per_case by {
                assert(taken_count(counts, d) <= per_case);
            }
            lemma_round_from_counts(order, k + 1, chunks, pools, per_case, limit, counts2, sel2);
            assert(r == round_from(order, k + 1, pools, per_case, limit, counts2, sel2));
        }
    }
}

proof fn lemma_rounds_counts(
    order: Seq<Seq<char>>,
    chunks: Seq<IncidentEvidenceChunk>,
    pools: spec_fn(Seq<char>) -> Seq<RankedChunk>,
    per_case: nat,
    limit: nat,
    counts: Map<Seq<char>, nat>,
    sel: Seq<RankedChunk>,
)
    requires
        forall|c: Seq<char>, i: int|
            order.contains(c) && 0 <= i < pools(c).len() ==> chunks[(#[trigger] pools(c)[i]).index as int].case_id@ == c,
        forall|c: Seq<char>| #[trigger] case_count(sel, chunks, c) == taken_count(counts, c),
        forall|c: Seq<char>| #[trigger] taken_count(counts, c) <= per_case,
    ensures
        forall|c: Seq<char>| #[trigger] case_count(rounds(order, pools, per_case, limit, counts, sel), chunks, c) <= per_case,
    decreases limit - sel.len(),
{
    let next = round_from(order, 0, pools, per_case, limit, counts, sel);
    lemma_round_from_counts(order, 0, chunks, pools, per_case, limit, counts, sel);
    if !(next.1.len() <= sel.len() || next.1.len() >= limit || sel.len() >= limit) {
        lemma_rounds_counts(order, chunks, pools, per_case, limit, next.0, next.1);
        assert(rounds(order, pools, per_case, limit, counts, sel) == rounds(order, pools, per_case, limit, next.0, next.1));
    } else {
        assert(rounds(order, pools, per_case, limit, counts, sel) == next.1);
        assert forall|c: Seq<char>| #[trigger] case_count(next.1, chunks, c) <= per_case by {
            assert(case_count(next.1, chunks, c) == taken_count(next.0, c));
        }
    }
}

/// No case gives the alternative context more than `per_case_limit` chunks.
pub proof fn lemma_alternative_context_per_case(
    chunks: Seq<IncidentEvidenceChunk>,
    s: ChunkRolePackingSettings,
    card_ids: Seq<Seq<char>>,
    excluded: Seq<Seq<char>>,
    c: Seq<char>,
)
    requires
        s.per_case_limit is Some,
    ensures
        case_count(alternative_context_entries(chunks, s, card_ids, excluded), chunks, c) <= s.per_case_limit->0,
{
    if s.limit > 0 {
        let order = alternative_case_order(card_ids, chunks);
        let pools = |d: Seq<char>| case_pool(chunks, s, excluded, d);
        let per_case = s.per_case_limit->0 as nat;
        assert forall|d: Seq<char>, i: int| order.contains(d) && 0 <= i < pools(d).len() implies chunks[(
        #[trigger] pools(d)[i]).index as int].case_id@ == d by {
            lemma_case_pool_ok(chunks, s, excluded, d);
            assert(pool_entry_ok(case_pool(chunks, s, excluded, d)[i], chunks, s, excluded, d));
        }
        let empty = Seq::<RankedChunk>::empty();
        let none = Map::<Seq<char>, nat>::empty();
        assert forall|d: Seq<char>| #[trigger] case_count(empty, chunks, d) == taken_count(none, d) by {}
        lemma_rounds_counts(order, chunks, pools, per_case, s.limit as nat, none, empty);
        assert(alternative_context_entries(chunks, s, card_ids, excluded) == rounds(
            order,
            pools,
            per_case,
            s.limit as nat,
            none,
            empty,
        ));
    } else {
        assert(case_count(Seq::<RankedChunk>::empty(), chunks, c) == 0);
    }
}

/// Whether `id` is among `ids`.
pub fn contains_text(ids: &Vec<String>, id: &String) -> (r: bool)
    ensures
        r == crate::shared_types::string_views(ids@).contains(id@),
{
    let ghost v = crate::shared_types::string_views(ids@);
    let mut i: usize = 0;
    while i < ids.len()
        invariant
            v == crate::shared_types::string_views(ids@),
            i <= ids@.len(),
            forall|j: int| 0 <= j < i ==> v[j] != id@,
        decreases ids@.len() - i,
    {
        if text_eq(ids[i].as_str(), id.as_str()) {
            assert(v[i as int] == id@);
            return true;
        }
        i = i + 1;
    }
    false
}

/// Filtering entries keeps them pointing at source chunks.
pub(crate) proof fn lemma_filters_bounded(e: Seq<RankedChunk>, chunks: Seq<IncidentEvidenceChunk>, excluded: Seq<Seq<char>>, c: Seq<char>)
    requires
        indices_below(e, chunks.len() as int),
    ensures
        indices_below(entries_not_excluded(e, chunks, excluded), chunks.len() as int),
        indices_below(entries_of_case(e, chunks, c), chunks.len() as int),
    decreases e.len(),
{
    if e.len() > 0 {
        let d = e.drop_last();
        assert forall|i: int| 0 <= i < d.len() implies (#[trigger] d[i]).index < chunks.len() by {
            assert(d[i] == e[i]);
        }
        lemma_filters_bounded(d, chunks, excluded, c);
        let a = entries_not_excluded(e, chunks, excluded);
        let ra = entries_not_excluded(d, chunks, excluded);
        assert forall|i: int| 0 <= i < a.len() implies (#[trigger] a[i]).index < chunks.len() by {
            if i < ra.len() {
                assert(a[i] == ra[i]);
            }
        }
        let b = entries_of_case(e, chunks, c);
        let rb = entries_of_case(d, chunks, c);
        assert forall|i: int| 0 <= i < b.len() implies (#[trigger] b[i]).index < chunks.len() by {
            if i < rb.len() {
                assert(b[i] == rb[i]);
            }
        }
    }
}

/// The entries of `e` whose chunk id is not among `excluded`.
pub(crate) fn drop_excluded(e: &Vec<RankedChunk>, chunks: &Vec<IncidentEvidenceChunk>, excluded: &Vec<String>) -> (r: Vec<RankedChunk>)
    requires
        indices_below(e@, chunks@.len() as int),
    ensures
        r@ == entries_not_excluded(e@, chunks@, crate::shared_types::string_views(excluded@)),
{
    let mut r: Vec<RankedChunk> = Vec::new();
    let mut i: usize = 0;
    while i < e.len()
        invariant
            indices_below(e@, chunks@.len() as int),
            i <= e@.len(),
            r@ == entries_not_excluded(e@.take(i as int), chunks@, crate::shared_types::string_views(excluded@)),
        decreases e@.len() - i,
    {
        assert(e@.take(i + 1).drop_last() =~= e@.take(i as int));
        assert(e@.take(i + 1).last() == e@[i as int]);
        let x = e[i];
        if !contains_text(excluded, &chunks[x.index].chunk_id) {
            r.push(x);
        }
        i = i + 1;
    }
    assert(e@.take(e@.len() as int) =~= e@);
    r
}

/// The entries of `e` whose chunk belongs to case `c`.
fn keep_case(e: &Vec<RankedChunk>, chunks: &Vec<IncidentEvidenceChunk>, c: &String) -> (r: Vec<RankedChunk>)
    requires
        indices_below(e@, chunks@.len() as int),
    ensures
        r@ == entries_of_case(e@, chunks@, c@),
{
    let mut r: Vec<RankedChunk> = Vec::new();
    let mut i: usize = 0;
    while i < e.len()
        invariant
            indices_below(e@, chunks@.len() as int),
            i <= e@.len(),
            r@ == entries_of_case(e@.take(i as int), chunks@, c@),
        decreases e@.len() - i,
    {
        assert(e@.take(i + 1).drop_last() =~= e@.take(i as int));
        assert(e@.take(i + 1).last() == e@[i as int]);
        let x = e[i];
        if text_eq(chunks[x.index].case_id.as_str(), c.as_str()) {
            r.push(x);
        }
        i = i + 1;
    }
    assert(e@.take(e@.len() as int) =~= e@);
    r
}

/// The case ids of the chunks in order of first appearance.
fn first_seen_case_ids(chunks: &Vec<IncidentEvidenceChunk>) -> (r: Vec<String>)
    ensures
        crate::shared_types::string_views(r@) == distinct_case_ids(chunks@),
{
    let mut r: Vec<String> = Vec::new();
    let mut i: usize = 0;
    while i < chunks.len()
        invariant
            i <= chunks@.len(),
            crate::shared_types::string_views(r@) == distinct_case_ids(chunks@.take(i as int)),
        decreases chunks@.len() - i,
    {
        assert(chunks@.take(i + 1).drop_last() =~= chunks@.take(i as int));
        assert(chunks@.take(i + 1).last() == chunks@[i as int]);
        if !contains_text(&r, &chunks[i].case_id) {
            let ghost before = r@;
            r.push(chunks[i].case_id.clone());
            assert(crate::shared_types::string_views(r@) =~= crate::shared_types::string_views(before).push(chunks@[i as int].case_id@));
        }
        i = i + 1;
    }
    assert(chunks@.take(chunks@.len() as int) =~= chunks@);
    r
}

proof fn lemma_rank_bounded_pool(e: Seq<RankedChunk>, n: int)
    requires
        indices_below(e, n),
    ensures
        indices_below(rank_entries(e), n),
{
    lemma_rank_entries_bounded(e, n);
}

/// The alternative-context chunks: cases take turns in the order of the
/// alternative cards (or of the chunks, without cards), each giving its
/// best remaining eligible chunk per round, skipping chunks already chosen
/// for other roles, until `limit` chunks are chosen or no case can give
/// more.
pub fn select_alternative_context_chunks(
    alt_chunks: &Vec<IncidentEvidenceChunk>,
    s: &ChunkRolePackingSettings,
    alt_card_ids: &Vec<String>,
    already_selected: &Vec<String>,
) -> (out: Vec<PromptIncidentEvidenceChunk>)
    ensures
        prompt_chunks_of(
            out@,
            alternative_context_entries(
                alt_chunks@,
                *s,
                crate::shared_types::string_views(alt_card_ids@),
                crate::shared_types::string_views(already_selected@),
            ),
            alt_chunks@,
            PromptEvidenceRole::AlternativeContext,
        ),
        out@.len() == alternative_context_count(
            alt_chunks@,
            *s,
            crate::shared_types::string_views(alt_card_ids@),
            crate::shared_types::string_views(already_selected@),
        ),
{
    let ghost card_ids = crate::shared_types::string_views(alt_card_ids@);
    let ghost excluded = crate::shared_types::string_views(already_selected@);
    proof {
        lemma_alternative_context_exact_count(alt_chunks@, *s, card_ids, excluded);
    }
    if s.limit == 0 {
        return Vec::new();
    }
    let per_case: usize = match s.per_case_limit {
        Some(n) => n,
        None => usize::MAX,
    };
    let order: Vec<String> = if alt_card_ids.len() > 0 {
        crate::json::copy_strings(alt_card_ids)
    } else {
        first_seen_case_ids(alt_chunks)
    };
    let ghost ord = crate::shared_types::string_views(order@);
    assert(ord == alternative_case_order(card_ids, alt_chunks@));
    let ghost pools = |c: Seq<char>| case_pool(alt_chunks@, *s, excluded, c);
    let eligible = collect_eligible(alt_chunks, s);
    let n_chunks = alt_chunks.len();
    proof {
        lemma_eligible_indices(alt_chunks@, *s);
    }
    let fresh = drop_excluded(&eligible, alt_chunks, already_selected);
    proof {
        lemma_filters_bounded(eligible@, alt_chunks@, excluded, Seq::empty());
    }
    let mut case_pools: Vec<Vec<RankedChunk>> = Vec::new();
    let mut k: usize = 0;
    while k < order.len()
        invariant
            k <= order@.len(),
            ord == crate::shared_types::string_views(order@),
            indices_below(fresh@, alt_chunks@.len() as int),
            fresh@ == entries_not_excluded(eligible_entries(alt_chunks@, *s), alt_chunks@, excluded),
            pools == (|c: Seq<char>| case_pool(alt_chunks@, *s, excluded, c)),
            case_pools@.len() == k,
            forall|j: int| 0 <= j < k ==> (#[trigger] case_pools@[j])@ == pools(ord[j]),
            forall|j: int| 0 <= j < k ==> indices_below((#[trigger] case_pools@[j])@, alt_chunks@.len() as int),
        decreases order@.len() - k,
    {
        let of_case = keep_case(&fresh, alt_chunks, &order[k]);
        proof {
            lemma_filters_bounded(fresh@, alt_chunks@, excluded, order@[k as int]@);
            lemma_rank_bounded_pool(of_case@, alt_chunks@.len() as int);
        }
        let ranked = rank_all(&of_case);
        case_pools.push(ranked);
        k = k + 1;
    }
    let mut counts: Vec<usize> = Vec::new();
    let mut z: usize = 0;
    while z < order.len()
        invariant
            z <= order@.len(),
            counts@.len() == z,
            forall|j: int| 0 <= j < z ==> counts@[j] == 0,
        decreases order@.len() - z,
    {
        counts.push(0);
        z = z + 1;
    }
    let ghost mut cmap: Map<Seq<char>, nat> = Map::empty();
    let mut sel: Vec<RankedChunk> = Vec::new();
    let ghost target = rounds(ord, pools, per_case as nat, s.limit as nat, cmap, sel@);
    assert(alternative_context_entries(alt_chunks@, *s, card_ids, excluded) == target);
    let mut done = false;
    while !done
        invariant
            ord == crate::shared_types::string_views(order@),
            case_pools@.len() == ord.len(),
            counts@.len() == ord.len(),
            forall|j: int| 0 <= j < ord.len() ==> (#[trigger] case_pools@[j])@ == pools(ord[j]),
            forall|j: int| 0 <= j < ord.len() ==> indices_below((#[trigger] case_pools@[j])@, alt_chunks@.len() as int),
            forall|j: int| 0 <= j < ord.len() ==> #[trigger] counts@[j] == taken_count(cmap, ord[j]),
            s.limit > 0,
            sel@.len() <= s.limit,
            indices_below(sel@, alt_chunks@.len() as int),
            done ==> sel@ == target,
            !done ==> target == rounds(ord, pools, per_case as nat, s.limit as nat, cmap, sel@),
        decreases (if done { 0 } else { 1 + s.limit - sel@.len() }),
    {
        let ghost start_map = cmap;
        let ghost start_sel = sel@;
        let prev = sel.len();
        let mut k: usize = 0;
        while k < order.len() && sel.len() < s.limit
            invariant
                ord == crate::shared_types::string_views(order@),
                case_pools@.len() == ord.len(),
                counts@.len() == ord.len(),
                forall|j: int| 0 <= j < ord.len() ==> (#[trigger] case_pools@[j])@ == pools(ord[j]),
                forall|j: int| 0 <= j < ord.len() ==> indices_below((#[trigger] case_pools@[j])@, alt_chunks@.len() as int),
                forall|j: int| 0 <= j < ord.len() ==> #[trigger] counts@[j] == taken_count(cmap, ord[j]),
                k <= ord.len(),
                sel@.len() <= s.limit,
                prev <= sel@.len(),
                prev == start_sel.len(),
                indices_below(sel@, alt_chunks@.len() as int),
                round_from(ord, 0, pools, per_case as nat, s.limit as nat, start_map, start_sel)
                    == round_from(ord, k as int, pools, per_case as nat, s.limit as nat, cmap, sel@),
            decreases ord.len() - k,
        {
            let n = counts[k];
            let pool_len = case_pools[k].len();
            if n < per_case && n < pool_len {
                let x = case_pools[k][n];
                let ghost c = ord[k as int];
                sel.push(x);
                proof {
                    cmap = cmap.insert(c, (n + 1) as nat);
                }
                let mut j: usize = 0;
                while j < order.len()
                    invariant
                        ord == crate::shared_types::string_views(order@),
                        counts@.len() == ord.len(),
                        j <= ord.len(),
                        k < ord.len(),
                        c == ord[k as int],
                        n < usize::MAX,
                        forall|q: int| 0 <= q < j ==> #[trigger] counts@[q] == taken_count(cmap, ord[q]),
                        forall|q: int| j <= q < ord.len() ==> (#[trigger] counts@[q] == taken_count(cmap, ord[q]) || (ord[q] == c && counts@[q] == n)),
                        taken_count(cmap, c) == n + 1,
                    decreases ord.len() - j,
                {
                    if text_eq(order[j].as_str(), order[k].as_str()) {
                        assert(ord[j as int] == c);
                        counts.set(j, n + 1);
                    }
                    j = j + 1;
                }
            }
            k = k + 1;
        }
        proof {
            lemma_round_grows(ord, k as int, pools, per_case as nat, s.limit as nat, cmap, sel@);
        }
        if sel.len() == prev || sel.len() >= s.limit {
            done = true;
        }
    }
    take_all_prompt_chunks(&sel, alt_chunks, PromptEvidenceRole::AlternativeContext)
}

/// The chunks of all entries, in order, in role `role`.
pub(crate) fn take_all_prompt_chunks(
    entries: &Vec<RankedChunk>,
    chunks: &Vec<IncidentEvidenceChunk>,
    role: PromptEvidenceRole,
) -> (out: Vec<PromptIncidentEvidenceChunk>)
    requires
        indices_below(entries@, chunks@.len() as int),
    ensures
        prompt_chunks_of(out@, entries@, chunks@, role),
{
    let out = take_prompt_chunks(entries, entries.len(), chunks, role);
    assert(first_n(entries@, entries@.len() as int) == entries@);
    out
}


// ─── How many chunks the alternative context takes ────────────────────────────

/// How many chunks case `c` can give: its pool, but at most `per_case`.
pub open spec fn case_cap(pools: spec_fn(Seq<char>) -> Seq<RankedChunk>, per_case: nat, c: Seq<char>) -> nat {
    if pools(c).len() <= per_case {
        pools(c).len()
    } else {
        per_case
    }
}

/// What the cases `cs` can give together.
pub open spec fn total_cap(cs: Seq<Seq<char>>, pools: spec_fn(Seq<char>) -> Seq<RankedChunk>, per_case: nat) -> nat
    decreases cs.len(),
{
    if cs.len() == 0 {
        0
    } else {
        total_cap(cs.drop_last(), pools, per_case) + case_cap(pools, per_case, cs.last())
    }
}

/// What the cases `cs` have given together.
pub open spec fn total_taken(cs: Seq<Seq<char>>, counts: Map<Seq<char>, nat>) -> nat
    decreases cs.len(),
{
    if cs.len() == 0 {
        0
    } else {
        total_taken(cs.drop_last(), counts) + taken_count(counts, cs.last())
    }
}

/// No element of `cs` occurs twice.
pub open spec fn distinct_cases(cs: Seq<Seq<char>>) -> bool {
    forall|i: int, j: int| 0 <= i < j < cs.len() ==> cs[i] != cs[j]
}

/// The number of chunks the alternative context takes: the capacity of the
/// cases taking turns (each case once, each giving its eligible chunks, at
/// most `per_case_limit`), but at most `limit`.
pub open spec fn alternative_context_count(
    chunks: Seq<IncidentEvidenceChunk>,
    s: ChunkRolePackingSettings,
    card_ids: Seq<Seq<char>>,
    excluded: Seq<Seq<char>>,
) -> nat {
    let per_case: nat = match s.per_case_limit {
        Some(n) => n as nat,
        None => usize::MAX as nat,
    };
    let total = total_cap(
        crate::context_text::first_occurrences(alternative_case_order(card_ids, chunks)),
        |c: Seq<char>| case_pool(chunks, s, excluded, c),
        per_case,
    );
    if total <= s.limit {
        total
    } else {
        s.limit as nat
    }
}

proof fn lemma_first_occurrences_distinct(s: Seq<Seq<char>>)
    ensures
        distinct_cases(crate::context_text::first_occurrences(s)),
        forall|x: Seq<char>| #[trigger] crate::context_text::first_occurrences(s).contains(x) <==> s.contains(x),
    decreases s.len(),
{
    if s.len() > 0 {
        let d = s.drop_last();
        lemma_first_occurrences_distinct(d);
        let rest = crate::context_text::first_occurrences(d);
        let f = crate::context_text::first_occurrences(s);
        assert forall|x: Seq<char>| #[trigger] f.contains(x) <==> s.contains(x) by {
            if s.contains(x) {
                let i = choose|i: int| 0 <= i < s.len() && s[i] == x;
                if i < s.len() - 1 {
                    assert(d[i] == x);
                    assert(d.contains(x));
                    assert(rest.contains(x));
                    if !rest.contains(s.last()) {
                        let k = choose|k: int| 0 <= k < rest.len() && rest[k] == x;
                        assert(f[k] == x);
                    }
                } else if !rest.contains(s.last()) {
                    assert(f[rest.len() as int] == x);
                }
            }
            if f.contains(x) {
                let k = choose|k: int| 0 <= k < f.len() && f[k] == x;
                if k < rest.len() {
                    assert(rest[k] == x);
                    assert(rest.contains(x));
                    let i = choose|i: int| 0 <= i < d.len() && d[i] == x;
                    assert(s[i] == x);
                } else {
                    assert(s[s.len() - 1] == x);
                }
            }
        }
    }
}

proof fn lemma_total_taken_other(cs: Seq<Seq<char>>, counts: Map<Seq<char>, nat>, c: Seq<char>, v: nat)
    requires
        !cs.contains(c),
    ensures
        total_taken(cs, counts.insert(c, v)) == total_taken(cs, counts),
    decreases cs.len(),
{
    if cs.len() > 0 {
        let d = cs.drop_last();
        assert(!d.contains(c)) by {
            if d.contains(c) {
                let i = choose|i: int| 0 <= i < d.len() && d[i] == c;
                assert(cs[i] == c);
            }
        }
        lemma_total_taken_other(d, counts, c, v);
        assert(cs[cs.len() - 1] != c);
    }
}

proof fn lemma_total_taken_insert(cs: Seq<Seq<char>>, counts: Map<Seq<char>, nat>, c: Seq<char>)
    requires
        distinct_cases(cs),
        cs.contains(c),
    ensures
        total_taken(cs, counts.insert(c, taken_count(counts, c) + 1)) == total_taken(cs, counts) + 1,
    decreases cs.len(),
{
    let n = taken_count(counts, c);
    let m = counts.insert(c, n + 1);
    let d = cs.drop_last();
    assert forall|i: int, j: int| 0 <= i < j < d.len() implies d[i] != d[j] by {
        assert(d[i] == cs[i] && d[j] == cs[j]);
    }
    if cs.last() == c {
        assert(!d.contains(c)) by {
            if d.contains(c) {
                let i = choose|i: int| 0 <= i < d.len() && d[i] == c;
                assert(cs[i] == cs[cs.len() - 1]);
            }
        }
        lemma_total_taken_other(d, counts, c, n + 1);
    } else {
        assert(d.contains(c)) by {
            let i = choose|i: int| 0 <= i < cs.len() && cs[i] == c;
            assert(i < cs.len() - 1);
            assert(d[i] == c);
        }
        lemma_total_taken_insert(d, counts, c);
        assert(taken_count(m, cs.last()) == taken_count(counts, cs.last()));
    }
}

proof fn lemma_total_taken_cap(
    cs: Seq<Seq<char>>,
    counts: Map<Seq<char>, nat>,
    pools: spec_fn(Seq<char>) -> Seq<RankedChunk>,
    per_case: nat,
)
    requires
        forall|c: Seq<char>| #[trigger] cs.contains(c) ==> taken_count(counts, c) <= case_cap(pools, per_case, c),
    ensures
        total_taken(cs, counts) <= total_cap(cs, pools, per_case),
        (forall|c: Seq<char>| #[trigger] cs.contains(c) ==> taken_count(counts, c) >= case_cap(pools, per_case, c))
            ==> total_taken(cs, counts) == total_cap(cs, pools, per_case),
    decreases cs.len(),
{
    if cs.len() > 0 {
        let d = cs.drop_last();
        assert forall|c: Seq<char>| #[trigger] d.contains(c) implies cs.contains(c) by {
            let i = choose|i: int| 0 <= i < d.len() && d[i] == c;
            assert(cs[i] == c);
        }
        lemma_total_taken_cap(d, counts, pools, per_case);
        assert(cs.contains(cs[cs.len() - 1]));
    }
}

proof fn lemma_total_taken_empty(cs: Seq<Seq<char>>)
    ensures
        total_taken(cs, Map::empty()) == 0,
    decreases cs.len(),
{
    if cs.len() > 0 {
        lemma_total_taken_empty(cs.drop_last());
    }
}

proof fn lemma_round_from_total(
    order: Seq<Seq<char>>,
    k: int,
    pools: spec_fn(Seq<char>) -> Seq<RankedChunk>,
    per_case: nat,
    limit: nat,
    counts: Map<Seq<char>, nat>,
    sel: Seq<RankedChunk>,
    cs: Seq<Seq<char>>,
)
    requires
        0 <= k,
        distinct_cases(cs),
        forall|c: Seq<char>| #[trigger] order.contains(c) ==> cs.contains(c),
        sel.len() == total_taken(cs, counts),
        forall|c: Seq<char>| #[trigger] cs.contains(c) ==> taken_count(counts, c) <= case_cap(pools, per_case, c),
        sel.len() <= limit,
    ensures
        ({
            let r = round_from(order, k, pools, per_case, limit, counts, sel);
            &&& r.1.len() == total_taken(cs, r.0)
            &&& forall|c: Seq<char>| #[trigger] cs.contains(c) ==> taken_count(r.0, c) <= case_cap(pools, per_case, c)
            &&& sel.len() <= r.1.len() <= limit
            &&& (r.1.len() == sel.len() && sel.len() < limit) ==> forall|j: int|
                k <= j < order.len() ==> taken_count(counts, #[trigger] order[j]) >= case_cap(pools, per_case, order[j])
        }),
    decreases order.len() - k,
{
    if !(k >= order.len() || sel.len() >= limit) {
        let c = order[k];
        let n = taken_count(counts, c);
        assert(order.contains(c));
        if n >= per_case || n >= pools(c).len() {
            lemma_round_from_total(order, k + 1, pools, per_case, limit, counts, sel, cs);
        } else {
            let sel2 = sel.push(pools(c)[n as int]);
            let counts2 = counts.insert(c, n + 1);
            lemma_total_taken_insert(cs, counts, c);
            assert forall|d: Seq<char>| #[trigger] cs.contains(d) implies taken_count(counts2, d) <= case_cap(
                pools,
                per_case,
                d,
            ) by {
                if d != c {
                    assert(taken_count(counts2, d) == taken_count(counts, d));
                }
            }
            lemma_round_from_total(order, k + 1, pools, per_case, limit, counts2, sel2, cs);
        }
    }
}

proof fn lemma_rounds_total(
    order: Seq<Seq<char>>,
    pools: spec_fn(Seq<char>) -> Seq<RankedChunk>,
    per_case: nat,
    limit: nat,
    counts: Map<Seq<char>, nat>,
    sel: Seq<RankedChunk>,
    cs: Seq<Seq<char>>,
)
    requires
        distinct_cases(cs),
        forall|c: Seq<char>| #[trigger] order.contains(c) <==> cs.contains(c),
        sel.len() == total_taken(cs, counts),
        forall|c: Seq<char>| #[trigger] cs.contains(c) ==> taken_count(counts, c) <= case_cap(pools, per_case, c),
        sel.len() <= limit,
    ensures
        rounds(order, pools, per_case, limit, counts, sel).len() == if total_cap(cs, pools, per_case) <= limit {
            total_cap(cs, pools, per_case)
        } else {
            limit
        },
    decreases limit - sel.len(),
{
    let next = round_from(order, 0, pools, per_case, limit, counts, sel);
    lemma_round_from_total(order, 0, pools, per_case, limit, counts, sel, cs);
    lemma_total_taken_cap(cs, next.0, pools, per_case);
    if next.1.len() <= sel.len() || next.1.len() >= limit || sel.len() >= limit {
        assert(rounds(order, pools, per_case, limit, counts, sel) == next.1);
        if next.1.len() < limit {
            assert forall|c: Seq<char>| #[trigger] cs.contains(c) implies taken_count(counts, c) >= case_cap(
                pools,
                per_case,
                c,
            ) by {
                assert(order.contains(c));
                let j = choose|j: int| 0 <= j < order.len() && order[j] == c;
                assert(taken_count(counts, order[j]) >= case_cap(pools, per_case, order[j]));
            }
            lemma_total_taken_cap(cs, counts, pools, per_case);
        }
    } else {
        lemma_rounds_total(order, pools, per_case, limit, next.0, next.1, cs);
        assert(rounds(order, pools, per_case, limit, counts, sel) == rounds(order, pools, per_case, limit, next.0, next.1));
    }
}

/// The alternative context takes exactly `alternative_context_count`
/// chunks: as many as the cases taking turns can give (each distinct case
/// its eligible chunks not chosen for another role, at most
/// `per_case_limit`), but no more than `limit`.
pub proof fn lemma_alternative_context_exact_count(
    chunks: Seq<IncidentEvidenceChunk>,
    s: ChunkRolePackingSettings,
    card_ids: Seq<Seq<char>>,
    excluded: Seq<Seq<char>>,
)
    ensures
        alternative_context_entries(chunks, s, card_ids, excluded).len() == alternative_context_count(
            chunks,
            s,
            card_ids,
            excluded,
        ),
{
    let order = alternative_case_order(card_ids, chunks);
    let cs = crate::context_text::first_occurrences(order);
    let pools = |c: Seq<char>| case_pool(chunks, s, excluded, c);
    let per_case: nat = match s.per_case_limit {
        Some(n) => n as nat,
        None => usize::MAX as nat,
    };
    if s.limit > 0 {
        lemma_first_occurrences_distinct(order);
        lemma_total_taken_empty(cs);
        lemma_rounds_total(order, pools, per_case, s.limit as nat, Map::empty(), Seq::empty(), cs);
        assert(alternative_context_entries(chunks, s, card_ids, excluded) == rounds(
            order,
            pools,
            per_case,
            s.limit as nat,
            Map::empty(),
            Seq::empty(),
        ));
    }
}

} // verus!
