use vstd::prelude::*;

use crate::chunk_selection::contains_text;
use crate::shared_types::string_views;

verus! {

/// A raw user request.
#[derive(Clone, Debug, PartialEq, Eq)]
pub struct UserRequest {
    pub query: String,
}

/// A request whose query has been canonicalised and measured in tokens.
#[derive(Clone, Debug, PartialEq, Eq)]
pub struct NormalizedUserRequest {
    pub query: String,
    pub input_token_count: usize,
}

/// Failure reported by the tokenizer.
#[derive(Clone, Debug, PartialEq, Eq)]
pub struct TokenizerError {
    pub message: String,
}

/// Ways normalization refuses a request.
#[derive(Clone, Debug, PartialEq, Eq)]
pub enum InputNormalizationError {
    EmptyQuery,
    InputTooLong { token_count: usize, max_input_tokens: usize },
    Tokenizer(TokenizerError),
}

/// Unicode `White_Space` characters (what `char::is_whitespace` accepts).
pub open spec fn is_unicode_whitespace(c: char) -> bool {
    ('\u{9}' <= c && c <= '\u{d}') || c == ' ' || c == '\u{85}' || c == '\u{a0}' || c
        == '\u{1680}' || ('\u{2000}' <= c && c <= '\u{200a}') || c == '\u{2028}' || c
        == '\u{2029}' || c == '\u{202f}' || c == '\u{205f}' || c == '\u{3000}'
}

/// Whether `c` is a Unicode whitespace character.
pub fn is_whitespace_char(c: char) -> (r: bool)
    ensures
        r == is_unicode_whitespace(c),
{
    ('\u{9}' <= c && c <= '\u{d}') || c == ' ' || c == '\u{85}' || c == '\u{a0}' || c
        == '\u{1680}' || ('\u{2000}' <= c && c <= '\u{200a}') || c == '\u{2028}' || c
        == '\u{2029}' || c == '\u{202f}' || c == '\u{205f}' || c == '\u{3000}'
}

/// One step of whitespace collapsing: the output so far, and whether a
/// separator is owed before the next word.
pub open spec fn collapse_step(acc: Seq<char>, pending: bool, c: char) -> (Seq<char>, bool) {
    if is_unicode_whitespace(c) {
        (acc, acc.len() > 0)
    } else if pending {
        (acc.push(' ').push(c), false)
    } else {
        (acc.push(c), false)
    }
}

/// State of whitespace collapsing after reading `s`.
pub open spec fn collapse_state(s: Seq<char>) -> (Seq<char>, bool)
    decreases s.len(),
{
    if s.len() == 0 {
        (Seq::empty(), false)
    } else {
        let prev = collapse_state(s.drop_last());
        collapse_step(prev.0, prev.1, s.last())
    }
}

/// The whitespace-separated words of `s`, joined by single spaces.
pub open spec fn collapse_whitespace(s: Seq<char>) -> Seq<char> {
    collapse_state(s).0
}

/// Splits `raw` at Unicode whitespace and joins the words with one space.
pub fn collapse_query_whitespace(raw: &str) -> (q: String)
    ensures
        q@ == collapse_whitespace(raw@),
{
    let ghost s = raw@;
    let n = raw.unicode_len();
    let mut out = String::new();
    let mut pending = false;
    let mut i: usize = 0;
    proof {
        reveal_strlit(" ");
    }
    while i < n
        invariant
            s == raw@,
            n == s.len(),
            i <= n,
            (out@, pending) == collapse_state(s.take(i as int)),
        decreases n - i,
    {
        assert(s.take(i + 1).drop_last() =~= s.take(i as int));
        proof {
            reveal_strlit(" ");
        }
        let ghost before = out@;
        let c = raw.get_char(i);
        if is_whitespace_char(c) {
            pending = out.unicode_len() > 0;
        } else {
            if pending {
                out.append(" ");
                pending = false;
            }
            let one = raw.substring_char(i, i + 1);
            assert(one@ =~= seq![c]);
            out.append(one);
            proof {
                if collapse_state(s.take(i as int)).1 {
                    assert(out@ =~= before.push(' ').push(c));
                } else {
                    assert(out@ =~= before.push(c));
                }
            }
        }
        proof {
            assert(s.take(i + 1).last() == c);
        }
        i = i + 1;
    }
    assert(s.take(n as int) =~= s);
    out
}


/// `t` has no leading or trailing whitespace, no whitespace other than a
/// plain space, and never two spaces in a row.
pub open spec fn is_collapsed(t: Seq<char>) -> bool {
    &&& forall|i: int| 0 <= i < t.len() && is_unicode_whitespace(#[trigger] t[i]) ==> t[i] == ' '
    &&& t.len() > 0 ==> !is_unicode_whitespace(t[0]) && !is_unicode_whitespace(t.last())
    &&& forall|i: int| 0 <= i < t.len() - 1 && #[trigger] t[i] == ' ' ==> t[i + 1] != ' '
}

proof fn lemma_collapse_state_collapsed(s: Seq<char>)
    ensures
        is_collapsed(collapse_state(s).0),
        collapse_state(s).1 ==> collapse_state(s).0.len() > 0,
    decreases s.len(),
{
    if s.len() > 0 {
        lemma_collapse_state_collapsed(s.drop_last());
        let prev = collapse_state(s.drop_last());
        let c = s.last();
        let out = collapse_state(s).0;
        if !is_unicode_whitespace(c) {
            if prev.1 {
                assert(out =~= prev.0.push(' ').push(c));
                assert forall|i: int| 0 <= i < out.len() - 1 && #[trigger] out[i] == ' ' implies out[i
                    + 1] != ' ' by {
                    if i < prev.0.len() - 1 {
                        assert(out[i] == prev.0[i] && out[i + 1] == prev.0[i + 1]);
                    } else if i == prev.0.len() - 1 {
                        assert(out[i] == prev.0.last());
                    }
                }
                assert forall|i: int| 0 <= i < out.len() && is_unicode_whitespace(
                    #[trigger] out[i],
                ) implies out[i] == ' ' by {
                    if i < prev.0.len() {
                        assert(out[i] == prev.0[i]);
                    }
                }
                assert(out[0] == prev.0[0]);
            } else {
                assert(out =~= prev.0.push(c));
                assert forall|i: int| 0 <= i < out.len() - 1 && #[trigger] out[i] == ' ' implies out[i
                    + 1] != ' ' by {
                    if i < prev.0.len() - 1 {
                        assert(out[i] == prev.0[i] && out[i + 1] == prev.0[i + 1]);
                    } else if i == prev.0.len() - 1 {
                        assert(out[i] == prev.0.last());
                    }
                }
                assert forall|i: int| 0 <= i < out.len() && is_unicode_whitespace(
                    #[trigger] out[i],
                ) implies out[i] == ' ' by {
                    if i < prev.0.len() {
                        assert(out[i] == prev.0[i]);
                    }
                }
                if prev.0.len() > 0 {
                    assert(out[0] == prev.0[0]);
                }
            }
        }
    }
}

proof fn lemma_collapse_state_of_collapsed_prefix(t: Seq<char>, k: int)
    requires
        is_collapsed(t),
        0 <= k <= t.len(),
    ensures
        collapse_state(t.take(k)) == (if k > 0 && t[k - 1] == ' ' {
            (t.take(k - 1), true)
        } else {
            (t.take(k), false)
        }),
    decreases k,
{
    if k > 0 {
        lemma_collapse_state_of_collapsed_prefix(t, k - 1);
        assert(t.take(k).drop_last() =~= t.take(k - 1));
        assert(t.take(k).last() == t[k - 1]);
        let c = t[k - 1];
        if is_unicode_whitespace(c) {
            assert(c == ' ');
            assert(k - 1 > 0);
            assert(t[k - 2] != ' ');
            assert(t.take(k - 1).len() > 0);
        } else if k > 1 && t[k - 2] == ' ' {
            assert(t.take(k - 2).push(' ').push(c) =~= t.take(k));
        } else {
            assert(t.take(k - 1).push(c) =~= t.take(k));
        }
    } else {
        assert(t.take(0) =~= Seq::<char>::empty());
    }
}

/// Whitespace collapsing yields text in canonical form, and collapsing an
/// already-collapsed query changes nothing: normalization is idempotent.
pub proof fn lemma_collapse_whitespace_idempotent(s: Seq<char>)
    ensures
        is_collapsed(collapse_whitespace(s)),
        collapse_whitespace(collapse_whitespace(s)) == collapse_whitespace(s),
{
    lemma_collapse_state_collapsed(s);
    let t = collapse_whitespace(s);
    lemma_collapse_state_of_collapsed_prefix(t, t.len() as int);
    assert(t.take(t.len() as int) =~= t);
    if t.len() > 0 {
        assert(t[t.len() - 1] == t.last());
    }
}

/// Counts the tokens of a normalized query (the model tokenizer).  What it
/// answers is a function of the tokenizer and the text.
pub trait TokenCounter {
    /// What counting the tokens of `text` answers: the count, or the text of
    /// the tokenizer's error.
    spec fn token_outcome(&self, text: Seq<char>) -> Result<usize, Seq<char>>;

    fn count_tokens(&self, text: &str) -> (r: Result<usize, TokenizerError>)
        ensures
            match r {
                Ok(n) => self.token_outcome(text@) == Ok::<usize, Seq<char>>(n),
                Err(e) => self.token_outcome(text@) == Err::<usize, Seq<char>>(e.message@),
            },
    ;
}

/// The verdict on a normalized `query` whose tokenization answered
/// `tokens`, under the ceiling `max`: a tokenizer error is passed on, no
/// token means an empty query, more than `max` is too long, and otherwise
/// the request is accepted with its token count.
pub open spec fn token_verdict(
    query: Seq<char>,
    tokens: Result<usize, Seq<char>>,
    max: usize,
    r: Result<NormalizedUserRequest, InputNormalizationError>,
) -> bool {
    match tokens {
        Err(m) => r matches Err(InputNormalizationError::Tokenizer(e)) && e.message@ == m,
        Ok(n) => if n == 0 {
            r == Err::<NormalizedUserRequest, InputNormalizationError>(InputNormalizationError::EmptyQuery)
        } else if n > max {
            r == Err::<NormalizedUserRequest, InputNormalizationError>(
                InputNormalizationError::InputTooLong { token_count: n, max_input_tokens: max },
            )
        } else {
            r matches Ok(req) && req.query@ == query && req.input_token_count == n
        },
    }
}

/// Canonicalises user queries and enforces the input token ceiling.
#[derive(Debug)]
pub struct InputNormalization<T: TokenCounter> {
    tokenizer: T,
    max_input_tokens: usize,
}

impl<T: TokenCounter> InputNormalization<T> {
    pub fn new(tokenizer: T, max_input_tokens: usize) -> (r: Self)
        ensures
            r.max_input_tokens() == max_input_tokens,
    {
        InputNormalization { tokenizer, max_input_tokens }
    }

    /// The token ceiling.
    pub closed spec fn max_input_tokens(&self) -> usize {
        self.max_input_tokens
    }

    /// What the tokenizer in use answers for `text`.
    pub closed spec fn counted(&self, text: Seq<char>) -> Result<usize, Seq<char>> {
        self.tokenizer.token_outcome(text)
    }

    /// Decides a request once its normalized `query` has been tokenized with
    /// outcome `tokens`.
    pub fn check_token_count(
        &self,
        query: String,
        tokens: Result<usize, TokenizerError>,
    ) -> (r: Result<NormalizedUserRequest, InputNormalizationError>)
        ensures
            match tokens {
                Err(e) => r == Err::<NormalizedUserRequest, InputNormalizationError>(
                    InputNormalizationError::Tokenizer(e),
                ),
                Ok(n) => if n == 0 {
                    r == Err::<NormalizedUserRequest, InputNormalizationError>(
                        InputNormalizationError::EmptyQuery,
                    )
                } else if n > self.max_input_tokens() {
                    r == Err::<NormalizedUserRequest, InputNormalizationError>(
                        InputNormalizationError::InputTooLong {
                            token_count: n,
                            max_input_tokens: self.max_input_tokens(),
                        },
                    )
                } else {
                    r matches Ok(req) && req.query == query && req.input_token_count == n
                },
            },
    {
        let input_token_count = match tokens {
            Ok(n) => n,
            Err(e) => {
                return Err(InputNormalizationError::Tokenizer(e));
            },
        };
        if input_token_count == 0 {
            return Err(InputNormalizationError::EmptyQuery);
        }
        if input_token_count > self.max_input_tokens {
            return Err(
                InputNormalizationError::InputTooLong {
                    token_count: input_token_count,
                    max_input_tokens: self.max_input_tokens,
                },
            );
        }
        Ok(NormalizedUserRequest { query, input_token_count })
    }

    /// Collapses whitespace in the query, refuses it when nothing is left,
    /// and otherwise tokenizes it and decides by the token count
    /// (`token_verdict`): an accepted request carries the collapsed query and
    /// a token count in `1..=max_input_tokens`.
    pub fn normalize(&self, request: UserRequest) -> (r: Result<
        NormalizedUserRequest,
        InputNormalizationError,
    >)
        ensures
            collapse_whitespace(request.query@).len() == 0 ==> r == Err::<
                NormalizedUserRequest,
                InputNormalizationError,
            >(InputNormalizationError::EmptyQuery),
            r matches Ok(req) ==> req.query@ == collapse_whitespace(request.query@) && 0
                < req.input_token_count <= self.max_input_tokens(),
            r matches Ok(req) ==> is_collapsed(req.query@) && collapse_whitespace(req.query@)
                == req.query@,
            r matches Err(InputNormalizationError::InputTooLong { token_count, max_input_tokens })
                ==> max_input_tokens == self.max_input_tokens() && token_count > max_input_tokens,
            collapse_whitespace(request.query@).len() > 0 ==> token_verdict(
                collapse_whitespace(request.query@),
                self.counted(collapse_whitespace(request.query@)),
                self.max_input_tokens(),
                r,
            ),
    {
        let query = collapse_query_whitespace(request.query.as_str());
        proof {
            lemma_collapse_whitespace_idempotent(request.query@);
        }
        if query.unicode_len() == 0 {
            return Err(InputNormalizationError::EmptyQuery);
        }
        let tokens = self.tokenizer.count_tokens(query.as_str());
        self.check_token_count(query, tokens)
    }
}

// ─── A word-level tokenizer ───────────────────────────────────────────────────

/// State of splitting text into words after reading `s`: the words so far,
/// and whether the last character read was inside a word.
pub open spec fn word_state(s: Seq<char>) -> (Seq<Seq<char>>, bool)
    decreases s.len(),
{
    if s.len() == 0 {
        (Seq::empty(), false)
    } else {
        let prev = word_state(s.drop_last());
        let c = s.last();
        if is_unicode_whitespace(c) {
            (prev.0, false)
        } else if prev.1 {
            (prev.0.update(prev.0.len() - 1, prev.0.last().push(c)), true)
        } else {
            (prev.0.push(seq![c]), true)
        }
    }
}

/// The maximal runs of non-whitespace characters of `s`, in order.
pub open spec fn words_of(s: Seq<char>) -> Seq<Seq<char>> {
    word_state(s).0
}

/// The first of `ws` that is not in `vocabulary`.
pub open spec fn first_unknown(ws: Seq<Seq<char>>, vocabulary: Seq<Seq<char>>) -> Option<Seq<char>>
    decreases ws.len(),
{
    if ws.len() == 0 {
        None
    } else if !vocabulary.contains(ws[0]) {
        Some(ws[0])
    } else {
        first_unknown(ws.drop_first(), vocabulary)
    }
}

/// The error text for a word that has no token.
pub open spec fn no_token_text(word: Seq<char>) -> Seq<char> {
    "no token for `"@ + word + "`"@
}

/// A word-level tokenizer: one token per whitespace-separated word; with a
/// vocabulary, a word outside it cannot be encoded.
#[derive(Clone, Debug)]
pub struct WordLevelTokenizer {
    pub vocabulary: Option<Vec<String>>,
}

proof fn lemma_word_state_in_word(s: Seq<char>)
    ensures
        word_state(s).1 ==> word_state(s).0.len() > 0,
    decreases s.len(),
{
    if s.len() > 0 {
        lemma_word_state_in_word(s.drop_last());
    }
}

/// The whitespace-separated words of `text`.
pub fn split_words(text: &str) -> (ws: Vec<String>)
    ensures
        string_views(ws@) == words_of(text@),
{
    let ghost s = text@;
    let n = text.unicode_len();
    let mut ws: Vec<String> = Vec::new();
    let mut in_word = false;
    let mut i: usize = 0;
    while i < n
        invariant
            s == text@,
            n == s.len(),
            i <= n,
            (string_views(ws@), in_word) == word_state(s.take(i as int)),
        decreases n - i,
    {
        assert(s.take(i + 1).drop_last() =~= s.take(i as int));
        assert(s.take(i + 1).last() == s[i as int]);
        proof {
            lemma_word_state_in_word(s.take(i as int));
        }
        let ghost before = string_views(ws@);
        let c = text.get_char(i);
        if is_whitespace_char(c) {
            in_word = false;
        } else {
            let one = text.substring_char(i, i + 1);
            assert(one@ =~= seq![c]);
            if in_word {
                let ghost old_ws = ws@;
                let mut w = ws.pop().unwrap();
                let ghost w0 = w@;
                assert(w0 == before.last()) by {
                    assert(old_ws == ws@.push(w));
                    assert(before[before.len() - 1] == old_ws[old_ws.len() - 1]@);
                }
                w.append(one);
                let ghost w1 = w@;
                assert(w1 =~= w0.push(c));
                let ghost popped = ws@;
                ws.push(w);
                assert(string_views(ws@) =~= before.update(before.len() - 1, w0.push(c))) by {
                    assert(ws@ == popped.push(ws@.last()));
                    assert(ws@.last()@ == w1);
                    assert forall|j: int| 0 <= j < ws@.len() - 1 implies ws@[j] == old_ws[j] by {
                        assert(ws@[j] == popped[j]);
                        assert(old_ws[j] == popped[j]);
                    }
                }
            } else {
                ws.push(one.to_owned());
                assert(string_views(ws@) =~= before.push(seq![c]));
            }
            in_word = true;
        }
        i = i + 1;
    }
    assert(s.take(n as int) =~= s);
    ws
}

impl WordLevelTokenizer {
    /// A tokenizer over `vocabulary`, or over every word when there is none.
    pub fn new(vocabulary: Option<Vec<String>>) -> (t: Self)
        ensures
            t.vocabulary == vocabulary,
    {
        WordLevelTokenizer { vocabulary }
    }
}

impl TokenCounter for WordLevelTokenizer {
    open spec fn token_outcome(&self, text: Seq<char>) -> Result<usize, Seq<char>> {
        match self.vocabulary {
            None => Ok(words_of(text).len() as usize),
            Some(v) => match first_unknown(words_of(text), string_views(v@)) {
                Some(w) => Err(no_token_text(w)),
                None => Ok(words_of(text).len() as usize),
            },
        }
    }

    fn count_tokens(&self, text: &str) -> (r: Result<usize, TokenizerError>) {
        let ws = split_words(text);
        if let Some(vocabulary) = &self.vocabulary {
            let ghost all = string_views(ws@);
            let ghost vv = string_views(vocabulary@);
            let mut k: usize = 0;
            assert(all.subrange(0, all.len() as int) =~= all);
            while k < ws.len()
                invariant
                    all == string_views(ws@),
                    all == words_of(text@),
                    self.vocabulary == Some(*vocabulary),
                    vv == string_views(vocabulary@),
                    k <= ws@.len(),
                    first_unknown(all, vv) == first_unknown(all.subrange(k as int, all.len() as int), vv),
                decreases ws@.len() - k,
            {
                let ghost sub = all.subrange(k as int, all.len() as int);
                assert(sub[0] == ws@[k as int]@);
                assert(sub.drop_first() =~= all.subrange(k + 1, all.len() as int));
                if !contains_text(vocabulary, &ws[k]) {
                    assert(first_unknown(sub, vv) == Some(sub[0]));
                    let mut message = "no token for `".to_owned();
                    message.append(ws[k].as_str());
                    message.append("`");
                    proof {
                        reveal_strlit("no token for `");
                        reveal_strlit("`");
                    }
                    assert(message@ =~= no_token_text(ws@[k as int]@));
                    assert(self.token_outcome(text@) == Err::<usize, Seq<char>>(message@));
                    return Err(TokenizerError { message });
                }
                k = k + 1;
            }
            assert(all.subrange(k as int, all.len() as int) =~= Seq::<Seq<char>>::empty());
        }
        Ok(ws.len())
    }
}

} // verus!
