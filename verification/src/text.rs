use vstd::prelude::*;

use crate::input_normalization::{is_unicode_whitespace, is_whitespace_char};

verus! {

/// `s` with its leading Unicode whitespace removed.
pub open spec fn trim_start_seq(s: Seq<char>) -> Seq<char>
    decreases s.len(),
{
    if s.len() > 0 && is_unicode_whitespace(s[0]) {
        trim_start_seq(s.drop_first())
    } else {
        s
    }
}

/// `s` with its trailing Unicode whitespace removed.
pub open spec fn trim_end_seq(s: Seq<char>) -> Seq<char>
    decreases s.len(),
{
    if s.len() > 0 && is_unicode_whitespace(s.last()) {
        trim_end_seq(s.drop_last())
    } else {
        s
    }
}

/// `s` without leading and trailing Unicode whitespace (what `str::trim` gives).
pub open spec fn trim_seq(s: Seq<char>) -> Seq<char> {
    trim_end_seq(trim_start_seq(s))
}

/// `p` occurs in `s` starting at position `i`.
pub open spec fn matches_at(s: Seq<char>, p: Seq<char>, i: int) -> bool {
    0 <= i && i + p.len() <= s.len() && s.subrange(i, i + p.len()) == p
}

/// `p` occurs somewhere in `s`.
pub open spec fn contains_seq(s: Seq<char>, p: Seq<char>) -> bool {
    exists|i: int| matches_at(s, p, i)
}

/// The first position at or after `i` where `p` occurs in `s`.
pub open spec fn find_from(s: Seq<char>, p: Seq<char>, i: int) -> Option<int>
    decreases s.len() + 1 - i,
{
    if i < 0 || i + p.len() > s.len() {
        None
    } else if matches_at(s, p, i) {
        Some(i)
    } else {
        find_from(s, p, i + 1)
    }
}

/// Number of non-overlapping occurrences of `p` in `s` from position `i`,
/// taken left to right (what `str::matches(..).count()` gives for a
/// non-empty pattern).
pub open spec fn count_from(s: Seq<char>, p: Seq<char>, i: int) -> nat
    decreases s.len() + 1 - i,
{
    if p.len() == 0 || i < 0 || i + p.len() > s.len() {
        0
    } else if matches_at(s, p, i) {
        1 + count_from(s, p, i + p.len())
    } else {
        count_from(s, p, i + 1)
    }
}

/// Number of non-overlapping occurrences of `p` in `s`.
pub open spec fn count_matches(s: Seq<char>, p: Seq<char>) -> nat {
    count_from(s, p, 0)
}

/// `s` from position `i` on, with every non-overlapping occurrence of the
/// non-empty `p` replaced by `r`, left to right.
pub open spec fn replace_from(s: Seq<char>, p: Seq<char>, r: Seq<char>, i: int) -> Seq<char>
    decreases s.len() + 1 - i,
{
    if i < 0 || i >= s.len() {
        Seq::empty()
    } else if p.len() > 0 && matches_at(s, p, i) {
        r + replace_from(s, p, r, i + p.len())
    } else {
        seq![s[i]] + replace_from(s, p, r, i + 1)
    }
}

/// `s` with every occurrence of `p` replaced by `r` (what `str::replace`
/// gives for a non-empty pattern).
pub open spec fn replace_all_seq(s: Seq<char>, p: Seq<char>, r: Seq<char>) -> Seq<char> {
    replace_from(s, p, r, 0)
}

/// `s` with the first occurrence of `p` replaced by `r` (what
/// `str::replacen(p, r, 1)` gives).
pub open spec fn replace_first_seq(s: Seq<char>, p: Seq<char>, r: Seq<char>) -> Seq<char> {
    match find_from(s, p, 0) {
        Some(k) => s.take(k) + r + s.skip(k + p.len()),
        None => s,
    }
}

proof fn lemma_trim_start_at(s: Seq<char>, a: int)
    requires
        0 <= a <= s.len(),
        forall|j: int| 0 <= j < a ==> is_unicode_whitespace(#[trigger] s[j]),
        a == s.len() || !is_unicode_whitespace(s[a]),
    ensures
        trim_start_seq(s) == s.subrange(a, s.len() as int),
    decreases a,
{
    if a == 0 {
        assert(s.subrange(0, s.len() as int) =~= s);
    } else {
        let t = s.drop_first();
        assert forall|j: int| 0 <= j < a - 1 implies is_unicode_whitespace(#[trigger] t[j]) by {
            assert(t[j] == s[j + 1]);
        }
        if a - 1 < t.len() {
            assert(t[a - 1] == s[a]);
        }
        lemma_trim_start_at(t, a - 1);
        assert(t.subrange(a - 1, t.len() as int) =~= s.subrange(a, s.len() as int));
    }
}

proof fn lemma_trim_end_at(s: Seq<char>, b: int)
    requires
        0 <= b <= s.len(),
        forall|j: int| b <= j < s.len() ==> is_unicode_whitespace(#[trigger] s[j]),
        b == 0 || !is_unicode_whitespace(s[b - 1]),
    ensures
        trim_end_seq(s) == s.subrange(0, b),
    decreases s.len() - b,
{
    if b == s.len() {
        assert(s.subrange(0, b) =~= s);
    } else {
        let t = s.drop_last();
        assert forall|j: int| b <= j < t.len() implies is_unicode_whitespace(#[trigger] t[j]) by {
            assert(t[j] == s[j]);
        }
        if b > 0 {
            assert(t[b - 1] == s[b - 1]);
        }
        lemma_trim_end_at(t, b);
        assert(t.subrange(0, b) =~= s.subrange(0, b));
    }
}

proof fn lemma_trim_start_edge(s: Seq<char>)
    ensures
        trim_start_seq(s).len() > 0 ==> !is_unicode_whitespace(trim_start_seq(s)[0]),
    decreases s.len(),
{
    if s.len() > 0 && is_unicode_whitespace(s[0]) {
        lemma_trim_start_edge(s.drop_first());
    }
}

proof fn lemma_trim_end_edge(s: Seq<char>)
    ensures
        trim_end_seq(s) == s.take(trim_end_seq(s).len() as int),
        trim_end_seq(s).len() <= s.len(),
        trim_end_seq(s).len() > 0 ==> !is_unicode_whitespace(trim_end_seq(s).last()),
    decreases s.len(),
{
    if s.len() > 0 && is_unicode_whitespace(s.last()) {
        lemma_trim_end_edge(s.drop_last());
        let t = trim_end_seq(s.drop_last());
        assert(s.drop_last().take(t.len() as int) =~= s.take(t.len() as int));
    } else {
        assert(s.take(s.len() as int) =~= s);
    }
}

/// A trimmed text that is not empty starts and ends with a character that
/// is not whitespace.
pub proof fn lemma_trim_seq_edges(s: Seq<char>)
    ensures
        trim_seq(s).len() > 0 ==> !is_unicode_whitespace(trim_seq(s)[0]) && !is_unicode_whitespace(
            trim_seq(s).last(),
        ),
{
    let a = trim_start_seq(s);
    lemma_trim_start_edge(s);
    lemma_trim_end_edge(a);
    let t = trim_end_seq(a);
    if t.len() > 0 {
        assert(t[0] == a.take(t.len() as int)[0]);
    }
}

/// `s` without leading and trailing Unicode whitespace.
pub fn trim_text(s: &str) -> (t: String)
    ensures
        t@ == trim_seq(s@),
{
    let n = s.unicode_len();
    let mut a: usize = 0;
    while a < n && is_whitespace_char(s.get_char(a))
        invariant
            n == s@.len(),
            a <= n,
            forall|j: int| 0 <= j < a ==> is_unicode_whitespace(#[trigger] s@[j]),
        decreases n - a,
    {
        a = a + 1;
    }
    let mut b: usize = n;
    while b > a && is_whitespace_char(s.get_char(b - 1))
        invariant
            n == s@.len(),
            a <= b <= n,
            forall|j: int| b <= j < n ==> is_unicode_whitespace(#[trigger] s@[j]),
        decreases b - a,
    {
        b = b - 1;
    }
    proof {
        lemma_trim_start_at(s@, a as int);
        let u = s@.subrange(a as int, n as int);
        assert forall|j: int| b - a <= j < u.len() implies is_unicode_whitespace(#[trigger] u[j]) by {
            assert(u[j] == s@[a + j]);
        }
        if b > a {
            assert(u[b - a - 1] == s@[b - 1]);
        }
        lemma_trim_end_at(u, b - a);
        assert(u.subrange(0, b - a) =~= s@.subrange(a as int, b as int));
    }
    String::from_str(s.substring_char(a, b))
}

/// Whether `p` occurs in `s` at position `i`.
fn text_matches_at(s: &str, n: usize, p: &str, m: usize, i: usize) -> (r: bool)
    requires
        n == s@.len(),
        m == p@.len(),
        i + m <= n,
    ensures
        r == matches_at(s@, p@, i as int),
{
    let mut j: usize = 0;
    while j < m
        invariant
            n == s@.len(),
            m == p@.len(),
            i + m <= n,
            j <= m,
            forall|k: int| 0 <= k < j ==> s@[i + k] == p@[k],
        decreases m - j,
    {
        if s.get_char(i + j) != p.get_char(j) {
            assert(s@.subrange(i as int, i + m)[j as int] == s@[i + j]);
            return false;
        }
        j = j + 1;
    }
    assert(s@.subrange(i as int, i + m) =~= p@);
    true
}

/// `s` ends with `p`.
pub open spec fn ends_with_seq(s: Seq<char>, p: Seq<char>) -> bool {
    matches_at(s, p, s.len() - p.len())
}

/// Whether `s` ends with `p`.
pub fn text_ends_with(s: &str, p: &str) -> (r: bool)
    ensures
        r == ends_with_seq(s@, p@),
{
    let n = s.unicode_len();
    let m = p.unicode_len();
    if m > n {
        return false;
    }
    text_matches_at(s, n, p, m, n - m)
}

proof fn lemma_find_from_some(s: Seq<char>, p: Seq<char>, i: int, k: int)
    requires
        find_from(s, p, i) == Some(k),
    ensures
        i <= k,
        matches_at(s, p, k),
    decreases s.len() + 1 - i,
{
    if !matches_at(s, p, i) {
        lemma_find_from_some(s, p, i + 1, k);
    }
}

proof fn lemma_find_from_none(s: Seq<char>, p: Seq<char>, i: int)
    requires
        0 <= i,
        find_from(s, p, i) is None,
    ensures
        forall|j: int| i <= j ==> !matches_at(s, p, j),
    decreases s.len() + 1 - i,
{
    if i + p.len() <= s.len() {
        lemma_find_from_none(s, p, i + 1);
    }
}

/// The first position where `p` occurs in `s`.
pub fn find_text(s: &str, p: &str) -> (r: Option<usize>)
    ensures
        match r {
            Some(k) => find_from(s@, p@, 0) == Some(k as int),
            None => find_from(s@, p@, 0) is None,
        },
{
    let n = s.unicode_len();
    let m = p.unicode_len();
    if m > n {
        return None;
    }
    if m == 0 {
        assert(s@.subrange(0, 0) =~= p@);
        return Some(0);
    }
    let mut i: usize = 0;
    while i <= n - m
        invariant
            n == s@.len(),
            m == p@.len(),
            0 < m <= n,
            i <= n - m + 1,
            find_from(s@, p@, 0) == find_from(s@, p@, i as int),
        decreases n - i,
    {
        if text_matches_at(s, n, p, m, i) {
            return Some(i);
        }
        i = i + 1;
    }
    None
}

/// Whether `p` occurs in `s`.
pub fn text_contains(s: &str, p: &str) -> (r: bool)
    ensures
        r == contains_seq(s@, p@),
{
    match find_text(s, p) {
        Some(k) => {
            proof {
                lemma_find_from_some(s@, p@, 0, k as int);
            }
            true
        },
        None => {
            proof {
                lemma_find_from_none(s@, p@, 0);
            }
            false
        },
    }
}

proof fn lemma_count_positive_found(s: Seq<char>, p: Seq<char>, i: int)
    requires
        count_from(s, p, i) > 0,
    ensures
        find_from(s, p, i) is Some,
    decreases s.len() + 1 - i,
{
    if !matches_at(s, p, i) {
        lemma_count_positive_found(s, p, i + 1);
    }
}

/// Replacing the first occurrence of a pattern that occurs puts the
/// replacement text in, whole, and shortens or lengthens the text by the
/// difference of the two.
pub proof fn lemma_replace_first_inserts(s: Seq<char>, p: Seq<char>, r: Seq<char>)
    requires
        count_matches(s, p) > 0,
    ensures
        contains_seq(replace_first_seq(s, p, r), r),
        replace_first_seq(s, p, r).len() == s.len() - p.len() + r.len(),
{
    lemma_count_positive_found(s, p, 0);
    let k = find_from(s, p, 0)->Some_0;
    lemma_find_from_some(s, p, 0, k);
    let t = replace_first_seq(s, p, r);
    assert(t.subrange(k, k + r.len()) =~= r);
    assert(matches_at(t, r, k));
}

proof fn lemma_count_from_bound(s: Seq<char>, p: Seq<char>, i: int)
    requires
        0 <= i <= s.len(),
    ensures
        count_from(s, p, i) <= s.len() - i,
    decreases s.len() + 1 - i,
{
    if p.len() > 0 && i + p.len() <= s.len() {
        if matches_at(s, p, i) {
            lemma_count_from_bound(s, p, i + p.len());
        } else {
            lemma_count_from_bound(s, p, i + 1);
        }
    }
}

/// Number of non-overlapping occurrences of `p` in `s`.
pub fn count_text(s: &str, p: &str) -> (c: usize)
    ensures
        c == count_matches(s@, p@),
{
    let n = s.unicode_len();
    let m = p.unicode_len();
    if m == 0 || m > n {
        return 0;
    }
    let mut i: usize = 0;
    let mut c: usize = 0;
    proof {
        lemma_count_from_bound(s@, p@, 0);
    }
    while i <= n - m
        invariant
            n == s@.len(),
            m == p@.len(),
            0 < m <= n,
            i <= n,
            c + count_from(s@, p@, i as int) == count_from(s@, p@, 0),
            count_from(s@, p@, 0) <= n,
        decreases n - i,
    {
        if text_matches_at(s, n, p, m, i) {
            c = c + 1;
            i = i + m;
        } else {
            i = i + 1;
        }
    }
    c
}

/// `s` with the first occurrence of `p` replaced by `r`.
pub fn replace_first_text(s: &str, p: &str, r: &str) -> (out: String)
    ensures
        out@ == replace_first_seq(s@, p@, r@),
{
    match find_text(s, p) {
        Some(k) => {
            let n = s.unicode_len();
            let m = p.unicode_len();
            proof {
                lemma_find_from_some(s@, p@, 0, k as int);
            }
            let mut out = String::from_str(s.substring_char(0, k));
            out.append(r);
            out.append(s.substring_char(k + m, n));
            assert(s@.subrange(0, k as int) =~= s@.take(k as int));
            assert(s@.subrange(k + m, n as int) =~= s@.skip(k + m));
            out
        },
        None => String::from_str(s),
    }
}

proof fn lemma_replace_from_at_end(s: Seq<char>, p: Seq<char>, r: Seq<char>, i: int)
    requires
        0 <= i <= s.len(),
        i + p.len() > s.len(),
    ensures
        replace_from(s, p, r, i) == s.skip(i),
    decreases s.len() - i,
{
    if i < s.len() {
        lemma_replace_from_at_end(s, p, r, i + 1);
        assert(seq![s[i]] + s.skip(i + 1) =~= s.skip(i));
    } else {
        assert(s.skip(i) =~= Seq::<char>::empty());
    }
}

/// `s` with every occurrence of the non-empty `p` replaced by `r`.
pub fn replace_all_text(s: &str, p: &str, r: &str) -> (out: String)
    requires
        p@.len() > 0,
    ensures
        out@ == replace_all_seq(s@, p@, r@),
{
    let n = s.unicode_len();
    let m = p.unicode_len();
    let mut out = String::new();
    let mut i: usize = 0;
    while m <= n && i <= n - m
        invariant
            n == s@.len(),
            m == p@.len(),
            m > 0,
            i <= n,
            out@ + replace_from(s@, p@, r@, i as int) == replace_all_seq(s@, p@, r@),
        decreases n - i,
    {
        let ghost before = out@;
        if text_matches_at(s, n, p, m, i) {
            out.append(r);
            assert(out@ + replace_from(s@, p@, r@, i + m) =~= before + replace_from(
                s@,
                p@,
                r@,
                i as int,
            ));
            i = i + m;
        } else {
            out.append(s.substring_char(i, i + 1));
            assert(s@.subrange(i as int, i + 1) =~= seq![s@[i as int]]);
            assert(out@ + replace_from(s@, p@, r@, i + 1) =~= before + replace_from(
                s@,
                p@,
                r@,
                i as int,
            ));
            i = i + 1;
        }
    }
    proof {
        lemma_replace_from_at_end(s@, p@, r@, i as int);
        assert(s@.subrange(i as int, n as int) =~= s@.skip(i as int));
    }
    out.append(s.substring_char(i, n));
    out
}

} // verus!
