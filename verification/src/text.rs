//! Character-level helpers shared by the tokenizer: character classes,
//! conversion of a string slice to its character sequence, trimming, and
//! maximal-run reasoning.

use vstd::prelude::*;

verus! {

/// Unicode whitespace, the set trimmed from line ends and required after the
/// colon of a metadata directive.
pub open spec fn is_lrc_space(c: char) -> bool {
    c == '\u{0009}' || c == '\u{000a}' || c == '\u{000b}' || c == '\u{000c}' || c == '\u{000d}'
        || c == ' ' || c == '\u{0085}' || c == '\u{00a0}' || c == '\u{1680}'
        || ('\u{2000}' <= c && c <= '\u{200a}') || c == '\u{2028}' || c == '\u{2029}'
        || c == '\u{202f}' || c == '\u{205f}' || c == '\u{3000}'
}

/// An ASCII decimal digit, the only digits the timestamp grammar accepts.
pub open spec fn is_lrc_digit(c: char) -> bool {
    '0' <= c && c <= '9'
}

/// An ASCII letter, the only characters a metadata key may contain.
pub open spec fn is_lrc_alpha(c: char) -> bool {
    ('A' <= c && c <= 'Z') || ('a' <= c && c <= 'z')
}

/// Numeric value of an ASCII decimal digit.
pub open spec fn digit_value(c: char) -> int {
    c as int - '0' as int
}

pub fn exec_is_lrc_space(c: char) -> (r: bool)
    ensures
        r == is_lrc_space(c),
{
    c == '\u{0009}' || c == '\u{000a}' || c == '\u{000b}' || c == '\u{000c}' || c == '\u{000d}'
        || c == ' ' || c == '\u{0085}' || c == '\u{00a0}' || c == '\u{1680}'
        || ('\u{2000}' <= c && c <= '\u{200a}') || c == '\u{2028}' || c == '\u{2029}'
        || c == '\u{202f}' || c == '\u{205f}' || c == '\u{3000}'
}

pub fn exec_is_lrc_digit(c: char) -> (r: bool)
    ensures
        r == is_lrc_digit(c),
{
    '0' <= c && c <= '9'
}

pub fn exec_is_lrc_alpha(c: char) -> (r: bool)
    ensures
        r == is_lrc_alpha(c),
{
    ('A' <= c && c <= 'Z') || ('a' <= c && c <= 'z')
}

/// The characters of a string slice, as a vector with the same view.
pub fn str_to_chars(s: &str) -> (v: Vec<char>)
    ensures
        v@ == s@,
{
    let n = s.unicode_len();
    let mut v: Vec<char> = Vec::new();
    let mut i: usize = 0;
    while i < n
        invariant
            i <= n,
            n == s@.len(),
            v@ == s@.subrange(0, i as int),
        decreases n - i,
    {
        v.push(s.get_char(i));
        assert(v@ =~= s@.subrange(0, i as int + 1));
        i = i + 1;
    }
    assert(v@ =~= s@);
    v
}

/// The whitespace predicate as a single named value, so that every use of it
/// in runs and trimming refers to one and the same function.
pub open spec fn ws_pred() -> spec_fn(char) -> bool {
    |c: char| is_lrc_space(c)
}

/// Length of the maximal run of characters satisfying `p` that starts at `i`.
pub open spec fn run_len(s: Seq<char>, i: int, p: spec_fn(char) -> bool) -> int
    decreases s.len() - i when i <= s.len()
{
    if i < 0 || i >= s.len() {
        0
    } else if p(s[i]) {
        1 + run_len(s, i + 1, p)
    } else {
        0
    }
}

/// A stretch of characters satisfying `p` that is followed by a failing
/// character (or the end) is exactly the maximal run.
pub proof fn lemma_run_len_eq(s: Seq<char>, i: int, k: int, p: spec_fn(char) -> bool)
    requires
        0 <= i <= k <= s.len(),
        forall|j: int| i <= j < k ==> p(#[trigger] s[j]),
        k == s.len() || !p(s[k]),
    ensures
        run_len(s, i, p) == k - i,
    decreases k - i,
{
    if i < k {
        lemma_run_len_eq(s, i + 1, k, p);
    }
}

/// Length of the maximal run of characters satisfying `p` that ends just
/// before position `j`, looking backwards.
pub open spec fn run_len_back(s: Seq<char>, j: int, p: spec_fn(char) -> bool) -> int
    decreases j when j <= s.len()
{
    if j <= 0 || j > s.len() {
        0
    } else if p(s[j - 1]) {
        1 + run_len_back(s, j - 1, p)
    } else {
        0
    }
}

pub proof fn lemma_run_len_back_eq(s: Seq<char>, k: int, j: int, p: spec_fn(char) -> bool)
    requires
        0 <= k <= j <= s.len(),
        forall|m: int| k <= m < j ==> p(#[trigger] s[m]),
        k == 0 || !p(s[k - 1]),
    ensures
        run_len_back(s, j, p) == j - k,
    decreases j - k,
{
    if k < j {
        lemma_run_len_back_eq(s, k, j - 1, p);
    }
}

/// A line with its leading and trailing whitespace removed.
pub open spec fn spec_trim(s: Seq<char>) -> Seq<char> {
    let lo = run_len(s, 0, ws_pred());
    if lo == s.len() {
        Seq::<char>::empty()
    } else {
        s.subrange(lo, s.len() - run_len_back(s, s.len() as int, ws_pred()))
    }
}

/// Bounds of the trimmed portion of `v`: every character before `lo` and from
/// `hi` on is whitespace, and the trimmed view is exactly `v[lo..hi]`.
pub fn trim_bounds(v: &Vec<char>) -> (r: (usize, usize))
    ensures
        r.0 <= r.1 <= v@.len(),
        spec_trim(v@) == v@.subrange(r.0 as int, r.1 as int),
{
    let ghost p = ws_pred();
    let n = v.len();
    let mut lo: usize = 0;
    while lo < n && exec_is_lrc_space(v[lo])
        invariant
            lo <= n,
            n == v@.len(),
            forall|j: int| 0 <= j < lo ==> is_lrc_space(#[trigger] v@[j]),
        decreases n - lo,
    {
        lo = lo + 1;
    }
    proof {
        lemma_run_len_eq(v@, 0, lo as int, p);
    }
    if lo == n {
        proof {
            assert(spec_trim(v@) =~= v@.subrange(lo as int, lo as int));
        }
        return (lo, lo);
    }
    let mut hi: usize = n;
    while hi > lo && exec_is_lrc_space(v[hi - 1])
        invariant
            lo <= hi <= n,
            n == v@.len(),
            forall|j: int| hi <= j < n ==> is_lrc_space(#[trigger] v@[j]),
        decreases hi,
    {
        hi = hi - 1;
    }
    // the character at `lo` is not whitespace, so the backward run stops at or
    // after it
    proof {
        if hi == lo {
            assert(!is_lrc_space(v@[lo as int]));
            assert(false);
        }
        lemma_run_len_back_eq(v@, hi as int, n as int, p);
    }
    (lo, hi)
}

} // verus!
