//! The tokenizer: splits an LRC document into physical lines and each line
//! into metadata, timestamp and text tokens.
//!
//! The grammar is scanned by hand, character by character:
//! - a whole trimmed line of the shape `[key: value]` (key one or more ASCII
//!   letters, at least one whitespace character after the colon, no `]`
//!   inside the value, the closing `]` at the very end of the line) is a
//!   single metadata token;
//! - otherwise the line is scanned left to right for the two bracket
//!   families `[m{1,2}:s{1,2}(.f{1,3})?]` (standard timestamps) and
//!   `<m{1,2}:s{1,2}(.f{1,3})?>` (enhanced inline timestamps); the stretches
//!   between matches become text tokens.

use vstd::prelude::*;

use crate::error::LrcError;
use crate::text::{
    digit_value, exec_is_lrc_alpha, exec_is_lrc_digit, exec_is_lrc_space, is_lrc_alpha,
    is_lrc_digit, is_lrc_space, lemma_run_len_eq, run_len, spec_trim, str_to_chars, trim_bounds,
    ws_pred,
};
use crate::timestamp::TimeStamp;
use crate::tokens::{Token, TokenModel};

verus! {

/// The timestamp bracket match starting at position `i`, if any: the
/// timestamp value and the position just past the closing bracket.
///
/// Digit groups are matched greedily, exactly as the grammar
/// `open m{1,2} : s{1,2} (. f{1,3})? close` demands: since a longer digit run
/// leaves a digit where `:`, `.` or the closing bracket must stand, the
/// decomposition of a match is unique, and a fixed choice of group widths
/// loses no match. A fraction of one digit counts hundreds of milliseconds,
/// of two digits tens, of three digits milliseconds.
pub open spec fn spec_match_at(s: Seq<char>, i: int, open: char, close: char) -> Option<
    (TimeStamp, int),
> {
    if !(0 <= i && i + 5 <= s.len() && s[i] == open && is_lrc_digit(s[i + 1])) {
        None
    } else {
        let a: int = if i + 2 < s.len() && is_lrc_digit(s[i + 2]) {
            2
        } else {
            1
        };
        let p = i + 1 + a;
        if !(p + 1 < s.len() && s[p] == ':' && is_lrc_digit(s[p + 1])) {
            None
        } else {
            let b: int = if p + 2 < s.len() && is_lrc_digit(s[p + 2]) {
                2
            } else {
                1
            };
            let q = p + 1 + b;
            let minutes = if a == 1 {
                digit_value(s[i + 1])
            } else {
                10 * digit_value(s[i + 1]) + digit_value(s[i + 2])
            };
            let seconds = if b == 1 {
                digit_value(s[p + 1])
            } else {
                10 * digit_value(s[p + 1]) + digit_value(s[p + 2])
            };
            if q < s.len() && s[q] == close {
                Some((TimeStamp { min: minutes as u32, sec: seconds as u32, ms: 0 }, q + 1))
            } else if q + 1 < s.len() && s[q] == '.' && is_lrc_digit(s[q + 1]) {
                let f: int = if q + 2 < s.len() && is_lrc_digit(s[q + 2]) {
                    if q + 3 < s.len() && is_lrc_digit(s[q + 3]) {
                        3
                    } else {
                        2
                    }
                } else {
                    1
                };
                let r = q + 1 + f;
                if r < s.len() && s[r] == close {
                    let ms = if f == 1 {
                        100 * digit_value(s[q + 1])
                    } else if f == 2 {
                        100 * digit_value(s[q + 1]) + 10 * digit_value(s[q + 2])
                    } else {
                        100 * digit_value(s[q + 1]) + 10 * digit_value(s[q + 2]) + digit_value(
                            s[q + 3],
                        )
                    };
                    Some((TimeStamp { min: minutes as u32, sec: seconds as u32, ms: ms as u32 }, r + 1))
                } else {
                    None
                }
            } else {
                None
            }
        }
    }
}

/// A match covers at least five characters, stays inside the sequence, and
/// yields a normalized timestamp.
pub proof fn lemma_match_bounds(s: Seq<char>, i: int, open: char, close: char)
    requires
        spec_match_at(s, i, open, close) is Some,
    ensures
        i + 5 <= (spec_match_at(s, i, open, close)->0).1 <= s.len(),
        (spec_match_at(s, i, open, close)->0).0.min <= 99,
        (spec_match_at(s, i, open, close)->0).0.sec <= 99,
        (spec_match_at(s, i, open, close)->0).0.ms <= 999,
{
}

/// The text stretch `s[start..i]` as a token list: one text token if the
/// stretch is non-empty, nothing otherwise.
pub open spec fn gap_text(s: Seq<char>, start: int, i: int) -> Seq<TokenModel> {
    if start < i {
        seq![TokenModel::Text(s.subrange(start, i))]
    } else {
        seq![]
    }
}

/// The tokens of the trimmed line `s` from position `i` on, where `start`
/// marks the beginning of the text stretch still open. At each position a
/// standard timestamp match is taken first, then an enhanced one; positions
/// without a match extend the open text stretch. The two bracket families
/// cannot overlap, since neither opening character occurs inside a match of
/// the other family, so this single left-to-right scan finds exactly the
/// matches of both independent scans, in source order.
pub open spec fn scan_tokens(s: Seq<char>, i: int, start: int) -> Seq<TokenModel>
    decreases s.len() - i,
{
    if !(0 <= start <= i) || i >= s.len() {
        gap_text(s, start, s.len() as int)
    } else {
        match spec_match_at(s, i, '[', ']') {
            Some(m) => gap_text(s, start, i) + seq![TokenModel::Timestamp(m.0)] + scan_tokens(
                s,
                m.1,
                m.1,
            ),
            None => match spec_match_at(s, i, '<', '>') {
                Some(m) => gap_text(s, start, i) + seq![TokenModel::EnhancedTimestamp(m.0)]
                    + scan_tokens(s, m.1, m.1),
                None => scan_tokens(s, i + 1, start),
            },
        }
    }
}

/// The alphabetic-key predicate as a single named value.
pub open spec fn alpha_pred() -> spec_fn(char) -> bool {
    |c: char| is_lrc_alpha(c)
}

/// The metadata directive match of a whole trimmed line: `[`, a maximal
/// non-empty run of ASCII letters (the key), `:`, a maximal non-empty run of
/// whitespace, then the value, which contains no `]`, and the closing `]` as
/// the final character of the line.
pub open spec fn spec_meta(t: Seq<char>) -> Option<(Seq<char>, Seq<char>)> {
    let k = run_len(t, 1, alpha_pred());
    if 2 <= t.len() && t[0] == '[' && 1 <= k && 1 + k < t.len() && t[1 + k] == ':' {
        let w = run_len(t, 2 + k, ws_pred());
        if 1 <= w && 2 + k + w <= t.len() - 1 && t[t.len() - 1] == ']' && (forall|j: int|
            2 + k + w <= j < t.len() - 1 ==> t[j] != ']') {
            Some((t.subrange(1, 1 + k), t.subrange(2 + k + w, t.len() - 1)))
        } else {
            None
        }
    } else {
        None
    }
}

/// The token list of one physical line: the line is trimmed; a metadata
/// match yields exactly one token, any other line is scanned for timestamps
/// and text.
pub open spec fn spec_line_tokens(line: Seq<char>) -> Seq<TokenModel> {
    let t = spec_trim(line);
    match spec_meta(t) {
        Some(kv) => seq![TokenModel::Metadata { key: kv.0, value: kv.1 }],
        None => scan_tokens(t, 0, 0),
    }
}

/// The predicate "not a line feed" as a single named value.
pub open spec fn not_newline_pred() -> spec_fn(char) -> bool {
    |c: char| c != '\n'
}

/// A line-feed-terminated piece of a document with a carriage return before
/// the terminator removed.
pub open spec fn strip_cr(line: Seq<char>) -> Seq<char> {
    if line.len() > 0 && line.last() == '\r' {
        line.drop_last()
    } else {
        line
    }
}

/// The physical lines of a document: split at `\n`, a `\r` directly before a
/// `\n` belongs to the terminator, a final terminator opens no empty line,
/// and an unterminated final piece is kept as it stands.
pub open spec fn spec_doc_lines(s: Seq<char>) -> Seq<Seq<char>>
    decreases s.len(),
{
    if s.len() == 0 {
        seq![]
    } else {
        // the run of characters before the first line feed; the clamp only
        // restates that a run stays within the sequence
        let n0 = run_len(s, 0, not_newline_pred());
        let n = if n0 < 0 {
            0
        } else {
            n0
        };
        if n >= s.len() {
            seq![s]
        } else {
            seq![strip_cr(s.subrange(0, n))] + spec_doc_lines(s.subrange(n + 1, s.len() as int))
        }
    }
}

/// The token lists of a whole document, one per physical line.
pub open spec fn spec_tokenize(text: Seq<char>) -> Seq<Seq<TokenModel>> {
    spec_doc_lines(text).map_values(|l: Seq<char>| spec_line_tokens(l))
}

/// Numeric value of an ASCII digit character.
fn exec_digit_value(c: char) -> (r: u32)
    requires
        is_lrc_digit(c),
    ensures
        r == digit_value(c),
        r <= 9,
{
    (c as u32) - 48
}

/// The timestamp bracket match starting at `i`, computed exactly as
/// `spec_match_at` states it.
fn try_match(v: &Vec<char>, i: usize, open: char, close: char) -> (r: Option<(TimeStamp, usize)>)
    ensures
        r is Some <==> spec_match_at(v@, i as int, open, close) is Some,
        r is Some ==> r->0 == (
            (spec_match_at(v@, i as int, open, close)->0).0,
            (spec_match_at(v@, i as int, open, close)->0).1 as usize,
        ),
{
    let n = v.len();
    if !(i < n && n - i >= 5 && v[i] == open && exec_is_lrc_digit(v[i + 1])) {
        return None;
    }
    let a: usize = if i + 2 < n && exec_is_lrc_digit(v[i + 2]) {
        2
    } else {
        1
    };
    let p = i + 1 + a;
    if !(p + 1 < n && v[p] == ':' && exec_is_lrc_digit(v[p + 1])) {
        return None;
    }
    let b: usize = if p + 2 < n && exec_is_lrc_digit(v[p + 2]) {
        2
    } else {
        1
    };
    let q = p + 1 + b;
    let minutes: u32 = if a == 1 {
        exec_digit_value(v[i + 1])
    } else {
        10 * exec_digit_value(v[i + 1]) + exec_digit_value(v[i + 2])
    };
    let seconds: u32 = if b == 1 {
        exec_digit_value(v[p + 1])
    } else {
        10 * exec_digit_value(v[p + 1]) + exec_digit_value(v[p + 2])
    };
    if q < n && v[q] == close {
        Some((TimeStamp { min: minutes, sec: seconds, ms: 0 }, q + 1))
    } else if q < n && v[q] == '.' && q + 1 < n && exec_is_lrc_digit(v[q + 1]) {
        let f: usize = if q + 2 < n && exec_is_lrc_digit(v[q + 2]) {
            if q + 3 < n && exec_is_lrc_digit(v[q + 3]) {
                3
            } else {
                2
            }
        } else {
            1
        };
        let r = q + 1 + f;
        if r < n && v[r] == close {
            let ms: u32 = if f == 1 {
                100 * exec_digit_value(v[q + 1])
            } else if f == 2 {
                100 * exec_digit_value(v[q + 1]) + 10 * exec_digit_value(v[q + 2])
            } else {
                100 * exec_digit_value(v[q + 1]) + 10 * exec_digit_value(v[q + 2])
                    + exec_digit_value(v[q + 3])
            };
            Some((TimeStamp { min: minutes, sec: seconds, ms }, r + 1))
        } else {
            None
        }
    } else {
        None
    }
}

/// The metadata token of a whole trimmed line, if the line matches the
/// directive grammar that `spec_meta` states.
fn try_metadata(v: &Vec<char>, t: &str) -> (r: Option<Token>)
    requires
        v@ == t@,
    ensures
        r is Some <==> spec_meta(v@) is Some,
        r is Some ==> r->0@ == (TokenModel::Metadata {
            key: (spec_meta(v@)->0).0,
            value: (spec_meta(v@)->0).1,
        }),
{
    let n = v.len();
    if n < 2 || v[0] != '[' || v[n - 1] != ']' {
        return None;
    }
    // maximal run of ASCII letters from position 1: the key
    let mut k: usize = 1;
    while k < n && exec_is_lrc_alpha(v[k])
        invariant
            1 <= k <= n,
            n == v@.len(),
            forall|j: int| 1 <= j < k ==> is_lrc_alpha(#[trigger] v@[j]),
        decreases n - k,
    {
        k = k + 1;
    }
    proof {
        lemma_run_len_eq(v@, 1, k as int, alpha_pred());
    }
    let k = k - 1;
    if k < 1 || 1 + k >= n || v[1 + k] != ':' {
        return None;
    }
    // maximal run of whitespace after the colon
    let mut w_end: usize = 2 + k;
    while w_end < n && exec_is_lrc_space(v[w_end])
        invariant
            2 + k <= w_end <= n,
            n == v@.len(),
            forall|j: int| 2 + k <= j < w_end ==> is_lrc_space(#[trigger] v@[j]),
        decreases n - w_end,
    {
        w_end = w_end + 1;
    }
    proof {
        lemma_run_len_eq(v@, 2 + k as int, w_end as int, ws_pred());
    }
    if w_end == 2 + k || w_end > n - 1 {
        return None;
    }
    // the value may not contain a closing bracket
    let mut j: usize = w_end;
    while j < n - 1
        invariant
            w_end <= j <= n - 1,
            n == v@.len(),
            forall|m: int| w_end <= m < j ==> v@[m] != ']',
        decreases n - j,
    {
        if v[j] == ']' {
            return None;
        }
        j = j + 1;
    }
    let key = t.substring_char(1, 1 + k).to_owned();
    let value = t.substring_char(w_end, n - 1).to_owned();
    Some(Token::Metadata { key, value })
}

/// Tokenizes a single physical line.
///
/// The call always succeeds: every line has a token list, and a bracket that
/// fails to match the timestamp shape is ordinary text. The error type is
/// kept because the grammar reserves a failure for timestamp captures whose
/// numeric groups cannot be read; with ASCII digit captures such groups
/// always read, so no input reaches that failure.
pub fn tokenize_line(line: &str) -> (r: Result<Vec<Token>, LrcError>)
    ensures
        r is Ok,
        r->Ok_0.deep_view() == spec_line_tokens(line@),
{
    let v = str_to_chars(line);
    let (lo, hi) = trim_bounds(&v);
    let trimmed = line.substring_char(lo, hi);
    let tv = str_to_chars(trimmed);
    assert(tv@ == spec_trim(line@));

    if let Some(tok) = try_metadata(&tv, trimmed) {
        let mut out: Vec<Token> = Vec::new();
        out.push(tok);
        assert(out.deep_view() =~= spec_line_tokens(line@));
        return Ok(out);
    }

    let n = tv.len();
    let mut out: Vec<Token> = Vec::new();
    let mut i: usize = 0;
    let mut start: usize = 0;
    while i < n
        invariant
            start <= i <= n,
            n == tv@.len(),
            tv@ == spec_trim(line@),
            trimmed@ == tv@,
            spec_meta(tv@) is None,
            scan_tokens(tv@, 0, 0) == out.deep_view() + scan_tokens(tv@, i as int, start as int),
        decreases n - i,
    {
        let ghost prev = out.deep_view();
        if let Some((ts, j)) = try_match(&tv, i, '[', ']') {
            proof {
                lemma_match_bounds(tv@, i as int, '[', ']');
            }
            if start < i {
                out.push(Token::Text(trimmed.substring_char(start, i).to_owned()));
            }
            out.push(Token::Timestamp(ts));
            assert(out.deep_view() =~= prev + gap_text(tv@, start as int, i as int) + seq![
                TokenModel::Timestamp(ts),
            ]);
            i = j;
            start = j;
        } else if let Some((ts, j)) = try_match(&tv, i, '<', '>') {
            proof {
                lemma_match_bounds(tv@, i as int, '<', '>');
            }
            if start < i {
                out.push(Token::Text(trimmed.substring_char(start, i).to_owned()));
            }
            out.push(Token::EnhancedTimestamp(ts));
            assert(out.deep_view() =~= prev + gap_text(tv@, start as int, i as int) + seq![
                TokenModel::EnhancedTimestamp(ts),
            ]);
            i = j;
            start = j;
        } else {
            i = i + 1;
        }
    }
    if start < n {
        out.push(Token::Text(trimmed.substring_char(start, n).to_owned()));
        assert(out.deep_view().last() == TokenModel::Text(tv@.subrange(start as int, n as int)));
    }
    assert(out.deep_view() =~= spec_line_tokens(line@));
    Ok(out)
}

/// Tokenizes a whole document: one token list per physical line, empty
/// lines included. As for a single line, the call always succeeds.
pub fn tokenize(text: &str) -> (r: Result<Vec<Vec<Token>>, LrcError>)
    ensures
        r is Ok,
        r->Ok_0.deep_view() == spec_tokenize(text@),
{
    let v = str_to_chars(text);
    let n = v.len();
    let mut res: Vec<Vec<Token>> = Vec::new();
    let mut pos: usize = 0;
    proof {
        assert(v@.subrange(0, n as int) =~= text@);
        assert(res.deep_view() + spec_tokenize(text@) =~= spec_tokenize(text@));
    }
    while pos < n
        invariant
            pos <= n,
            n == v@.len(),
            v@ == text@,
            spec_tokenize(text@) == res.deep_view() + spec_doc_lines(
                v@.subrange(pos as int, n as int),
            ).map_values(|l: Seq<char>| spec_line_tokens(l)),
        decreases n - pos,
    {
        let ghost suffix = v@.subrange(pos as int, n as int);
        let ghost prev = res.deep_view();
        // the run of characters before the next line feed
        let mut q: usize = pos;
        while q < n && v[q] != '\n'
            invariant
                pos <= q <= n,
                n == v@.len(),
                forall|j: int| pos <= j < q ==> v@[j] != '\n',
            decreases n - q,
        {
            q = q + 1;
        }
        proof {
            assert forall|j: int| 0 <= j < q - pos implies not_newline_pred()(suffix[j]) by {
                assert(suffix[j] == v@[pos + j]);
            }
            if q < n {
                assert(suffix[q - pos] == v@[q as int]);
            }
            lemma_run_len_eq(suffix, 0, q - pos as int, not_newline_pred());
        }
        if q == n {
            // unterminated final piece: kept as it stands
            let piece = text.substring_char(pos, n);
            assert(piece@ =~= suffix);
            let toks = match tokenize_line(piece) {
                Ok(t) => t,
                Err(e) => {
                    return Err(e);
                },
            };
            res.push(toks);
            proof {
                assert(spec_doc_lines(suffix) =~= seq![suffix]);
                assert(res.deep_view() =~= prev + spec_doc_lines(suffix).map_values(
                    |l: Seq<char>| spec_line_tokens(l),
                ));
            }
            pos = n;
        } else {
            // a terminated line: a carriage return directly before the line
            // feed belongs to the terminator
            let end = if q > pos && v[q - 1] == '\r' {
                q - 1
            } else {
                q
            };
            let piece = text.substring_char(pos, end);
            proof {
                assert(suffix.subrange(0, q - pos as int) =~= v@.subrange(pos as int, q as int));
                assert(piece@ =~= strip_cr(suffix.subrange(0, q - pos as int)));
            }
            let toks = match tokenize_line(piece) {
                Ok(t) => t,
                Err(e) => {
                    return Err(e);
                },
            };
            res.push(toks);
            proof {
                assert(suffix.subrange(q - pos + 1 as int, suffix.len() as int) =~= v@.subrange(
                    q as int + 1,
                    n as int,
                ));
                assert(res.deep_view() =~= prev + seq![
                    spec_line_tokens(strip_cr(suffix.subrange(0, q - pos as int))),
                ]);
                assert(spec_doc_lines(suffix).map_values(|l: Seq<char>| spec_line_tokens(l)) =~=
                    seq![spec_line_tokens(strip_cr(suffix.subrange(0, q - pos as int)))]
                    + spec_doc_lines(v@.subrange(q as int + 1, n as int)).map_values(
                    |l: Seq<char>| spec_line_tokens(l),
                ));
            }
            pos = q + 1;
        }
    }
    assert(spec_doc_lines(v@.subrange(pos as int, n as int)) =~= Seq::<Seq<char>>::empty());
    assert(res.deep_view() =~= spec_tokenize(text@));
    Ok(res)
}

} // verus!
