//! The grammar parser: turns the token list of a line into a structured
//! event, and a whole document into a sequence of events.

use vstd::prelude::*;

use crate::error::LrcError;
use crate::timestamp::TimeStamp;
use crate::tokenizer::{spec_tokenize, tokenize};
use crate::tokens::{LrcEvent, LrcEventModel, LyricSegment, LyricSegmentModel, Token, TokenModel};

verus! {

/// The number of consecutive standard-timestamp tokens starting at `i`.
pub open spec fn leading_ts_count(toks: Seq<TokenModel>, i: int) -> int
    decreases toks.len() - i when i <= toks.len()
{
    if i < 0 || i >= toks.len() {
        0
    } else if toks[i] is Timestamp {
        1 + leading_ts_count(toks, i + 1)
    } else {
        0
    }
}

proof fn lemma_leading_ts_count_eq(toks: Seq<TokenModel>, i: int, k: int)
    requires
        0 <= i <= k <= toks.len(),
        forall|j: int| i <= j < k ==> toks[j] is Timestamp,
        k == toks.len() || !(toks[k] is Timestamp),
    ensures
        leading_ts_count(toks, i) == k - i,
    decreases k - i,
{
    if i < k {
        lemma_leading_ts_count_eq(toks, i + 1, k);
    }
}

/// The timestamp carried by a standard-timestamp token.
pub open spec fn timestamp_of(t: TokenModel) -> TimeStamp {
    match t {
        TokenModel::Timestamp(ts) => ts,
        _ => arbitrary(),
    }
}

/// The segments of a lyric line, built left to right from the tokens after
/// the leading timestamps. `segs` are the segments already closed and `buf`
/// the plain text gathered since the last segment:
/// - an enhanced timestamp flushes a non-empty buffer as a plain segment and
///   opens a fresh segment of its own with empty text;
/// - text fills the freshly opened enhanced segment if that segment is still
///   empty, and otherwise extends the buffer;
/// - every other token is ignored;
/// - at the end a non-empty buffer closes as a final plain segment.
pub open spec fn build_segments(
    toks: Seq<TokenModel>,
    i: int,
    segs: Seq<LyricSegmentModel>,
    buf: Seq<char>,
) -> Seq<LyricSegmentModel>
    decreases toks.len() - i,
{
    if i < 0 || i >= toks.len() {
        if buf.len() > 0 {
            segs.push(LyricSegmentModel { ts: None, text: buf })
        } else {
            segs
        }
    } else {
        match toks[i] {
            TokenModel::EnhancedTimestamp(ts) => {
                let flushed = if buf.len() > 0 {
                    segs.push(LyricSegmentModel { ts: None, text: buf })
                } else {
                    segs
                };
                build_segments(
                    toks,
                    i + 1,
                    flushed.push(LyricSegmentModel { ts: Some(ts), text: Seq::<char>::empty() }),
                    Seq::<char>::empty(),
                )
            },
            TokenModel::Text(s) => {
                if segs.len() > 0 && segs.last().ts is Some && segs.last().text.len() == 0 {
                    build_segments(
                        toks,
                        i + 1,
                        segs.update(
                            segs.len() - 1,
                            LyricSegmentModel { ts: segs.last().ts, text: s },
                        ),
                        buf,
                    )
                } else {
                    build_segments(toks, i + 1, segs, buf + s)
                }
            },
            _ => build_segments(toks, i + 1, segs, buf),
        }
    }
}

/// The event of one line of tokens:
/// - an empty token list yields nothing;
/// - a line whose first token is a metadata directive yields that directive,
///   whatever follows it;
/// - otherwise the maximal leading run of standard timestamps is collected;
///   without any such timestamp the line cannot be scheduled and yields
///   nothing; with them, the remaining tokens build the lyric segments.
pub open spec fn spec_parse_tokens(toks: Seq<TokenModel>) -> Option<LrcEventModel> {
    if toks.len() == 0 {
        None
    } else {
        match toks[0] {
            TokenModel::Metadata { key, value } => Some(LrcEventModel::Metadata { key, value }),
            _ => {
                let k = leading_ts_count(toks, 0);
                if k == 0 {
                    None
                } else {
                    Some(
                        LrcEventModel::Lyric {
                            timestamps: Seq::new(k as nat, |j: int| timestamp_of(toks[j])),
                            segments: build_segments(
                                toks,
                                k,
                                Seq::<LyricSegmentModel>::empty(),
                                Seq::<char>::empty(),
                            ),
                        },
                    )
                }
            },
        }
    }
}

/// The events of a sequence of token lines, in order, lines that yield
/// nothing skipped.
pub open spec fn spec_parse_lines(lines: Seq<Seq<TokenModel>>) -> Seq<LrcEventModel>
    decreases lines.len(),
{
    if lines.len() == 0 {
        seq![]
    } else {
        match spec_parse_tokens(lines[0]) {
            Some(e) => seq![e] + spec_parse_lines(lines.drop_first()),
            None => spec_parse_lines(lines.drop_first()),
        }
    }
}

/// The events of a whole document.
pub open spec fn spec_parse_lrc(text: Seq<char>) -> Seq<LrcEventModel> {
    spec_parse_lines(spec_tokenize(text))
}

/// Parses the token list of one line into at most one event.
///
/// The call always succeeds: the parser is total over every token sequence
/// the tokenizer can produce, and raises no error of its own.
pub fn parse_tokens(tokens: Vec<Token>) -> (r: Result<Option<LrcEvent>, LrcError>)
    ensures
        r is Ok,
        r->Ok_0 is Some <==> spec_parse_tokens(tokens.deep_view()) is Some,
        r->Ok_0 is Some ==> (r->Ok_0->0).deep_view() == spec_parse_tokens(tokens.deep_view())->0,
{
    let ghost toks = tokens.deep_view();
    if tokens.len() == 0 {
        return Ok(None);
    }
    match &tokens[0] {
        Token::Metadata { key, value } => {
            return Ok(Some(LrcEvent::Metadata { key: key.clone(), value: value.clone() }));
        },
        _ => {},
    }

    // the maximal leading run of standard timestamps
    let mut timestamps: Vec<TimeStamp> = Vec::new();
    let mut i: usize = 0;
    while i < tokens.len() && matches!(&tokens[i], Token::Timestamp(_))
        invariant
            i <= tokens.len(),
            toks == tokens.deep_view(),
            forall|j: int| 0 <= j < i ==> toks[j] is Timestamp,
            timestamps@.len() == i,
            forall|j: int| 0 <= j < i ==> timestamps@[j] == timestamp_of(toks[j]),
        decreases tokens.len() - i,
    {
        match &tokens[i] {
            Token::Timestamp(ts) => {
                timestamps.push(*ts);
            },
            _ => {
                // the loop condition admits only standard-timestamp tokens
                proof {
                    assert(false);
                }
            },
        }
        i = i + 1;
    }
    proof {
        lemma_leading_ts_count_eq(toks, 0, i as int);
    }
    if timestamps.len() == 0 {
        return Ok(None);
    }
    assert(timestamps@ =~= Seq::new(leading_ts_count(toks, 0) as nat, |j: int| timestamp_of(
        toks[j],
    )));

    // the remaining tokens build the segments
    let ghost k = i as int;
    let mut segments: Vec<LyricSegment> = Vec::new();
    let mut buffer = String::new();
    proof {
        assert(segments.deep_view() =~= Seq::<LyricSegmentModel>::empty());
        assert(buffer@ =~= Seq::<char>::empty());
    }
    while i < tokens.len()
        invariant
            k <= i <= tokens.len(),
            toks == tokens.deep_view(),
            build_segments(toks, k, Seq::<LyricSegmentModel>::empty(), Seq::<char>::empty())
                == build_segments(toks, i as int, segments.deep_view(), buffer@),
        decreases tokens.len() - i,
    {
        let ghost segs_prev = segments.deep_view();
        match &tokens[i] {
            Token::EnhancedTimestamp(ts) => {
                let ghost buf_prev = buffer@;
                if !buffer.as_str().is_empty() {
                    let flushed = buffer.clone();
                    buffer = String::new();
                    segments.push(LyricSegment { ts: None, text: flushed });
                    assert(segments.deep_view() =~= segs_prev.push(
                        LyricSegmentModel { ts: None, text: buf_prev },
                    ));
                }
                let ghost flushed_spec = segments.deep_view();
                segments.push(LyricSegment { ts: Some(*ts), text: String::new() });
                proof {
                    assert(segments.deep_view() =~= flushed_spec.push(
                        LyricSegmentModel { ts: Some(*ts), text: Seq::<char>::empty() },
                    ));
                    assert(buffer@ =~= Seq::<char>::empty());
                }
            },
            Token::Text(s) => {
                let m = segments.len();
                let mut absorbed = false;
                if m > 0 {
                    let last = segments.pop().unwrap();
                    if last.ts.is_some() && last.text.as_str().is_empty() {
                        segments.push(LyricSegment { ts: last.ts, text: s.clone() });
                        absorbed = true;
                        assert(segments.deep_view() =~= segs_prev.update(
                            segs_prev.len() - 1,
                            LyricSegmentModel { ts: segs_prev.last().ts, text: s@ },
                        ));
                    } else {
                        segments.push(last);
                        assert(segments.deep_view() =~= segs_prev);
                    }
                }
                if !absorbed {
                    buffer.append(s.as_str());
                }
            },
            _ => {},
        }
        i = i + 1;
    }
    let ghost segs_end = segments.deep_view();
    let ghost buf_end = buffer@;
    if !buffer.as_str().is_empty() {
        segments.push(LyricSegment { ts: None, text: buffer });
    }
    proof {
        assert(segments.deep_view() =~= build_segments(toks, tokens.deep_view().len() as int,
            segs_end, buf_end));
    }
    Ok(Some(LrcEvent::Lyric { timestamps, segments }))
}

/// Parses an entire LRC document into its events.
///
/// The call always succeeds; the error type is kept for the grammar's
/// reserved failure, which no input built from ASCII digit captures reaches.
#[verifier::rlimit(50)]
pub fn parse_lrc(text: &str) -> (r: Result<Vec<LrcEvent>, LrcError>)
    ensures
        r is Ok,
        r->Ok_0.deep_view() == spec_parse_lrc(text@),
{
    let mut token_lines = match tokenize(text) {
        Ok(t) => t,
        Err(e) => {
            return Err(e);
        },
    };
    let ghost all = token_lines.deep_view();
    let total: usize = token_lines.len();
    let mut out: Vec<LrcEvent> = Vec::new();
    proof {
        assert(all.subrange(0, all.len() as int) =~= all);
        assert(out.deep_view() + spec_parse_lines(all) =~= spec_parse_lines(all));
    }
    let mut done: usize = 0;
    while token_lines.len() > 0
        invariant
            all.len() == total,
            done + token_lines@.len() == all.len(),
            token_lines.deep_view() == all.subrange(done as int, all.len() as int),
            spec_parse_lrc(text@) == spec_parse_lines(all),
            spec_parse_lines(all) == out.deep_view() + spec_parse_lines(
                all.subrange(done as int, all.len() as int),
            ),
        decreases token_lines.len(),
    {
        let ghost suffix = all.subrange(done as int, all.len() as int);
        let ghost before = token_lines@;
        let toks = token_lines.remove(0);
        proof {
            assert forall|j: int| 0 <= j < token_lines@.len() implies token_lines@[j].deep_view()
                == all.subrange(done as int + 1, all.len() as int)[j] by {
                assert(token_lines@[j] == before[j + 1]);
                assert(before[j + 1].deep_view() == all.subrange(done as int, all.len() as int)[j
                    + 1]);
            }
            assert(token_lines.deep_view() =~= all.subrange(done as int + 1, all.len() as int));
            assert(suffix.drop_first() =~= all.subrange(done as int + 1, all.len() as int));
            assert(toks.deep_view() == suffix[0]);
        }
        let ghost out_prev = out.deep_view();
        match parse_tokens(toks) {
            Ok(Some(ev)) => {
                out.push(ev);
                assert(out.deep_view() =~= out_prev + seq![spec_parse_tokens(suffix[0])->0]);
            },
            Ok(None) => {},
            Err(e) => {
                return Err(e);
            },
        }
        done = done + 1;
    }
    assert(out.deep_view() =~= spec_parse_lrc(text@));
    Ok(out)
}

} // verus!
