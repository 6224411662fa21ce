//! Tests of the tokenizer, the parser and the document entry points.

use pwe_karaoke::error::LrcError;
use pwe_karaoke::lyrics::{load, load_lyrics, LyricError};
use pwe_karaoke::parse_lrc;
use pwe_karaoke::timestamp::TimeStamp;
use pwe_karaoke::tokenizer::{tokenize, tokenize_line};
use pwe_karaoke::tokens::{LrcEvent, LyricSegment, Token};

fn ts(min: u32, sec: u32, ms: u32) -> TimeStamp {
    TimeStamp { min, sec, ms }
}

#[test]
fn fraction_scaling_round_trip() {
    // one fractional digit counts hundreds, two tens, three as they stand
    let cases = [("[00:01.5]x", 1500u64), ("[00:01.05]x", 1050u64), ("[00:01.005]x", 1005u64)];
    for (text, expected) in cases {
        let events = parse_lrc(text).unwrap();
        let lines = load(events);
        assert_eq!(lines.len(), 1);
        assert_eq!(lines[0].timestamp_ms, expected);
    }
}

#[test]
fn missing_fraction_defaults_to_zero() {
    let events = parse_lrc("[02:03]x").unwrap();
    let lines = load(events);
    assert_eq!(lines[0].timestamp_ms, 123_000);
}

#[test]
fn tokenize_line_metadata() {
    let toks = tokenize_line("[ar: Test Artist]").unwrap();
    assert_eq!(
        toks,
        vec![Token::Metadata { key: "ar".to_string(), value: "Test Artist".to_string() }]
    );
}

#[test]
fn tokenize_line_metadata_with_empty_value() {
    let toks = tokenize_line("[by: ]").unwrap();
    assert_eq!(toks, vec![Token::Metadata { key: "by".to_string(), value: String::new() }]);
}

#[test]
fn tokenize_line_metadata_needs_space_after_colon() {
    // without whitespace after the colon the line is not a directive, and
    // the bracket is not a timestamp either: the whole line is text
    let toks = tokenize_line("[ar:Test]").unwrap();
    assert_eq!(toks, vec![Token::Text("[ar:Test]".to_string())]);
}

#[test]
fn tokenize_line_timestamps_and_text() {
    let toks = tokenize_line("[00:01.50]Hello <00:02.00>world").unwrap();
    assert_eq!(
        toks,
        vec![
            Token::Timestamp(ts(0, 1, 500)),
            Token::Text("Hello ".to_string()),
            Token::EnhancedTimestamp(ts(0, 2, 0)),
            Token::Text("world".to_string()),
        ]
    );
}

#[test]
fn tokenize_line_trims_and_drops_empty() {
    assert_eq!(tokenize_line("   ").unwrap(), vec![]);
    assert_eq!(tokenize_line("").unwrap(), vec![]);
    assert_eq!(
        tokenize_line("  plain words  ").unwrap(),
        vec![Token::Text("plain words".to_string())]
    );
}

#[test]
fn tokenize_line_short_digit_groups() {
    let toks = tokenize_line("[1:2]x").unwrap();
    assert_eq!(toks, vec![Token::Timestamp(ts(1, 2, 0)), Token::Text("x".to_string())]);
}

#[test]
fn tokenize_splits_lines() {
    let token_lines = tokenize("[00:01]a\r\n\n[00:02]b").unwrap();
    assert_eq!(token_lines.len(), 3);
    assert_eq!(
        token_lines[0],
        vec![Token::Timestamp(ts(0, 1, 0)), Token::Text("a".to_string())]
    );
    assert_eq!(token_lines[1], vec![]);
    assert_eq!(
        token_lines[2],
        vec![Token::Timestamp(ts(0, 2, 0)), Token::Text("b".to_string())]
    );
}

#[test]
fn malformed_timestamp_is_plain_text() {
    // five fractional digits do not fit the timestamp shape, so the bracket
    // is ordinary text; its digit groups are never captured, so no capture
    // can fail to read as a number and the parse does not abort
    let toks = tokenize_line("[99:99.12345]la").unwrap();
    assert_eq!(toks, vec![Token::Text("[99:99.12345]la".to_string())]);
    // a line of bare text has no standard timestamp: it cannot be
    // scheduled, and a document of only such lines holds no lyrics
    assert_eq!(load_lyrics("[99:99.12345]la"), Err(LyricError::Empty));
}

#[test]
fn out_of_range_groups_within_shape_are_kept() {
    // the grammar checks shape, not bounds: 99 minutes and 99 seconds read
    // as given
    let events = parse_lrc("[99:99.123]x").unwrap();
    let lines = load(events);
    assert_eq!(lines[0].timestamp_ms, 99 * 60_000 + 99 * 1_000 + 123);
}

#[test]
fn parse_tokens_metadata_first_token_wins() {
    let toks = vec![
        Token::Metadata { key: "ti".to_string(), value: "Song".to_string() },
        Token::Text("trailing junk".to_string()),
    ];
    let ev = pwe_karaoke::parser::parse_tokens(toks).unwrap();
    assert_eq!(
        ev,
        Some(LrcEvent::Metadata { key: "ti".to_string(), value: "Song".to_string() })
    );
}

#[test]
fn parse_tokens_bare_text_yields_nothing() {
    let toks = vec![Token::Text("no timestamp".to_string())];
    assert_eq!(pwe_karaoke::parser::parse_tokens(toks).unwrap(), None);
    let toks = vec![
        Token::EnhancedTimestamp(ts(0, 1, 0)),
        Token::Text("enhanced only".to_string()),
    ];
    assert_eq!(pwe_karaoke::parser::parse_tokens(toks).unwrap(), None);
    assert_eq!(pwe_karaoke::parser::parse_tokens(vec![]).unwrap(), None);
}

#[test]
fn parse_tokens_enhanced_segment_binding() {
    // text directly after an enhanced timestamp fills that segment; once a
    // segment holds text, later text goes to the buffer
    let toks = vec![
        Token::Timestamp(ts(0, 1, 0)),
        Token::Text("intro ".to_string()),
        Token::EnhancedTimestamp(ts(0, 2, 0)),
        Token::Text("word".to_string()),
        Token::Text(" tail".to_string()),
    ];
    let ev = pwe_karaoke::parser::parse_tokens(toks).unwrap().unwrap();
    match ev {
        LrcEvent::Lyric { timestamps, segments } => {
            assert_eq!(timestamps, vec![ts(0, 1, 0)]);
            assert_eq!(
                segments,
                vec![
                    LyricSegment { ts: None, text: "intro ".to_string() },
                    LyricSegment { ts: Some(ts(0, 2, 0)), text: "word".to_string() },
                    LyricSegment { ts: None, text: " tail".to_string() },
                ]
            );
        }
        LrcEvent::Metadata { .. } => panic!("expected a lyric event"),
    }
}

#[test]
fn parse_tokens_back_to_back_enhanced_keeps_empty_segment() {
    let toks = vec![
        Token::Timestamp(ts(0, 1, 0)),
        Token::EnhancedTimestamp(ts(0, 2, 0)),
        Token::EnhancedTimestamp(ts(0, 3, 0)),
        Token::Text("late".to_string()),
    ];
    let ev = pwe_karaoke::parser::parse_tokens(toks).unwrap().unwrap();
    match ev {
        LrcEvent::Lyric { segments, .. } => {
            assert_eq!(
                segments,
                vec![
                    LyricSegment { ts: Some(ts(0, 2, 0)), text: String::new() },
                    LyricSegment { ts: Some(ts(0, 3, 0)), text: "late".to_string() },
                ]
            );
        }
        LrcEvent::Metadata { .. } => panic!("expected a lyric event"),
    }
}

#[test]
fn concrete_scenario() {
    let text = "[ar: Test Artist]\n[00:01.50]Hello <00:02.00>world\n[00:05.00][00:05.00]Duplicate line";
    let events = parse_lrc(text).unwrap();
    assert_eq!(events.len(), 3);
    assert_eq!(
        events[0],
        LrcEvent::Metadata { key: "ar".to_string(), value: "Test Artist".to_string() }
    );
    assert_eq!(
        events[1],
        LrcEvent::Lyric {
            timestamps: vec![ts(0, 1, 500)],
            segments: vec![
                LyricSegment { ts: None, text: "Hello ".to_string() },
                LyricSegment { ts: Some(ts(0, 2, 0)), text: "world".to_string() },
            ],
        }
    );
    assert_eq!(
        events[2],
        LrcEvent::Lyric {
            timestamps: vec![ts(0, 5, 0), ts(0, 5, 0)],
            segments: vec![LyricSegment { ts: None, text: "Duplicate line".to_string() }],
        }
    );

    let lines = load(events);
    assert_eq!(lines.len(), 3);
    assert_eq!(lines[0].timestamp_ms, 1500);
    assert_eq!(lines[0].text, "Hello world");
    assert_eq!(lines[1].timestamp_ms, 5000);
    assert_eq!(lines[1].text, "Duplicate line");
    assert_eq!(lines[2].timestamp_ms, 5000);
    assert_eq!(lines[2].text, "Duplicate line");
}

#[test]
fn text_before_timestamp_cannot_be_scheduled() {
    // a line that does not begin with a standard timestamp yields no event
    let events = parse_lrc("intro words [00:01]x\n[00:02]kept").unwrap();
    assert_eq!(events.len(), 1);
    let lines = load(events);
    assert_eq!(lines.len(), 1);
    assert_eq!(lines[0].text, "kept");
}

#[test]
fn timestamp_only_line_keeps_empty_text() {
    let lines = load(parse_lrc("[00:01]").unwrap());
    assert_eq!(lines.len(), 1);
    assert_eq!(lines[0].timestamp_ms, 1000);
    assert_eq!(lines[0].text, "");
}

#[test]
fn enhanced_timestamp_without_fraction() {
    let toks = tokenize_line("[0:1]<1:2>word").unwrap();
    assert_eq!(
        toks,
        vec![
            Token::Timestamp(ts(0, 1, 0)),
            Token::EnhancedTimestamp(ts(1, 2, 0)),
            Token::Text("word".to_string()),
        ]
    );
}

#[test]
fn trailing_newline_opens_no_extra_line() {
    assert_eq!(tokenize("[00:01]x\n").unwrap().len(), 1);
    assert_eq!(tokenize("").unwrap().len(), 0);
    assert_eq!(tokenize("\n").unwrap().len(), 1);
}

#[test]
fn three_digit_minute_bracket_is_text() {
    // the grammar allows at most two minute digits
    let toks = tokenize_line("[123:45]x").unwrap();
    assert_eq!(toks, vec![Token::Text("[123:45]x".to_string())]);
}

#[test]
fn metadata_only_document_is_empty() {
    let text = "[ar: Someone]\n[ti: A Song]\n[al: An Album]";
    let events = parse_lrc(text).unwrap();
    assert_eq!(events.len(), 3);
    assert!(events.iter().all(|e| matches!(e, LrcEvent::Metadata { .. })));
    assert_eq!(load(events).len(), 0);
    assert_eq!(load_lyrics(text), Err(LyricError::Empty));
}

#[test]
fn load_sorts_unordered_lines() {
    let text = "[00:10]late\n[00:01]early\n[00:05]middle";
    let lines = load(parse_lrc(text).unwrap());
    let stamps: Vec<u64> = lines.iter().map(|l| l.timestamp_ms).collect();
    assert_eq!(stamps, vec![1000, 5000, 10000]);
    for w in lines.windows(2) {
        assert!(w[0].timestamp_ms <= w[1].timestamp_ms);
    }
}

#[test]
fn load_keeps_order_of_equal_timestamps() {
    let text = "[00:05]first\n[00:01]starter\n[00:05]second";
    let lines = load(parse_lrc(text).unwrap());
    assert_eq!(lines[0].text, "starter");
    assert_eq!(lines[1].text, "first");
    assert_eq!(lines[2].text, "second");
}

#[test]
fn load_lyrics_returns_sorted_lines() {
    let lines = load_lyrics("[00:02]b\n[00:01]a").unwrap();
    assert_eq!(lines.len(), 2);
    assert_eq!(lines[0].text, "a");
    assert_eq!(lines[1].text, "b");
}

#[test]
fn metadata_value_with_embedded_bracket_is_not_a_directive() {
    // an embedded closing bracket ends the directive early, so the line
    // fails the directive grammar and falls through to the timestamp scan
    let toks = tokenize_line("[ar: half] done]").unwrap();
    assert_eq!(toks, vec![Token::Text("[ar: half] done]".to_string())]);
}

#[test]
fn error_messages_carry_context() {
    assert_eq!(
        LrcError::InvalidTimestamp("[xx:yy]".to_string()).message(),
        "Invalid timestamp: [xx:yy]"
    );
    assert_eq!(LrcError::UnexpectedToken("?".to_string()).message(), "Unexpected token: ?");
    assert_eq!(LrcError::Io("denied".to_string()).message(), "IO error: denied");
}
