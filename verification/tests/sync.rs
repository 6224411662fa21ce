//! Tests of the synchronization engine.

use pwe_karaoke::lyrics::{classify_line, load, load_lyrics, update, LineClass, LyricLine, SyncState};
use pwe_karaoke::parse_lrc;

fn line(timestamp_ms: u64, text: &str) -> LyricLine {
    LyricLine { timestamp_ms, text: text.to_string() }
}

fn sample_lines() -> Vec<LyricLine> {
    vec![line(1000, "a"), line(3000, "b"), line(3000, "c"), line(7000, "d")]
}

#[test]
fn update_on_empty_lines_is_none() {
    assert_eq!(update(&Vec::new(), 0), None);
    assert_eq!(update(&Vec::new(), 99_999), None);
}

#[test]
fn update_before_first_line_is_none() {
    let lines = sample_lines();
    assert_eq!(update(&lines, 0), None);
    assert_eq!(update(&lines, 999), None);
}

#[test]
fn update_at_and_between_timestamps() {
    let lines = sample_lines();
    assert_eq!(update(&lines, 1000), Some(0));
    assert_eq!(update(&lines, 2999), Some(0));
    // two lines share a timestamp: the later one wins as the active line
    assert_eq!(update(&lines, 3000), Some(2));
    assert_eq!(update(&lines, 6999), Some(2));
}

#[test]
fn update_at_last_timestamp_is_last_line() {
    let lines = sample_lines();
    assert_eq!(update(&lines, 7000), Some(lines.len() - 1));
    assert_eq!(update(&lines, u64::MAX), Some(lines.len() - 1));
}

#[test]
fn update_is_monotonic_under_increasing_positions() {
    let lines = sample_lines();
    let mut previous: Option<usize> = None;
    for pos in 0..9000u64 {
        let current = update(&lines, pos);
        match (previous, current) {
            (Some(_), None) => panic!("active index reverted to none"),
            (Some(p), Some(c)) => assert!(p <= c),
            _ => {}
        }
        previous = current;
    }
}

#[test]
fn update_has_no_hidden_state_across_seeks() {
    let lines = sample_lines();
    // querying forward, jumping back, then returning gives the same answer
    // as a direct query at each position
    let direct_at_4000 = update(&lines, 4000);
    let _ = update(&lines, 8000);
    let after_back = update(&lines, 500);
    let forward_again = update(&lines, 4000);
    assert_eq!(after_back, None);
    assert_eq!(forward_again, direct_at_4000);
    assert_eq!(forward_again, Some(2));
}

#[test]
fn update_from_parsed_document() {
    let lines = load(parse_lrc("[00:01.50]Hello\n[00:05]Later").unwrap());
    assert_eq!(update(&lines, 0), None);
    assert_eq!(update(&lines, 1500), Some(0));
    assert_eq!(update(&lines, 4999), Some(0));
    assert_eq!(update(&lines, 5000), Some(1));
}

#[test]
fn sync_state_follows_position() {
    let mut state = SyncState::new();
    assert_eq!(state.active_index, None);

    state.set_lines(load_lyrics("[00:01]a\n[00:03]b").unwrap());
    assert_eq!(state.active_index, None);

    state.set_position(1000);
    assert_eq!(state.active_index, Some(0));
    state.set_position(3500);
    assert_eq!(state.active_index, Some(1));
    // a backward seek recomputes from scratch
    state.set_position(500);
    assert_eq!(state.active_index, None);

    state.clear();
    assert_eq!(state.lines.len(), 0);
    assert_eq!(state.active_index, None);
}

#[test]
fn sync_state_replaces_lines_wholesale() {
    let mut state = SyncState::new();
    state.set_lines(load_lyrics("[00:01]a").unwrap());
    state.set_position(2000);
    assert_eq!(state.active_index, Some(0));
    state.set_lines(load_lyrics("[00:05]z").unwrap());
    // the new song's lines replace the old ones; the position is kept
    assert_eq!(state.position_ms, 2000);
    assert_eq!(state.active_index, None);
}

#[test]
fn classification_around_active_line() {
    assert_eq!(classify_line(Some(2), 0), LineClass::Past);
    assert_eq!(classify_line(Some(2), 1), LineClass::Past);
    assert_eq!(classify_line(Some(2), 2), LineClass::Current);
    assert_eq!(classify_line(Some(2), 3), LineClass::Upcoming);
    assert_eq!(classify_line(Some(2), 4), LineClass::FarFuture);
    assert_eq!(classify_line(None, 0), LineClass::FarFuture);
    assert_eq!(classify_line(None, 7), LineClass::FarFuture);
}
