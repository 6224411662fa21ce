//! Tests of the library ledger, path helpers, configuration and view state.

use pwe_karaoke::config::LibraryConfig;
use pwe_karaoke::ui::format_duration;
use pwe_karaoke::library::{get_metadata_file, LibraryEntry, LibraryMetadata};
use pwe_karaoke::paths::{is_audio_file, lyric_sidecar_path};
use pwe_karaoke::ui::{AppView, Theme, UI};

fn entry(stored: &str, title: &str) -> LibraryEntry {
    LibraryEntry {
        original_path: format!("/music/{}", stored),
        stored_filename: stored.to_string(),
        title: title.to_string(),
        added_date: "2024-01-01 00:00:00".to_string(),
    }
}

#[test]
fn ledger_add_and_remove() {
    let mut ledger = LibraryMetadata::new();
    assert_eq!(ledger.entries.len(), 0);

    ledger.add_entry(entry("a_1.mp3", "A"));
    ledger.add_entry(entry("b_2.mp3", "B"));
    assert_eq!(ledger.entries.len(), 2);

    let removed = ledger.remove_entry("a_1.mp3").unwrap();
    assert_eq!(removed.title, "A");
    assert_eq!(ledger.entries.len(), 1);
    assert_eq!(ledger.entries[0].title, "B");

    assert_eq!(ledger.remove_entry("a_1.mp3"), None);
    assert_eq!(ledger.entries.len(), 1);
}

#[test]
fn ledger_removes_first_of_duplicates() {
    let mut ledger = LibraryMetadata::new();
    ledger.add_entry(entry("x.mp3", "first"));
    ledger.add_entry(entry("x.mp3", "second"));
    let removed = ledger.remove_entry("x.mp3").unwrap();
    assert_eq!(removed.title, "first");
    assert_eq!(ledger.entries[0].title, "second");
}

#[test]
fn metadata_file_lives_in_library_dir() {
    assert_eq!(get_metadata_file("/data/library"), "/data/library/library.json");
}

#[test]
fn sidecar_path_replaces_extension() {
    assert_eq!(lyric_sidecar_path("song.mp3"), "song.lrc");
    assert_eq!(lyric_sidecar_path("/music/a/song.flac"), "/music/a/song.lrc");
    assert_eq!(lyric_sidecar_path("archive.tar.gz"), "archive.tar.lrc");
    // without an extension the sidecar suffix is appended
    assert_eq!(lyric_sidecar_path("noext"), "noext.lrc");
    // a dot in a directory name is not an extension
    assert_eq!(lyric_sidecar_path("/a.b/noext"), "/a.b/noext.lrc");
    // a leading dot opens a hidden file's name, not an extension
    assert_eq!(lyric_sidecar_path(".hidden"), ".hidden.lrc");
}

#[test]
fn audio_files_by_extension() {
    assert!(is_audio_file("song.mp3"));
    assert!(is_audio_file("SONG.MP3"));
    assert!(is_audio_file("/library/track.FlAc"));
    assert!(is_audio_file("x.ogg"));
    assert!(is_audio_file("x.m4a"));
    assert!(is_audio_file("x.aac"));
    assert!(is_audio_file("x.wav"));
    assert!(!is_audio_file("notes.txt"));
    assert!(!is_audio_file("noextension"));
    assert!(!is_audio_file("mp3"));
    assert!(!is_audio_file("dir.mp3/file"));
}

#[test]
fn themes_cycle_and_name_themselves() {
    assert_eq!(Theme::Tekkadan.name(), "TEKKADAN");
    assert_eq!(Theme::Barbatos.name(), "BARBATOS");
    assert_eq!(Theme::Tekkadan.up(), Theme::Barbatos);
    assert_eq!(Theme::Barbatos.up(), Theme::Tekkadan);
    assert_eq!(Theme::Tekkadan.down(), Theme::Barbatos);
    assert_eq!(Theme::Tekkadan.up().down(), Theme::Tekkadan);
}

#[test]
fn initial_view_state() {
    let ui = UI::new();
    assert_eq!(ui.theme, Theme::Tekkadan);
    assert_eq!(ui.current_view, AppView::Library);
}

#[test]
fn durations_render_zero_padded() {
    assert_eq!(format_duration(0), "00:00");
    assert_eq!(format_duration(59), "00:59");
    assert_eq!(format_duration(60), "01:00");
    assert_eq!(format_duration(61), "01:01");
    assert_eq!(format_duration(3599), "59:59");
    assert_eq!(format_duration(3600), "60:00");
    assert_eq!(format_duration(7265), "121:05");
}

#[test]
fn library_config_defaults() {
    let cfg = LibraryConfig::default();
    assert!(cfg.paths.is_empty());
    assert!(cfg.auto_scan);
    assert_eq!(cfg.file_types, vec!["mp3", "flac", "ogg", "wav", "m4a"]);
}
