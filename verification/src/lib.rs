//! A verified lyric-timing core for a karaoke player.
//!
//! The crate parses the LRC lyric format (timestamped lyric lines with
//! optional inline word-level timestamps and free-form metadata directives)
//! and drives the parsed lines against an advancing playback position to
//! determine the active line.
#![verifier::loop_isolation(false)]

pub mod audio;
pub mod config;
pub mod error;
pub mod library;
pub mod lyrics;
pub mod parser;
pub mod paths;
pub mod text;
pub mod timestamp;
pub mod tokenizer;
pub mod tokens;
pub mod ui;

use vstd::prelude::*;

use crate::error::LrcError;
use crate::tokens::LrcEvent;

verus! {

/// Parses an LRC document into its events; the convenience entry to the
/// parser.
pub fn parse_lrc(text: &str) -> (r: Result<Vec<LrcEvent>, LrcError>)
    ensures
        r is Ok,
        r->Ok_0.deep_view() == parser::spec_parse_lrc(text@),
{
    parser::parse_lrc(text)
}

} // verus!
