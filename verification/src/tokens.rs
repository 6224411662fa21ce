//! Tokens produced by the tokenizer and events produced by the parser,
//! together with their mathematical models.

use vstd::prelude::*;

use crate::timestamp::TimeStamp;

verus! {

/// Model of a token: strings are viewed as character sequences.
pub enum TokenModel {
    Metadata { key: Seq<char>, value: Seq<char> },
    Timestamp(TimeStamp),
    EnhancedTimestamp(TimeStamp),
    Text(Seq<char>),
}

/// A line-scoped token of the LRC grammar.
#[derive(Debug, Clone, PartialEq, Eq)]
pub enum Token {
    /// A whole-line metadata directive `[key: value]`.
    Metadata { key: String, value: String },
    /// A standard line timestamp `[mm:ss]` or `[mm:ss.fff]`.
    Timestamp(TimeStamp),
    /// An inline word-level timestamp `<mm:ss.fff>`.
    EnhancedTimestamp(TimeStamp),
    /// A run of plain lyric text between timestamps.
    Text(String),
}

impl View for Token {
    type V = TokenModel;

    open spec fn view(&self) -> TokenModel {
        match self {
            Token::Metadata { key, value } => TokenModel::Metadata { key: key@, value: value@ },
            Token::Timestamp(ts) => TokenModel::Timestamp(*ts),
            Token::EnhancedTimestamp(ts) => TokenModel::EnhancedTimestamp(*ts),
            Token::Text(s) => TokenModel::Text(s@),
        }
    }
}

impl DeepView for Token {
    type V = TokenModel;

    open spec fn deep_view(&self) -> TokenModel {
        self.view()
    }
}

/// Model of a lyric segment.
pub struct LyricSegmentModel {
    pub ts: Option<TimeStamp>,
    pub text: Seq<char>,
}

/// A run of lyric text, optionally opened by an inline timestamp that marks
/// where within the line the run begins.
#[derive(Debug, Clone, PartialEq, Eq)]
pub struct LyricSegment {
    pub ts: Option<TimeStamp>,
    pub text: String,
}

impl View for LyricSegment {
    type V = LyricSegmentModel;

    open spec fn view(&self) -> LyricSegmentModel {
        LyricSegmentModel { ts: self.ts, text: self.text@ }
    }
}

impl DeepView for LyricSegment {
    type V = LyricSegmentModel;

    open spec fn deep_view(&self) -> LyricSegmentModel {
        self.view()
    }
}

/// Model of a parsed event.
pub enum LrcEventModel {
    Metadata { key: Seq<char>, value: Seq<char> },
    Lyric { timestamps: Seq<TimeStamp>, segments: Seq<LyricSegmentModel> },
}

/// One parsed line of an LRC document.
#[derive(Debug, Clone, PartialEq, Eq)]
pub enum LrcEvent {
    /// A header directive such as artist or title; playback ignores it.
    Metadata { key: String, value: String },
    /// A lyric line: the text repeats at each of its leading timestamps.
    Lyric { timestamps: Vec<TimeStamp>, segments: Vec<LyricSegment> },
}

impl View for LrcEvent {
    type V = LrcEventModel;

    open spec fn view(&self) -> LrcEventModel {
        match self {
            LrcEvent::Metadata { key, value } => LrcEventModel::Metadata {
                key: key@,
                value: value@,
            },
            LrcEvent::Lyric { timestamps, segments } => LrcEventModel::Lyric {
                timestamps: timestamps@,
                segments: segments.deep_view(),
            },
        }
    }
}

impl DeepView for LrcEvent {
    type V = LrcEventModel;

    open spec fn deep_view(&self) -> LrcEventModel {
        self.view()
    }
}

} // verus!
