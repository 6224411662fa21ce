//! The timestamp value type of the LRC format.

use vstd::prelude::*;

verus! {

/// A lyric timestamp: minutes, seconds and a millisecond part.
///
/// Values built by the tokenizer are normalized: `ms < 1000`, whatever the
/// number of fractional digits in the source text was.
#[derive(Debug, Clone, Copy, PartialEq, Eq, Structural)]
pub struct TimeStamp {
    pub min: u32,
    pub sec: u32,
    pub ms: u32,
}

impl TimeStamp {
    /// The absolute position in milliseconds, as a mathematical integer.
    pub open spec fn spec_millis(self) -> int {
        self.min * 60_000 + self.sec * 1_000 + self.ms
    }

    /// A normalized timestamp keeps its millisecond part under one second.
    pub open spec fn normalized(self) -> bool {
        self.ms < 1000
    }

    /// Total order on timestamps by conversion to an absolute millisecond count.
    pub fn to_millis(&self) -> (r: u64)
        ensures
            r == self.spec_millis(),
    {
        ((self.min as u64) * 60_000) + ((self.sec as u64) * 1_000) + (self.ms as u64)
    }
}

} // verus!
