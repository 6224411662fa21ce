//! Flattening of parsed events into schedulable lyric lines, and the
//! synchronization engine that follows the playback position.

use vstd::prelude::*;

use crate::error::LrcError;
use crate::parser::{parse_lrc, spec_parse_lrc};
use crate::tokens::{LrcEvent, LrcEventModel, LyricSegmentModel};

verus! {

/// Model of a flattened lyric line.
pub struct LyricLineModel {
    pub timestamp_ms: u64,
    pub text: Seq<char>,
}

/// A flattened lyric line: an absolute start position in milliseconds and
/// the full line text, inline timestamp markers already stripped.
#[derive(Debug, Clone, PartialEq, Eq)]
pub struct LyricLine {
    pub timestamp_ms: u64,
    pub text: String,
}

impl View for LyricLine {
    type V = LyricLineModel;

    open spec fn view(&self) -> LyricLineModel {
        LyricLineModel { timestamp_ms: self.timestamp_ms, text: self.text@ }
    }
}

impl DeepView for LyricLine {
    type V = LyricLineModel;

    open spec fn deep_view(&self) -> LyricLineModel {
        self.view()
    }
}

/// The concatenation of the text of all segments, in order.
pub open spec fn seg_text_concat(segs: Seq<LyricSegmentModel>) -> Seq<char>
    decreases segs.len(),
{
    if segs.len() == 0 {
        Seq::<char>::empty()
    } else {
        seg_text_concat(segs.drop_last()) + segs.last().text
    }
}

/// The lyric lines of one event: a metadata directive yields none, a lyric
/// event yields one line per leading timestamp, each carrying the
/// concatenated segment text.
pub open spec fn spec_flatten_event(e: LrcEventModel) -> Seq<LyricLineModel> {
    match e {
        LrcEventModel::Metadata { key, value } => Seq::<LyricLineModel>::empty(),
        LrcEventModel::Lyric { timestamps, segments } => Seq::new(
            timestamps.len(),
            |i: int|
                LyricLineModel {
                    timestamp_ms: timestamps[i].spec_millis() as u64,
                    text: seg_text_concat(segments),
                },
        ),
    }
}

/// The lyric lines of a sequence of events, in source order.
pub open spec fn spec_flatten(events: Seq<LrcEventModel>) -> Seq<LyricLineModel>
    decreases events.len(),
{
    if events.len() == 0 {
        Seq::<LyricLineModel>::empty()
    } else {
        spec_flatten(events.drop_last()) + spec_flatten_event(events.last())
    }
}

/// Non-decreasing timestamps.
pub open spec fn sorted_by_ts(s: Seq<LyricLineModel>) -> bool {
    forall|i: int, j: int|
        0 <= i < j < s.len() ==> s[i].timestamp_ms <= s[j].timestamp_ms
}

/// Insertion of `x` after every line whose timestamp is not greater: the
/// single insertion step of a stable sort, which keeps lines with equal
/// timestamps in their original relative order.
pub open spec fn stable_insert(s: Seq<LyricLineModel>, x: LyricLineModel) -> Seq<LyricLineModel>
    decreases s.len(),
{
    if s.len() == 0 {
        seq![x]
    } else if s[0].timestamp_ms <= x.timestamp_ms {
        seq![s[0]] + stable_insert(s.drop_first(), x)
    } else {
        seq![x] + s
    }
}

/// The stable sort of a line sequence by timestamp, as the fold of
/// `stable_insert` over the lines in source order.
pub open spec fn spec_sort_lines(s: Seq<LyricLineModel>) -> Seq<LyricLineModel>
    decreases s.len(),
{
    if s.len() == 0 {
        Seq::<LyricLineModel>::empty()
    } else {
        stable_insert(spec_sort_lines(s.drop_last()), s.last())
    }
}

/// The flattened, stably sorted lyric lines of a sequence of events.
pub open spec fn spec_load(events: Seq<LrcEventModel>) -> Seq<LyricLineModel> {
    spec_sort_lines(spec_flatten(events))
}

/// Insertion keeps a lower bound on every timestamp.
proof fn lemma_stable_insert_lower(s: Seq<LyricLineModel>, x: LyricLineModel, b: u64)
    requires
        forall|i: int| 0 <= i < s.len() ==> b <= s[i].timestamp_ms,
        b <= x.timestamp_ms,
    ensures
        forall|i: int|
            0 <= i < stable_insert(s, x).len() ==> b <= stable_insert(s, x)[i].timestamp_ms,
    decreases s.len(),
{
    if s.len() > 0 && s[0].timestamp_ms <= x.timestamp_ms {
        assert(forall|i: int| 0 <= i < s.drop_first().len() ==> b <= s.drop_first()[i].timestamp_ms);
        lemma_stable_insert_lower(s.drop_first(), x, b);
        assert forall|i: int| 0 <= i < stable_insert(s, x).len() implies b <= stable_insert(
            s,
            x,
        )[i].timestamp_ms by {
            if i > 0 {
                assert(stable_insert(s, x)[i] == stable_insert(s.drop_first(), x)[i - 1]);
            }
        }
    } else if s.len() > 0 {
        assert forall|i: int| 0 <= i < stable_insert(s, x).len() implies b <= stable_insert(
            s,
            x,
        )[i].timestamp_ms by {
            if i > 0 {
                assert(stable_insert(s, x)[i] == s[i - 1]);
            }
        }
    }
}

/// Inserting into a sorted sequence keeps it sorted.
proof fn lemma_stable_insert_sorted(s: Seq<LyricLineModel>, x: LyricLineModel)
    requires
        sorted_by_ts(s),
    ensures
        sorted_by_ts(stable_insert(s, x)),
        stable_insert(s, x).len() == s.len() + 1,
    decreases s.len(),
{
    if s.len() > 0 && s[0].timestamp_ms <= x.timestamp_ms {
        assert(sorted_by_ts(s.drop_first()));
        lemma_stable_insert_sorted(s.drop_first(), x);
        assert(forall|i: int|
            0 <= i < s.drop_first().len() ==> s[0].timestamp_ms
                <= s.drop_first()[i].timestamp_ms);
        lemma_stable_insert_lower(s.drop_first(), x, s[0].timestamp_ms);
    }
}

/// The stable sort of any line sequence is sorted and keeps its length.
pub proof fn lemma_sort_lines_sorted(s: Seq<LyricLineModel>)
    ensures
        sorted_by_ts(spec_sort_lines(s)),
        spec_sort_lines(s).len() == s.len(),
    decreases s.len(),
{
    if s.len() > 0 {
        lemma_sort_lines_sorted(s.drop_last());
        lemma_stable_insert_sorted(spec_sort_lines(s.drop_last()), s.last());
    }
}

/// Where the exec scan inserts: before the first line with a greater
/// timestamp is exactly where `stable_insert` places the new line.
proof fn lemma_stable_insert_at(s: Seq<LyricLineModel>, x: LyricLineModel, j: int)
    requires
        0 <= j <= s.len(),
        forall|m: int| 0 <= m < j ==> s[m].timestamp_ms <= x.timestamp_ms,
        j == s.len() || s[j].timestamp_ms > x.timestamp_ms,
    ensures
        stable_insert(s, x) == s.insert(j, x),
    decreases s.len(),
{
    if s.len() == 0 {
        assert(stable_insert(s, x) =~= s.insert(0, x));
    } else if j == 0 {
        assert(seq![x] + s =~= s.insert(0, x));
    } else {
        assert(s[0].timestamp_ms <= x.timestamp_ms);
        assert(forall|m: int| 0 <= m < j - 1 ==> s.drop_first()[m].timestamp_ms
            <= x.timestamp_ms);
        if j < s.len() {
            assert(s.drop_first()[j - 1] == s[j]);
        }
        lemma_stable_insert_at(s.drop_first(), x, j - 1);
        assert(seq![s[0]] + s.drop_first().insert(j - 1, x) =~= s.insert(j, x));
    }
}

/// Appends the lines of one event to `out`: nothing for a metadata event,
/// one line per leading timestamp for a lyric event.
fn flatten_event_into(e: &LrcEvent, out: &mut Vec<LyricLine>)
    ensures
        final(out).deep_view() == old(out).deep_view() + spec_flatten_event(e.deep_view()),
{
    let ghost base = out.deep_view();
    match e {
        LrcEvent::Metadata { key, value } => {
            assert(out.deep_view() =~= base + spec_flatten_event(e.deep_view()));
        },
        LrcEvent::Lyric { timestamps, segments } => {
            let ghost segs = segments.deep_view();
            let ghost fe = spec_flatten_event(e.deep_view());
            // concatenate all segment text, inline markers already gone
            let mut text = String::new();
            proof {
                assert(segs.subrange(0, 0) =~= Seq::<LyricSegmentModel>::empty());
                assert(text@ =~= seg_text_concat(segs.subrange(0, 0)));
            }
            let mut si: usize = 0;
            while si < segments.len()
                invariant
                    si <= segments.len(),
                    segs == segments.deep_view(),
                    text@ == seg_text_concat(segs.subrange(0, si as int)),
                decreases segments.len() - si,
            {
                text.append(segments[si].text.as_str());
                proof {
                    assert(segs.subrange(0, si as int + 1).drop_last() =~= segs.subrange(
                        0,
                        si as int,
                    ));
                    assert(segs.subrange(0, si as int + 1).last() == segs[si as int]);
                }
                si = si + 1;
            }
            assert(segs.subrange(0, segments.len() as int) =~= segs);

            // one line per leading timestamp
            let mut ti: usize = 0;
            while ti < timestamps.len()
                invariant
                    ti <= timestamps.len(),
                    segs == segments.deep_view(),
                    text@ == seg_text_concat(segs),
                    fe == spec_flatten_event(e.deep_view()),
                    e.deep_view() == (LrcEventModel::Lyric {
                        timestamps: timestamps@,
                        segments: segs,
                    }),
                    out.deep_view() == base + fe.subrange(0, ti as int),
                decreases timestamps.len() - ti,
            {
                let ghost out_prev = out.deep_view();
                let line = LyricLine { timestamp_ms: timestamps[ti].to_millis(), text: text.clone() };
                out.push(line);
                proof {
                    let ts = timestamps@[ti as int];
                    assert(0 <= ts.spec_millis() < 0x1_0000_0000_0000_0000);
                    assert(line@.timestamp_ms == ts.spec_millis() as u64);
                    assert(line@ == fe[ti as int]);
                    assert(out.deep_view() =~= out_prev.push(line@));
                    assert(out_prev.push(line@) =~= base + fe.subrange(0, ti as int + 1));
                }
                ti = ti + 1;
            }
            assert(fe.subrange(0, timestamps.len() as int) =~= fe);
        },
    }
}

/// Flattens parsed events into lyric lines and sorts them stably by
/// timestamp: one line per leading timestamp of each lyric event, carrying
/// the concatenated segment text; metadata events are discarded; lines with
/// equal timestamps keep their source order.
pub fn load(events: Vec<LrcEvent>) -> (r: Vec<LyricLine>)
    ensures
        r.deep_view() == spec_load(events.deep_view()),
        sorted_by_ts(r.deep_view()),
        r.deep_view().len() == spec_flatten(events.deep_view()).len(),
{
    let ghost evs = events.deep_view();
    let mut flat: Vec<LyricLine> = Vec::new();
    proof {
        assert(evs.subrange(0, 0) =~= Seq::<LrcEventModel>::empty());
        assert(flat.deep_view() =~= spec_flatten(evs.subrange(0, 0)));
    }
    let mut idx: usize = 0;
    while idx < events.len()
        invariant
            idx <= events.len(),
            evs == events.deep_view(),
            flat.deep_view() == spec_flatten(evs.subrange(0, idx as int)),
        decreases events.len() - idx,
    {
        flatten_event_into(&events[idx], &mut flat);
        proof {
            assert(evs.subrange(0, idx as int + 1).drop_last() =~= evs.subrange(0, idx as int));
            assert(evs.subrange(0, idx as int + 1).last() == evs[idx as int]);
        }
        idx = idx + 1;
    }
    assert(evs.subrange(0, events.len() as int) =~= evs);

    // stable insertion sort by timestamp
    let ghost whole = flat.deep_view();
    let mut sorted_lines: Vec<LyricLine> = Vec::new();
    proof {
        assert(whole.subrange(0, 0) =~= Seq::<LyricLineModel>::empty());
        assert(sorted_lines.deep_view() =~= spec_sort_lines(whole.subrange(0, 0)));
    }
    let mut fi: usize = 0;
    while fi < flat.len()
        invariant
            fi <= flat.len(),
            whole == flat.deep_view(),
            sorted_lines.deep_view() == spec_sort_lines(whole.subrange(0, fi as int)),
            sorted_by_ts(sorted_lines.deep_view()),
            sorted_lines@.len() == fi,
        decreases flat.len() - fi,
    {
        let ghost before = sorted_lines.deep_view();
        let x = LyricLine { timestamp_ms: flat[fi].timestamp_ms, text: flat[fi].text.clone() };
        let mut j: usize = 0;
        while j < sorted_lines.len() && sorted_lines[j].timestamp_ms <= x.timestamp_ms
            invariant
                j <= sorted_lines@.len(),
                sorted_lines.deep_view() == before,
                forall|m: int| 0 <= m < j ==> before[m].timestamp_ms <= x@.timestamp_ms,
            decreases sorted_lines@.len() - j,
        {
            j = j + 1;
        }
        sorted_lines.insert(j, x);
        proof {
            lemma_stable_insert_at(before, x@, j as int);
            assert(sorted_lines.deep_view() =~= before.insert(j as int, x@));
            assert(whole.subrange(0, fi as int + 1).drop_last() =~= whole.subrange(0, fi as int));
            assert(whole.subrange(0, fi as int + 1).last() == whole[fi as int]);
            assert(x@ == whole[fi as int]);
            lemma_stable_insert_sorted(before, x@);
        }
        fi = fi + 1;
    }
    proof {
        assert(whole.subrange(0, flat.len() as int) =~= whole);
        lemma_sort_lines_sorted(whole);
    }
    sorted_lines
}

/// The active line for a playback position: the greatest index whose
/// timestamp does not exceed the position, or nothing if no line has
/// started yet.
pub open spec fn spec_active_index(lines: Seq<LyricLineModel>, position_ms: u64) -> Option<int>
    decreases lines.len(),
{
    if lines.len() == 0 {
        None
    } else if lines.last().timestamp_ms <= position_ms {
        Some(lines.len() - 1)
    } else {
        spec_active_index(lines.drop_last(), position_ms)
    }
}

/// The active index, when it exists, points at a line that has started, and
/// every later line has not.
pub proof fn lemma_active_index_props(lines: Seq<LyricLineModel>, position_ms: u64)
    ensures
        match spec_active_index(lines, position_ms) {
            Some(i) => 0 <= i < lines.len() && lines[i].timestamp_ms <= position_ms && forall|
                j: int,
            | i < j < lines.len() ==> lines[j].timestamp_ms > position_ms,
            None => forall|j: int| 0 <= j < lines.len() ==> lines[j].timestamp_ms > position_ms,
        },
    decreases lines.len(),
{
    if lines.len() > 0 && lines.last().timestamp_ms > position_ms {
        lemma_active_index_props(lines.drop_last(), position_ms);
        assert(forall|j: int|
            0 <= j < lines.len() - 1 ==> lines[j] == lines.drop_last()[j]);
    }
}

/// Once every remaining line lies in the future, dropping those lines does
/// not move the active index.
proof fn lemma_active_index_ignores_future(lines: Seq<LyricLineModel>, position_ms: u64, i: int)
    requires
        0 <= i <= lines.len(),
        forall|j: int| i <= j < lines.len() ==> lines[j].timestamp_ms > position_ms,
    ensures
        spec_active_index(lines, position_ms) == spec_active_index(
            lines.subrange(0, i),
            position_ms,
        ),
    decreases lines.len() - i,
{
    if i < lines.len() {
        assert(lines.drop_last() =~= lines.subrange(0, lines.len() - 1));
        lemma_active_index_ignores_future(lines.drop_last(), position_ms, i);
        assert(lines.drop_last().subrange(0, i) =~= lines.subrange(0, i));
    } else {
        assert(lines.subrange(0, i) =~= lines);
    }
}

/// Computes the active line for a playback position: the largest index
/// whose timestamp does not exceed `position_ms`, scanning from the start
/// and stopping at the first line that lies in the future; `None` before
/// the first line or without lines. Pure: the result depends on the
/// arguments alone, so seeks in either direction need no special case.
pub fn update(lines: &[LyricLine], position_ms: u64) -> (r: Option<usize>)
    requires
        sorted_by_ts(lines.deep_view()),
    ensures
        match spec_active_index(lines.deep_view(), position_ms) {
            Some(i) => r is Some && r->0 == i,
            None => r is None,
        },
{
    let ghost model = lines.deep_view();
    let mut best: Option<usize> = None;
    let mut i: usize = 0;
    proof {
        assert(model.subrange(0, 0) =~= Seq::<LyricLineModel>::empty());
    }
    while i < lines.len()
        invariant
            i <= lines.len(),
            model == lines.deep_view(),
            sorted_by_ts(model),
            match spec_active_index(model.subrange(0, i as int), position_ms) {
                Some(k) => best is Some && best->0 == k,
                None => best is None,
            },
        decreases lines.len() - i,
    {
        proof {
            assert(model.subrange(0, i as int + 1).drop_last() =~= model.subrange(0, i as int));
            assert(model.subrange(0, i as int + 1).last() == model[i as int]);
        }
        if lines[i].timestamp_ms <= position_ms {
            best = Some(i);
        } else {
            // every later line has an equal or greater timestamp: the scan
            // may stop here
            proof {
                lemma_active_index_ignores_future(model, position_ms, i as int);
            }
            return best;
        }
        i = i + 1;
    }
    assert(model.subrange(0, lines@.len() as int) =~= model);
    best
}

/// How a line relates to the active line on screen.
#[derive(Debug, Clone, Copy, PartialEq, Eq, Structural)]
pub enum LineClass {
    /// Before the active line.
    Past,
    /// The active line itself.
    Current,
    /// The line directly after the active one.
    Upcoming,
    /// Anything further away, or any line while no line is active.
    FarFuture,
}

/// The display class of the line at `index` given the active index.
pub open spec fn spec_line_class(active_index: Option<usize>, index: usize) -> LineClass {
    match active_index {
        Some(a) => if index < a {
            LineClass::Past
        } else if index == a {
            LineClass::Current
        } else if index == a + 1 {
            LineClass::Upcoming
        } else {
            LineClass::FarFuture
        },
        None => LineClass::FarFuture,
    }
}

/// Classifies a line for display, purely from the active index and the
/// line's own index.
pub fn classify_line(active_index: Option<usize>, index: usize) -> (r: LineClass)
    ensures
        r == spec_line_class(active_index, index),
{
    match active_index {
        Some(a) => {
            if index < a {
                LineClass::Past
            } else if index == a {
                LineClass::Current
            } else if index - a == 1 {
                LineClass::Upcoming
            } else {
                LineClass::FarFuture
            }
        },
        None => LineClass::FarFuture,
    }
}

/// Advancing the position never moves the active line backwards: under a
/// position that does not decrease, an active index, once present, stays
/// present and does not shrink. Fed a strictly increasing position
/// sequence, the returned index is therefore non-decreasing.
pub proof fn lemma_update_monotonic(lines: Seq<LyricLineModel>, p1: u64, p2: u64)
    requires
        p1 <= p2,
    ensures
        spec_active_index(lines, p1) is Some ==> spec_active_index(lines, p2) is Some
            && spec_active_index(lines, p1)->0 <= spec_active_index(lines, p2)->0,
    decreases lines.len(),
{
    if lines.len() > 0 && lines.last().timestamp_ms > p2 {
        lemma_update_monotonic(lines.drop_last(), p1, p2);
    } else if lines.len() > 0 && lines.last().timestamp_ms > p1 {
        lemma_active_index_props(lines.drop_last(), p1);
    }
}

/// Before the first line has started, no line is active: with sorted lines
/// whose first timestamp lies in the future, the engine reports nothing.
pub proof fn lemma_update_before_first(lines: Seq<LyricLineModel>, position_ms: u64)
    requires
        sorted_by_ts(lines),
        lines.len() > 0,
        lines[0].timestamp_ms > position_ms,
    ensures
        spec_active_index(lines, position_ms) is None,
{
    lemma_active_index_props(lines, position_ms);
    if spec_active_index(lines, position_ms) is Some {
        let i = spec_active_index(lines, position_ms)->0;
        assert(lines[0].timestamp_ms <= lines[i].timestamp_ms);
    }
}

/// At the last line's own timestamp (or any later position), the last line
/// is active.
pub proof fn lemma_update_at_last(lines: Seq<LyricLineModel>, position_ms: u64)
    requires
        lines.len() > 0,
        lines.last().timestamp_ms <= position_ms,
    ensures
        spec_active_index(lines, position_ms) == Some(lines.len() - 1),
{
}

/// A document of nothing but metadata directives flattens to no lines at
/// all.
pub proof fn lemma_metadata_only_flattens_empty(events: Seq<LrcEventModel>)
    requires
        forall|i: int| 0 <= i < events.len() ==> events[i] is Metadata,
    ensures
        spec_load(events).len() == 0,
    decreases events.len(),
{
    if events.len() > 0 {
        assert(forall|i: int|
            0 <= i < events.drop_last().len() ==> events.drop_last()[i] is Metadata);
        lemma_metadata_only_flattens_empty(events.drop_last());
        assert(spec_flatten(events).len() == spec_flatten(events.drop_last()).len());
        lemma_sort_lines_sorted(spec_flatten(events));
        lemma_sort_lines_sorted(spec_flatten(events.drop_last()));
    }
}

/// Why no lyric lines could be loaded for a song, or why its document was
/// rejected.
#[derive(Debug, Clone, PartialEq, Eq)]
pub enum LyricError {
    /// No sidecar lyric file exists next to the audio file: a normal,
    /// non-error outcome.
    NotFound,
    /// The sidecar file exists but could not be read.
    Io(String),
    /// The document was rejected by the tokenizer or parser.
    ParseFailed(LrcError),
    /// The document parsed, but produced no schedulable lyric line.
    Empty,
}

/// Parses an LRC document and flattens it into sorted lyric lines.
///
/// A document whose events carry no schedulable line (for instance one of
/// metadata directives alone) is reported as `Empty`; any other document
/// yields its sorted lines. Reading the document from disk, and the
/// `NotFound` and `Io` outcomes that reading can produce, belong to the
/// caller.
pub fn load_lyrics(text: &str) -> (r: Result<Vec<LyricLine>, LyricError>)
    ensures
        spec_load(spec_parse_lrc(text@)).len() == 0 <==> r is Err,
        r is Err ==> r->Err_0 == LyricError::Empty,
        r is Ok ==> r->Ok_0.deep_view() == spec_load(spec_parse_lrc(text@)),
        r is Ok ==> sorted_by_ts(r->Ok_0.deep_view()),
{
    let events = match parse_lrc(text) {
        Ok(evs) => evs,
        Err(e) => {
            return Err(LyricError::ParseFailed(e));
        },
    };
    let lines = load(events);
    if lines.len() == 0 {
        Err(LyricError::Empty)
    } else {
        Ok(lines)
    }
}

/// The synchronization engine's state: the loaded lines (sorted, replaced
/// wholesale and never mutated in place), the playback position last fed to
/// it, and the active index recomputed from scratch for that position.
pub struct SyncState {
    pub lines: Vec<LyricLine>,
    pub position_ms: u64,
    pub active_index: Option<usize>,
}

impl SyncState {
    /// The state's invariant: lines sorted, and the active index exactly
    /// the one the position demands.
    pub open spec fn wf(self) -> bool {
        &&& sorted_by_ts(self.lines.deep_view())
        &&& match spec_active_index(self.lines.deep_view(), self.position_ms) {
            Some(i) => self.active_index is Some && self.active_index->0 == i,
            None => self.active_index is None,
        }
    }

    /// A state without lyrics: no lines, no active line.
    pub fn new() -> (r: SyncState)
        ensures
            r.wf(),
            r.lines@.len() == 0,
            r.position_ms == 0,
            r.active_index is None,
    {
        let r = SyncState { lines: Vec::new(), position_ms: 0, active_index: None };
        proof {
            assert(r.lines.deep_view() =~= Seq::<LyricLineModel>::empty());
        }
        r
    }

    /// Replaces the whole line list — a newly loaded song — and recomputes
    /// the active index for the current position.
    pub fn set_lines(&mut self, lines: Vec<LyricLine>)
        requires
            sorted_by_ts(lines.deep_view()),
        ensures
            final(self).wf(),
            final(self).lines == lines,
            final(self).position_ms == old(self).position_ms,
    {
        let s = lines.as_slice();
        assert(s.deep_view() =~= lines.deep_view());
        self.active_index = update(s, self.position_ms);
        self.lines = lines;
    }

    /// Drops the loaded lyrics.
    pub fn clear(&mut self)
        ensures
            final(self).wf(),
            final(self).lines@.len() == 0,
            final(self).position_ms == old(self).position_ms,
            final(self).active_index is None,
    {
        self.lines = Vec::new();
        self.active_index = None;
        proof {
            assert(self.lines.deep_view() =~= Seq::<LyricLineModel>::empty());
        }
    }

    /// Feeds a new playback position — monotone advance or a seek in either
    /// direction — and recomputes the active index from scratch.
    pub fn set_position(&mut self, position_ms: u64)
        requires
            old(self).wf(),
        ensures
            final(self).wf(),
            final(self).lines == old(self).lines,
            final(self).position_ms == position_ms,
    {
        self.position_ms = position_ms;
        let s = self.lines.as_slice();
        assert(s.deep_view() =~= self.lines.deep_view());
        self.active_index = update(s, position_ms);
    }
}

} // verus!
