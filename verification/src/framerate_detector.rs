//! The detection engine: three independent methods that each may propose a
//! frame rate for a sequence of cue timings, and the selector that picks the
//! proposal with the highest confidence.

use crate::confidence::Confidence;
use vstd::prelude::*;

verus! {

/// The timing of one cue, in whole milliseconds.
///
/// `duration_ms` is meant to be `end_ms - start_ms`; the detector reads the
/// field as it stands and does not reject a negative duration.
#[derive(Debug, Clone, Copy, PartialEq, Eq, Structural)]
pub struct SubtitleTiming {
    pub start_ms: i32,
    pub end_ms: i32,
    pub duration_ms: i32,
}

impl SubtitleTiming {
    /// The duration is the time from the start to the end.
    pub open spec fn wf(self) -> bool {
        self.duration_ms == self.end_ms - self.start_ms
    }
}

/// The method that produced a detection.
#[derive(Debug, Clone, Copy, PartialEq, Eq, Structural)]
pub enum DetectionMethod {
    /// The commonest gap between consecutive cues.
    IntervalAnalysis,
    /// The share of cue durations that are whole numbers of frames.
    DurationPattern,
    /// A guess from the density of the cues.
    CommonFramerateHeuristic,
    /// No cue was given.
    Default,
    /// Cues were given, but no method had an opinion.
    Fallback,
}

/// A proposed frame rate, in thousandths of a frame per second, with the
/// confidence of the method that proposes it.
#[derive(Debug, Clone, Copy, PartialEq, Eq, Structural)]
pub struct FramerateDetection {
    pub framerate: u32,
    pub confidence: Confidence,
    pub method: DetectionMethod,
}

/// The counts of a track from which its averages are taken.
#[derive(Debug, Clone, Copy, PartialEq, Eq, Structural)]
pub struct TimingStatistics {
    /// The number of cues.
    pub subtitle_count: usize,
    /// The sum of the durations of all cues.
    pub total_duration_ms: i128,
    /// The time from the first cue's start to the last cue's end.
    pub total_span_ms: i64,
}

/// The cue timings of one track, in file order.
pub struct FramerateDetector {
    pub timings: Vec<SubtitleTiming>,
}

impl View for FramerateDetector {
    type V = Seq<SubtitleTiming>;

    open spec fn view(&self) -> Seq<SubtitleTiming> {
        self.timings@
    }
}

/// The frame rates that every method tests, in the order in which they are
/// tried: 23.976, 24, 25, 29.97, 30, 50, 59.94 and 60 frames per second.
pub open spec fn candidate_rates() -> Seq<u32> {
    seq![23_976u32, 24_000u32, 25_000u32, 29_970u32, 30_000u32, 50_000u32, 59_940u32, 60_000u32]
}

/// `rate` is one of the candidate frame rates.
pub open spec fn is_candidate_rate(rate: u32) -> bool {
    exists|i: int| 0 <= i < candidate_rates().len() && candidate_rates()[i] == rate
}

/// The number of candidate frame rates.
pub const CANDIDATE_COUNT: usize = 8;

/// The candidate frame rate at position `i`.
pub fn candidate_rate(i: usize) -> (rate: u32)
    requires
        i < CANDIDATE_COUNT,
    ensures
        rate == candidate_rates()[i as int],
        rate >= 23_976,
        rate <= 60_000,
{
    if i == 0 {
        23_976
    } else if i == 1 {
        24_000
    } else if i == 2 {
        25_000
    } else if i == 3 {
        29_970
    } else if i == 4 {
        30_000
    } else if i == 5 {
        50_000
    } else if i == 6 {
        59_940
    } else {
        60_000
    }
}

impl DetectionMethod {
    /// The method's name in reports.
    pub open spec fn spec_name(self) -> Seq<char> {
        match self {
            DetectionMethod::IntervalAnalysis => "interval_analysis"@,
            DetectionMethod::DurationPattern => "duration_pattern"@,
            DetectionMethod::CommonFramerateHeuristic => "common_framerate_heuristic"@,
            DetectionMethod::Default => "default"@,
            DetectionMethod::Fallback => "fallback"@,
        }
    }

    /// The method's name in reports.
    pub fn name(&self) -> (s: &'static str)
        ensures
            s@ == self.spec_name(),
    {
        match self {
            DetectionMethod::IntervalAnalysis => "interval_analysis",
            DetectionMethod::DurationPattern => "duration_pattern",
            DetectionMethod::CommonFramerateHeuristic => "common_framerate_heuristic",
            DetectionMethod::Default => "default",
            DetectionMethod::Fallback => "fallback",
        }
    }
}

// ---------------------------------------------------------------------------
// Interval analysis
// ---------------------------------------------------------------------------

/// The gap between cue `i` and the cue before it: from that cue's end to this
/// cue's start.
pub open spec fn gap_before(t: Seq<SubtitleTiming>, i: int) -> int {
    t[i].start_ms - t[i - 1].end_ms
}

/// Whether a gap says anything of the frame cadence: an overlap does not, nor
/// a pause of ten seconds or more.
pub open spec fn is_cadence_gap(gap: int) -> bool {
    0 < gap < 10_000
}

/// The number of buckets that cadence gaps fall into, each 100 ms wide.
pub const BUCKET_COUNT: usize = 100;

/// Among the cues `1 .. upto`, the number whose gap is a cadence gap in
/// bucket `b`, the gaps from `100 * b` up to `100 * b + 99`.
pub open spec fn bucket_count(t: Seq<SubtitleTiming>, upto: int, b: int) -> nat
    decreases upto,
{
    if upto <= 1 {
        0
    } else {
        let gap = gap_before(t, upto - 1);
        let here: nat = if is_cadence_gap(gap) && gap / 100 == b {
            1
        } else {
            0
        };
        bucket_count(t, upto - 1, b) + here
    }
}

/// The count of each bucket over the whole track.
pub open spec fn gap_histogram(t: Seq<SubtitleTiming>) -> Seq<nat> {
    Seq::new(BUCKET_COUNT as nat, |b: int| bucket_count(t, t.len() as int, b))
}

/// Among the positions `0 .. upto` of `counts`, the first that holds the
/// greatest count (0 where `upto` is 0).
pub open spec fn leading_index(counts: Seq<nat>, upto: int) -> int
    decreases upto,
{
    if upto <= 1 {
        0
    } else {
        let before = leading_index(counts, upto - 1);
        if counts[upto - 1] > counts[before] {
            upto - 1
        } else {
            before
        }
    }
}

/// The commonest cadence gap, rounded down to a multiple of 100 ms; of two
/// that are equally common, the smaller. `None` where the track has no
/// cadence gap.
pub open spec fn most_common_gap(t: Seq<SubtitleTiming>) -> Option<int> {
    let h = gap_histogram(t);
    let b = leading_index(h, h.len() as int);
    if h[b] == 0 {
        None
    } else {
        Some(100 * b)
    }
}

/// The length in milliseconds of `k` frames at `rate`, rounded down.
pub open spec fn expected_gap(rate: u32, k: int) -> int {
    (k * 1_000_000) / (rate as int)
}

/// The distance between `gap` and `k` frames at `rate`.
pub open spec fn gap_error(rate: u32, k: int, gap: int) -> int {
    let expected = expected_gap(rate, k);
    if gap >= expected {
        gap - expected
    } else {
        expected - gap
    }
}

/// The distance between `gap` and the first of one, two and three frames at
/// `rate` that lies less than 50 ms from it; `None` where none does.
pub open spec fn rate_error(rate: u32, gap: int) -> Option<int> {
    if gap_error(rate, 1, gap) < 50 {
        Some(gap_error(rate, 1, gap))
    } else if gap_error(rate, 2, gap) < 50 {
        Some(gap_error(rate, 2, gap))
    } else if gap_error(rate, 3, gap) < 50 {
        Some(gap_error(rate, 3, gap))
    } else {
        None
    }
}

/// What interval analysis proposes for `rate` when the commonest gap lies
/// `error` milliseconds from a frame multiple: the full 0.7 at distance 0,
/// less one fiftieth of it for each millisecond.
pub open spec fn interval_detection(rate: u32, error: int) -> FramerateDetection {
    FramerateDetection {
        framerate: rate,
        confidence: Confidence { tenths: 7, num: (50 - error) as u64, den: 50 },
        method: DetectionMethod::IntervalAnalysis,
    }
}

/// The proposal for the first candidate from position `from` on that has a
/// frame multiple within tolerance of `gap`.
pub open spec fn interval_match(gap: int, from: int) -> Option<FramerateDetection>
    decreases candidate_rates().len() - from,
{
    if from < 0 || from >= candidate_rates().len() {
        None
    } else {
        match rate_error(candidate_rates()[from], gap) {
            Some(error) => Some(interval_detection(candidate_rates()[from], error)),
            None => interval_match(gap, from + 1),
        }
    }
}

/// What interval analysis proposes for a track: nothing for fewer than ten
/// cues or without a cadence gap, else the first candidate that explains the
/// commonest gap.
pub open spec fn interval_proposal(t: Seq<SubtitleTiming>) -> Option<FramerateDetection> {
    if t.len() < 10 {
        None
    } else {
        match most_common_gap(t) {
            None => None,
            Some(gap) => interval_match(gap, 0),
        }
    }
}

// ---------------------------------------------------------------------------
// Duration patterns
// ---------------------------------------------------------------------------

/// Whether a duration of `d` milliseconds lies less than a tenth of a frame
/// from a whole number of frames at `rate`.
///
/// In millionths of a frame the duration is `d * rate`; what it has beyond the
/// last whole frame is the remainder modulo one million.
pub open spec fn frame_aligned(rate: u32, d: int) -> bool {
    let beyond = (d * rate) % 1_000_000;
    beyond < 100_000 || beyond > 900_000
}

/// Among the cues `0 .. upto`, the number whose duration is frame-aligned at
/// `rate`.
pub open spec fn aligned_count(t: Seq<SubtitleTiming>, upto: int, rate: u32) -> nat
    decreases upto,
{
    if upto <= 0 {
        0
    } else {
        let here: nat = if frame_aligned(rate, t[upto - 1].duration_ms as int) {
            1
        } else {
            0
        };
        aligned_count(t, upto - 1, rate) + here
    }
}

/// The number of cues of the whole track that are frame-aligned at the
/// candidate at position `i`.
pub open spec fn candidate_aligned(t: Seq<SubtitleTiming>, i: int) -> nat {
    aligned_count(t, t.len() as int, candidate_rates()[i])
}

/// Whether `aligned` cues of `total` are more than six in ten.
pub open spec fn clears_threshold(aligned: nat, total: nat) -> bool {
    5 * aligned > 3 * total
}

/// Among the candidates `0 .. upto`, the position of the first that has the
/// most frame-aligned cues, if that is more than six in ten.
pub open spec fn best_aligned(t: Seq<SubtitleTiming>, upto: int) -> Option<int>
    decreases upto,
{
    if upto <= 0 {
        None
    } else {
        let before = best_aligned(t, upto - 1);
        let here = candidate_aligned(t, upto - 1);
        let more = match before {
            None => true,
            Some(b) => here > candidate_aligned(t, b),
        };
        if more && clears_threshold(here, t.len()) {
            Some(upto - 1)
        } else {
            before
        }
    }
}

/// What duration analysis proposes for `rate` when `aligned` cues of `total`
/// are frame-aligned: that share of 0.8.
pub open spec fn duration_detection(rate: u32, aligned: nat, total: nat) -> FramerateDetection {
    FramerateDetection {
        framerate: rate,
        confidence: Confidence { tenths: 8, num: aligned as u64, den: total as u64 },
        method: DetectionMethod::DurationPattern,
    }
}

/// What duration analysis proposes for a track: nothing for fewer than
/// twenty cues, or where no candidate has more than six cues in ten
/// frame-aligned; else the first candidate among those with the most.
pub open spec fn duration_proposal(t: Seq<SubtitleTiming>) -> Option<FramerateDetection> {
    if t.len() < 20 {
        None
    } else {
        match best_aligned(t, candidate_rates().len() as int) {
            None => None,
            Some(i) => Some(
                duration_detection(candidate_rates()[i], candidate_aligned(t, i), t.len()),
            ),
        }
    }
}

// ---------------------------------------------------------------------------
// The density heuristic
// ---------------------------------------------------------------------------

/// The time from the first cue's start to the last cue's end.
pub open spec fn total_span(t: Seq<SubtitleTiming>) -> int {
    t.last().end_ms - t.first().start_ms
}

/// Whether the track has more than ten cues per minute of its span. A track
/// whose span is zero has; one whose span is negative has not.
pub open spec fn dense_cues(t: Seq<SubtitleTiming>) -> bool {
    t.len() > 0 && 0 <= total_span(t) < 6_000 * t.len()
}

/// What the heuristic proposes for a track: nothing for fewer than five
/// cues; else 29.97 for a dense track and 25 for another, with confidence 0.5,
/// or 0.6 where the span is more than an hour.
pub open spec fn heuristic_proposal(t: Seq<SubtitleTiming>) -> Option<FramerateDetection> {
    if t.len() < 5 {
        None
    } else {
        Some(
            FramerateDetection {
                framerate: if dense_cues(t) {
                    29_970
                } else {
                    25_000
                },
                confidence: Confidence {
                    tenths: if total_span(t) > 3_600_000 {
                        6
                    } else {
                        5
                    },
                    num: 1,
                    den: 1,
                },
                method: DetectionMethod::CommonFramerateHeuristic,
            },
        )
    }
}

/// The sum of the durations of the cues `0 .. upto`.
pub open spec fn duration_sum(t: Seq<SubtitleTiming>, upto: int) -> int
    decreases upto,
{
    if upto <= 0 {
        0
    } else {
        duration_sum(t, upto - 1) + t[upto - 1].duration_ms
    }
}

// ---------------------------------------------------------------------------
// The selector
// ---------------------------------------------------------------------------

/// The detection for a track without cues: 29.97 with confidence 0.
pub open spec fn default_detection() -> FramerateDetection {
    FramerateDetection {
        framerate: 29_970,
        confidence: Confidence { tenths: 0, num: 0, den: 1 },
        method: DetectionMethod::Default,
    }
}

/// The detection for a track on which no method has an opinion: 29.97 with
/// confidence 0.1.
pub open spec fn fallback_detection() -> FramerateDetection {
    FramerateDetection {
        framerate: 29_970,
        confidence: Confidence { tenths: 1, num: 1, den: 1 },
        method: DetectionMethod::Fallback,
    }
}

/// A proposal as a sequence of one, and no proposal as the empty sequence.
pub open spec fn proposal_seq(p: Option<FramerateDetection>) -> Seq<FramerateDetection> {
    match p {
        Some(d) => seq![d],
        None => Seq::empty(),
    }
}

/// The proposals of the three methods for a track, in the order interval
/// analysis, duration analysis, heuristic.
pub open spec fn proposals(t: Seq<SubtitleTiming>) -> Seq<FramerateDetection> {
    proposal_seq(interval_proposal(t)) + proposal_seq(duration_proposal(t)) + proposal_seq(
        heuristic_proposal(t),
    )
}

/// Among the proposals `0 .. upto`, the position of the first that has the
/// greatest confidence (0 where `upto` is 0).
pub open spec fn leading_proposal(p: Seq<FramerateDetection>, upto: int) -> int
    decreases upto,
{
    if upto <= 1 {
        0
    } else {
        let before = leading_proposal(p, upto - 1);
        if p[upto - 1].confidence.spec_exceeds(p[before].confidence) {
            upto - 1
        } else {
            before
        }
    }
}

/// The first of the proposals that has the greatest confidence, and the
/// fallback where there is none.
pub open spec fn select_best(p: Seq<FramerateDetection>) -> FramerateDetection {
    if p.len() == 0 {
        fallback_detection()
    } else {
        p[leading_proposal(p, p.len() as int)]
    }
}

/// The detection for a track: the default without cues, else the best of
/// the three methods' proposals.
pub open spec fn detection(t: Seq<SubtitleTiming>) -> FramerateDetection {
    if t.len() == 0 {
        default_detection()
    } else {
        select_best(proposals(t))
    }
}

/// The length in milliseconds of `k` frames at `rate`, rounded down.
pub fn expected_gap_ms(rate: u32, k: u32) -> (ms: u32)
    requires
        rate > 0,
        k <= 4_294,
    ensures
        ms == expected_gap(rate, k as int),
{
    (k * 1_000_000) / rate
}

/// The distance between `gap` and the first frame multiple at `rate` within
/// tolerance of it.
pub fn rate_error_ms(rate: u32, gap: u32) -> (r: Option<u32>)
    requires
        rate > 0,
    ensures
        r is Some <==> rate_error(rate, gap as int) is Some,
        r is Some ==> r->0 == rate_error(rate, gap as int)->0 && r->0 < 50,
{
    let mut k: u32 = 1;
    while k <= 3
        invariant
            rate > 0,
            1 <= k <= 4,
            forall|j: int| 1 <= j < k ==> gap_error(rate, j, gap as int) >= 50,
        decreases 4 - k,
    {
        let expected: u32 = expected_gap_ms(rate, k);
        let error: u32 = if gap >= expected {
            gap - expected
        } else {
            expected - gap
        };
        if error < 50 {
            return Some(error);
        }
        k = k + 1;
    }
    None
}

/// The proposal of interval analysis for a commonest gap of `gap`
/// milliseconds: the first candidate with a frame multiple less than 50 ms
/// from it.
pub fn match_interval(gap: u32) -> (r: Option<FramerateDetection>)
    ensures
        r == interval_match(gap as int, 0),
{
    let mut i: usize = 0;
    while i < CANDIDATE_COUNT
        invariant
            0 <= i <= CANDIDATE_COUNT,
            interval_match(gap as int, 0) == interval_match(gap as int, i as int),
        decreases CANDIDATE_COUNT - i,
    {
        let rate: u32 = candidate_rate(i);
        match rate_error_ms(rate, gap) {
            Some(error) => {
                let share: u64 = (50 - error) as u64;
                return Some(
                    FramerateDetection {
                        framerate: rate,
                        confidence: Confidence { tenths: 7, num: share, den: 50 },
                        method: DetectionMethod::IntervalAnalysis,
                    },
                );
            },
            None => {},
        }
        i = i + 1;
    }
    None
}

/// The first position of `counts` that holds its greatest count.
pub fn leading_position(counts: &Vec<usize>) -> (best: usize)
    ensures
        best == leading_index(counts@.map_values(|c: usize| c as nat), counts.len() as int),
        counts.len() > 0 ==> best < counts.len(),
{
    let ghost shown = counts@.map_values(|c: usize| c as nat);
    let mut best: usize = 0;
    let mut b: usize = 1;
    if counts.len() == 0 {
        return 0;
    }
    while b < counts.len()
        invariant
            1 <= b <= counts.len(),
            best < b,
            shown == counts@.map_values(|c: usize| c as nat),
            best == leading_index(shown, b as int),
        decreases counts.len() - b,
    {
        if counts[b] > counts[best] {
            best = b;
        }
        b = b + 1;
    }
    best
}

impl FramerateDetector {
    /// A detector without cues.
    pub fn new() -> (d: FramerateDetector)
        ensures
            d@ == Seq::<SubtitleTiming>::empty(),
    {
        FramerateDetector { timings: Vec::new() }
    }

    /// The count of each bucket of cadence gaps over the whole track.
    pub fn count_gaps(&self) -> (counts: Vec<usize>)
        ensures
            counts.len() == BUCKET_COUNT,
            counts@.map_values(|c: usize| c as nat) == gap_histogram(self@),
    {
        let n: usize = self.timings.len();
        let mut counts: Vec<usize> = Vec::new();
        let mut b: usize = 0;
        while b < BUCKET_COUNT
            invariant
                0 <= b <= BUCKET_COUNT,
                counts.len() == b,
                forall|c: int| 0 <= c < b ==> counts[c] == 0,
            decreases BUCKET_COUNT - b,
        {
            counts.push(0);
            b = b + 1;
        }
        let mut i: usize = 1;
        while i < n
            invariant
                n == self.timings.len(),
                1 <= i,
                counts.len() == BUCKET_COUNT,
                forall|c: int|
                    0 <= c < BUCKET_COUNT ==> counts[c] == bucket_count(
                        self@,
                        if i <= n {
                            i as int
                        } else {
                            n as int
                        },
                        c,
                    ),
                forall|c: int| 0 <= c < BUCKET_COUNT ==> counts[c] < i,
            decreases n - i,
        {
            let gap: i64 = (self.timings[i].start_ms as i64) - (self.timings[i - 1].end_ms as i64);
            if 0 < gap && gap < 10_000 {
                let bucket: usize = (gap / 100) as usize;
                let seen: usize = counts[bucket];
                counts.set(bucket, seen + 1);
            }
            i = i + 1;
        }
        proof {
            let shown = counts@.map_values(|c: usize| c as nat);
            assert(n <= 1 ==> bucket_count(self@, n as int, 0) == 0);
            assert forall|c: int| 0 <= c < BUCKET_COUNT implies shown[c] == gap_histogram(
                self@,
            )[c] by {
                assert(bucket_count(self@, 1, c) == 0);
                assert(bucket_count(self@, 0, c) == 0);
            }
            assert(shown =~= gap_histogram(self@));
        }
        counts
    }

    /// The proposal of interval analysis: nothing for fewer than ten cues or
    /// without a cadence gap, else the first candidate frame rate that has a
    /// frame multiple less than 50 ms from the commonest gap.
    pub fn detect_by_intervals(&self) -> (r: Option<FramerateDetection>)
        ensures
            r == interval_proposal(self@),
    {
        if self.timings.len() < 10 {
            return None;
        }
        let counts: Vec<usize> = self.count_gaps();
        let bucket: usize = leading_position(&counts);
        if counts[bucket] == 0 {
            return None;
        }
        let gap: u32 = 100 * (bucket as u32);
        match_interval(gap)
    }

    /// The number of cues whose duration lies less than a tenth of a frame
    /// from a whole number of frames at `rate`.
    pub fn count_aligned(&self, rate: u32) -> (count: usize)
        ensures
            count == aligned_count(self@, self@.len() as int, rate),
            count <= self@.len(),
    {
        let n: usize = self.timings.len();
        let mut count: usize = 0;
        let mut i: usize = 0;
        while i < n
            invariant
                n == self.timings.len(),
                0 <= i <= n,
                count <= i,
                count == aligned_count(self@, i as int, rate),
            decreases n - i,
        {
            if is_frame_aligned(rate, self.timings[i].duration_ms) {
                count = count + 1;
            }
            i = i + 1;
        }
        count
    }

    /// The proposal of duration analysis: nothing for fewer than twenty
    /// cues, or where no candidate frame rate has more than six cues in ten
    /// frame-aligned; else the first candidate among those with the most,
    /// with that share of 0.8 as its confidence.
    pub fn detect_by_duration_patterns(&self) -> (r: Option<FramerateDetection>)
        ensures
            r == duration_proposal(self@),
    {
        let n: usize = self.timings.len();
        if n < 20 {
            return None;
        }
        let mut best: Option<FramerateDetection> = None;
        let mut best_count: usize = 0;
        let ghost mut best_at: Option<int> = None;
        let mut i: usize = 0;
        while i < CANDIDATE_COUNT
            invariant
                n == self.timings.len(),
                n >= 20,
                0 <= i <= CANDIDATE_COUNT,
                best_at == best_aligned(self@, i as int),
                best_at is None <==> best is None,
                best_at is Some ==> 0 <= best_at->0 < i && best_count == candidate_aligned(
                    self@,
                    best_at->0,
                ) && best == Some(
                    duration_detection(
                        candidate_rates()[best_at->0],
                        candidate_aligned(self@, best_at->0),
                        self@.len(),
                    ),
                ),
            decreases CANDIDATE_COUNT - i,
        {
            let rate: u32 = candidate_rate(i);
            let count: usize = self.count_aligned(rate);
            let more: bool = best.is_none() || count > best_count;
            if more && 5 * (count as u128) > 3 * (n as u128) {
                best =
                Some(
                    FramerateDetection {
                        framerate: rate,
                        confidence: Confidence { tenths: 8, num: count as u64, den: n as u64 },
                        method: DetectionMethod::DurationPattern,
                    },
                );
                best_count = count;
                proof {
                    best_at = Some(i as int);
                }
            }
            i = i + 1;
        }
        best
    }

    /// Whether the track has more than ten cues per minute of its span, which
    /// speaks for 29.97 frames per second. A track whose span is zero has; an
    /// empty track, or one whose span is negative, has not.
    pub fn has_ntsc_indicators(&self) -> (dense: bool)
        ensures
            dense == dense_cues(self@),
    {
        let n: usize = self.timings.len();
        if n == 0 {
            return false;
        }
        let span: i64 = (self.timings[n - 1].end_ms as i64) - (self.timings[0].start_ms as i64);
        span >= 0 && (span as u128) < 6_000 * (n as u128)
    }

    /// The proposal of the density heuristic: nothing for fewer than five
    /// cues; else 29.97 for a dense track and 25 for another, with confidence
    /// 0.5, or 0.6 where the track spans more than an hour.
    pub fn detect_by_common_framerates(&self) -> (r: Option<FramerateDetection>)
        ensures
            r == heuristic_proposal(self@),
    {
        let n: usize = self.timings.len();
        if n < 5 {
            return None;
        }
        let span: i64 = (self.timings[n - 1].end_ms as i64) - (self.timings[0].start_ms as i64);
        let tenths: u8 = if span > 3_600_000 {
            6
        } else {
            5
        };
        let framerate: u32 = if self.has_ntsc_indicators() {
            29_970
        } else {
            25_000
        };
        Some(
            FramerateDetection {
                framerate,
                confidence: Confidence { tenths, num: 1, den: 1 },
                method: DetectionMethod::CommonFramerateHeuristic,
            },
        )
    }

    /// The counts of the track: the number of cues, the sum of their
    /// durations and the span from the first start to the last end. `None`
    /// for a track without cues.
    pub fn get_statistics(&self) -> (r: Option<TimingStatistics>)
        ensures
            self@.len() == 0 ==> r is None,
            self@.len() > 0 ==> r == Some(
                TimingStatistics {
                    subtitle_count: self@.len() as usize,
                    total_duration_ms: duration_sum(self@, self@.len() as int) as i128,
                    total_span_ms: total_span(self@) as i64,
                },
            ),
            self@.len() > 0 ==> r->0.total_duration_ms == duration_sum(self@, self@.len() as int),
    {
        let n: usize = self.timings.len();
        if n == 0 {
            return None;
        }
        let mut total: i128 = 0;
        let mut i: usize = 0;
        while i < n
            invariant
                n == self.timings.len(),
                0 <= i <= n,
                total == duration_sum(self@, i as int),
                -0x8000_0000 * i <= total <= 0x8000_0000 * i,
            decreases n - i,
        {
            total = total + (self.timings[i].duration_ms as i128);
            i = i + 1;
        }
        let span: i64 = (self.timings[n - 1].end_ms as i64) - (self.timings[0].start_ms as i64);
        Some(TimingStatistics { subtitle_count: n, total_duration_ms: total, total_span_ms: span })
    }

    /// The proposals of the three methods, in the order interval analysis,
    /// duration analysis, heuristic; a method without an opinion adds none.
    pub fn detect_all(&self) -> (found: Vec<FramerateDetection>)
        ensures
            found@ == proposals(self@),
    {
        let mut found: Vec<FramerateDetection> = Vec::new();
        if let Some(d) = self.detect_by_intervals() {
            found.push(d);
        }
        if let Some(d) = self.detect_by_duration_patterns() {
            found.push(d);
        }
        if let Some(d) = self.detect_by_common_framerates() {
            found.push(d);
        }
        proof {
            assert(found@ =~= proposals(self@));
        }
        found
    }

    /// The detection for the track: the default without cues; else the
    /// first of the three methods' proposals that has the greatest
    /// confidence, and the fallback where no method has an opinion.
    pub fn detect_framerate(&self) -> (r: FramerateDetection)
        ensures
            r == detection(self@),
            self@.len() == 0 ==> r == default_detection(),
            1 <= self@.len() <= 4 ==> r == fallback_detection(),
            is_candidate_rate(r.framerate),
            r.confidence.wf(),
    {
        let n: usize = self.timings.len();
        proof {
            crate::detection_laws::detected_rate_is_candidate(self@);
            crate::detection_laws::detected_confidence_is_a_share(self@);
        }
        if n == 0 {
            return FramerateDetection {
                framerate: 29_970,
                confidence: Confidence { tenths: 0, num: 0, den: 1 },
                method: DetectionMethod::Default,
            };
        }
        let found: Vec<FramerateDetection> = self.detect_all();
        proof {
            if self@.len() <= 4 {
                assert(proposals(self@) =~= Seq::<FramerateDetection>::empty());
            }
        }
        select_detection(&found)
    }
}

/// Whether a duration of `d` milliseconds lies less than a tenth of a frame
/// from a whole number of frames at `rate`.
pub fn is_frame_aligned(rate: u32, d: i32) -> (aligned: bool)
    ensures
        aligned == frame_aligned(rate, d as int),
{
    let size: u64 = if d >= 0 {
        d as u64
    } else {
        (-(d as i64)) as u64
    };
    proof {
        assert(size * rate <= 0x8000_0000 * 0xFFFF_FFFF) by (nonlinear_arith)
            requires
                0 <= size <= 0x8000_0000,
                0 <= rate <= 0xFFFF_FFFF,
        ;
    }
    let beyond: u64 = (size * (rate as u64)) % 1_000_000;
    proof {
        if d < 0 {
            lemma_remainder_of_negative(size * rate, 1_000_000);
            assert(d * rate == -(size * rate)) by (nonlinear_arith)
                requires
                    d == -size,
            ;
        }
    }
    beyond < 100_000 || beyond > 900_000
}

/// The remainder of `-x` is that of `x` taken from the modulus, or zero.
pub proof fn lemma_remainder_of_negative(x: int, m: int)
    requires
        m > 0,
    ensures
        (-x) % m == if x % m == 0 {
            0
        } else {
            m - x % m
        },
{
    vstd::arithmetic::div_mod::lemma_fundamental_div_mod(x, m);
    let q = x / m;
    let r = x % m;
    if r == 0 {
        assert(-x == (-q) * m + 0) by (nonlinear_arith)
            requires
                x == m * q,
        ;
        vstd::arithmetic::div_mod::lemma_fundamental_div_mod_converse(-x, m, -q, 0);
    } else {
        assert(-x == (-q - 1) * m + (m - r)) by (nonlinear_arith)
            requires
                x == m * q + r,
        ;
        vstd::arithmetic::div_mod::lemma_fundamental_div_mod_converse(-x, m, -q - 1, m - r);
    }
}

/// The first of the proposals that has the greatest confidence, and the
/// fallback where there is none.
pub fn select_detection(found: &Vec<FramerateDetection>) -> (r: FramerateDetection)
    ensures
        r == select_best(found@),
{
    if found.len() == 0 {
        return FramerateDetection {
            framerate: 29_970,
            confidence: Confidence { tenths: 1, num: 1, den: 1 },
            method: DetectionMethod::Fallback,
        };
    }
    let mut best: usize = 0;
    let mut i: usize = 1;
    while i < found.len()
        invariant
            1 <= i <= found.len(),
            best < i,
            best == leading_proposal(found@, i as int),
        decreases found.len() - i,
    {
        if found[i].confidence.exceeds(&found[best].confidence) {
            best = i;
        }
        i = i + 1;
    }
    found[best]
}

} // verus!
