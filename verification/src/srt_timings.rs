//! Cue timings taken from subtitle text: from every timing line found in it,
//! or from the subtitles of a file that was read.

use crate::framerate_detector::{detection, FramerateDetection, FramerateDetector, SubtitleTiming};
use crate::pattern::{all_matches, pattern_compiles, regex_captures_all};
use crate::subtitle_parser::{EntryView, SubtitleFile};
use crate::timestamp::{
    groups_time, parse_timestamp, timestamp_to_milliseconds, timestamp_value, SubtitleError,
};
use vstd::prelude::*;

verus! {

/// A timing line anywhere in a text: a timestamp, an arrow between two
/// spaces, and a timestamp, with a capture group for each of the eight
/// numbers.
pub const TIMING_SCAN_PATTERN: &'static str =
    "(\\d{2}):(\\d{2}):(\\d{2}),(\\d{3}) --> (\\d{2}):(\\d{2}):(\\d{2}),(\\d{3})";

/// The timing from `start_ms` to `end_ms`; `TimeOutOfRange` where the
/// duration does not fit in 32 bits.
pub open spec fn timing_between(start_ms: i32, end_ms: i32) -> Result<
    SubtitleTiming,
    SubtitleError,
> {
    if i32::MIN <= end_ms - start_ms <= i32::MAX {
        Ok(SubtitleTiming { start_ms, end_ms, duration_ms: (end_ms - start_ms) as i32 })
    } else {
        Err(SubtitleError::TimeOutOfRange)
    }
}

/// The timing of one match of the timing pattern: its start is the time of
/// groups 1 to 4, its end that of groups 5 to 8.
pub open spec fn match_timing(groups: Seq<Option<Seq<char>>>) -> Result<
    SubtitleTiming,
    SubtitleError,
> {
    match groups_time(groups, 1) {
        Err(e) => Err(e),
        Ok(start_ms) => match groups_time(groups, 5) {
            Err(e) => Err(e),
            Ok(end_ms) => timing_between(start_ms, end_ms),
        },
    }
}

/// The timings of the first `upto` matches and no error; or the error of
/// the first match that has one, and the timings of the matches before it.
pub open spec fn scanned_timings(matches: Seq<Seq<Option<Seq<char>>>>, upto: int) -> (
    Seq<SubtitleTiming>,
    Option<SubtitleError>,
)
    decreases upto,
{
    if upto <= 0 {
        (Seq::empty(), None)
    } else {
        let (before, error) = scanned_timings(matches, upto - 1);
        match error {
            Some(e) => (before, Some(e)),
            None => match match_timing(matches[upto - 1]) {
                Ok(t) => (before.push(t), None),
                Err(e) => (before, Some(e)),
            },
        }
    }
}

/// The timing of a subtitle: the times of its two timestamps, the start
/// read first.
pub open spec fn entry_timing(entry: EntryView) -> Result<SubtitleTiming, SubtitleError> {
    match timestamp_value(entry.start_time) {
        Err(e) => Err(e),
        Ok(start_ms) => match timestamp_value(entry.end_time) {
            Err(e) => Err(e),
            Ok(end_ms) => timing_between(start_ms, end_ms),
        },
    }
}

/// The timings of the first `upto` subtitles, or the error of the first
/// subtitle that has one.
pub open spec fn file_timings(entries: Seq<EntryView>, upto: int) -> Result<
    Seq<SubtitleTiming>,
    SubtitleError,
>
    decreases upto,
{
    if upto <= 0 {
        Ok(Seq::empty())
    } else {
        match file_timings(entries, upto - 1) {
            Err(e) => Err(e),
            Ok(before) => match entry_timing(entries[upto - 1]) {
                Err(e) => Err(e),
                Ok(t) => Ok(before.push(t)),
            },
        }
    }
}

/// What is detected for the subtitles of a file: the detection for their
/// timings, or the error of the first subtitle whose timing cannot be read.
pub open spec fn file_detection(entries: Seq<EntryView>) -> Result<
    FramerateDetection,
    SubtitleError,
> {
    match file_timings(entries, entries.len() as int) {
        Err(e) => Err(e),
        Ok(timings) => Ok(detection(timings)),
    }
}

/// Once a match has an error, every longer run of matches has it and the
/// same timings.
pub proof fn lemma_scan_error_stays(matches: Seq<Seq<Option<Seq<char>>>>, at: int, upto: int)
    requires
        0 <= at <= upto,
        scanned_timings(matches, at).1 is Some,
    ensures
        scanned_timings(matches, upto) == scanned_timings(matches, at),
    decreases upto - at,
{
    if at < upto {
        lemma_scan_error_stays(matches, at, upto - 1);
    }
}

/// Once a subtitle has an error, every longer run of subtitles has it.
pub proof fn lemma_file_error_stays(entries: Seq<EntryView>, at: int, upto: int)
    requires
        0 <= at <= upto,
        file_timings(entries, at) is Err,
    ensures
        file_timings(entries, upto) == file_timings(entries, at),
    decreases upto - at,
{
    if at < upto {
        lemma_file_error_stays(entries, at, upto - 1);
    }
}

/// The timing from `start_ms` to `end_ms`.
pub fn make_timing(start_ms: i32, end_ms: i32) -> (r: Result<SubtitleTiming, SubtitleError>)
    ensures
        r == timing_between(start_ms, end_ms),
        r matches Ok(t) ==> t.wf(),
{
    let lasts: i64 = (end_ms as i64) - (start_ms as i64);
    if lasts < -0x8000_0000 || lasts > 0x7FFF_FFFF {
        Err(SubtitleError::TimeOutOfRange)
    } else {
        Ok(SubtitleTiming { start_ms, end_ms, duration_ms: lasts as i32 })
    }
}

/// The timing of one match of the timing pattern.
pub fn timing_from_match(groups: &Vec<Option<String>>) -> (r: Result<
    SubtitleTiming,
    SubtitleError,
>)
    ensures
        r == match_timing(groups.deep_view()),
{
    let start_ms: i32 = match parse_timestamp(groups, 1) {
        Ok(v) => v,
        Err(e) => {
            return Err(e);
        },
    };
    let end_ms: i32 = match parse_timestamp(groups, 5) {
        Ok(v) => v,
        Err(e) => {
            return Err(e);
        },
    };
    make_timing(start_ms, end_ms)
}

/// The timings of the subtitles of a file, in order; the error of the first
/// subtitle whose timing cannot be read.
pub fn timings_of_file(file: &SubtitleFile) -> (r: Result<Vec<SubtitleTiming>, SubtitleError>)
    ensures
        r matches Ok(timings) ==> file_timings(file@, file@.len() as int) == Ok::<
            Seq<SubtitleTiming>,
            SubtitleError,
        >(timings@),
        r matches Err(e) ==> file_timings(file@, file@.len() as int) == Err::<
            Seq<SubtitleTiming>,
            SubtitleError,
        >(e),
{
    let n: usize = file.entries.len();
    let mut timings: Vec<SubtitleTiming> = Vec::new();
    let mut i: usize = 0;
    while i < n
        invariant
            n == file.entries.len(),
            0 <= i <= n,
            file_timings(file@, i as int) == Ok::<Seq<SubtitleTiming>, SubtitleError>(timings@),
        decreases n - i,
    {
        proof {
            assert(file@[i as int] == file.entries[i as int]@);
        }
        let start = timestamp_to_milliseconds(file.entries[i].start_time.as_str());
        let timing = match start {
            Err(e) => Err(e),
            Ok(start_ms) => match timestamp_to_milliseconds(file.entries[i].end_time.as_str()) {
                Err(e) => Err(e),
                Ok(end_ms) => make_timing(start_ms, end_ms),
            },
        };
        match timing {
            Err(e) => {
                proof {
                    lemma_file_error_stays(file@, i + 1, n as int);
                }
                return Err(e);
            },
            Ok(t) => {
                timings.push(t);
            },
        }
        i = i + 1;
    }
    Ok(timings)
}

/// Detects the frame rate of the subtitles of a file from their timings;
/// the error of the first subtitle whose timing cannot be read.
pub fn detect_framerate(file: &SubtitleFile) -> (r: Result<FramerateDetection, SubtitleError>)
    ensures
        r == file_detection(file@),
{
    match timings_of_file(file) {
        Err(e) => Err(e),
        Ok(timings) => {
            let detector: FramerateDetector = FramerateDetector { timings };
            Ok(detector.detect_framerate())
        },
    }
}

impl FramerateDetector {
    /// Adds the timing of each match, in order, up to the first match that
    /// has an error.
    pub fn add_matches(&mut self, matches: &Vec<Vec<Option<String>>>) -> (r: Result<
        (),
        SubtitleError,
    >)
        ensures
            final(self)@ == old(self)@ + scanned_timings(
                matches.deep_view(),
                matches.len() as int,
            ).0,
            r == match scanned_timings(matches.deep_view(), matches.len() as int).1 {
                Some(e) => Err::<(), SubtitleError>(e),
                None => Ok::<(), SubtitleError>(()),
            },
    {
        let n: usize = matches.len();
        let mut i: usize = 0;
        proof {
            assert(self@ =~= old(self)@ + Seq::<SubtitleTiming>::empty());
        }
        while i < n
            invariant
                n == matches.len(),
                0 <= i <= n,
                scanned_timings(matches.deep_view(), i as int).1 is None,
                self@ == old(self)@ + scanned_timings(matches.deep_view(), i as int).0,
            decreases n - i,
        {
            proof {
                assert(matches.deep_view()[i as int] == matches@[i as int].deep_view());
            }
            match timing_from_match(&matches[i]) {
                Err(e) => {
                    proof {
                        lemma_scan_error_stays(matches.deep_view(), i + 1, n as int);
                    }
                    return Err(e);
                },
                Ok(t) => {
                    let ghost before = self@;
                    self.timings.push(t);
                    proof {
                        assert(self@ =~= old(self)@ + scanned_timings(
                            matches.deep_view(),
                            i + 1,
                        ).0);
                    }
                },
            }
            i = i + 1;
        }
        Ok(())
    }

    /// Adds the timing of every timing line found in `content`, in order.
    /// Fails with `Pattern`, adding nothing, where the matcher rejects the
    /// timing pattern; stops at the first timing line that has an error,
    /// with the timings before it added.
    pub fn analyze_srt_content(&mut self, content: &str) -> (r: Result<(), SubtitleError>)
        ensures
            !pattern_compiles(TIMING_SCAN_PATTERN@) ==> r == Err::<(), SubtitleError>(
                SubtitleError::Pattern,
            ) && final(self)@ == old(self)@,
            pattern_compiles(TIMING_SCAN_PATTERN@) ==> {
                let matches = all_matches(TIMING_SCAN_PATTERN@, content@);
                let found = scanned_timings(matches, matches.len() as int);
                &&& final(self)@ == old(self)@ + found.0
                &&& r == match found.1 {
                    Some(e) => Err::<(), SubtitleError>(e),
                    None => Ok::<(), SubtitleError>(()),
                }
            },
    {
        match regex_captures_all(TIMING_SCAN_PATTERN, content) {
            Err(_) => Err(SubtitleError::Pattern),
            Ok(matches) => self.add_matches(&matches),
        }
    }
}

} // verus!
