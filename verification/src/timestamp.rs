//! Timestamps of the form `HH:MM:SS,mmm` and the milliseconds they stand for.

use crate::digits::{
    append_three_wide, append_two_wide, padded_reads_back, parse_i32, parsed_i32, three_digits,
    three_wide, two_digits, two_wide,
};
use crate::pattern::{first_match, pattern_compiles, regex_captures};
use crate::rescale::{clamp_i32, rescale_ms, rescaled};
use vstd::prelude::*;
use vstd::string::*;

verus! {

/// What can be wrong with subtitle text.
#[derive(Debug, Clone, Copy, PartialEq, Eq, Structural)]
pub enum SubtitleError {
    /// A pattern of this library was rejected by the pattern matcher.
    Pattern,
    /// A timestamp is not of the form `HH:MM:SS,mmm`.
    InvalidTimestamp,
    /// A field of a timestamp is not a number.
    InvalidNumber,
    /// A time, or the difference of two, does not fit in 32 bits.
    TimeOutOfRange,
    /// The first line of a block is not a number.
    InvalidIndex,
    /// The second line of a block is not of the form `start --> end`.
    InvalidTiming,
    /// The text holds no subtitle entry.
    NoEntries,
}

/// A timestamp and nothing else: two digits each for hours, minutes and
/// seconds, and three for milliseconds, each a capture group.
pub const TIMESTAMP_PATTERN: &'static str = "^(\\d{2}):(\\d{2}):(\\d{2}),(\\d{3})$";

/// The number in capture group `i`: `InvalidTimestamp` where the group is
/// missing, `InvalidNumber` where its text is no 32-bit numeral.
pub open spec fn group_number(groups: Seq<Option<Seq<char>>>, i: int) -> Result<
    int,
    SubtitleError,
> {
    if i < 0 || i >= groups.len() {
        Err(SubtitleError::InvalidTimestamp)
    } else {
        match groups[i] {
            None => Err(SubtitleError::InvalidTimestamp),
            Some(text) => match parsed_i32(text) {
                None => Err(SubtitleError::InvalidNumber),
                Some(v) => Ok(v),
            },
        }
    }
}

/// The time of so many hours, minutes, seconds and milliseconds, in
/// milliseconds.
pub open spec fn time_ms(hours: int, minutes: int, seconds: int, millis: int) -> int {
    hours * 3_600_000 + minutes * 60_000 + seconds * 1_000 + millis
}

/// The time in milliseconds that the four capture groups from `first` on
/// stand for, read as hours, minutes, seconds and milliseconds. The first
/// group in that order that is missing or no number decides the error; a
/// time that does not fit in 32 bits is `TimeOutOfRange`.
pub open spec fn groups_time(groups: Seq<Option<Seq<char>>>, first: int) -> Result<
    i32,
    SubtitleError,
> {
    match group_number(groups, first) {
        Err(e) => Err(e),
        Ok(hours) => match group_number(groups, first + 1) {
            Err(e) => Err(e),
            Ok(minutes) => match group_number(groups, first + 2) {
                Err(e) => Err(e),
                Ok(seconds) => match group_number(groups, first + 3) {
                    Err(e) => Err(e),
                    Ok(millis) => {
                        let total = time_ms(hours, minutes, seconds, millis);
                        if i32::MIN <= total <= i32::MAX {
                            Ok(total as i32)
                        } else {
                            Err(SubtitleError::TimeOutOfRange)
                        }
                    },
                },
            },
        }
    }
}

/// The time in milliseconds that a timestamp stands for: `Pattern` where
/// the matcher rejects the timestamp pattern, `InvalidTimestamp` where the
/// pattern does not match the text, and else the time of its four groups.
pub open spec fn timestamp_value(timestamp: Seq<char>) -> Result<i32, SubtitleError> {
    if !pattern_compiles(TIMESTAMP_PATTERN@) {
        Err(SubtitleError::Pattern)
    } else {
        match first_match(TIMESTAMP_PATTERN@, timestamp) {
            None => Err(SubtitleError::InvalidTimestamp),
            Some(groups) => groups_time(groups, 1),
        }
    }
}

/// The timestamp for `ms` milliseconds: hours, minutes and seconds at a
/// width of two and milliseconds at a width of three. For a negative time
/// each field is the negative of the field for the time without its sign.
pub open spec fn timestamp_text(ms: int) -> Seq<char> {
    let size = if ms < 0 {
        -ms
    } else {
        ms
    };
    let sign: int = if ms < 0 {
        -1
    } else {
        1
    };
    two_wide(sign * (size / 3_600_000)) + seq![':'] + two_wide(
        sign * ((size % 3_600_000) / 60_000),
    ) + seq![':'] + two_wide(sign * ((size % 60_000) / 1_000)) + seq![','] + three_wide(
        sign * (size % 1_000),
    )
}

/// The timestamp `timestamp` moved from a clock at `from_fps` to one at
/// `to_fps`: its time rescaled, kept within 32 bits, and written out again.
pub open spec fn converted_timestamp(timestamp: Seq<char>, from_fps: int, to_fps: int) -> Result<
    Seq<char>,
    SubtitleError,
> {
    match timestamp_value(timestamp) {
        Err(e) => Err(e),
        Ok(ms) => Ok(timestamp_text(clamp_i32(rescaled(ms as int, from_fps, to_fps)))),
    }
}

/// The number in capture group `i`.
pub fn number_of_group(groups: &Vec<Option<String>>, i: usize) -> (r: Result<i32, SubtitleError>)
    ensures
        r is Ok <==> group_number(groups.deep_view(), i as int) is Ok,
        r matches Ok(v) ==> group_number(groups.deep_view(), i as int) == Ok::<
            int,
            SubtitleError,
        >(v as int),
        r matches Err(e) ==> group_number(groups.deep_view(), i as int) == Err::<
            int,
            SubtitleError,
        >(e),
{
    if i >= groups.len() {
        return Err(SubtitleError::InvalidTimestamp);
    }
    proof {
        assert(groups.deep_view()[i as int] == groups@[i as int].deep_view());
    }
    match &groups[i] {
        None => Err(SubtitleError::InvalidTimestamp),
        Some(text) => match parse_i32(text.as_str()) {
            None => Err(SubtitleError::InvalidNumber),
            Some(v) => Ok(v),
        },
    }
}

/// The number in the capture group `offset` places after group `first`.
fn number_after(groups: &Vec<Option<String>>, first: usize, offset: usize) -> (r: Result<
    i32,
    SubtitleError,
>)
    ensures
        r is Ok <==> group_number(groups.deep_view(), first + offset) is Ok,
        r matches Ok(v) ==> group_number(groups.deep_view(), first + offset) == Ok::<
            int,
            SubtitleError,
        >(v as int),
        r matches Err(e) ==> group_number(groups.deep_view(), first + offset) == Err::<
            int,
            SubtitleError,
        >(e),
{
    let held: usize = groups.len();
    match first.checked_add(offset) {
        Some(i) => number_of_group(groups, i),
        None => {
            assert(first + offset >= groups.deep_view().len());
            Err(SubtitleError::InvalidTimestamp)
        },
    }
}

/// The time in milliseconds that the four capture groups from `first` on
/// stand for, read as hours, minutes, seconds and milliseconds.
pub fn parse_timestamp(groups: &Vec<Option<String>>, first: usize) -> (r: Result<
    i32,
    SubtitleError,
>)
    ensures
        r == groups_time(groups.deep_view(), first as int),
{
    let hours: i32 = match number_of_group(groups, first) {
        Ok(v) => v,
        Err(e) => {
            return Err(e);
        },
    };
    let minutes: i32 = match number_after(groups, first, 1) {
        Ok(v) => v,
        Err(e) => {
            return Err(e);
        },
    };
    let seconds: i32 = match number_after(groups, first, 2) {
        Ok(v) => v,
        Err(e) => {
            return Err(e);
        },
    };
    let millis: i32 = match number_after(groups, first, 3) {
        Ok(v) => v,
        Err(e) => {
            return Err(e);
        },
    };
    let total: i64 = (hours as i64) * 3_600_000 + (minutes as i64) * 60_000 + (seconds as i64)
        * 1_000 + (millis as i64);
    if total < -0x8000_0000 || total > 0x7FFF_FFFF {
        Err(SubtitleError::TimeOutOfRange)
    } else {
        Ok(total as i32)
    }
}

/// Reads a timestamp of the form `HH:MM:SS,mmm` as milliseconds.
pub fn timestamp_to_milliseconds(timestamp: &str) -> (r: Result<i32, SubtitleError>)
    ensures
        r == timestamp_value(timestamp@),
{
    match regex_captures(TIMESTAMP_PATTERN, timestamp) {
        Err(_) => Err(SubtitleError::Pattern),
        Ok(None) => Err(SubtitleError::InvalidTimestamp),
        Ok(Some(groups)) => parse_timestamp(&groups, 1),
    }
}

/// Writes `ms` milliseconds as a timestamp of the form `HH:MM:SS,mmm`.
pub fn milliseconds_to_timestamp(ms: i32) -> (s: String)
    ensures
        s@ == timestamp_text(ms as int),
{
    let size: i64 = if ms < 0 {
        -(ms as i64)
    } else {
        ms as i64
    };
    let sign: i64 = if ms < 0 {
        -1
    } else {
        1
    };
    let hours: i32 = (sign * (size / 3_600_000)) as i32;
    let minutes: i32 = (sign * ((size % 3_600_000) / 60_000)) as i32;
    let seconds: i32 = (sign * ((size % 60_000) / 1_000)) as i32;
    let millis: i32 = (sign * (size % 1_000)) as i32;
    let mut out: String = String::new();
    proof {
        reveal_strlit(":");
        reveal_strlit(",");
    }
    append_two_wide(&mut out, hours);
    out.append(":");
    append_two_wide(&mut out, minutes);
    out.append(":");
    append_two_wide(&mut out, seconds);
    out.append(",");
    append_three_wide(&mut out, millis);
    proof {
        assert(out@ =~= two_wide(hours as int) + seq![':'] + two_wide(minutes as int) + seq![':']
            + two_wide(seconds as int) + seq![','] + three_wide(millis as int));
    }
    out
}

/// Moves a timestamp from a clock at `from_fps` to one at `to_fps`, both in
/// thousandths of a frame per second.
pub fn convert_timestamp(timestamp: &str, from_fps: u32, to_fps: u32) -> (r: Result<
    String,
    SubtitleError,
>)
    requires
        from_fps > 0,
        to_fps > 0,
    ensures
        r is Ok <==> converted_timestamp(timestamp@, from_fps as int, to_fps as int) is Ok,
        r matches Ok(s) ==> converted_timestamp(timestamp@, from_fps as int, to_fps as int) == Ok::<
            Seq<char>,
            SubtitleError,
        >(s@),
        r matches Err(e) ==> converted_timestamp(timestamp@, from_fps as int, to_fps as int)
            == Err::<Seq<char>, SubtitleError>(e),
{
    match timestamp_to_milliseconds(timestamp) {
        Err(e) => Err(e),
        Ok(ms) => Ok(milliseconds_to_timestamp(rescale_ms(ms, from_fps, to_fps))),
    }
}

/// The fields of the timestamp for `ms`: hours, minutes, seconds and
/// milliseconds, for a time that is not negative.
pub open spec fn timestamp_fields(ms: int) -> (int, int, int, int) {
    (ms / 3_600_000, (ms % 3_600_000) / 60_000, (ms % 60_000) / 1_000, ms % 1_000)
}

/// A time from zero up to a hundred hours is written as twelve characters:
/// its four fields at two, two, two and three digits, with colons and a
/// comma between them. Those four fields, read as the capture groups of a
/// timestamp, give the time back.
pub proof fn written_timestamp_reads_back(ms: int)
    requires
        0 <= ms < 360_000_000,
    ensures
        timestamp_text(ms).len() == 12,
        ({
            let (hours, minutes, seconds, millis) = timestamp_fields(ms);
            let fields = seq![
                Some(timestamp_text(ms)),
                Some(two_digits(hours as nat)),
                Some(two_digits(minutes as nat)),
                Some(two_digits(seconds as nat)),
                Some(three_digits(millis as nat)),
            ];
            &&& timestamp_text(ms) == two_digits(hours as nat) + seq![':'] + two_digits(
                minutes as nat,
            ) + seq![':'] + two_digits(seconds as nat) + seq![','] + three_digits(millis as nat)
            &&& groups_time(fields, 1) == Ok::<i32, SubtitleError>(ms as i32)
        }),
{
    let (hours, minutes, seconds, millis) = timestamp_fields(ms);
    padded_reads_back(hours as nat);
    padded_reads_back(minutes as nat);
    padded_reads_back(seconds as nat);
    padded_reads_back(millis as nat);
    assert(time_ms(hours, minutes, seconds, millis) == ms);
}

} // verus!
