//! Subtitle files: blocks of an index line, a timing line and text lines,
//! separated by blank lines.

use crate::digits::{
    append_decimal, append_signed, decimal, parse_u32, parsed_u32, signed_decimal,
};
use crate::pattern::{first_match, pattern_compiles, regex_captures};
use crate::text::{lines_seq, split_seq, split_text, text_lines, trim_text, trimmed};
use crate::timestamp::{converted_timestamp, timestamp_value, SubtitleError};
use vstd::prelude::*;
use vstd::string::*;

pub use crate::timestamp::{convert_timestamp, milliseconds_to_timestamp};
pub use crate::timestamp::timestamp_to_milliseconds;

verus! {

/// One subtitle: its number, the two timestamps of its timing line as they
/// stand in the file, and its lines of text.
#[derive(Debug, Clone)]
pub struct SubtitleEntry {
    pub index: u32,
    pub start_time: String,
    pub end_time: String,
    pub text: Vec<String>,
}

/// The subtitles of one file, in file order.
#[derive(Debug)]
pub struct SubtitleFile {
    pub entries: Vec<SubtitleEntry>,
}

/// What a subtitle holds, as plain text.
pub struct EntryView {
    pub index: u32,
    pub start_time: Seq<char>,
    pub end_time: Seq<char>,
    pub text: Seq<Seq<char>>,
}

impl View for SubtitleEntry {
    type V = EntryView;

    open spec fn view(&self) -> EntryView {
        EntryView {
            index: self.index,
            start_time: self.start_time@,
            end_time: self.end_time@,
            text: self.text.deep_view(),
        }
    }
}

impl View for SubtitleFile {
    type V = Seq<EntryView>;

    open spec fn view(&self) -> Seq<EntryView> {
        self.entries@.map_values(|e: SubtitleEntry| e@)
    }
}

/// A timing line: a timestamp, an arrow with any white space around it, and
/// a timestamp, each timestamp a capture group.
pub const TIMING_LINE_PATTERN: &'static str =
    "^(\\d{2}:\\d{2}:\\d{2},\\d{3})\\s*-->\\s*(\\d{2}:\\d{2}:\\d{2},\\d{3})$";

/// The blank line between two blocks: two line feeds.
pub open spec fn block_separator() -> Seq<char> {
    seq!['\n', '\n']
}

/// The arrow of a timing line, with a space on either side.
pub open spec fn arrow() -> Seq<char> {
    seq![' ', '-', '-', '>', ' ']
}

/// The text of capture group `i`, where the group took part in the match.
pub open spec fn group_text(groups: Seq<Option<Seq<char>>>, i: int) -> Option<Seq<char>> {
    if 0 <= i < groups.len() {
        groups[i]
    } else {
        None
    }
}

/// The lines of a block that are its text: every line from the third on.
pub open spec fn text_of_block(lines: Seq<Seq<char>>) -> Seq<Seq<char>> {
    if lines.len() >= 2 {
        lines.subrange(2, lines.len() as int)
    } else {
        Seq::empty()
    }
}

/// The subtitle with number `index` whose timing line matched with the
/// capture groups `groups` and whose block has the lines `lines`: the two
/// timestamps are groups 1 and 2, the text is every line from the third on.
/// `InvalidTiming` where one of the two groups is missing.
pub open spec fn matched_entry(
    index: u32,
    groups: Seq<Option<Seq<char>>>,
    lines: Seq<Seq<char>>,
) -> Result<EntryView, SubtitleError> {
    match (group_text(groups, 1), group_text(groups, 2)) {
        (Some(start_time), Some(end_time)) => Ok(
            EntryView { index, start_time, end_time, text: text_of_block(lines) },
        ),
        _ => Err(SubtitleError::InvalidTiming),
    }
}

/// The subtitle of one block. A block of fewer than three lines holds none.
/// Else its first line, trimmed, must be a number (`InvalidIndex`) and its
/// second line a timing line (`InvalidTiming`; `Pattern` where the matcher
/// rejects the pattern of timing lines).
pub open spec fn block_entry(block: Seq<char>) -> Result<Option<EntryView>, SubtitleError> {
    let lines = lines_seq(block);
    if lines.len() < 3 {
        Ok(None)
    } else {
        match parsed_u32(trimmed(lines[0])) {
            None => Err(SubtitleError::InvalidIndex),
            Some(index) => if !pattern_compiles(TIMING_LINE_PATTERN@) {
                Err(SubtitleError::Pattern)
            } else {
                match first_match(TIMING_LINE_PATTERN@, lines[1]) {
                    None => Err(SubtitleError::InvalidTiming),
                    Some(groups) => match matched_entry(index as u32, groups, lines) {
                        Err(e) => Err(e),
                        Ok(entry) => Ok(Some(entry)),
                    },
                }
            },
        }
    }
}

/// The subtitles of the first `upto` blocks, or the error of the first
/// block that has one. A block that is empty once trimmed is passed over,
/// and so is a block that holds no subtitle.
pub open spec fn parsed_blocks(blocks: Seq<Seq<char>>, upto: int) -> Result<
    Seq<EntryView>,
    SubtitleError,
>
    decreases upto,
{
    if upto <= 0 {
        Ok(Seq::empty())
    } else {
        match parsed_blocks(blocks, upto - 1) {
            Err(e) => Err(e),
            Ok(found) => {
                let block = trimmed(blocks[upto - 1]);
                if block.len() == 0 {
                    Ok(found)
                } else {
                    match block_entry(block) {
                        Err(e) => Err(e),
                        Ok(None) => Ok(found),
                        Ok(Some(entry)) => Ok(found.push(entry)),
                    }
                }
            },
        }
    }
}

/// The subtitles of a file's text: those of its blocks, the parts between
/// blank lines. `NoEntries` where no block holds a subtitle.
pub open spec fn parsed_content(content: Seq<char>) -> Result<Seq<EntryView>, SubtitleError> {
    let blocks = split_seq(content, block_separator());
    match parsed_blocks(blocks, blocks.len() as int) {
        Err(e) => Err(e),
        Ok(found) => if found.len() == 0 {
            Err(SubtitleError::NoEntries)
        } else {
            Ok(found)
        },
    }
}

/// The first `upto` lines, each followed by a line feed.
pub open spec fn lines_text(lines: Seq<Seq<char>>, upto: int) -> Seq<char>
    decreases upto,
{
    if upto <= 0 {
        Seq::empty()
    } else {
        lines_text(lines, upto - 1) + lines[upto - 1] + seq!['\n']
    }
}

/// A subtitle as a block: its number, its timing line and its text lines,
/// each followed by a line feed.
pub open spec fn entry_text(entry: EntryView) -> Seq<char> {
    decimal(entry.index as nat) + seq!['\n'] + entry.start_time + arrow() + entry.end_time
        + seq!['\n'] + lines_text(entry.text, entry.text.len() as int)
}

/// The first `upto` subtitles as blocks, with a blank line between two.
pub open spec fn entries_text(entries: Seq<EntryView>, upto: int) -> Seq<char>
    decreases upto,
{
    if upto <= 0 {
        Seq::empty()
    } else if upto == 1 {
        entry_text(entries[0])
    } else {
        entries_text(entries, upto - 1) + block_separator() + entry_text(entries[upto - 1])
    }
}

/// A subtitle with its two timestamps moved from a clock at `from_fps` to
/// one at `to_fps`, and no error; or, where a timestamp cannot be read, the
/// error and the subtitle as far as it was converted: unchanged where the
/// start cannot be read, with the new start where the end cannot.
pub open spec fn converted_entry(entry: EntryView, from_fps: int, to_fps: int) -> (
    EntryView,
    Option<SubtitleError>,
) {
    match converted_timestamp(entry.start_time, from_fps, to_fps) {
        Err(e) => (entry, Some(e)),
        Ok(start_time) => match converted_timestamp(entry.end_time, from_fps, to_fps) {
            Err(e) => (EntryView { start_time, ..entry }, Some(e)),
            Ok(end_time) => (EntryView { start_time, end_time, ..entry }, None),
        },
    }
}

/// The subtitles after the first `upto` of them were converted in order,
/// and no error; or, where one of them has a timestamp that cannot be read,
/// that error and the subtitles as they stand when the first such timestamp
/// is met: what follows it is unchanged.
pub open spec fn converted_entries(
    entries: Seq<EntryView>,
    from_fps: int,
    to_fps: int,
    upto: int,
) -> (Seq<EntryView>, Option<SubtitleError>)
    decreases upto,
{
    if upto <= 0 {
        (entries, None)
    } else {
        let (before, error) = converted_entries(entries, from_fps, to_fps, upto - 1);
        match error {
            Some(e) => (before, Some(e)),
            None => {
                let (entry, error) = converted_entry(before[upto - 1], from_fps, to_fps);
                (before.update(upto - 1, entry), error)
            },
        }
    }
}

/// The start and end in milliseconds of each of the first `upto` subtitles
/// whose two timestamps can be read.
pub open spec fn timing_pairs(entries: Seq<EntryView>, upto: int) -> Seq<(i32, i32)>
    decreases upto,
{
    if upto <= 0 {
        Seq::empty()
    } else {
        let before = timing_pairs(entries, upto - 1);
        match (
            timestamp_value(entries[upto - 1].start_time),
            timestamp_value(entries[upto - 1].end_time),
        ) {
            (Ok(start), Ok(end)) => before.push((start, end)),
            _ => before,
        }
    }
}

/// What a warning is about.
#[derive(Debug, Clone, Copy, PartialEq, Eq, Structural)]
pub enum WarningKind {
    /// The subtitle does not end after it starts.
    EndNotAfterStart,
    /// The subtitle lasts less than 100 ms: so many.
    VeryShort(i64),
    /// The subtitle lasts more than ten seconds: so many milliseconds.
    VeryLong(i64),
    /// One of the two timestamps cannot be read.
    InvalidTimestamp,
    /// The subtitle has no text but white space.
    EmptyText,
    /// The subtitle ends after the next one starts.
    Overlap,
}

/// A warning about the subtitle with number `index`.
#[derive(Debug, Clone, Copy, PartialEq, Eq, Structural)]
pub struct Warning {
    pub index: u32,
    pub kind: WarningKind,
}

/// Whether each of the first `upto` lines is empty once trimmed.
pub open spec fn all_blank(lines: Seq<Seq<char>>, upto: int) -> bool {
    forall|k: int| 0 <= k < upto ==> trimmed(#[trigger] lines[k]).len() == 0
}

/// The warnings about the timing of one subtitle by itself.
pub open spec fn timing_warnings(entry: EntryView) -> Seq<Warning> {
    match (timestamp_value(entry.start_time), timestamp_value(entry.end_time)) {
        (Ok(start), Ok(end)) => {
            let lasts = end - start;
            (if start >= end {
                seq![Warning { index: entry.index, kind: WarningKind::EndNotAfterStart }]
            } else {
                Seq::empty()
            }) + (if lasts < 100 {
                seq![Warning { index: entry.index, kind: WarningKind::VeryShort(lasts as i64) }]
            } else {
                Seq::empty()
            }) + (if lasts > 10_000 {
                seq![Warning { index: entry.index, kind: WarningKind::VeryLong(lasts as i64) }]
            } else {
                Seq::empty()
            })
        },
        _ => seq![Warning { index: entry.index, kind: WarningKind::InvalidTimestamp }],
    }
}

/// The warning about a subtitle without text, if it has none.
pub open spec fn text_warnings(entry: EntryView) -> Seq<Warning> {
    if all_blank(entry.text, entry.text.len() as int) {
        seq![Warning { index: entry.index, kind: WarningKind::EmptyText }]
    } else {
        Seq::empty()
    }
}

/// The warning about subtitle `i` ending after the next one starts, if
/// there is a next one, both timestamps can be read, and it does.
pub open spec fn overlap_warnings(entries: Seq<EntryView>, i: int) -> Seq<Warning> {
    if i + 1 < entries.len() {
        match (timestamp_value(entries[i].end_time), timestamp_value(entries[i + 1].start_time)) {
            (Ok(end), Ok(next_start)) => if end > next_start {
                seq![Warning { index: entries[i].index, kind: WarningKind::Overlap }]
            } else {
                Seq::empty()
            },
            _ => Seq::empty(),
        }
    } else {
        Seq::empty()
    }
}

/// The warnings about subtitle `i`: about its timing, then its text, then
/// its overlap with the next.
pub open spec fn entry_warnings(entries: Seq<EntryView>, i: int) -> Seq<Warning> {
    timing_warnings(entries[i]) + text_warnings(entries[i]) + overlap_warnings(entries, i)
}

/// The warnings about the first `upto` subtitles, in order.
pub open spec fn all_warnings(entries: Seq<EntryView>, upto: int) -> Seq<Warning>
    decreases upto,
{
    if upto <= 0 {
        Seq::empty()
    } else {
        all_warnings(entries, upto - 1) + entry_warnings(entries, upto - 1)
    }
}

/// What a warning says of its subtitle.
pub open spec fn kind_text(kind: WarningKind) -> Seq<char> {
    match kind {
        WarningKind::EndNotAfterStart => "End time is not after start time"@,
        WarningKind::VeryShort(ms) => "Very short duration ("@ + signed_decimal(ms as int) + "ms)"@,
        WarningKind::VeryLong(ms) => "Very long duration ("@ + signed_decimal(ms as int) + "ms)"@,
        WarningKind::InvalidTimestamp => "Invalid timestamp format"@,
        WarningKind::EmptyText => "Empty subtitle text"@,
        WarningKind::Overlap => "Overlaps with next subtitle"@,
    }
}

/// A warning as a line for the reader.
pub open spec fn warning_text(w: Warning) -> Seq<char> {
    "Entry "@ + decimal(w.index as nat) + ": "@ + kind_text(w.kind)
}

/// Once a block has an error, every longer run of blocks has it.
pub proof fn lemma_block_error_stays(blocks: Seq<Seq<char>>, at: int, upto: int)
    requires
        0 <= at <= upto,
        parsed_blocks(blocks, at) is Err,
    ensures
        parsed_blocks(blocks, upto) == parsed_blocks(blocks, at),
    decreases upto - at,
{
    if at < upto {
        lemma_block_error_stays(blocks, at, upto - 1);
    }
}

/// The text of capture group `i`, copied out.
pub fn text_of_group(groups: &Vec<Option<String>>, i: usize) -> (r: Option<String>)
    ensures
        r is Some <==> group_text(groups.deep_view(), i as int) is Some,
        r matches Some(s) ==> group_text(groups.deep_view(), i as int) == Some(s@),
{
    if i >= groups.len() {
        return None;
    }
    proof {
        assert(groups.deep_view()[i as int] == groups@[i as int].deep_view());
    }
    match &groups[i] {
        None => None,
        Some(text) => Some(text.clone()),
    }
}

/// The subtitle with number `index` whose timing line matched with the
/// capture groups `groups` and whose block has the lines `lines`.
pub fn entry_from_match(index: u32, groups: &Vec<Option<String>>, lines: &Vec<String>) -> (r:
    Result<SubtitleEntry, SubtitleError>)
    ensures
        r matches Ok(entry) ==> matched_entry(index, groups.deep_view(), lines.deep_view()) == Ok::<
            EntryView,
            SubtitleError,
        >(entry@),
        r matches Err(e) ==> matched_entry(index, groups.deep_view(), lines.deep_view()) == Err::<
            EntryView,
            SubtitleError,
        >(e),
{
    let start_time: String = match text_of_group(groups, 1) {
        Some(s) => s,
        None => {
            return Err(SubtitleError::InvalidTiming);
        },
    };
    let end_time: String = match text_of_group(groups, 2) {
        Some(s) => s,
        None => {
            return Err(SubtitleError::InvalidTiming);
        },
    };
    let mut text: Vec<String> = Vec::new();
    if lines.len() < 2 {
        proof {
            assert(text.deep_view() =~= text_of_block(lines.deep_view()));
        }
        return Ok(SubtitleEntry { index, start_time, end_time, text });
    }
    let mut i: usize = 2;
    proof {
        assert(text.deep_view() =~= lines.deep_view().subrange(2, 2));
    }
    while i < lines.len()
        invariant
            2 <= i <= lines.len(),
            text.deep_view() == lines.deep_view().subrange(2, i as int),
        decreases lines.len() - i,
    {
        let line: String = lines[i].clone();
        proof {
            assert(lines.deep_view()[i as int] == lines@[i as int]@);
            assert(text.deep_view().push(line@) =~= lines.deep_view().subrange(2, i + 1));
        }
        let ghost before = text.deep_view();
        text.push(line);
        proof {
            assert(text.deep_view() =~= before.push(line@));
        }
        i = i + 1;
    }
    Ok(SubtitleEntry { index, start_time, end_time, text })
}

impl SubtitleFile {
    /// Reads the block `block`, already trimmed, as a subtitle.
    pub fn parse_subtitle_block(block: &str) -> (r: Result<Option<SubtitleEntry>, SubtitleError>)
        ensures
            r matches Ok(Some(entry)) ==> block_entry(block@) == Ok::<
                Option<EntryView>,
                SubtitleError,
            >(Some(entry@)),
            r matches Ok(None) ==> block_entry(block@) == Ok::<Option<EntryView>, SubtitleError>(
                None,
            ),
            r matches Err(e) ==> block_entry(block@) == Err::<Option<EntryView>, SubtitleError>(e),
    {
        let lines: Vec<String> = text_lines(block);
        if lines.len() < 3 {
            return Ok(None);
        }
        proof {
            assert(lines.deep_view()[0] == lines@[0]@);
            assert(lines.deep_view()[1] == lines@[1]@);
        }
        let index: u32 = match parse_u32(trim_text(lines[0].as_str())) {
            Some(v) => v,
            None => {
                return Err(SubtitleError::InvalidIndex);
            },
        };
        match regex_captures(TIMING_LINE_PATTERN, lines[1].as_str()) {
            Err(_) => Err(SubtitleError::Pattern),
            Ok(None) => Err(SubtitleError::InvalidTiming),
            Ok(Some(groups)) => match entry_from_match(index, &groups, &lines) {
                Err(e) => Err(e),
                Ok(entry) => Ok(Some(entry)),
            },
        }
    }

    /// Reads the text of a subtitle file: the subtitle of each block, in
    /// order. Fails with the error of the first block that has one, and with
    /// `NoEntries` where no block holds a subtitle.
    pub fn from_content(content: &str) -> (r: Result<SubtitleFile, SubtitleError>)
        ensures
            r matches Ok(file) ==> parsed_content(content@) == Ok::<Seq<EntryView>, SubtitleError>(
                file@,
            ) && file@.len() > 0,
            r matches Err(e) ==> parsed_content(content@) == Err::<Seq<EntryView>, SubtitleError>(
                e,
            ),
    {
        proof {
            reveal_strlit("\n\n");
            assert("\n\n"@ =~= block_separator());
        }
        let blocks: Vec<String> = split_text(content, "\n\n");
        let mut entries: Vec<SubtitleEntry> = Vec::new();
        let mut i: usize = 0;
        proof {
            assert(entries@.map_values(|e: SubtitleEntry| e@) =~= Seq::<EntryView>::empty());
        }
        while i < blocks.len()
            invariant
                0 <= i <= blocks.len(),
                blocks.deep_view() == split_seq(content@, block_separator()),
                parsed_blocks(blocks.deep_view(), i as int) == Ok::<Seq<EntryView>, SubtitleError>(
                    entries@.map_values(|e: SubtitleEntry| e@),
                ),
            decreases blocks.len() - i,
        {
            proof {
                assert(blocks.deep_view()[i as int] == blocks@[i as int]@);
            }
            let block: &str = trim_text(blocks[i].as_str());
            if block.unicode_len() != 0 {
                match SubtitleFile::parse_subtitle_block(block) {
                    Err(e) => {
                        proof {
                            lemma_block_error_stays(
                                blocks.deep_view(),
                                i + 1,
                                blocks.len() as int,
                            );
                        }
                        return Err(e);
                    },
                    Ok(None) => {},
                    Ok(Some(entry)) => {
                        let ghost before = entries@.map_values(|e: SubtitleEntry| e@);
                        entries.push(entry);
                        proof {
                            assert(entries@.map_values(|e: SubtitleEntry| e@) =~= before.push(
                                entry@,
                            ));
                        }
                    },
                }
            }
            i = i + 1;
        }
        if entries.len() == 0 {
            return Err(SubtitleError::NoEntries);
        }
        Ok(SubtitleFile { entries })
    }

    /// Writes the subtitles as the text of a file: each as a block of its
    /// number, its timing line and its text lines, with a blank line
    /// between two blocks.
    pub fn to_string(&self) -> (s: String)
        ensures
            s@ == entries_text(self@, self@.len() as int),
    {
        let mut result: String = String::new();
        let n: usize = self.entries.len();
        let mut i: usize = 0;
        while i < n
            invariant
                n == self.entries.len(),
                0 <= i <= n,
                result@ == entries_text(self@, i as int),
            decreases n - i,
        {
            let entry: &SubtitleEntry = &self.entries[i];
            let ghost start = result@;
            proof {
                reveal_strlit("\n\n");
                reveal_strlit("\n");
                reveal_strlit(" --> ");
            }
            if i > 0 {
                result.append("\n\n");
            }
            append_decimal(&mut result, entry.index as u64);
            result.append("\n");
            result.append(entry.start_time.as_str());
            result.append(" --> ");
            result.append(entry.end_time.as_str());
            result.append("\n");
            let ghost head = result@;
            let mut k: usize = 0;
            while k < entry.text.len()
                invariant
                    0 <= k <= entry.text.len(),
                    result@ == head + lines_text(entry@.text, k as int),
                decreases entry.text.len() - k,
            {
                proof {
                    reveal_strlit("\n");
                    assert(entry@.text[k as int] == entry.text@[k as int]@);
                }
                result.append(entry.text[k].as_str());
                result.append("\n");
                proof {
                    assert(result@ =~= head + lines_text(entry@.text, k + 1));
                }
                k = k + 1;
            }
            proof {
                assert(self@[i as int] == entry@);
                assert(" --> "@ =~= arrow());
                assert("\n\n"@ =~= block_separator());
                assert(head =~= start + (if i > 0 {
                    block_separator()
                } else {
                    Seq::<char>::empty()
                }) + decimal(entry.index as nat) + seq!['\n'] + entry@.start_time + arrow()
                    + entry@.end_time + seq!['\n']);
                assert(result@ =~= entries_text(self@, i + 1));
            }
            i = i + 1;
        }
        result
    }

    /// Moves every timestamp from a clock at `from_fps` to one at `to_fps`,
    /// both in thousandths of a frame per second, subtitle by subtitle, start
    /// before end. Stops at the first timestamp that cannot be read, with
    /// its error; what was converted before it stays converted.
    pub fn convert_framerate(&mut self, from_fps: u32, to_fps: u32) -> (r: Result<
        (),
        SubtitleError,
    >)
        requires
            from_fps > 0,
            to_fps > 0,
        ensures
            final(self)@ == converted_entries(
                old(self)@,
                from_fps as int,
                to_fps as int,
                old(self)@.len() as int,
            ).0,
            r == match converted_entries(
                old(self)@,
                from_fps as int,
                to_fps as int,
                old(self)@.len() as int,
            ).1 {
                Some(e) => Err::<(), SubtitleError>(e),
                None => Ok::<(), SubtitleError>(()),
            },
            final(self)@.len() == old(self)@.len(),
            forall|i: int|
                0 <= i < old(self)@.len() ==> (#[trigger] final(self)@[i]).index == old(
                    self,
                )@[i].index && final(self)@[i].text == old(self)@[i].text,
    {
        let n: usize = self.entries.len();
        let mut i: usize = 0;
        while i < n
            invariant
                n == self.entries.len(),
                n == old(self)@.len(),
                0 <= i <= n,
                from_fps > 0,
                to_fps > 0,
                converted_entries(old(self)@, from_fps as int, to_fps as int, i as int) == (
                    self@,
                    None::<SubtitleError>,
                ),
            decreases n - i,
        {
            let ghost before = self@;
            let ghost entry = self.entries[i as int]@;
            proof {
                assert(before[i as int] == entry);
            }
            let start_time: String = match convert_timestamp(
                self.entries[i].start_time.as_str(),
                from_fps,
                to_fps,
            ) {
                Ok(s) => s,
                Err(e) => {
                    proof {
                        assert(self@ =~= before.update(i as int, entry));
                        lemma_conversion_error_stays(
                            old(self)@,
                            from_fps as int,
                            to_fps as int,
                            i + 1,
                            n as int,
                        );
                        conversion_keeps_numbers_and_text(
                            old(self)@,
                            from_fps as int,
                            to_fps as int,
                            n as int,
                        );
                    }
                    return Err(e);
                },
            };
            let ghost new_start = start_time@;
            self.entries[i].start_time = start_time;
            proof {
                assert(self@ =~= before.update(
                    i as int,
                    EntryView { start_time: new_start, ..entry },
                ));
            }
            let end_time: String = match convert_timestamp(
                self.entries[i].end_time.as_str(),
                from_fps,
                to_fps,
            ) {
                Ok(s) => s,
                Err(e) => {
                    proof {
                        lemma_conversion_error_stays(
                            old(self)@,
                            from_fps as int,
                            to_fps as int,
                            i + 1,
                            n as int,
                        );
                        conversion_keeps_numbers_and_text(
                            old(self)@,
                            from_fps as int,
                            to_fps as int,
                            n as int,
                        );
                    }
                    return Err(e);
                },
            };
            let ghost new_end = end_time@;
            self.entries[i].end_time = end_time;
            proof {
                assert(self@ =~= before.update(
                    i as int,
                    EntryView { start_time: new_start, end_time: new_end, ..entry },
                ));
            }
            i = i + 1;
        }
        proof {
            conversion_keeps_numbers_and_text(
                old(self)@,
                from_fps as int,
                to_fps as int,
                n as int,
            );
        }
        Ok(())
    }

    /// The start and end in milliseconds of each subtitle whose two
    /// timestamps can be read, in order.
    pub fn get_timing_info(&self) -> (pairs: Vec<(i32, i32)>)
        ensures
            pairs@ == timing_pairs(self@, self@.len() as int),
    {
        let n: usize = self.entries.len();
        let mut pairs: Vec<(i32, i32)> = Vec::new();
        let mut i: usize = 0;
        while i < n
            invariant
                n == self.entries.len(),
                0 <= i <= n,
                pairs@ == timing_pairs(self@, i as int),
            decreases n - i,
        {
            proof {
                assert(self@[i as int] == self.entries[i as int]@);
            }
            if let Ok(start) = timestamp_to_milliseconds(self.entries[i].start_time.as_str()) {
                if let Ok(end) = timestamp_to_milliseconds(self.entries[i].end_time.as_str()) {
                    pairs.push((start, end));
                }
            }
            i = i + 1;
        }
        pairs
    }

    /// The warnings about the subtitles, in order: for each subtitle those
    /// about its timing, its text and its overlap with the next.
    pub fn warnings(&self) -> (warnings: Vec<Warning>)
        ensures
            warnings@ == all_warnings(self@, self@.len() as int),
    {
        let n: usize = self.entries.len();
        let mut warnings: Vec<Warning> = Vec::new();
        let mut i: usize = 0;
        while i < n
            invariant
                n == self.entries.len(),
                0 <= i <= n,
                warnings@ == all_warnings(self@, i as int),
            decreases n - i,
        {
            let entry: &SubtitleEntry = &self.entries[i];
            let index: u32 = entry.index;
            let ghost start_of = warnings@;
            proof {
                assert(self@[i as int] == entry@);
            }
            let start = timestamp_to_milliseconds(entry.start_time.as_str());
            let end = timestamp_to_milliseconds(entry.end_time.as_str());
            match (start, end) {
                (Ok(start), Ok(end)) => {
                    let lasts: i64 = (end as i64) - (start as i64);
                    if start >= end {
                        warnings.push(Warning { index, kind: WarningKind::EndNotAfterStart });
                    }
                    if lasts < 100 {
                        warnings.push(Warning { index, kind: WarningKind::VeryShort(lasts) });
                    }
                    if lasts > 10_000 {
                        warnings.push(Warning { index, kind: WarningKind::VeryLong(lasts) });
                    }
                },
                _ => {
                    warnings.push(Warning { index, kind: WarningKind::InvalidTimestamp });
                },
            }
            proof {
                assert(warnings@ =~= start_of + timing_warnings(entry@));
            }
            if has_no_text(&entry.text) {
                warnings.push(Warning { index, kind: WarningKind::EmptyText });
            }
            proof {
                assert(warnings@ =~= start_of + timing_warnings(entry@) + text_warnings(entry@));
            }
            if i + 1 < n {
                proof {
                    assert(self@[i + 1] == self.entries[i + 1]@);
                }
                if let Ok(end) = end {
                    if let Ok(next_start) = timestamp_to_milliseconds(
                        self.entries[i + 1].start_time.as_str(),
                    ) {
                        if end > next_start {
                            warnings.push(Warning { index, kind: WarningKind::Overlap });
                        }
                    }
                }
            }
            proof {
                assert(warnings@ =~= start_of + entry_warnings(self@, i as int));
            }
            i = i + 1;
        }
        warnings
    }

    /// The warnings about the subtitles as lines for the reader, in order.
    pub fn validate(&self) -> (lines: Vec<String>)
        ensures
            lines.deep_view() == all_warnings(self@, self@.len() as int).map_values(
                |w: Warning| warning_text(w),
            ),
    {
        let warnings: Vec<Warning> = self.warnings();
        let mut lines: Vec<String> = Vec::new();
        let mut i: usize = 0;
        while i < warnings.len()
            invariant
                0 <= i <= warnings.len(),
                lines.deep_view() == warnings@.subrange(0, i as int).map_values(
                    |w: Warning| warning_text(w),
                ),
            decreases warnings.len() - i,
        {
            let line: String = warnings[i].message();
            let ghost before = lines.deep_view();
            lines.push(line);
            proof {
                assert(lines.deep_view() =~= before.push(line@));
                assert(lines.deep_view() =~= warnings@.subrange(0, i + 1).map_values(
                    |w: Warning| warning_text(w),
                ));
            }
            i = i + 1;
        }
        proof {
            assert(warnings@.subrange(0, warnings.len() as int) =~= warnings@);
        }
        lines
    }
}

/// Whether every line is empty once trimmed; true of no lines.
pub fn has_no_text(lines: &Vec<String>) -> (blank: bool)
    ensures
        blank == all_blank(lines.deep_view(), lines.len() as int),
{
    let mut k: usize = 0;
    while k < lines.len()
        invariant
            0 <= k <= lines.len(),
            all_blank(lines.deep_view(), k as int),
        decreases lines.len() - k,
    {
        proof {
            assert(lines.deep_view()[k as int] == lines@[k as int]@);
        }
        if trim_text(lines[k].as_str()).unicode_len() != 0 {
            return false;
        }
        k = k + 1;
    }
    true
}

impl Warning {
    /// The warning as a line for the reader.
    pub fn message(&self) -> (line: String)
        ensures
            line@ == warning_text(*self),
    {
        let mut out: String = String::new();
        out.append("Entry ");
        append_decimal(&mut out, self.index as u64);
        out.append(": ");
        match self.kind {
            WarningKind::EndNotAfterStart => {
                out.append("End time is not after start time");
            },
            WarningKind::VeryShort(ms) => {
                out.append("Very short duration (");
                append_signed(&mut out, ms);
                out.append("ms)");
            },
            WarningKind::VeryLong(ms) => {
                out.append("Very long duration (");
                append_signed(&mut out, ms);
                out.append("ms)");
            },
            WarningKind::InvalidTimestamp => {
                out.append("Invalid timestamp format");
            },
            WarningKind::EmptyText => {
                out.append("Empty subtitle text");
            },
            WarningKind::Overlap => {
                out.append("Overlaps with next subtitle");
            },
        }
        proof {
            assert(out@ =~= warning_text(*self));
        }
        out
    }
}

/// Conversion touches timestamps only: there are as many subtitles after
/// it as before, each with its number and its text.
pub proof fn conversion_keeps_numbers_and_text(
    entries: Seq<EntryView>,
    from_fps: int,
    to_fps: int,
    upto: int,
)
    requires
        upto <= entries.len(),
    ensures
        ({
            let after = converted_entries(entries, from_fps, to_fps, upto).0;
            &&& after.len() == entries.len()
            &&& forall|i: int|
                0 <= i < entries.len() ==> (#[trigger] after[i]).index == entries[i].index
                    && after[i].text == entries[i].text
            &&& forall|i: int| upto <= i < entries.len() ==> #[trigger] after[i] == entries[i]
        }),
    decreases upto,
{
    if upto > 0 {
        conversion_keeps_numbers_and_text(entries, from_fps, to_fps, upto - 1);
    }
}

/// Once the conversion has met an error, every longer run has it and
/// leaves the subtitles as they were then.
pub proof fn lemma_conversion_error_stays(
    entries: Seq<EntryView>,
    from_fps: int,
    to_fps: int,
    at: int,
    upto: int,
)
    requires
        0 <= at <= upto,
        converted_entries(entries, from_fps, to_fps, at).1 is Some,
    ensures
        converted_entries(entries, from_fps, to_fps, upto) == converted_entries(
            entries,
            from_fps,
            to_fps,
            at,
        ),
    decreases upto - at,
{
    if at < upto {
        lemma_conversion_error_stays(entries, from_fps, to_fps, at, upto - 1);
    }
}

} // verus!
