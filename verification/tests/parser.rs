use subsync::confidence::Confidence;
use subsync::framerate_detector::{DetectionMethod, FramerateDetector, SubtitleTiming};
use subsync::srt_timings::{detect_framerate, make_timing, timing_from_match, timings_of_file};
use subsync::subtitle_parser::{
    entry_from_match, has_no_text, text_of_group, SubtitleEntry, SubtitleFile, Warning, WarningKind,
};
use subsync::subtitle_parser::{convert_timestamp, milliseconds_to_timestamp, timestamp_to_milliseconds};
use subsync::timestamp::SubtitleError;

const TWO: &str = "1\n00:00:01,000 --> 00:00:04,000\nHello\n\n2\n00:00:05,000 --> 00:00:08,500\nWorld\nSecond line\n";

fn entry(index: u32, start: &str, end: &str, text: &[&str]) -> SubtitleEntry {
    SubtitleEntry {
        index,
        start_time: start.to_string(),
        end_time: end.to_string(),
        text: text.iter().map(|t| t.to_string()).collect(),
    }
}

fn plain(file: &SubtitleFile) -> Vec<(u32, String, String, Vec<String>)> {
    file.entries
        .iter()
        .map(|e| (e.index, e.start_time.clone(), e.end_time.clone(), e.text.clone()))
        .collect()
}

fn error_of(content: &str) -> SubtitleError {
    match SubtitleFile::from_content(content) {
        Ok(_) => panic!("{content:?} was read"),
        Err(e) => e,
    }
}

#[test]
fn timestamps_are_at_hand_beside_the_parser() {
    assert_eq!(timestamp_to_milliseconds("00:00:08,500"), Ok(8_500));
    assert_eq!(milliseconds_to_timestamp(8_500), "00:00:08,500");
    assert_eq!(convert_timestamp("00:00:08,500", 50_000, 25_000), Ok("00:00:17,000".to_string()));
}

#[test]
fn a_file_of_two_blocks() {
    let file = SubtitleFile::from_content(TWO).unwrap();
    assert_eq!(
        plain(&file),
        vec![
            (1, "00:00:01,000".to_string(), "00:00:04,000".to_string(), vec!["Hello".to_string()]),
            (
                2,
                "00:00:05,000".to_string(),
                "00:00:08,500".to_string(),
                vec!["World".to_string(), "Second line".to_string()]
            ),
        ]
    );
}

#[test]
fn a_file_is_written_block_by_block() {
    let file = SubtitleFile::from_content(TWO).unwrap();
    let text = file.to_string();
    assert_eq!(
        text,
        "1\n00:00:01,000 --> 00:00:04,000\nHello\n\n\n2\n00:00:05,000 --> 00:00:08,500\nWorld\nSecond line\n"
    );
    let again = SubtitleFile::from_content(&text).unwrap();
    assert_eq!(plain(&again), plain(&file));
    assert_eq!(again.to_string(), text);
    assert_eq!(SubtitleFile { entries: vec![] }.to_string(), "");
    assert_eq!(
        SubtitleFile { entries: vec![entry(4_294_967_295, "a", "b", &[])] }.to_string(),
        "4294967295\na --> b\n"
    );
}

#[test]
fn carriage_returns_end_lines_too() {
    let file = SubtitleFile::from_content("7\r\n00:00:01,000 --> 00:00:04,000\r\nHello\r\nthere\r").unwrap();
    assert_eq!(
        plain(&file),
        vec![(
            7,
            "00:00:01,000".to_string(),
            "00:00:04,000".to_string(),
            vec!["Hello".to_string(), "there".to_string()]
        )]
    );
    // blocks are parted by two line feeds only
    let file = SubtitleFile::from_content("1\r\n00:00:01,000 --> 00:00:04,000\r\nHello\r\n\r\n2\r\n").unwrap();
    assert_eq!(file.entries.len(), 1);
    assert_eq!(file.entries[0].text, vec!["Hello", "", "2"]);
}

#[test]
fn a_lone_carriage_return_stays_in_its_line() {
    let file = SubtitleFile::from_content("1\n00:00:01,000 --> 00:00:04,000\na\rb\n\rc").unwrap();
    assert_eq!(file.entries[0].text, vec!["a\rb", "\rc"]);
}

#[test]
fn blocks_are_trimmed_and_empty_ones_passed_over() {
    let content = "\n\n\n\n  \n\n \t 3 \n00:00:01,000 --> 00:00:04,000\nHello\n   \n\n\n\n\u{3000}\n\n";
    let file = SubtitleFile::from_content(content).unwrap();
    assert_eq!(
        plain(&file),
        vec![(3, "00:00:01,000".to_string(), "00:00:04,000".to_string(), vec!["Hello".to_string()])]
    );
}

#[test]
fn short_blocks_hold_no_subtitle() {
    let content = "note\n\n1\n00:00:01,000 --> 00:00:04,000\n\n2\n00:00:05,000 --> 00:00:08,000\nWorld";
    let file = SubtitleFile::from_content(content).unwrap();
    assert_eq!(file.entries.len(), 1);
    assert_eq!(file.entries[0].index, 2);
}

#[test]
fn white_space_around_the_arrow_is_free() {
    for line in [
        "00:00:01,000-->00:00:04,000",
        "00:00:01,000   -->\t00:00:04,000",
        "00:00:01,000 -->00:00:04,000",
        "00:00:01,000\u{00a0}-->\u{2003}00:00:04,000",
    ] {
        let file = SubtitleFile::from_content(&format!("1\n{line}\ntext")).unwrap();
        assert_eq!(file.entries[0].start_time, "00:00:01,000");
        assert_eq!(file.entries[0].end_time, "00:00:04,000");
    }
}

#[test]
fn text_without_a_subtitle_is_an_error() {
    assert_eq!(error_of(""), SubtitleError::NoEntries);
    assert_eq!(error_of("\n\n\n\n"), SubtitleError::NoEntries);
    assert_eq!(error_of("1\n00:00:01,000 --> 00:00:04,000"), SubtitleError::NoEntries);
    assert_eq!(error_of("just\ntwo"), SubtitleError::NoEntries);
}

#[test]
fn a_bad_index_is_an_error() {
    assert_eq!(error_of("one\n00:00:01,000 --> 00:00:04,000\nHello"), SubtitleError::InvalidIndex);
    assert_eq!(error_of("-1\n00:00:01,000 --> 00:00:04,000\nHello"), SubtitleError::InvalidIndex);
    assert_eq!(error_of("4294967296\n00:00:01,000 --> 00:00:04,000\nHello"), SubtitleError::InvalidIndex);
    assert_eq!(error_of("1 2\n00:00:01,000 --> 00:00:04,000\nHello"), SubtitleError::InvalidIndex);
    // the index is read before the timing line
    assert_eq!(error_of("one\nbad\nHello"), SubtitleError::InvalidIndex);
    // and the first block with an error decides
    assert_eq!(error_of(&format!("{TWO}\n3\nbad\nx\n\nfour\nbad\nx")), SubtitleError::InvalidTiming);
    let file = SubtitleFile::from_content("+4294967295\n00:00:01,000 --> 00:00:04,000\nHello").unwrap();
    assert_eq!(file.entries[0].index, u32::MAX);
}

#[test]
fn a_bad_timing_line_is_an_error() {
    for line in [
        "00:00:01,000 -> 00:00:04,000",
        "00:00:01,000 --> 00:00:04,00",
        "0:00:01,000 --> 00:00:04,000",
        "00:00:01,000 --> 00:00:04,000 X1:0",
        " 00:00:01,000 --> 00:00:04,000",
        "00:00:01.000 --> 00:00:04.000",
        "00:00:01,000 --> 00:00:04,000\r.",
        "-->",
    ] {
        assert_eq!(error_of(&format!("1\n{line}\ntext")), SubtitleError::InvalidTiming, "{line:?}");
    }
}

#[test]
fn a_matched_timing_line_gives_the_entry() {
    let groups = vec![
        Some("00:00:01,000 --> 00:00:04,000".to_string()),
        Some("00:00:01,000".to_string()),
        Some("00:00:04,000".to_string()),
    ];
    let lines: Vec<String> = ["9", "ignored", "a", "b"].iter().map(|l| l.to_string()).collect();
    let e = entry_from_match(9, &groups, &lines).unwrap();
    assert_eq!((e.index, e.start_time.as_str(), e.end_time.as_str()), (9, "00:00:01,000", "00:00:04,000"));
    assert_eq!(e.text, vec!["a", "b"]);
    assert_eq!(text_of_group(&groups, 0), Some("00:00:01,000 --> 00:00:04,000".to_string()));
    assert_eq!(text_of_group(&groups, 2), Some("00:00:04,000".to_string()));
    assert_eq!(text_of_group(&groups, 3), None);
    let short = vec![Some("x".to_string()), Some("00:00:01,000".to_string())];
    assert!(matches!(entry_from_match(9, &short, &lines), Err(SubtitleError::InvalidTiming)));
    let gap = vec![Some("x".to_string()), None, Some("00:00:04,000".to_string())];
    assert!(matches!(entry_from_match(9, &gap, &lines), Err(SubtitleError::InvalidTiming)));
    assert_eq!(text_of_group(&gap, 1), None);
    let two: Vec<String> = ["9", "ignored"].iter().map(|l| l.to_string()).collect();
    assert!(entry_from_match(9, &groups, &two).unwrap().text.is_empty());
    assert!(entry_from_match(9, &groups, &Vec::new()).unwrap().text.is_empty());
}

#[test]
fn a_block_is_read_line_by_line() {
    let e = SubtitleFile::parse_subtitle_block("5\n00:00:01,000 --> 00:00:04,000\nHello\n").unwrap().unwrap();
    assert_eq!(e.index, 5);
    assert_eq!(e.text, vec!["Hello"]);
    assert!(SubtitleFile::parse_subtitle_block("5\n00:00:01,000 --> 00:00:04,000\n").unwrap().is_none());
    assert!(SubtitleFile::parse_subtitle_block("").unwrap().is_none());
    // what follows the last line feed is a line as it stands
    let e = SubtitleFile::parse_subtitle_block("5\r\n00:00:01,000 --> 00:00:04,000\r\n\r\na\r\r\nlast\r").unwrap().unwrap();
    assert_eq!(e.text, vec!["", "a\r", "last\r"]);
    let e = SubtitleFile::parse_subtitle_block(" 5 \n00:00:01,000 --> 00:00:04,000\n\n\n").unwrap().unwrap();
    assert_eq!(e.text, vec!["", ""]);
    assert!(matches!(SubtitleFile::parse_subtitle_block("x\ny\nz"), Err(SubtitleError::InvalidIndex)));
    assert!(matches!(SubtitleFile::parse_subtitle_block("1\ny\nz"), Err(SubtitleError::InvalidTiming)));
}

#[test]
fn timing_info_leaves_out_what_cannot_be_read() {
    let file = SubtitleFile {
        entries: vec![
            entry(1, "00:00:01,000", "00:00:04,000", &["a"]),
            entry(2, "bad", "00:00:04,000", &["a"]),
            entry(3, "00:00:05,000", "bad", &["a"]),
            entry(4, "01:00:00,000", "00:00:00,001", &["a"]),
        ],
    };
    assert_eq!(file.get_timing_info(), vec![(1_000, 4_000), (3_600_000, 1)]);
    assert!(SubtitleFile { entries: vec![] }.get_timing_info().is_empty());
}

#[test]
fn every_timestamp_is_converted() {
    let mut file = SubtitleFile::from_content(TWO).unwrap();
    assert_eq!(file.convert_framerate(25_000, 24_000), Ok(()));
    assert_eq!(
        plain(&file),
        vec![
            (1, "00:00:01,042".to_string(), "00:00:04,167".to_string(), vec!["Hello".to_string()]),
            (
                2,
                "00:00:05,208".to_string(),
                "00:00:08,854".to_string(),
                vec!["World".to_string(), "Second line".to_string()]
            ),
        ]
    );
    let mut same = SubtitleFile::from_content(TWO).unwrap();
    assert_eq!(same.convert_framerate(29_970, 29_970), Ok(()));
    assert_eq!(same.to_string(), SubtitleFile::from_content(TWO).unwrap().to_string());
}

#[test]
fn conversion_stops_at_the_first_bad_timestamp() {
    let mut file = SubtitleFile {
        entries: vec![
            entry(1, "00:00:01,000", "00:00:04,000", &["a"]),
            entry(2, "00:00:05,000", "bad", &["b"]),
            entry(3, "00:00:09,000", "00:00:10,000", &["c"]),
        ],
    };
    assert_eq!(file.convert_framerate(25_000, 24_000), Err(SubtitleError::InvalidTimestamp));
    assert_eq!(
        plain(&file),
        vec![
            (1, "00:00:01,042".to_string(), "00:00:04,167".to_string(), vec!["a".to_string()]),
            (2, "00:00:05,208".to_string(), "bad".to_string(), vec!["b".to_string()]),
            (3, "00:00:09,000".to_string(), "00:00:10,000".to_string(), vec!["c".to_string()]),
        ]
    );
    let mut file = SubtitleFile {
        entries: vec![entry(1, "bad", "00:00:04,000", &["a"]), entry(2, "00:00:05,000", "00:00:06,000", &["b"])],
    };
    assert_eq!(file.convert_framerate(25_000, 24_000), Err(SubtitleError::InvalidTimestamp));
    assert_eq!(file.entries[0].end_time, "00:00:04,000");
    assert_eq!(file.entries[1].start_time, "00:00:05,000");
}

#[test]
fn a_sound_file_has_no_warnings() {
    let file = SubtitleFile::from_content(TWO).unwrap();
    assert!(file.warnings().is_empty());
    assert!(file.validate().is_empty());
    assert!(SubtitleFile { entries: vec![] }.validate().is_empty());
}

#[test]
fn warnings_come_in_order() {
    let file = SubtitleFile {
        entries: vec![
            entry(1, "00:00:05,000", "00:00:05,000", &["a"]),
            entry(2, "00:00:04,000", "00:00:03,000", &["a"]),
            entry(3, "00:00:06,000", "00:00:06,099", &[]),
            entry(4, "00:00:06,000", "00:00:16,001", &["", " \t", "\u{2003}"]),
            entry(5, "00:00:10,000", "bad", &["a"]),
            entry(6, "bad", "00:00:20,000", &["a"]),
            entry(7, "00:00:10,000", "00:00:20,000", &[" ", "x"]),
            entry(8, "00:00:19,999", "00:00:20,099", &["a"]),
            entry(9, "00:00:20,099", "00:00:30,099", &["a"]),
        ],
    };
    let expected = vec![
        Warning { index: 1, kind: WarningKind::EndNotAfterStart },
        Warning { index: 1, kind: WarningKind::VeryShort(0) },
        Warning { index: 1, kind: WarningKind::Overlap },
        Warning { index: 2, kind: WarningKind::EndNotAfterStart },
        Warning { index: 2, kind: WarningKind::VeryShort(-1_000) },
        Warning { index: 3, kind: WarningKind::VeryShort(99) },
        Warning { index: 3, kind: WarningKind::EmptyText },
        Warning { index: 3, kind: WarningKind::Overlap },
        Warning { index: 4, kind: WarningKind::VeryLong(10_001) },
        Warning { index: 4, kind: WarningKind::EmptyText },
        Warning { index: 4, kind: WarningKind::Overlap },
        Warning { index: 5, kind: WarningKind::InvalidTimestamp },
        Warning { index: 6, kind: WarningKind::InvalidTimestamp },
        Warning { index: 6, kind: WarningKind::Overlap },
        Warning { index: 7, kind: WarningKind::Overlap },
    ];
    assert_eq!(file.warnings(), expected);
    assert_eq!(
        file.validate(),
        vec![
            "Entry 1: End time is not after start time",
            "Entry 1: Very short duration (0ms)",
            "Entry 1: Overlaps with next subtitle",
            "Entry 2: End time is not after start time",
            "Entry 2: Very short duration (-1000ms)",
            "Entry 3: Very short duration (99ms)",
            "Entry 3: Empty subtitle text",
            "Entry 3: Overlaps with next subtitle",
            "Entry 4: Very long duration (10001ms)",
            "Entry 4: Empty subtitle text",
            "Entry 4: Overlaps with next subtitle",
            "Entry 5: Invalid timestamp format",
            "Entry 6: Invalid timestamp format",
            "Entry 6: Overlaps with next subtitle",
            "Entry 7: Overlaps with next subtitle",
        ]
    );
    for (w, line) in expected.iter().zip(file.validate()) {
        assert_eq!(w.message(), line);
    }
}

#[test]
fn durations_at_the_limits_pass() {
    let file = SubtitleFile {
        entries: vec![
            entry(1, "00:00:00,000", "00:00:00,100", &["a"]),
            entry(2, "00:00:00,100", "00:00:10,100", &["a"]),
        ],
    };
    assert!(file.warnings().is_empty());
}

#[test]
fn text_of_white_space_is_no_text() {
    let lines = |l: &[&str]| l.iter().map(|t| t.to_string()).collect::<Vec<String>>();
    assert!(has_no_text(&lines(&[])));
    assert!(has_no_text(&lines(&["", "  ", "\t\r\n", "\u{00a0}\u{3000}"])));
    assert!(!has_no_text(&lines(&["", "."])));
    assert!(!has_no_text(&lines(&["\u{200b}"])));
}

#[test]
fn timings_are_found_anywhere_in_a_text() {
    let mut detector = FramerateDetector::new();
    assert_eq!(detector.analyze_srt_content(TWO), Ok(()));
    assert_eq!(
        detector.timings,
        vec![
            SubtitleTiming { start_ms: 1_000, end_ms: 4_000, duration_ms: 3_000 },
            SubtitleTiming { start_ms: 5_000, end_ms: 8_500, duration_ms: 3_500 },
        ]
    );
    // more are added behind those that are there
    let content = "x00:00:09,000 --> 00:00:08,000y 00:00:10,000 -->  00:00:11,000 100:00:00,000 --> 00:00:00,0011";
    assert_eq!(detector.analyze_srt_content(content), Ok(()));
    assert_eq!(detector.timings.len(), 4);
    assert_eq!(detector.timings[2], SubtitleTiming { start_ms: 9_000, end_ms: 8_000, duration_ms: -1_000 });
    assert_eq!(detector.timings[3], SubtitleTiming { start_ms: 0, end_ms: 1, duration_ms: 1 });
    assert_eq!(detector.analyze_srt_content("nothing here"), Ok(()));
    assert_eq!(detector.timings.len(), 4);
}

#[test]
fn a_timing_line_without_numbers_stops_the_scan() {
    let mut detector = FramerateDetector::new();
    let content = "00:00:01,000 --> 00:00:02,000\n0\u{0661}:00:01,000 --> 00:00:02,000\n00:00:03,000 --> 00:00:04,000";
    assert_eq!(detector.analyze_srt_content(content), Err(SubtitleError::InvalidNumber));
    assert_eq!(detector.timings, vec![SubtitleTiming { start_ms: 1_000, end_ms: 2_000, duration_ms: 1_000 }]);
}

#[test]
fn matches_are_added_up_to_the_first_error() {
    let m = |texts: &[&str]| -> Vec<Option<String>> { texts.iter().map(|t| Some(t.to_string())).collect() };
    let good = m(&["", "00", "00", "01", "000", "00", "00", "02", "500"]);
    let bad = m(&["", "00", "00", "01", "000", "00", "00", "02"]);
    assert_eq!(timing_from_match(&good), Ok(SubtitleTiming { start_ms: 1_000, end_ms: 2_500, duration_ms: 1_500 }));
    assert_eq!(timing_from_match(&bad), Err(SubtitleError::InvalidTimestamp));
    let mut detector = FramerateDetector::new();
    assert_eq!(detector.add_matches(&vec![good.clone(), good.clone()]), Ok(()));
    assert_eq!(detector.timings.len(), 2);
    assert_eq!(detector.add_matches(&vec![good.clone(), bad, good]), Err(SubtitleError::InvalidTimestamp));
    assert_eq!(detector.timings.len(), 3);
    assert_eq!(detector.add_matches(&vec![]), Ok(()));
}

#[test]
fn a_duration_must_fit_in_32_bits() {
    assert_eq!(make_timing(0, i32::MAX), Ok(SubtitleTiming { start_ms: 0, end_ms: i32::MAX, duration_ms: i32::MAX }));
    assert_eq!(make_timing(-1, i32::MAX), Err(SubtitleError::TimeOutOfRange));
    assert_eq!(make_timing(0, i32::MIN), Ok(SubtitleTiming { start_ms: 0, end_ms: i32::MIN, duration_ms: i32::MIN }));
    assert_eq!(make_timing(1, i32::MIN), Err(SubtitleError::TimeOutOfRange));
    assert_eq!(make_timing(i32::MAX, i32::MIN), Err(SubtitleError::TimeOutOfRange));
}

#[test]
fn a_file_gives_its_timings_to_the_detector() {
    let file = SubtitleFile::from_content(TWO).unwrap();
    assert_eq!(
        timings_of_file(&file),
        Ok(vec![
            SubtitleTiming { start_ms: 1_000, end_ms: 4_000, duration_ms: 3_000 },
            SubtitleTiming { start_ms: 5_000, end_ms: 8_500, duration_ms: 3_500 },
        ])
    );
    let d = detect_framerate(&file).unwrap();
    assert_eq!(d.framerate, 29_970);
    assert_eq!(d.confidence, Confidence { tenths: 1, num: 1, den: 1 });
    assert_eq!(d.method, DetectionMethod::Fallback);
    let empty = SubtitleFile { entries: vec![] };
    assert_eq!(detect_framerate(&empty).unwrap().method, DetectionMethod::Default);
    let bad = SubtitleFile {
        entries: vec![entry(1, "00:00:01,000", "00:00:04,000", &["a"]), entry(2, "00:00:05,000", "bad", &["a"])],
    };
    assert_eq!(timings_of_file(&bad), Err(SubtitleError::InvalidTimestamp));
    assert_eq!(detect_framerate(&bad), Err(SubtitleError::InvalidTimestamp));
}

#[test]
fn a_file_of_whole_frames_is_detected() {
    let mut content = String::new();
    for i in 0..20 {
        let start = i * 6_000;
        content.push_str(&format!(
            "{}\n00:{:02}:{:02},000 --> 00:{:02}:{:02},000\nline\n\n",
            i + 1,
            start / 60_000,
            start % 60_000 / 1_000,
            (start + 5_000) / 60_000,
            (start + 5_000) % 60_000 / 1_000
        ));
    }
    let file = SubtitleFile::from_content(&content).unwrap();
    assert_eq!(file.entries.len(), 20);
    let d = detect_framerate(&file).unwrap();
    assert_eq!(d.framerate, 24_000);
    assert_eq!(d.confidence, Confidence { tenths: 8, num: 20, den: 20 });
    assert_eq!(d.method, DetectionMethod::DurationPattern);
}
