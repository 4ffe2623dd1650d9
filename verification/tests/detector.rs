use subsync::confidence::Confidence;
use subsync::framerate_detector::{
    candidate_rate, is_frame_aligned, leading_position, match_interval, rate_error_ms,
    select_detection, DetectionMethod, FramerateDetection, FramerateDetector, SubtitleTiming,
    TimingStatistics, CANDIDATE_COUNT,
};

fn cue(start_ms: i32, end_ms: i32) -> SubtitleTiming {
    SubtitleTiming { start_ms, end_ms, duration_ms: end_ms - start_ms }
}

/// `count` cues of `duration` ms each, with `gap` ms between two.
fn track(count: usize, duration: i32, gap: i32) -> FramerateDetector {
    let mut timings = Vec::new();
    let mut start = 0;
    for _ in 0..count {
        timings.push(cue(start, start + duration));
        start += duration + gap;
    }
    FramerateDetector { timings }
}

fn candidates() -> Vec<u32> {
    (0..CANDIDATE_COUNT).map(candidate_rate).collect()
}

#[test]
fn candidate_rates_in_order() {
    assert_eq!(candidates(), vec![23_976, 24_000, 25_000, 29_970, 30_000, 50_000, 59_940, 60_000]);
}

#[test]
fn new_detector_has_no_cues() {
    assert!(FramerateDetector::new().timings.is_empty());
}

#[test]
fn empty_track_gets_the_default() {
    let d = FramerateDetector::new().detect_framerate();
    assert_eq!(d.framerate, 29_970);
    assert_eq!(d.confidence, Confidence { tenths: 0, num: 0, den: 1 });
    assert_eq!(d.confidence.per_mille(), 0);
    assert_eq!(d.method, DetectionMethod::Default);
    assert_eq!(d.method.name(), "default");
}

#[test]
fn one_to_four_cues_get_the_fallback() {
    for count in 1..=4 {
        let detector = track(count, 2_000, 500);
        assert_eq!(detector.detect_by_intervals(), None);
        assert_eq!(detector.detect_by_duration_patterns(), None);
        assert_eq!(detector.detect_by_common_framerates(), None);
        assert!(detector.detect_all().is_empty());
        let d = detector.detect_framerate();
        assert_eq!(d.framerate, 29_970);
        assert_eq!(d.confidence, Confidence { tenths: 1, num: 1, den: 1 });
        assert_eq!(d.confidence.per_mille(), 100);
        assert_eq!(d.method, DetectionMethod::Fallback);
        assert_eq!(d.method.name(), "fallback");
    }
}

#[test]
fn detected_rate_is_always_a_candidate() {
    let all = candidates();
    for count in 0..40 {
        for (duration, gap) in [(1_000, 42), (5_000, 1_000), (13, 150), (125, 250), (700, -50)] {
            let d = track(count, duration, gap).detect_framerate();
            assert!(all.contains(&d.framerate));
            assert!(d.confidence.per_mille() <= 1000);
        }
    }
}

#[test]
fn heuristic_needs_five_cues() {
    assert_eq!(track(4, 1_000, 100).detect_by_common_framerates(), None);
    assert!(track(5, 1_000, 100).detect_by_common_framerates().is_some());
}

#[test]
fn heuristic_takes_dense_tracks_for_ntsc() {
    // 5 cues in 5.4 s: far more than ten a minute
    let dense = track(5, 1_000, 100);
    assert!(dense.has_ntsc_indicators());
    assert_eq!(
        dense.detect_by_common_framerates(),
        Some(FramerateDetection {
            framerate: 29_970,
            confidence: Confidence { tenths: 5, num: 1, den: 1 },
            method: DetectionMethod::CommonFramerateHeuristic,
        })
    );
    // 5 cues in 41 s: fewer than ten a minute
    let sparse = track(5, 1_000, 9_000);
    assert!(!sparse.has_ntsc_indicators());
    let d = sparse.detect_by_common_framerates().unwrap();
    assert_eq!(d.framerate, 25_000);
    assert_eq!(d.confidence.per_mille(), 500);
    assert_eq!(d.method.name(), "common_framerate_heuristic");
}

#[test]
fn heuristic_density_threshold_is_strict() {
    // ten cues a minute exactly: 5 cues over 30 s
    let at = FramerateDetector { timings: vec![cue(0, 1), cue(1, 2), cue(2, 3), cue(3, 4), cue(4, 30_000)] };
    assert!(!at.has_ntsc_indicators());
    let above = FramerateDetector { timings: vec![cue(0, 1), cue(1, 2), cue(2, 3), cue(3, 4), cue(4, 29_999)] };
    assert!(above.has_ntsc_indicators());
}

#[test]
fn heuristic_on_zero_and_negative_span() {
    let zero = FramerateDetector { timings: vec![cue(0, 0); 5] };
    assert!(zero.has_ntsc_indicators());
    let negative = FramerateDetector { timings: vec![cue(10, 20), cue(0, 1), cue(0, 1), cue(0, 1), cue(0, 5)] };
    assert!(!negative.has_ntsc_indicators());
    assert_eq!(negative.detect_by_common_framerates().unwrap().framerate, 25_000);
    assert!(!FramerateDetector::new().has_ntsc_indicators());
}

#[test]
fn heuristic_adds_a_tenth_beyond_an_hour() {
    let mut timings = vec![cue(0, 1_000); 4];
    timings.push(cue(3_600_000, 3_600_001));
    let long = FramerateDetector { timings };
    assert_eq!(long.detect_by_common_framerates().unwrap().confidence, Confidence { tenths: 6, num: 1, den: 1 });
    let mut timings = vec![cue(0, 1_000); 4];
    timings.push(cue(3_599_000, 3_600_000));
    let hour = FramerateDetector { timings };
    assert_eq!(hour.detect_by_common_framerates().unwrap().confidence, Confidence { tenths: 5, num: 1, den: 1 });
}

#[test]
fn interval_analysis_needs_ten_cues() {
    assert_eq!(track(9, 1_000, 42).detect_by_intervals(), None);
    assert!(track(10, 1_000, 42).detect_by_intervals().is_some());
}

#[test]
fn gaps_of_42_ms_round_down_to_the_first_candidate() {
    // 42 ms is one frame at 24 fps, but the gap is first rounded down to a
    // multiple of 100 ms: to 0, which lies 41 ms from one frame at 23.976.
    for count in [10, 11, 25] {
        let detector = track(count, 1_000, 42);
        let d = detector.detect_by_intervals().unwrap();
        assert_eq!(d.framerate, 23_976);
        assert_eq!(d.confidence, Confidence { tenths: 7, num: 9, den: 50 });
        assert_eq!(d.confidence.per_mille(), 126);
        assert_eq!(d.method, DetectionMethod::IntervalAnalysis);
        assert_eq!(d.method.name(), "interval_analysis");
    }
}

#[test]
fn interval_analysis_matches_two_frames() {
    // gaps of 150 ms round down to 100, 17 ms from two frames (83 ms) at 23.976
    let d = track(12, 1_000, 150).detect_by_intervals().unwrap();
    assert_eq!(d.framerate, 23_976);
    assert_eq!(d.confidence, Confidence { tenths: 7, num: 33, den: 50 });
    assert_eq!(d.confidence.per_mille(), 462);
}

#[test]
fn interval_analysis_abstains_on_long_gaps() {
    assert_eq!(track(12, 1_000, 250).detect_by_intervals(), None);
    assert_eq!(track(12, 1_000, 9_999).detect_by_intervals(), None);
}

#[test]
fn interval_analysis_ignores_overlaps_and_scene_breaks() {
    assert_eq!(track(12, 1_000, 0).detect_by_intervals(), None);
    assert_eq!(track(12, 1_000, -10).detect_by_intervals(), None);
    assert_eq!(track(12, 1_000, 10_000).detect_by_intervals(), None);
    // one cadence gap among scene breaks decides
    let mut detector = track(11, 1_000, 20_000);
    let last = detector.timings[10];
    detector.timings.push(cue(last.end_ms + 150, last.end_ms + 1_150));
    assert_eq!(detector.detect_by_intervals().unwrap().confidence.num, 33);
}

#[test]
fn gap_buckets_are_counted() {
    let mut detector = track(3, 1_000, 42);
    let last = detector.timings[2];
    detector.timings.push(cue(last.end_ms + 199, last.end_ms + 1_199));
    let counts = detector.count_gaps();
    assert_eq!(counts.len(), 100);
    assert_eq!(counts[0], 2);
    assert_eq!(counts[1], 1);
    assert_eq!(counts.iter().sum::<usize>(), 3);
}

#[test]
fn of_two_equally_common_gaps_the_smaller_leads() {
    assert_eq!(leading_position(&vec![0, 3, 1, 3, 2]), 1);
    assert_eq!(leading_position(&vec![5]), 0);
    assert_eq!(leading_position(&vec![0, 0, 0]), 0);
    assert_eq!(leading_position(&vec![]), 0);
    // five gaps of 150 ms and five of 42 ms: bucket 0 leads
    let mut timings = Vec::new();
    let mut start = 0;
    for i in 0..11 {
        timings.push(cue(start, start + 1_000));
        start += 1_000 + if i % 2 == 0 { 150 } else { 42 };
    }
    let d = FramerateDetector { timings }.detect_by_intervals().unwrap();
    assert_eq!(d.confidence.num, 9);
}

#[test]
fn match_interval_tries_candidates_in_order() {
    assert_eq!(match_interval(0).unwrap().framerate, 23_976);
    assert_eq!(match_interval(100).unwrap().framerate, 23_976);
    assert_eq!(match_interval(200), None);
    assert_eq!(match_interval(9_900), None);
}

#[test]
fn frame_multiples_are_rounded_down() {
    assert_eq!(rate_error_ms(23_976, 41), Some(0));
    assert_eq!(rate_error_ms(23_976, 0), Some(41));
    assert_eq!(rate_error_ms(24_000, 125), Some(42)); // 125 is 42 from two frames (83)
    assert_eq!(rate_error_ms(24_000, 174), Some(49)); // three frames are 125
    assert_eq!(rate_error_ms(24_000, 175), None);
    assert_eq!(rate_error_ms(60_000, 0), Some(16));
    assert_eq!(rate_error_ms(60_000, 100), None);
    assert_eq!(rate_error_ms(30_000, 149), Some(49));
    assert_eq!(rate_error_ms(30_000, 150), None);
}

#[test]
fn duration_analysis_needs_twenty_cues() {
    assert_eq!(track(19, 5_000, 1_000).detect_by_duration_patterns(), None);
    assert!(track(20, 5_000, 1_000).detect_by_duration_patterns().is_some());
}

#[test]
fn whole_frames_at_24_select_24() {
    // 5000 ms is 120 frames at 24 fps and 119.88 at 23.976
    let detector = track(20, 5_000, 1_000);
    let d = detector.detect_by_duration_patterns().unwrap();
    assert_eq!(d.framerate, 24_000);
    assert_eq!(d.confidence, Confidence { tenths: 8, num: 20, den: 20 });
    assert_eq!(d.confidence.per_mille(), 800);
    assert!(d.confidence.exceeds(&Confidence { tenths: 8, num: 6, den: 10 }));
    assert_eq!(d.method, DetectionMethod::DurationPattern);
    assert_eq!(d.method.name(), "duration_pattern");
    assert_eq!(detector.detect_framerate(), d);
}

#[test]
fn short_whole_frames_at_24_are_taken_for_23_976() {
    // 125 ms is 3 frames at 24 fps and 2.997 at 23.976, which comes first
    let d = track(20, 125, 1_000).detect_by_duration_patterns().unwrap();
    assert_eq!(d.framerate, 23_976);
    assert_eq!(d.confidence, Confidence { tenths: 8, num: 20, den: 20 });
}

#[test]
fn duration_threshold_is_strict() {
    // 13 ms is aligned at no candidate, 5000 ms at 24, 25, 30, 50 and 60
    let mix = |aligned: usize| {
        let mut timings = Vec::new();
        for i in 0..20 {
            let d = if i < aligned { 5_000 } else { 13 };
            timings.push(cue(i as i32 * 10_000, i as i32 * 10_000 + d));
        }
        FramerateDetector { timings }
    };
    assert_eq!(mix(12).detect_by_duration_patterns(), None);
    let d = mix(13).detect_by_duration_patterns().unwrap();
    assert_eq!(d.framerate, 24_000);
    assert_eq!(d.confidence, Confidence { tenths: 8, num: 13, den: 20 });
    assert_eq!(d.confidence.per_mille(), 520);
    assert_eq!(mix(13).count_aligned(24_000), 13);
    assert_eq!(mix(13).count_aligned(23_976), 0);
    assert_eq!(mix(13).count_aligned(60_000), 13);
}

#[test]
fn frame_alignment_is_within_a_tenth_of_a_frame() {
    assert!(is_frame_aligned(24_000, 0));
    assert!(is_frame_aligned(24_000, 125));
    assert!(is_frame_aligned(24_000, -125));
    assert!(is_frame_aligned(25_000, 3));
    assert!(!is_frame_aligned(25_000, 4)); // a tenth of a frame exactly is not aligned
    assert!(!is_frame_aligned(25_000, 36));
    assert!(is_frame_aligned(25_000, 37));
    assert!(is_frame_aligned(25_000, 43));
    assert!(!is_frame_aligned(25_000, 44));
    assert!(!is_frame_aligned(25_000, -4));
    assert!(is_frame_aligned(25_000, -3));
    assert!(!is_frame_aligned(24_000, 20));
    // 2^31 ms are 51_488_068.944448 frames at 23.976
    assert!(is_frame_aligned(23_976, i32::MIN));
    assert!(is_frame_aligned(23_976, i32::MAX));
    assert!(!is_frame_aligned(23_976, i32::MAX - 1));
}

#[test]
fn selector_takes_the_first_of_the_greatest() {
    let d = |framerate: u32, tenths: u8, num: u64, den: u64| FramerateDetection {
        framerate,
        confidence: Confidence { tenths, num, den },
        method: DetectionMethod::IntervalAnalysis,
    };
    assert_eq!(select_detection(&vec![]).method, DetectionMethod::Fallback);
    assert_eq!(select_detection(&vec![]).framerate, 29_970);
    assert_eq!(select_detection(&vec![d(1, 7, 9, 50), d(2, 5, 1, 1)]).framerate, 2);
    assert_eq!(select_detection(&vec![d(1, 5, 1, 1), d(2, 7, 9, 50)]).framerate, 1);
    // 0.8 * 15/24 is 0.5: a tie, and the first stays
    assert_eq!(select_detection(&vec![d(1, 8, 15, 24), d(2, 5, 1, 1)]).framerate, 1);
    assert_eq!(select_detection(&vec![d(2, 5, 1, 1), d(1, 8, 15, 24)]).framerate, 2);
    assert_eq!(select_detection(&vec![d(1, 1, 1, 1), d(2, 8, 1, 1), d(3, 8, 1, 1), d(4, 7, 1, 1)]).framerate, 2);
}

#[test]
fn ensemble_prefers_the_stronger_method() {
    // interval analysis says 23.976 at 0.126, the heuristic 29.97 at 0.5
    let detector = track(10, 1_000, 42);
    let all = detector.detect_all();
    assert_eq!(all.len(), 2);
    assert_eq!(all[0].method, DetectionMethod::IntervalAnalysis);
    assert_eq!(all[1].method, DetectionMethod::CommonFramerateHeuristic);
    let d = detector.detect_framerate();
    assert_eq!(d.framerate, 29_970);
    assert_eq!(d.method, DetectionMethod::CommonFramerateHeuristic);
    // with twenty cues of whole frames at 24, duration analysis wins at 0.8
    let all = track(20, 5_000, 150).detect_all();
    assert_eq!(all.len(), 3);
    assert_eq!(all[1].method, DetectionMethod::DurationPattern);
    assert_eq!(track(20, 5_000, 150).detect_framerate().framerate, 24_000);
}

#[test]
fn confidence_compares_as_a_number() {
    let half = Confidence::new(5, 1, 1);
    let also_half = Confidence::new(8, 15, 24);
    let more = Confidence::new(8, 16, 24);
    assert!(!half.exceeds(&also_half));
    assert!(!also_half.exceeds(&half));
    assert!(more.exceeds(&half));
    assert!(!half.exceeds(&more));
    assert_ne!(half, also_half);
    let big = Confidence { tenths: 10, num: u64::MAX, den: u64::MAX };
    let nearly = Confidence { tenths: 10, num: u64::MAX - 1, den: u64::MAX };
    assert!(big.exceeds(&nearly));
    assert!(!nearly.exceeds(&big));
    assert!(!big.exceeds(&big));
    assert_eq!(big.per_mille(), 1000);
    assert_eq!(nearly.per_mille(), 999);
}

#[test]
fn statistics_count_sum_and_span() {
    assert_eq!(FramerateDetector::new().get_statistics(), None);
    let detector = FramerateDetector { timings: vec![cue(1_000, 3_000), cue(4_000, 4_500), cue(6_000, 5_000)] };
    assert_eq!(
        detector.get_statistics(),
        Some(TimingStatistics { subtitle_count: 3, total_duration_ms: 1_500, total_span_ms: 4_000 })
    );
}

#[test]
fn five_cues_or_more_never_fall_back() {
    let half = Confidence { tenths: 5, num: 1, den: 1 };
    for count in 5..45 {
        for (duration, gap) in [(1_000, 42), (5_000, 1_000), (13, 150), (125, 250), (700, -50), (1, 3_000_000)] {
            let detector = track(count, duration, gap);
            let d = detector.detect_framerate();
            assert!(detector.detect_all().contains(&d));
            assert_ne!(d.method, DetectionMethod::Fallback);
            assert_ne!(d.method, DetectionMethod::Default);
            assert!(!half.exceeds(&d.confidence));
        }
    }
}
