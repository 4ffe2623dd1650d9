use subsync::framerate_detector::{candidate_rate, CANDIDATE_COUNT};
use subsync::rescale::rescale_ms;

#[test]
fn rescaling_at_one_rate_changes_nothing() {
    for i in 0..CANDIDATE_COUNT {
        let fps = candidate_rate(i);
        for ms in [0, 1, -1, 999, 60_000, 5_025_678, 16_777_217, 362_439_999, i32::MAX, i32::MIN] {
            assert_eq!(rescale_ms(ms, fps, fps), ms);
        }
    }
    assert_eq!(rescale_ms(i32::MAX, u32::MAX, u32::MAX), i32::MAX);
    assert_eq!(rescale_ms(i32::MIN, 1, 1), i32::MIN);
}

#[test]
fn round_trip_stays_within_one_ms() {
    for a in 0..CANDIDATE_COUNT {
        for b in 0..CANDIDATE_COUNT {
            let (from, to) = (candidate_rate(a), candidate_rate(b));
            for ms in (0..20_000).chain([59_999, 5_025_678, 362_439_999, -1, -12_345]) {
                let back = rescale_ms(rescale_ms(ms, from, to), to, from);
                assert!((back - ms).abs() <= 1, "{ms} from {from} to {to} came back as {back}");
            }
        }
    }
}

#[test]
fn one_minute_from_24_to_29_97() {
    let new_ms = rescale_ms(60_000, 24_000, 29_970);
    assert_eq!(new_ms, 48_048);
    assert!(new_ms < 60_000);
    assert_eq!(rescale_ms(48_048, 29_970, 24_000), 60_000);
}

#[test]
fn halves_round_away_from_zero() {
    assert_eq!(rescale_ms(1, 1, 2), 1);
    assert_eq!(rescale_ms(-1, 1, 2), -1);
    assert_eq!(rescale_ms(3, 1, 2), 2);
    assert_eq!(rescale_ms(-3, 1, 2), -2);
    assert_eq!(rescale_ms(1, 1, 3), 0);
    assert_eq!(rescale_ms(2, 1, 3), 1);
    assert_eq!(rescale_ms(-2, 1, 3), -1);
    assert_eq!(rescale_ms(1_000, 25_000, 24_000), 1_042);
    assert_eq!(rescale_ms(1_000, 24_000, 25_000), 960);
}

#[test]
fn results_beyond_32_bits_stop_at_the_ends() {
    assert_eq!(rescale_ms(i32::MAX, 60_000, 1), i32::MAX);
    assert_eq!(rescale_ms(i32::MIN, 60_000, 1), i32::MIN);
    assert_eq!(rescale_ms(1_073_741_824, 2, 1), i32::MAX);
    assert_eq!(rescale_ms(-1_073_741_824, 2, 1), i32::MIN);
    assert_eq!(rescale_ms(1_073_741_823, 2, 1), 2_147_483_646);
    assert_eq!(rescale_ms(i32::MAX, u32::MAX, 1), i32::MAX);
    assert_eq!(rescale_ms(i32::MIN, 1, u32::MAX), -1);
    assert_eq!(rescale_ms(i32::MAX, 1, u32::MAX), 0);
}

#[test]
fn rescaling_keeps_the_order_of_cues() {
    let mut last = i32::MIN;
    for ms in -500..5_000 {
        let new_ms = rescale_ms(ms, 23_976, 59_940);
        assert!(new_ms >= last);
        last = new_ms;
    }
}

#[test]
fn a_rescaled_gap_drifts_by_at_most_one_ms() {
    for (from, to) in [(24_000i64, 29_970i64), (29_970, 23_976), (60_000, 23_976), (25_000, 50_000)] {
        for a in (0..3_000).step_by(7) {
            for gap in [0, 1, 41, 42, 1_000, 9_999] {
                let b = a + gap;
                let new_gap = (rescale_ms(b, from as u32, to as u32) - rescale_ms(a, from as u32, to as u32)) as i64;
                assert!((to * new_gap - from * gap as i64).abs() <= to);
            }
        }
    }
}
