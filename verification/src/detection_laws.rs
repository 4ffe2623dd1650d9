//! What holds of the detection engine for every track.

use crate::confidence::Confidence;
use crate::framerate_detector::{
    aligned_count, best_aligned, bucket_count, candidate_aligned, candidate_rates,
    clears_threshold, default_detection, detection, duration_detection, duration_proposal,
    fallback_detection, frame_aligned, gap_before, gap_histogram, heuristic_proposal,
    interval_detection, interval_match, interval_proposal, is_cadence_gap, is_candidate_rate,
    leading_index, leading_proposal, most_common_gap, proposals, rate_error, select_best,
    FramerateDetection, SubtitleTiming, BUCKET_COUNT,
};
use vstd::prelude::*;

verus! {

/// Among the first `upto` counts, the leading position holds the greatest
/// count, and every position before it holds a smaller one.
pub proof fn leading_index_is_first_greatest(counts: Seq<nat>, upto: int)
    requires
        0 < upto <= counts.len(),
    ensures
        0 <= leading_index(counts, upto) < upto,
        forall|c: int|
            0 <= c < upto ==> #[trigger] counts[c] <= counts[leading_index(counts, upto)],
        forall|c: int|
            0 <= c < leading_index(counts, upto) ==> #[trigger] counts[c] < counts[leading_index(
                counts,
                upto,
            )],
    decreases upto,
{
    if upto > 1 {
        leading_index_is_first_greatest(counts, upto - 1);
    }
}

/// Every cue after the first whose gap is a cadence gap is counted in the
/// bucket of its gap, and a bucket counts no more cues than there are.
pub proof fn bucket_count_bounds(t: Seq<SubtitleTiming>, upto: int, b: int)
    requires
        upto <= t.len(),
    ensures
        bucket_count(t, upto, b) <= if upto >= 1 {
            upto - 1
        } else {
            0
        },
        forall|i: int|
            1 <= i < upto && is_cadence_gap(#[trigger] gap_before(t, i)) && gap_before(t, i) / 100
                == b ==> bucket_count(t, upto, b) >= 1,
        (forall|i: int|
            1 <= i < upto ==> !(is_cadence_gap(#[trigger] gap_before(t, i)) && gap_before(t, i)
                / 100 == b)) ==> bucket_count(t, upto, b) == 0,
    decreases upto,
{
    if upto > 1 {
        bucket_count_bounds(t, upto - 1, b);
    }
}

/// Whether no bucket holds more cadence gaps than bucket `b`, and every
/// bucket before it holds fewer.
pub open spec fn is_commonest_bucket(t: Seq<SubtitleTiming>, b: int) -> bool {
    let n = t.len() as int;
    &&& 0 <= b < BUCKET_COUNT
    &&& bucket_count(t, n, b) > 0
    &&& forall|c: int| 0 <= c < BUCKET_COUNT ==> bucket_count(t, n, c) <= bucket_count(t, n, b)
    &&& forall|c: int| 0 <= c < b ==> bucket_count(t, n, c) < bucket_count(t, n, b)
}

/// The commonest gap is `None` exactly where the track has no cadence gap.
/// Else it is 100 times the commonest bucket.
pub proof fn most_common_gap_is_first_greatest(t: Seq<SubtitleTiming>)
    ensures
        most_common_gap(t) is None <==> forall|i: int|
            1 <= i < t.len() ==> !is_cadence_gap(#[trigger] gap_before(t, i)),
        most_common_gap(t) matches Some(gap) ==> gap % 100 == 0 && is_commonest_bucket(
            t,
            gap / 100,
        ),
{
    let h = gap_histogram(t);
    let n = t.len() as int;
    leading_index_is_first_greatest(h, h.len() as int);
    let b = leading_index(h, h.len() as int);
    assert(h[b] == bucket_count(t, n, b));
    if h[b] == 0 {
        assert forall|i: int| 1 <= i < t.len() implies !is_cadence_gap(
            #[trigger] gap_before(t, i),
        ) by {
            let g = gap_before(t, i);
            if is_cadence_gap(g) {
                let c = g / 100;
                assert(0 <= c < 100);
                bucket_count_bounds(t, n, c);
                assert(h[c] == bucket_count(t, n, c));
            }
        }
    } else {
        bucket_count_bounds(t, n, b);
        assert forall|c: int| 0 <= c < BUCKET_COUNT implies bucket_count(t, n, c) <= bucket_count(
            t,
            n,
            b,
        ) by {
            assert(h[c] == bucket_count(t, n, c));
        }
        assert forall|c: int| 0 <= c < b implies bucket_count(t, n, c) < bucket_count(t, n, b) by {
            assert(h[c] == bucket_count(t, n, c));
        }
        assert(is_commonest_bucket(t, b));
        assert((100 * b) / 100 == b);
    }
}

/// Whether candidate `i` is the first from position `from` on that has a
/// frame multiple within tolerance of `gap`.
pub open spec fn is_first_match(gap: int, from: int, i: int) -> bool {
    &&& from <= i < candidate_rates().len()
    &&& rate_error(candidate_rates()[i], gap) is Some
    &&& forall|j: int| from <= j < i ==> rate_error(#[trigger] candidate_rates()[j], gap) is None
}

/// A distance within tolerance is less than 50 ms.
pub proof fn rate_error_in_tolerance(rate: u32, gap: int)
    ensures
        rate_error(rate, gap) matches Some(error) ==> 0 <= error < 50,
{
}

/// The match for a gap is the proposal for the first candidate that has a
/// frame multiple within tolerance of it, and `None` where no candidate has.
pub proof fn interval_match_is_first_candidate(gap: int, from: int)
    requires
        0 <= from <= candidate_rates().len(),
    ensures
        interval_match(gap, from) is None <==> forall|i: int|
            from <= i < candidate_rates().len() ==> rate_error(
                #[trigger] candidate_rates()[i],
                gap,
            ) is None,
        interval_match(gap, from) matches Some(d) ==> exists|i: int|
            #[trigger] is_first_match(gap, from, i) && d == interval_detection(
                candidate_rates()[i],
                rate_error(candidate_rates()[i], gap)->0,
            ),
    decreases candidate_rates().len() - from,
{
    if from < candidate_rates().len() {
        interval_match_is_first_candidate(gap, from + 1);
        match rate_error(candidate_rates()[from], gap) {
            Some(error) => {
                assert(is_first_match(gap, from, from));
            },
            None => {
                if interval_match(gap, from + 1) is Some {
                    let d = interval_match(gap, from + 1)->0;
                    let i = choose|i: int|
                        #[trigger] is_first_match(gap, from + 1, i) && d == interval_detection(
                            candidate_rates()[i],
                            rate_error(candidate_rates()[i], gap)->0,
                        );
                    assert(is_first_match(gap, from, i));
                }
            },
        }
    }
}

/// No more cues are frame-aligned than there are.
pub proof fn aligned_count_bound(t: Seq<SubtitleTiming>, upto: int, rate: u32)
    requires
        upto <= t.len(),
    ensures
        aligned_count(t, upto, rate) <= if upto >= 0 {
            upto
        } else {
            0
        },
        (forall|i: int| 0 <= i < upto ==> frame_aligned(rate, (#[trigger] t[i]).duration_ms as int))
            ==> aligned_count(t, upto, rate) == if upto >= 0 {
            upto
        } else {
            0
        },
    decreases upto,
{
    if upto > 0 {
        aligned_count_bound(t, upto - 1, rate);
    }
}

/// Among the first `upto` candidates, the best is `None` exactly where none
/// has more than six cues in ten frame-aligned. Else it has, no other has
/// more such cues, and every candidate before it has fewer.
pub proof fn best_aligned_is_first_greatest(t: Seq<SubtitleTiming>, upto: int)
    requires
        0 <= upto <= candidate_rates().len(),
    ensures
        best_aligned(t, upto) is None <==> forall|i: int|
            0 <= i < upto ==> !clears_threshold(candidate_aligned(t, i), t.len()),
        best_aligned(t, upto) matches Some(b) ==> {
            &&& 0 <= b < upto
            &&& clears_threshold(candidate_aligned(t, b), t.len())
            &&& forall|i: int| 0 <= i < upto ==> candidate_aligned(t, i) <= candidate_aligned(t, b)
            &&& forall|i: int| 0 <= i < b ==> candidate_aligned(t, i) < candidate_aligned(t, b)
        },
    decreases upto,
{
    if upto > 0 {
        best_aligned_is_first_greatest(t, upto - 1);
    }
}

/// Among the first `upto` proposals, no proposal exceeds the leading one in
/// confidence, and the leading one exceeds every proposal before it.
pub proof fn leading_proposal_is_first_greatest(p: Seq<FramerateDetection>, upto: int)
    requires
        0 < upto <= p.len(),
        forall|i: int| 0 <= i < p.len() ==> (#[trigger] p[i]).confidence.wf(),
    ensures
        0 <= leading_proposal(p, upto) < upto,
        forall|i: int|
            0 <= i < upto ==> !(#[trigger] p[i]).confidence.spec_exceeds(
                p[leading_proposal(p, upto)].confidence,
            ),
        forall|i: int|
            0 <= i < leading_proposal(p, upto) ==> p[leading_proposal(
                p,
                upto,
            )].confidence.spec_exceeds((#[trigger] p[i]).confidence),
    decreases upto,
{
    if upto > 1 {
        leading_proposal_is_first_greatest(p, upto - 1);
        let before = leading_proposal(p, upto - 1);
        let last = p[upto - 1].confidence;
        let held = p[before].confidence;
        if last.spec_exceeds(held) {
            assert forall|i: int| 0 <= i < upto - 1 implies last.spec_exceeds(
                (#[trigger] p[i]).confidence,
            ) && !p[i].confidence.spec_exceeds(last) by {
                exceeds_carries_over(last, held, p[i].confidence);
            }
        }
    }
}

/// Where `a` exceeds `b` and `c` does not exceed `b`, `a` exceeds `c`.
pub proof fn exceeds_carries_over(a: Confidence, b: Confidence, c: Confidence)
    requires
        a.wf(),
        b.wf(),
        c.wf(),
        a.spec_exceeds(b),
        !c.spec_exceeds(b),
    ensures
        a.spec_exceeds(c),
        !c.spec_exceeds(a),
{
    let x = a.tenths * a.num;
    let y = b.tenths * b.num;
    let z = c.tenths * c.num;
    assert(a.tenths * (a.num * b.den) == x * b.den) by (nonlinear_arith)
        requires
            x == a.tenths * a.num,
    ;
    assert(b.tenths * (b.num * a.den) == y * a.den) by (nonlinear_arith)
        requires
            y == b.tenths * b.num,
    ;
    assert(c.tenths * (c.num * b.den) == z * b.den) by (nonlinear_arith)
        requires
            z == c.tenths * c.num,
    ;
    assert(b.tenths * (b.num * c.den) == y * c.den) by (nonlinear_arith)
        requires
            y == b.tenths * b.num,
    ;
    assert(a.tenths * (a.num * c.den) == x * c.den) by (nonlinear_arith)
        requires
            x == a.tenths * a.num,
    ;
    assert(c.tenths * (c.num * a.den) == z * a.den) by (nonlinear_arith)
        requires
            z == c.tenths * c.num,
    ;
    // x / a.den > y / b.den >= z / c.den
    assert(x * c.den > z * a.den) by (nonlinear_arith)
        requires
            x * b.den > y * a.den,
            z * b.den <= y * c.den,
            a.den > 0,
            b.den > 0,
            c.den > 0,
            x >= 0,
            y >= 0,
            z >= 0,
    ;
}

/// Each of the eight candidates is a candidate frame rate.
pub proof fn candidates_are_candidates()
    ensures
        forall|i: int|
            0 <= i < candidate_rates().len() ==> is_candidate_rate(#[trigger] candidate_rates()[i]),
        is_candidate_rate(23_976),
        is_candidate_rate(24_000),
        is_candidate_rate(25_000),
        is_candidate_rate(29_970),
        is_candidate_rate(30_000),
        is_candidate_rate(50_000),
        is_candidate_rate(59_940),
        is_candidate_rate(60_000),
{
    assert(candidate_rates()[0] == 23_976);
    assert(candidate_rates()[1] == 24_000);
    assert(candidate_rates()[2] == 25_000);
    assert(candidate_rates()[3] == 29_970);
    assert(candidate_rates()[4] == 30_000);
    assert(candidate_rates()[5] == 50_000);
    assert(candidate_rates()[6] == 59_940);
    assert(candidate_rates()[7] == 60_000);
}

/// Whatever a method proposes, it proposes a candidate frame rate, under its
/// own name.
pub proof fn proposals_name_candidates(t: Seq<SubtitleTiming>)
    ensures
        interval_proposal(t) matches Some(d) ==> is_candidate_rate(d.framerate) && d.method
            == crate::framerate_detector::DetectionMethod::IntervalAnalysis,
        duration_proposal(t) matches Some(d) ==> is_candidate_rate(d.framerate) && d.method
            == crate::framerate_detector::DetectionMethod::DurationPattern,
        heuristic_proposal(t) matches Some(d) ==> is_candidate_rate(d.framerate) && d.method
            == crate::framerate_detector::DetectionMethod::CommonFramerateHeuristic,
        forall|k: int|
            0 <= k < proposals(t).len() ==> is_candidate_rate((#[trigger] proposals(t)[k]).framerate),
{
    candidates_are_candidates();
    if interval_proposal(t) is Some {
        let gap = most_common_gap(t)->0;
        interval_match_is_first_candidate(gap, 0);
    }
    if duration_proposal(t) is Some {
        best_aligned_is_first_greatest(t, candidate_rates().len() as int);
    }
}

/// Whatever a method proposes for a track that a vector can hold, its
/// confidence is a number between zero and one.
pub proof fn proposals_have_confidence(t: Seq<SubtitleTiming>)
    requires
        t.len() <= usize::MAX,
    ensures
        forall|k: int| 0 <= k < proposals(t).len() ==> (#[trigger] proposals(t)[k]).confidence.wf(),
{
    if interval_proposal(t) is Some {
        let gap = most_common_gap(t)->0;
        interval_match_is_first_candidate(gap, 0);
    }
    if duration_proposal(t) is Some {
        best_aligned_is_first_greatest(t, candidate_rates().len() as int);
        let i = best_aligned(t, candidate_rates().len() as int)->0;
        aligned_count_bound(t, t.len() as int, candidate_rates()[i]);
    }
}

/// The selector returns one of the proposals, or the fallback where there
/// is none. No proposal exceeds the one it returns in confidence, and that
/// one exceeds every proposal before it.
pub proof fn selection_is_first_greatest(p: Seq<FramerateDetection>)
    requires
        forall|i: int| 0 <= i < p.len() ==> (#[trigger] p[i]).confidence.wf(),
    ensures
        p.len() == 0 ==> select_best(p) == fallback_detection(),
        p.len() > 0 ==> {
            let b = leading_proposal(p, p.len() as int);
            &&& 0 <= b < p.len()
            &&& select_best(p) == p[b]
            &&& forall|i: int|
                0 <= i < p.len() ==> !(#[trigger] p[i]).confidence.spec_exceeds(p[b].confidence)
            &&& forall|i: int|
                0 <= i < b ==> p[b].confidence.spec_exceeds((#[trigger] p[i]).confidence)
        },
{
    if p.len() > 0 {
        leading_proposal_is_first_greatest(p, p.len() as int);
    }
}

/// Among any number of proposals the leading one is one of them.
pub proof fn leading_proposal_in_range(p: Seq<FramerateDetection>, upto: int)
    requires
        0 < upto <= p.len(),
    ensures
        0 <= leading_proposal(p, upto) < upto,
    decreases upto,
{
    if upto > 1 {
        leading_proposal_in_range(p, upto - 1);
    }
}

/// The detected frame rate is always one of the candidates: 29.97 for the
/// default and the fallback, and else what a method proposed.
pub proof fn detected_rate_is_candidate(t: Seq<SubtitleTiming>)
    ensures
        is_candidate_rate(detection(t).framerate),
        detection(t) == default_detection() || detection(t) == fallback_detection() || exists|
            k: int,
        |
            0 <= k < proposals(t).len() && detection(t) == #[trigger] proposals(t)[k],
{
    candidates_are_candidates();
    proposals_name_candidates(t);
    let p = proposals(t);
    if t.len() > 0 && p.len() > 0 {
        leading_proposal_in_range(p, p.len() as int);
        let b = leading_proposal(p, p.len() as int);
        assert(detection(t) == p[b]);
    }
}

/// The confidence of a detection, for a track that a vector can hold, is a
/// number between zero and one.
pub proof fn detected_confidence_is_a_share(t: Seq<SubtitleTiming>)
    requires
        t.len() <= usize::MAX,
    ensures
        detection(t).confidence.wf(),
{
    proposals_have_confidence(t);
    let p = proposals(t);
    if t.len() > 0 && p.len() > 0 {
        leading_proposal_in_range(p, p.len() as int);
        let b = leading_proposal(p, p.len() as int);
        assert(detection(t) == p[b]);
    }
}

/// A track without cues gets the default, and one of one to four cues the
/// fallback: no method has an opinion on so few.
pub proof fn few_cues_fall_back(t: Seq<SubtitleTiming>)
    requires
        t.len() <= 4,
    ensures
        t.len() == 0 ==> detection(t) == default_detection(),
        t.len() >= 1 ==> detection(t) == fallback_detection(),
{
    assert(proposals(t) =~= Seq::<FramerateDetection>::empty());
}

/// For five cues or more the heuristic has an opinion, so the detection is
/// a method's proposal and no proposal of lower confidence than the
/// heuristic's, which is at least 0.5.
pub proof fn five_cues_are_never_empty_handed(t: Seq<SubtitleTiming>)
    requires
        5 <= t.len() <= usize::MAX,
    ensures
        heuristic_proposal(t) is Some,
        exists|k: int| 0 <= k < proposals(t).len() && detection(t) == #[trigger] proposals(t)[k],
        !heuristic_proposal(t)->0.confidence.spec_exceeds(detection(t).confidence),
        !(Confidence { tenths: 5, num: 1, den: 1 }).spec_exceeds(detection(t).confidence),
{
    let p = proposals(t);
    let h = heuristic_proposal(t)->0;
    let last = p.len() - 1;
    assert(p[last] == h);
    proposals_have_confidence(t);
    selection_is_first_greatest(p);
    let b = leading_proposal(p, p.len() as int);
    assert(detection(t) == p[b]);
    assert(!p[last].confidence.spec_exceeds(p[b].confidence));
    let c = p[b].confidence;
    assert(c.wf());
    assert(h.confidence.tenths >= 5 && h.confidence.num == 1 && h.confidence.den == 1);
    assert(h.confidence.tenths * (1 * c.den) <= c.tenths * (c.num * 1));
    assert(5 * (1 * c.den) <= h.confidence.tenths * (1 * c.den)) by (nonlinear_arith)
        requires
            h.confidence.tenths >= 5,
            c.den > 0,
    ;
}

/// A duration that is a whole number of frames at 24 frames per second is
/// frame-aligned at that rate.
pub proof fn whole_frames_at_24_are_aligned(d: int)
    requires
        (d * 24) % 1000 == 0,
    ensures
        frame_aligned(24_000, d),
{
    let k = (d * 24) / 1000;
    assert(d * 24 == 1000 * k);
    assert(d * 24_000 == 1_000_000 * k) by (nonlinear_arith)
        requires
            d * 24 == 1000 * k,
    ;
    vstd::arithmetic::div_mod::lemma_fundamental_div_mod_converse(d * 24_000, 1_000_000, k, 0);
}

/// For twenty cues or more whose durations are all whole numbers of frames
/// at 24 frames per second, unless they are all frame-aligned at 23.976 as
/// well, duration analysis proposes 24 with the full confidence of 0.8.
///
/// Where every duration is frame-aligned at 23.976 too (all of 125 ms, say),
/// that rate comes first and is proposed instead.
pub proof fn whole_frames_at_24_select_24(t: Seq<SubtitleTiming>)
    requires
        t.len() >= 20,
        forall|i: int| 0 <= i < t.len() ==> ((#[trigger] t[i]).duration_ms * 24) % 1000 == 0,
        candidate_aligned(t, 0) < t.len(),
    ensures
        duration_proposal(t) == Some(duration_detection(24_000, t.len(), t.len())),
        t.len() <= usize::MAX ==> duration_proposal(t)->0.confidence.spec_exceeds(
            Confidence { tenths: 8, num: 6, den: 10 },
        ),
{
    let n = t.len() as int;
    assert forall|i: int| 0 <= i < n implies frame_aligned(
        24_000,
        (#[trigger] t[i]).duration_ms as int,
    ) by {
        whole_frames_at_24_are_aligned(t[i].duration_ms as int);
    }
    aligned_count_bound(t, n, 24_000);
    assert(candidate_rates()[1] == 24_000);
    assert(candidate_aligned(t, 1) == n);
    assert(clears_threshold(n as nat, t.len()));
    assert(best_aligned(t, 0) is None);
    assert(best_aligned(t, 1) is None || best_aligned(t, 1) == Some(0int));
    assert(best_aligned(t, 2) == Some(1int));
    aligned_count_bound(t, n, candidate_rates()[2]);
    assert(best_aligned(t, 3) == Some(1int));
    aligned_count_bound(t, n, candidate_rates()[3]);
    assert(best_aligned(t, 4) == Some(1int));
    aligned_count_bound(t, n, candidate_rates()[4]);
    assert(best_aligned(t, 5) == Some(1int));
    aligned_count_bound(t, n, candidate_rates()[5]);
    assert(best_aligned(t, 6) == Some(1int));
    aligned_count_bound(t, n, candidate_rates()[6]);
    assert(best_aligned(t, 7) == Some(1int));
    aligned_count_bound(t, n, candidate_rates()[7]);
    assert(best_aligned(t, 8) == Some(1int));
    if t.len() <= usize::MAX {
        let c = duration_proposal(t)->0.confidence;
        assert(c.num == n && c.den == n);
        assert(8 * (n * 10) > 8 * (6 * n)) by (nonlinear_arith)
            requires
                n > 0,
        ;
    }
}

/// Where every cue of ten or more starts 42 ms after the cue before it ends,
/// the commonest gap rounds down to 0, the first candidate, 23.976, has one
/// frame (41 ms) within tolerance of 0, and interval analysis proposes it at
/// distance 41.
pub proof fn gaps_of_42_match_the_first_candidate(t: Seq<SubtitleTiming>)
    requires
        t.len() >= 10,
        forall|i: int| 1 <= i < t.len() ==> #[trigger] gap_before(t, i) == 42,
    ensures
        most_common_gap(t) == Some(0int),
        interval_proposal(t) == Some(interval_detection(23_976, 41)),
{
    let h = gap_histogram(t);
    let n = t.len() as int;
    leading_index_is_first_greatest(h, h.len() as int);
    let b = leading_index(h, h.len() as int);
    assert(h[b] == bucket_count(t, n, b));
    assert(h[0] == bucket_count(t, n, 0));
    bucket_count_bounds(t, n, 0);
    assert(gap_before(t, 1) == 42);
    assert(bucket_count(t, n, 0) >= 1);
    if b != 0 {
        bucket_count_bounds(t, n, b);
        assert(bucket_count(t, n, b) == 0);
    }
    assert(candidate_rates()[0] == 23_976);
    assert(1_000_000int / 23_976int == 41);
}

} // verus!
