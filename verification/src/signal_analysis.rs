//! The part of signal analysis that works on whole numbers: peaks, steps, zero crossings, windows
//! and channels.
use vstd::prelude::*;

verus! {

/// How quiet a window of samples is.
#[derive(Debug, Clone, Copy, PartialEq, Eq, Structural)]
pub enum SilenceClass {
    Silent,
    NearSilent,
    Active,
}

/// Classifies a window. `below_half` tells whether its levels keep to half the threshold, and
/// `below_threshold` whether they keep to the threshold.
pub fn silence_class(below_half: bool, below_threshold: bool) -> (class: SilenceClass)
    ensures
        class is Silent <==> below_half,
        class is NearSilent <==> !below_half && below_threshold,
        class is Active <==> !below_half && !below_threshold,
{
    if below_half {
        SilenceClass::Silent
    } else if below_threshold {
        SilenceClass::NearSilent
    } else {
        SilenceClass::Active
    }
}

/// Whether `peak` is the greatest magnitude of the samples, or 0 where there are none.
pub open spec fn is_peak(samples: Seq<i16>, peak: int) -> bool {
    &&& forall|i: int|
        0 <= i < samples.len() ==> vstd::math::abs(#[trigger] samples[i] as int) <= peak
    &&& if samples.len() == 0 {
        peak == 0
    } else {
        exists|i: int|
            0 <= i < samples.len() && vstd::math::abs(#[trigger] samples[i] as int) == peak
    }
}

/// The greatest magnitude of the samples, 0 where there are none.
pub fn peak_magnitude(samples: &[i16]) -> (peak: u16)
    ensures
        is_peak(samples@, peak as int),
{
    let mut peak: u16 = 0;
    for i in 0..samples.len()
        invariant
            is_peak(samples@.take(i as int), peak as int),
    {
        let ghost seen = samples@.take(i as int);
        let ghost longer = samples@.take(i + 1);
        assert(longer =~= seen.push(samples@[i as int]));
        assert(longer[i as int] == samples@[i as int]);
        assert(forall|k: int| 0 <= k < i ==> #[trigger] longer[k] == seen[k]);
        let sample: i32 = samples[i] as i32;
        let level: u16 = if sample >= 0 {
            sample as u16
        } else {
            (-sample) as u16
        };
        if level > peak {
            peak = level;
        } else if i > 0 {
            let ghost at = choose|k: int|
                0 <= k < seen.len() && vstd::math::abs(#[trigger] seen[k] as int) == peak;
            assert(longer[at] == seen[at]);
        }
    }
    assert(samples@.take(samples@.len() as int) =~= samples@);
    peak
}

/// Whether the signal changes sign from one sample to the next.
pub open spec fn crosses_zero(before: i16, after: i16) -> bool {
    (before < 0) != (after < 0)
}

/// Number of sign changes in some samples.
pub open spec fn crossings(samples: Seq<i16>) -> nat
    decreases samples.len(),
{
    if samples.len() <= 1 {
        0
    } else {
        let rest = crossings(samples.drop_last());
        if crosses_zero(samples[samples.len() - 2], samples.last()) {
            rest + 1
        } else {
            rest
        }
    }
}

/// Counts the sign changes in some samples.
pub fn count_zero_crossings(samples: &[i16]) -> (count: usize)
    ensures
        count == crossings(samples@),
{
    if samples.len() <= 1 {
        return 0;
    }
    let mut count: usize = 0;
    for i in 1..samples.len()
        invariant
            1 <= i <= samples.len(),
            count == crossings(samples@.take(i as int)),
            count < i,
    {
        assert(samples@.take(i + 1).drop_last() =~= samples@.take(i as int));
        if (samples[i - 1] < 0) != (samples[i] < 0) {
            count = count + 1;
        }
    }
    assert(samples@.take(samples@.len() as int) =~= samples@);
    count
}

/// There are fewer sign changes than samples, so that their rate never exceeds 1.
pub proof fn law_crossings_are_few(samples: Seq<i16>)
    ensures
        samples.len() > 0 ==> crossings(samples) <= samples.len() - 1,
    decreases samples.len(),
{
    if samples.len() > 1 {
        law_crossings_are_few(samples.drop_last());
    }
}

/// How far each sample is from the one before it.
pub open spec fn spec_sample_steps(samples: Seq<i16>) -> Seq<u16> {
    Seq::new(
        if samples.len() == 0 {
            0
        } else {
            (samples.len() - 1) as nat
        },
        |i: int| vstd::math::abs(samples[i + 1] - samples[i]) as u16,
    )
}

/// Tells how far each sample is from the one before it.
pub fn sample_steps(samples: &[i16]) -> (steps: Vec<u16>)
    ensures
        steps@ == spec_sample_steps(samples@),
{
    let mut steps: Vec<u16> = Vec::new();
    if samples.len() == 0 {
        return steps;
    }
    for i in 1..samples.len()
        invariant
            1 <= i <= samples.len(),
            steps@ == spec_sample_steps(samples@).take(i - 1),
    {
        let change: i32 = samples[i] as i32 - samples[i - 1] as i32;
        let step: u16 = if change >= 0 {
            change as u16
        } else {
            (-change) as u16
        };
        steps.push(step);
        assert(steps@ =~= spec_sample_steps(samples@).take(i as int));
    }
    assert(spec_sample_steps(samples@).take(samples@.len() - 1) =~= spec_sample_steps(samples@));
    steps
}

/// The numbers of the samples that end a sharp step, in order: step `i` ends in sample `i + 1`.
pub open spec fn spec_transient_positions(sharp: Seq<bool>) -> Seq<usize>
    decreases sharp.len(),
{
    if sharp.len() == 0 {
        Seq::empty()
    } else {
        let rest = spec_transient_positions(sharp.drop_last());
        if sharp.last() {
            rest.push(sharp.len() as usize)
        } else {
            rest
        }
    }
}

/// Lists the samples that end a sharp step.
pub fn transient_positions(sharp: &[bool]) -> (positions: Vec<usize>)
    ensures
        positions@ == spec_transient_positions(sharp@),
{
    let mut positions: Vec<usize> = Vec::new();
    for i in 0..sharp.len()
        invariant
            positions@ == spec_transient_positions(sharp@.take(i as int)),
    {
        assert(sharp@.take(i + 1).drop_last() =~= sharp@.take(i as int));
        if sharp[i] {
            positions.push(i + 1);
        }
    }
    assert(sharp@.take(sharp@.len() as int) =~= sharp@);
    positions
}

/// A sample is listed if and only if the step into it is sharp, and the list is in strictly
/// ascending order.
pub proof fn law_transients(sharp: Seq<bool>)
    requires
        sharp.len() <= usize::MAX,
    ensures
        forall|position: usize|
            spec_transient_positions(sharp).contains(position) <==> 1 <= position <= sharp.len()
                && sharp[position - 1],
        forall|i: int, j: int|
            0 <= i < j < spec_transient_positions(sharp).len() ==> spec_transient_positions(
                sharp,
            )[i] < spec_transient_positions(sharp)[j],
    decreases sharp.len(),
{
    if sharp.len() > 0 {
        let shorter = sharp.drop_last();
        law_transients(shorter);
        let rest = spec_transient_positions(shorter);
        let all = spec_transient_positions(sharp);
        let last = sharp.len() as usize;
        assert forall|i: int| 0 <= i < rest.len() implies rest[i] < last by {
            assert(rest.contains(rest[i]));
        }
        assert forall|position: usize|
            all.contains(position) <==> 1 <= position <= sharp.len() && sharp[position - 1] by {
            if all.contains(position) {
                let i = all.index_of(position);
                if i < rest.len() {
                    assert(rest[i] == position);
                    assert(rest.contains(position));
                }
            }
            if 1 <= position <= sharp.len() && sharp[position - 1] {
                if position < last {
                    assert(rest.contains(position));
                    let i = rest.index_of(position);
                    assert(all[i] == position);
                } else {
                    assert(all.last() == position);
                }
            }
        }
    }
}

/// The windows of `window` samples that start one sample apart and end within `count` samples: a
/// start and an end each. Where the samples do not fill a window, the only one takes them all.
pub open spec fn spec_rolling_windows(count: usize, window: usize) -> Seq<(usize, usize)> {
    if window == 0 || count == 0 {
        Seq::empty()
    } else if window >= count {
        seq![(0, count)]
    } else {
        Seq::new((count - window + 1) as nat, |i: int| (i as usize, (i + window) as usize))
    }
}

/// Lists the windows of `window` samples within `count` samples.
pub fn rolling_windows(count: usize, window: usize) -> (windows: Vec<(usize, usize)>)
    ensures
        windows@ == spec_rolling_windows(count, window),
{
    let mut windows: Vec<(usize, usize)> = Vec::new();
    if window == 0 || count == 0 {
        return windows;
    }
    if window >= count {
        windows.push((0, count));
        assert(windows@ =~= seq![(0, count)]);
        return windows;
    }
    for start in 0..count - window + 1
        invariant
            0 < window < count,
            windows@ == spec_rolling_windows(count, window).take(start as int),
    {
        windows.push((start, start + window));
        assert(windows@ =~= spec_rolling_windows(count, window).take(start + 1));
    }
    assert(windows@ =~= spec_rolling_windows(count, window));
    windows
}

/// Every window lies within the samples, holds at least one of them and at most `window`; the
/// first one starts at the first sample and the last one ends with the last.
pub proof fn law_windows_lie_within(count: usize, window: usize)
    ensures
        forall|i: int|
            0 <= i < spec_rolling_windows(count, window).len() ==> {
                let (start, end) = #[trigger] spec_rolling_windows(count, window)[i];
                &&& start == i
                &&& start < end <= count
                &&& end - start <= window
            },
        window > 0 && count > 0 ==> {
            &&& spec_rolling_windows(count, window).len() > 0
            &&& spec_rolling_windows(count, window).last().1 == count
        },
{
}

/// The samples of the left channel: those in even places.
pub open spec fn left_channel(samples: Seq<i16>) -> Seq<i16> {
    Seq::new(((samples.len() + 1) / 2) as nat, |i: int| samples[2 * i])
}

/// The samples of the right channel: those in odd places.
pub open spec fn right_channel(samples: Seq<i16>) -> Seq<i16> {
    Seq::new(samples.len() / 2, |i: int| samples[2 * i + 1])
}

/// Splits interleaved samples into the left and the right channel. A sample without a partner at
/// the end goes to the left.
pub fn split_interleaved_stereo(samples: &[i16]) -> (channels: (Vec<i16>, Vec<i16>))
    ensures
        channels.0@ == left_channel(samples@),
        channels.1@ == right_channel(samples@),
{
    let mut left: Vec<i16> = Vec::with_capacity(samples.len() / 2);
    let mut right: Vec<i16> = Vec::with_capacity(samples.len() / 2);
    for i in 0..samples.len()
        invariant
            left@ == left_channel(samples@.take(i as int)),
            right@ == right_channel(samples@.take(i as int)),
    {
        if i % 2 == 0 {
            left.push(samples[i]);
        } else {
            right.push(samples[i]);
        }
        assert(left@ =~= left_channel(samples@.take(i + 1)));
        assert(right@ =~= right_channel(samples@.take(i + 1)));
    }
    assert(samples@.take(samples@.len() as int) =~= samples@);
    (left, right)
}

/// Two channels put together, sample by sample.
pub open spec fn interleaved(left: Seq<i16>, right: Seq<i16>) -> Seq<i16> {
    Seq::new(
        left.len() + right.len(),
        |i: int|
            if i % 2 == 0 {
                left[i / 2]
            } else {
                right[i / 2]
            },
    )
}

/// Splitting loses nothing: the two channels put together again are the samples.
pub proof fn law_split_loses_nothing(samples: Seq<i16>)
    ensures
        interleaved(left_channel(samples), right_channel(samples)) == samples,
{
    assert(interleaved(left_channel(samples), right_channel(samples)) =~= samples);
}

/// The peak of some samples is reached by one of them, above or below zero, and none goes beyond
/// it. No samples have the peak 0. So more samples never lower the peak, and turning the signal
/// upside down does not change it.
pub proof fn law_peak(samples: Seq<i16>, peak: int)
    requires
        is_peak(samples, peak),
    ensures
        forall|i: int| 0 <= i < samples.len() ==> -peak <= #[trigger] samples[i] <= peak,
        samples.len() > 0 ==> exists|i: int|
            0 <= i < samples.len() && (#[trigger] samples[i] == peak || samples[i] == -peak),
        samples.len() == 0 ==> peak == 0,
        forall|other: int| #[trigger] is_peak(samples, other) ==> other == peak,
        forall|more: Seq<i16>, higher: int| #[trigger]
            is_peak(samples + more, higher) ==> higher >= peak,
{
    if samples.len() > 0 {
        let at = choose|i: int|
            0 <= i < samples.len() && vstd::math::abs(#[trigger] samples[i] as int) == peak;
        assert forall|other: int| #[trigger] is_peak(samples, other) implies other == peak by {
            let there = choose|i: int|
                0 <= i < samples.len() && vstd::math::abs(#[trigger] samples[i] as int) == other;
            assert(vstd::math::abs(samples[there] as int) <= peak);
            assert(vstd::math::abs(samples[at] as int) <= other);
        }
        assert forall|more: Seq<i16>, higher: int| #[trigger]
            is_peak(samples + more, higher) implies higher >= peak by {
            assert((samples + more)[at] == samples[at]);
        }
    } else {
        assert forall|more: Seq<i16>, higher: int| #[trigger]
            is_peak(samples + more, higher) implies higher >= peak by {
            let all = samples + more;
            if all.len() > 0 {
                let there = choose|i: int|
                    0 <= i < all.len() && vstd::math::abs(#[trigger] all[i] as int) == higher;
                assert(vstd::math::abs(all[there] as int) == higher);
            }
        }
    }
}

/// One more sample adds a crossing exactly where it lies on the other side of zero than the sample
/// before it; zero itself counts as the upper side. Fewer than two samples have no crossing.
pub proof fn law_crossings_count_sign_changes(samples: Seq<i16>, next: i16)
    ensures
        samples.len() <= 1 ==> crossings(samples) == 0,
        samples.len() > 0 && (samples.last() < 0 && next >= 0 || samples.last() >= 0 && next < 0)
            ==> crossings(samples.push(next)) == crossings(samples) + 1,
        samples.len() > 0 && (samples.last() < 0 && next < 0 || samples.last() >= 0 && next >= 0)
            ==> crossings(samples.push(next)) == crossings(samples),
{
    assert(samples.push(next).drop_last() =~= samples);
}

/// There is one step fewer than samples, and each step is the distance between two neighbours, up
/// or down.
pub proof fn law_steps_join_neighbours(samples: Seq<i16>, i: int)
    requires
        0 <= i < samples.len() - 1,
    ensures
        spec_sample_steps(samples).len() == samples.len() - 1,
        samples[i + 1] >= samples[i] ==> samples[i] + spec_sample_steps(samples)[i] == samples[i
            + 1],
        samples[i + 1] < samples[i] ==> samples[i] - spec_sample_steps(samples)[i] == samples[i
            + 1],
{
}

/// Every window starts one sample after the one before and takes `window` samples, or all of them
/// where there are no more: it ends at the lesser of its start plus `window` and the number of
/// samples. There are just as many windows as it takes for the last one to end with the last
/// sample.
pub proof fn law_windows_are_full(count: usize, window: usize)
    ensures
        window == 0 || count == 0 ==> spec_rolling_windows(count, window).len() == 0,
        0 < window <= count ==> spec_rolling_windows(count, window).len() == count - window + 1,
        0 < count < window ==> spec_rolling_windows(count, window).len() == 1,
        forall|i: int|
            0 <= i < spec_rolling_windows(count, window).len() ==> {
                let (start, end) = #[trigger] spec_rolling_windows(count, window)[i];
                &&& start == i
                &&& start + window <= count ==> end == start + window
                &&& start + window > count ==> end == count
                &&& end - start == vstd::math::min(window as int, count as int)
            },
{
}

/// The left channel holds the samples in even places and the right one those in odd places, each in
/// order. A sample without a partner goes to the left.
pub proof fn law_channels_take_turns(samples: Seq<i16>)
    ensures
        left_channel(samples).len() + right_channel(samples).len() == samples.len(),
        0 <= left_channel(samples).len() - right_channel(samples).len() <= 1,
        forall|i: int|
            0 <= i < left_channel(samples).len() ==> #[trigger] left_channel(samples)[i]
                == samples[2 * i],
        forall|i: int|
            0 <= i < right_channel(samples).len() ==> #[trigger] right_channel(samples)[i]
                == samples[2 * i + 1],
{
}

} // verus!
