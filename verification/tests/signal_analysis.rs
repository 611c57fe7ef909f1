//! Signal analysis on whole numbers.
use rcore_os_virtio_snd::signal_analysis::{
    count_zero_crossings, peak_magnitude, rolling_windows, sample_steps, silence_class,
    split_interleaved_stereo, transient_positions, SilenceClass,
};

#[test]
fn test_split_stereo() {
    let (left, right) = split_interleaved_stereo(&[1, 2, 3, 4, 5, 6]);
    assert_eq!(left, vec![1, 3, 5]);
    assert_eq!(right, vec![2, 4, 6]);
}

#[test]
fn an_odd_sample_goes_to_the_left() {
    assert_eq!(split_interleaved_stereo(&[7, 8, 9]), (vec![7, 9], vec![8]));
    assert_eq!(split_interleaved_stereo(&[]), (vec![], vec![]));
}

#[test]
fn peaks() {
    assert_eq!(peak_magnitude(&[]), 0);
    assert_eq!(peak_magnitude(&[0, 16384, -16384, 8192]), 16384);
    assert_eq!(peak_magnitude(&[i16::MAX, i16::MIN]), 32768);
    assert_eq!(peak_magnitude(&[-3, 2]), 3);
}

#[test]
fn zero_crossings() {
    assert_eq!(count_zero_crossings(&[]), 0);
    assert_eq!(count_zero_crossings(&[-1]), 0);
    assert_eq!(count_zero_crossings(&[1, -1, 0, -2, -3, 4]), 4);
    assert_eq!(count_zero_crossings(&[0, 1, 0]), 0);
}

#[test]
fn steps_and_transients() {
    let samples = [0i16, 128, 30000, 31000, 0];
    assert_eq!(sample_steps(&samples), vec![128, 29872, 1000, 31000]);
    assert_eq!(sample_steps(&[i16::MIN, i16::MAX]), vec![65535]);
    assert_eq!(sample_steps(&[5]), vec![]);
    assert_eq!(sample_steps(&[]), vec![]);
    let sharp: Vec<bool> = sample_steps(&samples).iter().map(|&step| step > 16000).collect();
    assert_eq!(transient_positions(&sharp), vec![2, 4]);
    assert_eq!(transient_positions(&[]), vec![]);
}

#[test]
fn windows() {
    assert_eq!(rolling_windows(4, 2), vec![(0, 2), (1, 3), (2, 4)]);
    assert_eq!(rolling_windows(2, 2), vec![(0, 2)]);
    assert_eq!(rolling_windows(2, usize::MAX), vec![(0, 2)]);
    assert_eq!(rolling_windows(2, 0), vec![]);
    assert_eq!(rolling_windows(0, 2), vec![]);
}

#[test]
fn silence() {
    assert_eq!(silence_class(true, true), SilenceClass::Silent);
    assert_eq!(silence_class(true, false), SilenceClass::Silent);
    assert_eq!(silence_class(false, true), SilenceClass::NearSilent);
    assert_eq!(silence_class(false, false), SilenceClass::Active);
}

#[test]
fn splitting_loses_nothing() {
    for n in 0..10i16 {
        let samples: Vec<i16> = (0..n).map(|i| 100 - 7 * i).collect();
        let (left, right) = split_interleaved_stereo(&samples);
        let mut together = vec![];
        for i in 0..left.len() {
            together.push(left[i]);
            together.extend(right.get(i));
        }
        assert_eq!(together, samples);
    }
}
