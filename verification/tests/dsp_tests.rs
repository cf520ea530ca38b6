use fluxvoice::dsp::{mixdown, resample, rms_level, LEVEL_FULL};

#[test]
fn mixdown_length_is_integer_division() {
    for ch in 1..6u32 {
        let samples: Vec<i16> = (0..13).map(|i| i as i16).collect();
        let out = mixdown(&samples, ch);
        assert_eq!(out.len(), samples.len() / ch as usize);
    }
}

#[test]
fn mixdown_averages_each_frame() {
    let samples: Vec<i16> = vec![1, 3, 5, 7];
    assert_eq!(mixdown(&samples, 2), vec![2, 6]);
    let trailing: Vec<i16> = vec![1, 2, 3];
    assert_eq!(mixdown(&trailing, 2), vec![1]);
    let three: Vec<i16> = vec![3, 6, 9, 30, 60, 90];
    assert_eq!(mixdown(&three, 3), vec![6, 60]);
}

#[test]
fn mixdown_single_channel_is_identity() {
    let samples: Vec<i16> = vec![5, -7, 0, 32767, -32768];
    assert_eq!(mixdown(&samples, 1), samples);
}

#[test]
fn mixdown_negative_mean_truncates_toward_zero() {
    let samples: Vec<i16> = vec![-3, -4];
    assert_eq!(mixdown(&samples, 2), vec![-3]);
}

#[test]
fn resample_equal_rates_is_identity() {
    let samples: Vec<i16> = vec![1, -2, 3, -4, 5];
    for r in [8000u32, 16000, 44100, 48000] {
        assert_eq!(resample(&samples, r, r), samples);
    }
}

#[test]
fn resample_output_length() {
    let samples: Vec<i16> = (0..441).map(|i| (i % 100) as i16).collect();
    let out = resample(&samples, 44100, 16000);
    assert_eq!(out.len(), 441 * 16000 / 44100);
    let up = resample(&samples, 8000, 16000);
    assert_eq!(up.len(), 441 * 2);
}

#[test]
fn resample_downsample_by_two_picks_every_other_sample() {
    let samples: Vec<i16> = vec![0, 10, 20, 30];
    assert_eq!(resample(&samples, 32000, 16000), vec![0, 20]);
}

#[test]
fn resample_upsample_interpolates_midpoints() {
    let samples: Vec<i16> = vec![0, 10];
    assert_eq!(resample(&samples, 8000, 16000), vec![0, 5, 10, 10]);
}

#[test]
fn resample_constant_input_stays_constant() {
    let samples: Vec<i16> = vec![123; 441];
    let out = resample(&samples, 44100, 16000);
    assert!(out.len() > 0);
    assert!(out.iter().all(|&s| s == 123));
    let neg: Vec<i16> = vec![-123; 441];
    let out = resample(&neg, 44100, 16000);
    assert!(out.iter().all(|&s| s == -123));
}

#[test]
fn rms_level_of_zero_buffer_is_zero() {
    let empty: Vec<i16> = Vec::new();
    assert_eq!(rms_level(&empty), 0);
    let zeros: Vec<i16> = vec![0; 5000];
    assert_eq!(rms_level(&zeros), 0);
}

#[test]
fn rms_level_of_constant_buffer() {
    let quiet: Vec<i16> = vec![1000; 2000];
    assert_eq!(rms_level(&quiet), 10000);
    let negative: Vec<i16> = vec![-1000; 50];
    assert_eq!(rms_level(&negative), 10000);
    let loud: Vec<i16> = vec![20000; 2000];
    assert_eq!(rms_level(&loud), LEVEL_FULL);
}

#[test]
fn rms_level_reads_only_the_last_window() {
    let mut buffer: Vec<i16> = vec![30000; 3000];
    buffer.extend(std::iter::repeat(1000).take(1000));
    assert_eq!(rms_level(&buffer), 10000);
}
