use dictate::audio::{resample_output_len, resample_position, samples_per_bar, level_windows};

#[test]
fn resample_length_identity_at_equal_rates() {
    assert_eq!(resample_output_len(4800, 16000, 16000), 4800);
    assert_eq!(resample_output_len(0, 48000, 16000), 0);
}

#[test]
fn resample_length_is_floor_of_scaled_length() {
    // |resample(x, a, b)| == floor(|x| * b / a)
    assert_eq!(resample_output_len(48000, 48000, 16000), 16000);
    assert_eq!(resample_output_len(44100, 44100, 16000), 16000);
    assert_eq!(resample_output_len(1001, 44100, 16000), 1001 * 16000 / 44100);
    assert_eq!(resample_output_len(7, 3, 2), 4);
}

#[test]
fn resample_positions_walk_the_input() {
    // downsampling 3:1, output sample i reads source position 3 i
    let (fl, rem) = resample_position(5, 48000, 16000);
    assert_eq!(fl, 15);
    assert_eq!(rem, 0);
    // a fractional ratio leaves a remainder over the target rate
    let (fl, rem) = resample_position(1, 44100, 16000);
    assert_eq!(fl, 2);
    assert_eq!(rem, 12100);
}

#[test]
fn thirty_three_ms_of_samples_per_bar() {
    assert_eq!(samples_per_bar(16000), 528);
    assert_eq!(samples_per_bar(48000), 1584);
    assert_eq!(samples_per_bar(44100), 1455);
}

#[test]
fn level_windows_cover_the_tail() {
    // plenty of data: the last num_bars windows of spb samples
    let spb = samples_per_bar(16000);
    let n = 48;
    let len = 100_000;
    let windows = level_windows(len, 16000, n);
    assert_eq!(windows.len(), n);
    let start = len - spb * n;
    for (i, (a, b)) in windows.iter().enumerate() {
        assert_eq!(*a, start + i * spb);
        assert_eq!(*b, start + (i + 1) * spb);
    }
}

#[test]
fn level_windows_short_buffer_pads_with_empty_bars() {
    let spb = samples_per_bar(16000);
    // two bars of data, asked for four
    let len = 2 * spb;
    let windows = level_windows(len, 16000, 4);
    assert_eq!(windows.len(), 4);
    assert_eq!(windows[0], (0, spb));
    assert_eq!(windows[1], (spb, 2 * spb));
    // the remaining bars carry no samples
    assert_eq!(windows[2], (len, len));
    assert_eq!(windows[3], (len, len));
}

#[test]
fn level_windows_support_rms_bars() {
    // the float arithmetic lives outside the core; the windows drive it
    let samples: Vec<f32> = vec![0.5; 1056];
    let windows = level_windows(samples.len(), 16000, 4);
    let levels: Vec<f32> = windows
        .iter()
        .map(|(a, b)| {
            if a == b {
                0.0
            } else {
                let chunk = &samples[*a..*b];
                (chunk.iter().map(|s| s * s).sum::<f32>() / chunk.len() as f32).sqrt()
            }
        })
        .collect();
    assert_eq!(levels.len(), 4);
    // bars with no data are zero, bars over the constant signal are positive
    assert_eq!(levels[2], 0.0);
    assert_eq!(levels[3], 0.0);
    assert!((levels[0] - 0.5).abs() < 1e-4);
    assert!(levels[1] > 0.0);
}

use dictate::audio::ResamplePlan;
use dictate::audio::resample_plan;

fn resample(input: &[f32], from_rate: u32, to_rate: u32) -> Vec<f32> {
    // the float interpolation the application runs over the plan
    match resample_plan(input.len(), from_rate, to_rate) {
        ResamplePlan::Unchanged => input.to_vec(),
        ResamplePlan::Interpolate { positions } => positions
            .iter()
            .map(|&(fl, rem)| {
                let frac = f64::from(rem) / f64::from(to_rate);
                if fl + 1 < input.len() {
                    (f64::from(input[fl]) * (1.0 - frac) + f64::from(input[fl + 1]) * frac) as f32
                } else {
                    input[fl]
                }
            })
            .collect(),
    }
}

#[test]
fn resample_identity_at_equal_rates() {
    let x = vec![0.25f32, -0.5, 0.75, 1.0];
    assert_eq!(resample(&x, 44100, 44100), x);
    assert_eq!(resample(&[], 48000, 16000), Vec::<f32>::new());
}

#[test]
fn resample_halves_a_buffer_cleanly() {
    let x: Vec<f32> = (0..8).map(|i| i as f32).collect();
    let y = resample(&x, 32000, 16000);
    assert_eq!(y.len(), 4);
    // a 2:1 ratio lands exactly on every other sample
    assert_eq!(y, vec![0.0, 2.0, 4.0, 6.0]);
}
