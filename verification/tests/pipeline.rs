use audio_analysis_tool::band::{select_band, FrequencyBand};
use audio_analysis_tool::level::Level;
use audio_analysis_tool::plot_frequency_spectrum_with_warning;
use audio_analysis_tool::spectrum::Spectrum;
use rustfft::num_complex::Complex;
use rustfft::FftPlanner;

fn to_level(decibels: f32) -> Level {
    if decibels == f32::NEG_INFINITY {
        Level::NegInfinity
    } else if decibels == f32::INFINITY {
        Level::PosInfinity
    } else {
        Level::Finite((decibels as f64 * 1000.0).round() as i64)
    }
}

fn spectrum_of(samples: &[f32], sample_rate: u32, full_scale: f32) -> Spectrum {
    let count = samples.len();
    let mut planner = FftPlanner::new();
    let fft = planner.plan_fft_forward(count);
    let mut buffer: Vec<Complex<f32>> = samples.iter().map(|&s| Complex::new(s, 0.0)).collect();
    fft.process(&mut buffer);
    let levels: Vec<Level> = buffer
        .iter()
        .take(count / 2)
        .map(|c| to_level(20.0 * (2.0 * c.norm() / count as f32 / full_scale).log10()))
        .collect();
    Spectrum::new(sample_rate, count, levels).unwrap()
}

fn sine(frequency: f64, sample_rate: u32, count: usize, amplitude: f64) -> Vec<f32> {
    (0..count)
        .map(|i| {
            let phase = 2.0 * std::f64::consts::PI * frequency * i as f64 / sample_rate as f64;
            (amplitude * phase.sin()) as f32
        })
        .collect()
}

#[test]
fn sine_of_2000_hz_peaks_at_2000_hz() {
    let samples = sine(2000.0, 16000, 16000, 32767.0);
    let spectrum = spectrum_of(&samples, 16000, 32767.0);
    let result =
        plot_frequency_spectrum_with_warning(&spectrum, 30_000, (1_000_000, 4_000_000), None)
            .unwrap();
    let bin_width = 1_000;
    assert!(result.peak_frequency >= 2_000_000 - bin_width);
    assert!(result.peak_frequency <= 2_000_000 + bin_width);
    assert_eq!(result.warning, result.peak_value.exceeds(&Level::Finite(30_000)));
    assert_eq!(result.spectrum_image, None);
}

#[test]
fn sine_stands_far_above_the_median_of_its_spectrum() {
    let samples = sine(2000.0, 16000, 16000, 32767.0);
    let spectrum = spectrum_of(&samples, 16000, 32767.0);
    let raw = spectrum.bin(2000).unwrap().level;
    assert!(raw.exceeds(&Level::Finite(-100)));
    assert!(raw.at_most(&Level::Finite(100)));
    let result =
        plot_frequency_spectrum_with_warning(&spectrum, 30_000, (1_000_000, 4_000_000), None)
            .unwrap();
    assert_eq!(result.peak_frequency, 2_000_000);
    assert!(result.peak_value.exceeds(&Level::Finite(60_000)));
    assert!(result.warning);
}

#[test]
fn sine_between_two_bins_peaks_within_one_bin_width() {
    let sample_rate = 16000;
    let count = 4096;
    let frequency = 1234.5;
    let samples = sine(frequency, sample_rate, count, 1000.0);
    let spectrum = spectrum_of(&samples, sample_rate, 32767.0);
    let band = (500_000, 3_000_000);
    let result = plot_frequency_spectrum_with_warning(&spectrum, 30_000, band, None).unwrap();
    let bin_width = 16_000_000.0 / 4096.0;
    let distance = (result.peak_frequency as f64 - frequency * 1000.0).abs();
    assert!(distance <= bin_width);

    let adjusted = spectrum.adjusted();
    let filtered = select_band(&adjusted, &FrequencyBand { low: band.0, high: band.1 }).unwrap();
    for bin in filtered.bins() {
        assert!(bin.level.at_most(&result.peak_value));
    }
    assert!(filtered.bins().iter().any(|bin| bin.level == result.peak_value));
}

#[test]
fn silent_buffer_gives_no_warning() {
    let samples = vec![0.0f32; 1024];
    let spectrum = spectrum_of(&samples, 16000, 32767.0);
    assert_eq!(spectrum.levels(), &vec![Level::NegInfinity; 512]);
    for offset in [-200_000, 0, 30_000] {
        let result =
            plot_frequency_spectrum_with_warning(&spectrum, offset, (1_000_000, 4_000_000), None)
                .unwrap();
        assert_eq!(result.peak_value, Level::NegInfinity);
        assert!(!result.warning);
    }
}

#[test]
fn median_of_an_adjusted_spectrum_is_zero() {
    let mut samples = sine(440.0, 8000, 2000, 12000.0);
    let mut seed: u32 = 7;
    for sample in samples.iter_mut() {
        seed = seed.wrapping_mul(1664525).wrapping_add(1013904223);
        *sample += ((seed >> 16) as f32 / 65536.0 - 0.5) * 40.0;
    }
    let spectrum = spectrum_of(&samples, 8000, 32767.0);
    let adjusted = spectrum.adjusted();
    let mut levels: Vec<i64> = adjusted
        .levels()
        .iter()
        .map(|level| match level {
            Level::Finite(v) => *v,
            _ => panic!("a noisy signal has no empty bin"),
        })
        .collect();
    levels.sort();
    assert_eq!(levels[levels.len() / 2], 0);
}

#[test]
fn band_above_half_the_sample_rate_is_empty() {
    let samples = sine(2000.0, 16000, 16000, 32767.0);
    let spectrum = spectrum_of(&samples, 16000, 32767.0);
    assert_eq!(
        plot_frequency_spectrum_with_warning(&spectrum, 30_000, (20_000_000, 30_000_000), None),
        Err(audio_analysis_tool::error::AnalysisError::EmptyBand)
    );
}
