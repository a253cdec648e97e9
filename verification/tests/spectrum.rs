use audio_analysis_tool::band::{select_band, FrequencyBand};
use audio_analysis_tool::error::AnalysisError;
use audio_analysis_tool::format::SampleFormat;
use audio_analysis_tool::level::Level;
use audio_analysis_tool::peak::detect_peak;
use audio_analysis_tool::spectrum::{bin_count, Bin, Spectrum};

fn zeros(n: usize) -> Vec<Level> {
    vec![Level::Finite(0); n]
}

fn indices(bins: &Vec<Bin>) -> Vec<usize> {
    bins.iter().map(|bin| bin.index).collect()
}

#[test]
fn bin_count_is_half_the_number_of_samples() {
    assert_eq!(bin_count(16000, 16000), Ok(8000));
    assert_eq!(bin_count(16000, 9), Ok(4));
    assert_eq!(bin_count(1, 2), Ok(1));
}

#[test]
fn bin_count_rejects_fewer_than_two_samples() {
    assert_eq!(bin_count(16000, 0), Err(AnalysisError::DegenerateInput));
    assert_eq!(bin_count(16000, 1), Err(AnalysisError::DegenerateInput));
}

#[test]
fn bin_count_rejects_a_rate_of_zero() {
    assert_eq!(bin_count(0, 16000), Err(AnalysisError::DegenerateInput));
}

#[test]
fn spectrum_new_takes_one_level_for_each_bin() {
    let spectrum = Spectrum::new(8000, 9, zeros(4)).unwrap();
    assert_eq!(spectrum.len(), 4);
    assert_eq!(spectrum.sample_rate(), 8000);
    assert_eq!(spectrum.sample_count(), 9);
    assert_eq!(spectrum.levels(), &zeros(4));
}

#[test]
fn spectrum_new_rejects_degenerate_input() {
    assert!(matches!(Spectrum::new(8000, 1, Vec::new()), Err(AnalysisError::DegenerateInput)));
    assert!(matches!(Spectrum::new(8000, 0, Vec::new()), Err(AnalysisError::DegenerateInput)));
    assert!(matches!(Spectrum::new(0, 8, zeros(4)), Err(AnalysisError::DegenerateInput)));
    assert!(matches!(Spectrum::new(8000, 8, zeros(3)), Err(AnalysisError::DegenerateInput)));
    assert!(matches!(Spectrum::new(8000, 8, zeros(5)), Err(AnalysisError::DegenerateInput)));
}

#[test]
fn frequencies_start_at_zero_and_grow_by_the_bin_width() {
    let spectrum = Spectrum::new(16000, 16000, zeros(8000)).unwrap();
    assert_eq!(spectrum.frequency_millihertz(0), Some(0));
    assert_eq!(spectrum.frequency_millihertz(1), Some(1_000));
    assert_eq!(spectrum.frequency_millihertz(2000), Some(2_000_000));
    assert_eq!(spectrum.frequency_millihertz(7999), Some(7_999_000));
    assert_eq!(spectrum.frequency_millihertz(8000), None);
}

#[test]
fn frequency_is_rounded_down_to_a_thousandth_of_a_hertz() {
    let spectrum = Spectrum::new(44100, 7, zeros(3)).unwrap();
    assert_eq!(spectrum.frequency_millihertz(1), Some(6_300_000));
    let spectrum = Spectrum::new(1000, 6, zeros(3)).unwrap();
    assert_eq!(spectrum.frequency_millihertz(1), Some(166_666));
    assert_eq!(spectrum.frequency_millihertz(2), Some(333_333));
}

#[test]
fn frequencies_increase_strictly() {
    let spectrum = Spectrum::new(48000, 1000, zeros(500)).unwrap();
    let bins = spectrum.all_bins();
    assert_eq!(bins.len(), 500);
    assert_eq!(bins[0].frequency, 0);
    for pair in bins.windows(2) {
        assert!(pair[0].frequency < pair[1].frequency);
        assert_eq!(pair[0].index + 1, pair[1].index);
    }
}

#[test]
fn bin_holds_index_frequency_and_level() {
    let levels = vec![Level::Finite(1), Level::NegInfinity, Level::Finite(3), Level::Finite(4)];
    let spectrum = Spectrum::new(8000, 8, levels).unwrap();
    assert_eq!(
        spectrum.bin(1),
        Some(Bin { index: 1, frequency: 1_000_000, level: Level::NegInfinity })
    );
    assert_eq!(spectrum.bin(3), Some(Bin { index: 3, frequency: 3_000_000, level: Level::Finite(4) }));
    assert_eq!(spectrum.bin(4), None);
}

#[test]
fn adjusted_spectrum_is_new_and_leaves_the_old_one() {
    let levels = vec![Level::Finite(10), Level::Finite(30), Level::Finite(20)];
    let spectrum = Spectrum::new(8000, 6, levels.clone()).unwrap();
    let adjusted = spectrum.adjusted();
    assert_eq!(adjusted.levels(), &vec![Level::Finite(-10), Level::Finite(10), Level::Finite(0)]);
    assert_eq!(spectrum.levels(), &levels);
    assert_eq!(adjusted.sample_rate(), 8000);
    assert_eq!(adjusted.sample_count(), 6);
}

#[test]
fn band_new_wants_the_low_end_first() {
    assert_eq!(FrequencyBand::new(1, 2), Some(FrequencyBand { low: 1, high: 2 }));
    assert_eq!(FrequencyBand::new(2, 2), Some(FrequencyBand { low: 2, high: 2 }));
    assert_eq!(FrequencyBand::new(3, 2), None);
}

#[test]
fn band_includes_both_ends() {
    let spectrum = Spectrum::new(8000, 16, zeros(8)).unwrap();
    let band = FrequencyBand { low: 1_000_000, high: 2_000_000 };
    assert!(!spectrum.bin_in_band(&band, 1));
    assert!(spectrum.bin_in_band(&band, 2));
    assert!(spectrum.bin_in_band(&band, 3));
    assert!(spectrum.bin_in_band(&band, 4));
    assert!(!spectrum.bin_in_band(&band, 5));
    assert!(!spectrum.bin_in_band(&band, 8));
}

#[test]
fn band_is_compared_with_the_exact_frequency() {
    let spectrum = Spectrum::new(1000, 6, zeros(3)).unwrap();
    assert!(!spectrum.bin_in_band(&FrequencyBand { low: 0, high: 166_666 }, 1));
    assert!(spectrum.bin_in_band(&FrequencyBand { low: 0, high: 166_667 }, 1));
    assert!(spectrum.bin_in_band(&FrequencyBand { low: 166_666, high: 200_000 }, 1));
    assert!(!spectrum.bin_in_band(&FrequencyBand { low: 166_667, high: 200_000 }, 1));
}

#[test]
fn select_band_keeps_exactly_the_bins_in_the_band() {
    let levels: Vec<Level> = (0..8).map(|k| Level::Finite(k * 10)).collect();
    let spectrum = Spectrum::new(8000, 16, levels).unwrap();
    let band = FrequencyBand { low: 900_000, high: 2_600_000 };
    let filtered = select_band(&spectrum, &band).unwrap();
    assert_eq!(
        filtered.bins(),
        &vec![
            Bin { index: 2, frequency: 1_000_000, level: Level::Finite(20) },
            Bin { index: 3, frequency: 1_500_000, level: Level::Finite(30) },
            Bin { index: 4, frequency: 2_000_000, level: Level::Finite(40) },
            Bin { index: 5, frequency: 2_500_000, level: Level::Finite(50) },
        ]
    );
    assert_eq!(filtered.len(), 4);
}

#[test]
fn select_band_has_no_omissions_and_no_extras() {
    let spectrum = Spectrum::new(44100, 1001, zeros(500)).unwrap();
    let band = FrequencyBand { low: 1_234_567, high: 9_876_543 };
    let filtered = select_band(&spectrum, &band).unwrap();
    let kept = indices(filtered.bins());
    for k in 0..500usize {
        let scaled = (k as u128) * 44100 * 1000;
        let inside = 1_234_567u128 * 1001 <= scaled && scaled <= 9_876_543u128 * 1001;
        assert_eq!(kept.contains(&k), inside);
    }
    for bin in filtered.bins() {
        assert_eq!(Some(*bin), spectrum.bin(bin.index));
    }
}

#[test]
fn select_band_of_the_whole_range_keeps_every_bin() {
    let spectrum = Spectrum::new(8000, 16, zeros(8)).unwrap();
    let band = FrequencyBand { low: 0, high: 4_000_000 };
    let filtered = select_band(&spectrum, &band).unwrap();
    assert_eq!(indices(filtered.bins()), vec![0, 1, 2, 3, 4, 5, 6, 7]);
}

#[test]
fn select_band_above_the_spectrum_is_an_empty_band() {
    let spectrum = Spectrum::new(16000, 16000, zeros(8000)).unwrap();
    let band = FrequencyBand { low: 20_000_000, high: 30_000_000 };
    assert!(matches!(select_band(&spectrum, &band), Err(AnalysisError::EmptyBand)));
}

#[test]
fn select_band_between_two_bins_is_an_empty_band() {
    let spectrum = Spectrum::new(8000, 16, zeros(8)).unwrap();
    let band = FrequencyBand { low: 1_000_001, high: 1_499_999 };
    assert!(matches!(select_band(&spectrum, &band), Err(AnalysisError::EmptyBand)));
}

#[test]
fn select_band_with_the_ends_swapped_is_an_empty_band() {
    let spectrum = Spectrum::new(8000, 16, zeros(8)).unwrap();
    let band = FrequencyBand { low: 3_000_000, high: 1_000_000 };
    assert!(matches!(select_band(&spectrum, &band), Err(AnalysisError::EmptyBand)));
}

#[test]
fn detect_peak_finds_the_highest_level() {
    let levels = vec![
        Level::Finite(90),
        Level::Finite(-5),
        Level::Finite(12),
        Level::Finite(7),
        Level::Finite(80),
    ];
    let spectrum = Spectrum::new(10, 10, levels).unwrap();
    let filtered = select_band(&spectrum, &FrequencyBand { low: 1_000, high: 3_000 }).unwrap();
    assert_eq!(
        detect_peak(&filtered),
        Bin { index: 2, frequency: 2_000, level: Level::Finite(12) }
    );
}

#[test]
fn detect_peak_takes_the_lower_frequency_of_equal_levels() {
    let levels = vec![
        Level::Finite(1),
        Level::Finite(9),
        Level::Finite(3),
        Level::Finite(9),
        Level::Finite(9),
    ];
    let spectrum = Spectrum::new(10, 10, levels).unwrap();
    let filtered = select_band(&spectrum, &FrequencyBand { low: 0, high: 5_000 }).unwrap();
    assert_eq!(detect_peak(&filtered), Bin { index: 1, frequency: 1_000, level: Level::Finite(9) });
    let filtered = select_band(&spectrum, &FrequencyBand { low: 2_000, high: 5_000 }).unwrap();
    assert_eq!(detect_peak(&filtered), Bin { index: 3, frequency: 3_000, level: Level::Finite(9) });
}

#[test]
fn detect_peak_of_empty_bins_is_the_first_of_them() {
    let spectrum = Spectrum::new(10, 8, vec![Level::NegInfinity; 4]).unwrap();
    let filtered = select_band(&spectrum, &FrequencyBand { low: 1_000, high: 5_000 }).unwrap();
    assert_eq!(
        detect_peak(&filtered),
        Bin { index: 1, frequency: 1_250, level: Level::NegInfinity }
    );
}

#[test]
fn full_scale_of_integer_samples() {
    assert_eq!(SampleFormat::Integer { bits: 16 }.full_scale(), Some(32767));
    assert_eq!(SampleFormat::Integer { bits: 8 }.full_scale(), Some(127));
    assert_eq!(SampleFormat::Integer { bits: 24 }.full_scale(), Some(8_388_607));
    assert_eq!(SampleFormat::Integer { bits: 32 }.full_scale(), Some(2_147_483_647));
    assert_eq!(SampleFormat::Integer { bits: 2 }.full_scale(), Some(1));
    assert_eq!(SampleFormat::Integer { bits: 64 }.full_scale(), Some(i64::MAX as u64));
}

#[test]
fn full_scale_of_normalized_samples_is_one() {
    assert_eq!(SampleFormat::Normalized.full_scale(), Some(1));
}

#[test]
fn full_scale_of_an_impossible_width_is_none() {
    assert_eq!(SampleFormat::Integer { bits: 0 }.full_scale(), None);
    assert_eq!(SampleFormat::Integer { bits: 1 }.full_scale(), None);
    assert_eq!(SampleFormat::Integer { bits: 65 }.full_scale(), None);
}
