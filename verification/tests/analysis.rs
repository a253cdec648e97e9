use audio_analysis_tool::analysis::{analyze, analyze_adjusted, Analysis};
use audio_analysis_tool::band::FrequencyBand;
use audio_analysis_tool::error::AnalysisError;
use audio_analysis_tool::level::Level;
use audio_analysis_tool::plot_frequency_spectrum_with_warning;
use audio_analysis_tool::render::chart::RenderConfig;
use audio_analysis_tool::result::{assemble, AnalysisResult};
use audio_analysis_tool::spectrum::{Bin, Spectrum};
use audio_analysis_tool::threshold::exceeds_threshold;

fn noisy_spectrum() -> Spectrum {
    let levels = vec![
        Level::Finite(-120_000),
        Level::Finite(-119_000),
        Level::Finite(-85_000),
        Level::Finite(-121_000),
        Level::Finite(-60_000),
        Level::Finite(-118_000),
        Level::Finite(-122_000),
        Level::Finite(-120_000),
    ];
    Spectrum::new(16000, 16, levels).unwrap()
}

#[test]
fn peak_at_the_threshold_gives_no_warning() {
    assert!(!exceeds_threshold(&Level::Finite(30_000), 30_000));
}

#[test]
fn peak_one_unit_above_the_threshold_warns() {
    assert!(exceeds_threshold(&Level::Finite(30_001), 30_000));
}

#[test]
fn peak_below_the_threshold_gives_no_warning() {
    assert!(!exceeds_threshold(&Level::Finite(29_999), 30_000));
    assert!(!exceeds_threshold(&Level::Finite(i64::MIN), i64::MIN));
}

#[test]
fn empty_bin_never_warns() {
    assert!(!exceeds_threshold(&Level::NegInfinity, 30_000));
    assert!(!exceeds_threshold(&Level::NegInfinity, 0));
    assert!(!exceeds_threshold(&Level::NegInfinity, i64::MIN));
}

#[test]
fn infinite_peak_always_warns() {
    assert!(exceeds_threshold(&Level::PosInfinity, i64::MAX));
}

#[test]
fn analyze_reads_levels_from_the_median() {
    // ascending: -122, -121, -120, -120, -119, -118, -85, -60; the median is -119
    let spectrum = noisy_spectrum();
    let band = FrequencyBand { low: 1_000_000, high: 3_000_000 };
    assert_eq!(
        analyze(&spectrum, &band, 30_000),
        Ok(Analysis {
            peak: Bin { index: 2, frequency: 2_000_000, level: Level::Finite(34_000) },
            warning: true,
        })
    );
    assert_eq!(
        analyze(&spectrum, &band, 34_000),
        Ok(Analysis {
            peak: Bin { index: 2, frequency: 2_000_000, level: Level::Finite(34_000) },
            warning: false,
        })
    );
}

#[test]
fn analyze_looks_only_at_the_band() {
    let spectrum = noisy_spectrum();
    let band = FrequencyBand { low: 5_000_000, high: 8_000_000 };
    assert_eq!(
        analyze(&spectrum, &band, 0),
        Ok(Analysis {
            peak: Bin { index: 5, frequency: 5_000_000, level: Level::Finite(1_000) },
            warning: true,
        })
    );
    let band = FrequencyBand { low: 6_000_000, high: 8_000_000 };
    assert_eq!(
        analyze(&spectrum, &band, 0),
        Ok(Analysis {
            peak: Bin { index: 7, frequency: 7_000_000, level: Level::Finite(-1_000) },
            warning: false,
        })
    );
}

#[test]
fn analyze_adjusted_takes_the_levels_as_they_are() {
    let spectrum = noisy_spectrum();
    let band = FrequencyBand { low: 0, high: 8_000_000 };
    assert_eq!(
        analyze_adjusted(&spectrum, &band, -70_000),
        Ok(Analysis {
            peak: Bin { index: 4, frequency: 4_000_000, level: Level::Finite(-60_000) },
            warning: true,
        })
    );
}

#[test]
fn analyze_of_an_empty_band_is_an_error() {
    let spectrum = noisy_spectrum();
    let band = FrequencyBand { low: 20_000_000, high: 30_000_000 };
    assert_eq!(analyze(&spectrum, &band, 0), Err(AnalysisError::EmptyBand));
}

#[test]
fn analyze_of_silence_gives_no_warning() {
    let spectrum = Spectrum::new(16000, 64, vec![Level::NegInfinity; 32]).unwrap();
    let band = FrequencyBand { low: 1_000_000, high: 4_000_000 };
    for offset in [i64::MIN, -1_000_000, 0, 30_000, i64::MAX] {
        assert_eq!(
            analyze(&spectrum, &band, offset),
            Ok(Analysis {
                peak: Bin { index: 4, frequency: 1_000_000, level: Level::NegInfinity },
                warning: false,
            })
        );
    }
}

#[test]
fn analyze_reports_the_lower_of_two_equal_bins() {
    let levels = vec![
        Level::Finite(0),
        Level::Finite(50),
        Level::Finite(0),
        Level::Finite(50),
        Level::Finite(0),
    ];
    let spectrum = Spectrum::new(10, 10, levels).unwrap();
    let band = FrequencyBand { low: 0, high: 5_000 };
    assert_eq!(
        analyze(&spectrum, &band, 0),
        Ok(Analysis {
            peak: Bin { index: 1, frequency: 1_000, level: Level::Finite(50) },
            warning: true,
        })
    );
}

#[test]
fn assemble_packs_the_fields_unchanged() {
    let analysis = Analysis {
        peak: Bin { index: 7, frequency: 1_234_567, level: Level::Finite(-42) },
        warning: true,
    };
    assert_eq!(
        assemble(&analysis, None),
        AnalysisResult {
            peak_value: Level::Finite(-42),
            peak_frequency: 1_234_567,
            warning: true,
            spectrum_image: None,
        }
    );
    assert_eq!(
        assemble(&analysis, Some("QUJD".to_string())),
        AnalysisResult {
            peak_value: Level::Finite(-42),
            peak_frequency: 1_234_567,
            warning: true,
            spectrum_image: Some("QUJD".to_string()),
        }
    );
}

#[test]
fn plot_without_a_chart_gives_the_numbers_only() {
    let spectrum = noisy_spectrum();
    assert_eq!(
        plot_frequency_spectrum_with_warning(&spectrum, 30_000, (1_000_000, 4_000_000), None),
        Ok(AnalysisResult {
            peak_value: Level::Finite(59_000),
            peak_frequency: 4_000_000,
            warning: true,
            spectrum_image: None,
        })
    );
}

#[test]
fn plot_of_a_band_above_the_spectrum_is_an_empty_band() {
    let spectrum = Spectrum::new(16000, 16000, vec![Level::Finite(0); 8000]).unwrap();
    assert_eq!(
        plot_frequency_spectrum_with_warning(&spectrum, 30_000, (20_000_000, 30_000_000), None),
        Err(AnalysisError::EmptyBand)
    );
    assert_eq!(
        plot_frequency_spectrum_with_warning(
            &spectrum,
            30_000,
            (20_000_000, 30_000_000),
            Some(RenderConfig { width: 0, height: 0 })
        ),
        Err(AnalysisError::EmptyBand)
    );
}

#[test]
fn plot_with_the_ends_swapped_is_an_empty_band() {
    let spectrum = noisy_spectrum();
    assert_eq!(
        plot_frequency_spectrum_with_warning(&spectrum, 30_000, (4_000_000, 1_000_000), None),
        Err(AnalysisError::EmptyBand)
    );
}

#[test]
fn plot_on_a_canvas_without_pixels_is_a_render_error() {
    let spectrum = noisy_spectrum();
    for (width, height) in [(0, 720), (1280, 0), (16385, 720), (1280, 16385)] {
        assert_eq!(
            plot_frequency_spectrum_with_warning(
                &spectrum,
                30_000,
                (1_000_000, 4_000_000),
                Some(RenderConfig { width, height })
            ),
            Err(AnalysisError::Render)
        );
    }
}

#[test]
fn describe_names_each_error() {
    assert_eq!(AnalysisError::DegenerateInput.describe(), "degenerate input");
    assert_eq!(AnalysisError::EmptyBand.describe(), "empty band");
    assert_eq!(AnalysisError::Render.describe(), "render error");
    assert_eq!(AnalysisError::Encode.describe(), "encode error");
}
