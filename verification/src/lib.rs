//! Spectral peak analysis of a decoded waveform.
//!
//! The library takes the spectrum of a signal as levels in fixed point,
//! one for each frequency bin, reads the levels from their median, finds
//! the peak within a band of frequencies, compares the peak with a warning
//! threshold, and draws the spectrum as a chart.

pub mod analysis;
pub mod band;
pub mod baseline;
pub mod error;
pub mod format;
pub mod level;
pub mod peak;
pub mod render;
pub mod result;
pub mod sorting;
pub mod spectrum;
pub mod threshold;

use crate::analysis::{analyze_adjusted, Analysis};
use crate::band::FrequencyBand;
use crate::error::AnalysisError;
use crate::render::chart::{chart, render_spectrum, RenderConfig};
use crate::render::bmp::bmp;
use crate::result::{assemble, base64_text, encode_image_text, AnalysisResult};
use crate::spectrum::{Spectrum, SpectrumView};
use crate::threshold::warns;
use vstd::prelude::*;

verus! {

/// The band that the pair `freq_range` stands for: its first number is the
/// low end, its second the high end, both in thousandths of a hertz.
pub open spec fn band_of(freq_range: (u64, u64)) -> FrequencyBand {
    FrequencyBand { low: freq_range.0, high: freq_range.1 }
}

/// The bitmap file of the chart that goes with an analysis of a spectrum
/// whose levels are adjusted already.
pub open spec fn chart_image(
    adjusted: SpectrumView,
    band: FrequencyBand,
    warning_offset: i64,
    config: RenderConfig,
) -> Seq<u8> {
    bmp(
        chart(
            adjusted,
            band,
            adjusted.peak(band),
            warning_offset,
            config.width as nat,
            config.height as nat,
        ),
    )
}

/// Analyses `spectrum` and, where `render` gives the size of a canvas,
/// draws the chart.
///
/// Every level is read from the median of all levels. The peak is the bin
/// with the highest adjusted level among the bins whose frequency lies in
/// `freq_range`, both ends included and given in thousandths of a hertz;
/// of several bins with that level it is the one of the lowest frequency.
/// The warning is raised where the peak lies strictly above
/// `warning_offset`, a level in thousandths of a decibel on the adjusted
/// scale. The chart is handed back as the base64 text of its bitmap file.
///
/// There is a whole result or an error: `EmptyBand` where the range holds
/// no bin, `Render` where the canvas cannot be drawn on. The bitmap file
/// of a canvas that can be drawn on is never too long to be turned into
/// text.
pub fn plot_frequency_spectrum_with_warning(
    spectrum: &Spectrum,
    warning_offset: i64,
    freq_range: (u64, u64),
    render: Option<RenderConfig>,
) -> (outcome: Result<AnalysisResult, AnalysisError>)
    ensures
        match outcome {
            Ok(result) => {
                let adjusted = spectrum@.adjusted();
                let band = band_of(freq_range);
                &&& adjusted.is_peak_bin(band, adjusted.peak_bin(band))
                &&& result.peak_value == adjusted.peak(band).level
                &&& result.peak_frequency == adjusted.peak(band).frequency
                &&& result.warning == warns(result.peak_value, warning_offset)
                &&& match render {
                    None => result.spectrum_image is None,
                    Some(config) => {
                        &&& config.is_drawable()
                        &&& result.spectrum_image matches Some(text)
                        &&& text@ == base64_text(
                            chart_image(adjusted, band, warning_offset, config),
                        )
                    },
                }
            },
            Err(AnalysisError::DegenerateInput) => false,
            Err(AnalysisError::EmptyBand) => forall|k: int|
                !spectrum@.bin_in_band(band_of(freq_range), k),
            Err(AnalysisError::Render) => {
                &&& exists|k: int| spectrum@.bin_in_band(band_of(freq_range), k)
                &&& render matches Some(config)
                &&& !config.is_drawable()
            },
            Err(AnalysisError::Encode) => false,
        },
{
    let band = FrequencyBand { low: freq_range.0, high: freq_range.1 };
    let adjusted = spectrum.adjusted();
    proof {
        assert forall|k: int| spectrum@.bin_in_band(band, k) == adjusted@.bin_in_band(band, k) by {}
    }
    let analysis: Analysis = match analyze_adjusted(&adjusted, &band, warning_offset) {
        Ok(analysis) => analysis,
        Err(e) => {
            return Err(e);
        },
    };
    proof {
        assert(adjusted@.bin_in_band(band, analysis.peak.index as int));
        assert(spectrum@.bin_in_band(band, analysis.peak.index as int));
    }
    match render {
        None => Ok(assemble(&analysis, None)),
        Some(config) => {
            let image = match render_spectrum(&adjusted, &band, &analysis, warning_offset, &config) {
                Ok(image) => image,
                Err(e) => {
                    return Err(e);
                },
            };
            match encode_image_text(&image) {
                Ok(text) => Ok(assemble(&analysis, Some(text))),
                Err(e) => Err(e),
            }
        },
    }
}

} // verus!
