//! The chart of a spectrum: its curve, the curve of the band, the
//! baseline, the peak and the warning threshold as lines, and a legend.

use crate::analysis::Analysis;
use crate::band::{lemma_selection_has_no_extras, select_band, FrequencyBand};
use crate::error::AnalysisError;
use crate::level::Level;
use crate::render::axes::{level_row, row_of_level};
use crate::render::canvas::{color_of, rgb, row_span, Canvas, CanvasView, MAX_DIMENSION};
use crate::render::curve::{curve_points, curve_region, draw_curve, plot_points};
use crate::render::bmp::{bmp, encode_bmp, lemma_bmp_length};
use crate::render::text::{
    append_fixed, append_level, append_str, append_unsigned_fixed, draw_text, fixed_text,
    level_text, text_region,
};
use crate::spectrum::{Bin, Spectrum, SpectrumView};
use vstd::prelude::*;
use vstd::string::StringSliceAdditionalSpecFns;

verus! {

/// The colour of the canvas where nothing is drawn.
pub const BACKGROUND: u32 = 0xffffff;

/// The colour of the line at level zero, the baseline after adjustment.
pub const BASELINE_COLOR: u32 = 0x808080;

/// The colour of the curve of the whole spectrum.
pub const SPECTRUM_COLOR: u32 = 0x1f77b4;

/// The colour of the curve of the bins in the band.
pub const BAND_COLOR: u32 = 0xff7f0e;

/// The colour of the line at the level of the peak.
pub const PEAK_COLOR: u32 = 0x2ca02c;

/// The colour of the line at the warning threshold.
pub const WARNING_COLOR: u32 = 0xd62728;

/// The column at which the lines of the legend start.
pub const LEGEND_LEFT: usize = 8;

/// The row at which the first line of the legend starts.
pub const LEGEND_TOP: usize = 8;

/// The distance in rows from one line of the legend to the next.
pub const LEGEND_LINE_HEIGHT: usize = 10;

/// The size of the canvas of a chart, in pixels.
#[derive(Clone, Copy, Debug, PartialEq, Eq, Structural)]
pub struct RenderConfig {
    pub width: u32,
    pub height: u32,
}

impl Default for RenderConfig {
    /// The usual size of a chart: 1280 by 720 pixels.
    fn default() -> (config: RenderConfig)
        ensures
            config == (RenderConfig { width: 1280, height: 720 }),
    {
        RenderConfig { width: 1280, height: 720 }
    }
}

impl RenderConfig {
    /// A canvas of this size can be drawn on.
    pub open spec fn is_drawable(self) -> bool {
        0 < self.width <= MAX_DIMENSION && 0 < self.height <= MAX_DIMENSION
    }

    /// The usual size of a chart: 1280 by 720 pixels.
    pub fn standard() -> (config: RenderConfig)
        ensures
            config == (RenderConfig { width: 1280, height: 720 }),
    {
        RenderConfig { width: 1280, height: 720 }
    }
}

/// The legend's line for the curve of the whole spectrum, with the range
/// of frequencies that the chart spans.
pub open spec fn spectrum_label(sample_rate: nat) -> Seq<u8> {
    "spectrum 0.00-".spec_bytes() + fixed_text((sample_rate * 500) as int) + " Hz".spec_bytes()
}

/// The legend's line for the curve of the band, with the band's two ends.
pub open spec fn band_label(band: FrequencyBand) -> Seq<u8> {
    "band ".spec_bytes() + fixed_text(band.low as int) + "-".spec_bytes() + fixed_text(
        band.high as int,
    ) + " Hz".spec_bytes()
}

/// The legend's line for the baseline.
pub open spec fn baseline_label() -> Seq<u8> {
    "baseline 0.00 dB".spec_bytes()
}

/// The legend's line for the peak, with its level and its frequency.
pub open spec fn peak_label(peak: Bin) -> Seq<u8> {
    "peak ".spec_bytes() + level_text(peak.level) + " dB at ".spec_bytes() + fixed_text(
        peak.frequency as int,
    ) + " Hz".spec_bytes()
}

/// The legend's line for the warning threshold, with its level.
pub open spec fn warning_label(warning_offset: i64) -> Seq<u8> {
    "warning ".spec_bytes() + fixed_text(warning_offset as int) + " dB".spec_bytes()
}

/// The chart without its legend on a canvas of `width` by `height`
/// pixels. Later layers cover earlier ones: the baseline, the curve of the
/// whole spectrum, the curve of the bins in `band`, the line at the level
/// of `peak`, the line at `warning_offset`.
pub open spec fn plot(
    spectrum: SpectrumView,
    band: FrequencyBand,
    peak: Bin,
    warning_offset: i64,
    width: nat,
    height: nat,
) -> CanvasView {
    let w = width as int;
    let h = height as int;
    let n = spectrum.sample_count as int;
    CanvasView::blank(width, height, rgb(BACKGROUND)).painted(
        row_span(row_of_level(Level::Finite(0), h), 0, w - 1),
        rgb(BASELINE_COLOR),
    ).painted(curve_region(curve_points(spectrum.bins(), n, w, h)), rgb(SPECTRUM_COLOR)).painted(
        curve_region(curve_points(spectrum.in_band(band), n, w, h)),
        rgb(BAND_COLOR),
    ).painted(row_span(row_of_level(peak.level, h), 0, w - 1), rgb(PEAK_COLOR)).painted(
        row_span(row_of_level(Level::Finite(warning_offset), h), 0, w - 1),
        rgb(WARNING_COLOR),
    )
}

/// `canvas` with the legend written over it: one line for each series, in
/// the colour of the series.
pub open spec fn with_legend(
    canvas: CanvasView,
    sample_rate: nat,
    band: FrequencyBand,
    peak: Bin,
    warning_offset: i64,
) -> CanvasView {
    let left = LEGEND_LEFT as int;
    let top = LEGEND_TOP as int;
    let step = LEGEND_LINE_HEIGHT as int;
    canvas.painted(text_region(spectrum_label(sample_rate), left, top), rgb(SPECTRUM_COLOR)).painted(
        text_region(band_label(band), left, top + step),
        rgb(BAND_COLOR),
    ).painted(text_region(baseline_label(), left, top + 2 * step), rgb(BASELINE_COLOR)).painted(
        text_region(peak_label(peak), left, top + 3 * step),
        rgb(PEAK_COLOR),
    ).painted(text_region(warning_label(warning_offset), left, top + 4 * step), rgb(WARNING_COLOR))
}

/// The chart of `spectrum` with the bins in `band` set off, the peak
/// `peak` and the threshold `warning_offset` marked, on a canvas of
/// `width` by `height` pixels.
pub open spec fn chart(
    spectrum: SpectrumView,
    band: FrequencyBand,
    peak: Bin,
    warning_offset: i64,
    width: nat,
    height: nat,
) -> CanvasView {
    with_legend(
        plot(spectrum, band, peak, warning_offset, width, height),
        spectrum.sample_rate,
        band,
        peak,
        warning_offset,
    )
}

/// Writes the legend over `canvas`.
fn draw_legend(
    canvas: Canvas,
    sample_rate: u32,
    band: &FrequencyBand,
    peak: &Bin,
    warning_offset: i64,
) -> (drawn: Canvas)
    ensures
        drawn@ == with_legend(canvas@, sample_rate as nat, *band, *peak, warning_offset),
{
    let mut line: Vec<u8> = Vec::new();
    append_str(&mut line, "spectrum 0.00-");
    append_unsigned_fixed(&mut line, (sample_rate as u64) * 500);
    append_str(&mut line, " Hz");
    proof {
        assert(line@ =~= spectrum_label(sample_rate as nat));
    }
    let drawn = draw_text(canvas, LEGEND_LEFT, LEGEND_TOP, &line, color_of(SPECTRUM_COLOR));

    let mut line: Vec<u8> = Vec::new();
    append_str(&mut line, "band ");
    append_unsigned_fixed(&mut line, band.low);
    append_str(&mut line, "-");
    append_unsigned_fixed(&mut line, band.high);
    append_str(&mut line, " Hz");
    proof {
        assert(line@ =~= band_label(*band));
    }
    let drawn = draw_text(
        drawn,
        LEGEND_LEFT,
        LEGEND_TOP + LEGEND_LINE_HEIGHT,
        &line,
        color_of(BAND_COLOR),
    );

    let mut line: Vec<u8> = Vec::new();
    append_str(&mut line, "baseline 0.00 dB");
    proof {
        assert(line@ =~= baseline_label());
    }
    let drawn = draw_text(
        drawn,
        LEGEND_LEFT,
        LEGEND_TOP + 2 * LEGEND_LINE_HEIGHT,
        &line,
        color_of(BASELINE_COLOR),
    );

    let mut line: Vec<u8> = Vec::new();
    append_str(&mut line, "peak ");
    append_level(&mut line, &peak.level);
    append_str(&mut line, " dB at ");
    append_unsigned_fixed(&mut line, peak.frequency);
    append_str(&mut line, " Hz");
    proof {
        assert(line@ =~= peak_label(*peak));
    }
    let drawn = draw_text(
        drawn,
        LEGEND_LEFT,
        LEGEND_TOP + 3 * LEGEND_LINE_HEIGHT,
        &line,
        color_of(PEAK_COLOR),
    );

    let mut line: Vec<u8> = Vec::new();
    append_str(&mut line, "warning ");
    append_fixed(&mut line, warning_offset);
    append_str(&mut line, " dB");
    proof {
        assert(line@ =~= warning_label(warning_offset));
    }
    draw_text(
        drawn,
        LEGEND_LEFT,
        LEGEND_TOP + 4 * LEGEND_LINE_HEIGHT,
        &line,
        color_of(WARNING_COLOR),
    )
}

/// Draws the chart of `spectrum`: its curve over the frequencies from zero
/// to half the sample rate, the curve of its bins in `band`, a line at
/// level zero, a line at the level of the peak of `analysis`, a line at
/// `warning_offset`, and the legend. A canvas without pixels, or one
/// beyond the limit in either dimension, is an error.
pub fn draw_chart(
    spectrum: &Spectrum,
    band: &FrequencyBand,
    analysis: &Analysis,
    warning_offset: i64,
    config: &RenderConfig,
) -> (drawn: Result<Canvas, AnalysisError>)
    ensures
        match drawn {
            Ok(canvas) => config.is_drawable() && canvas@ == chart(
                spectrum@,
                *band,
                analysis.peak,
                warning_offset,
                config.width as nat,
                config.height as nat,
            ),
            Err(e) => e == AnalysisError::Render && !config.is_drawable(),
        },
{
    let width = config.width as usize;
    let height = config.height as usize;
    let canvas = match Canvas::new(width, height, color_of(BACKGROUND)) {
        Ok(canvas) => canvas,
        Err(e) => {
            return Err(e);
        },
    };
    let count = spectrum.sample_count();
    let canvas = canvas.with_row_span(
        level_row(&Level::Finite(0), height),
        0,
        width - 1,
        color_of(BASELINE_COLOR),
    );
    let bins = spectrum.all_bins();
    let points = plot_points(&bins, count, width, height);
    let canvas = draw_curve(canvas, &points, color_of(SPECTRUM_COLOR));
    let points = match select_band(spectrum, band) {
        Ok(filtered) => {
            proof {
                assert forall|i: int| 0 <= i < filtered@.len() implies (#[trigger] filtered@[i]).index
                    < count / 2 by {
                    lemma_selection_has_no_extras(spectrum@, *band, i);
                }
            }
            plot_points(filtered.bins(), count, width, height)
        },
        Err(_) => {
            let none: Vec<Bin> = Vec::new();
            proof {
                assert(none@ =~= spectrum@.in_band(*band));
            }
            plot_points(&none, count, width, height)
        },
    };
    let canvas = draw_curve(canvas, &points, color_of(BAND_COLOR));
    let canvas = canvas.with_row_span(
        level_row(&analysis.peak.level, height),
        0,
        width - 1,
        color_of(PEAK_COLOR),
    );
    let canvas = canvas.with_row_span(
        level_row(&Level::Finite(warning_offset), height),
        0,
        width - 1,
        color_of(WARNING_COLOR),
    );
    Ok(draw_legend(canvas, spectrum.sample_rate(), band, &analysis.peak, warning_offset))
}

/// The chart of `spectrum` as a bitmap file.
pub fn render_spectrum(
    spectrum: &Spectrum,
    band: &FrequencyBand,
    analysis: &Analysis,
    warning_offset: i64,
    config: &RenderConfig,
) -> (image: Result<Vec<u8>, AnalysisError>)
    ensures
        match image {
            Ok(bytes) => config.is_drawable() && bytes@ == bmp(
                chart(
                    spectrum@,
                    *band,
                    analysis.peak,
                    warning_offset,
                    config.width as nat,
                    config.height as nat,
                ),
            ),
            Err(e) => e == AnalysisError::Render && !config.is_drawable(),
        },
        image matches Ok(bytes) ==> bytes@.len() <= 805_355_574,
{
    match draw_chart(spectrum, band, analysis, warning_offset, config) {
        Ok(canvas) => {
            proof {
                use_type_invariant(&canvas);
                lemma_bmp_length(canvas@);
            }
            Ok(encode_bmp(&canvas))
        },
        Err(e) => Err(e),
    }
}

} // verus!
