//! From a spectrum to its peak in a band and the warning verdict.

use crate::band::{lemma_selection_has_no_omissions, select_band, FrequencyBand};
use crate::error::AnalysisError;
use crate::peak::{detect_peak, lemma_peak_bin_is_unique, lemma_peak_of_selection};
use crate::spectrum::{Bin, Spectrum};
use crate::threshold::{exceeds_threshold, warns};
use vstd::prelude::*;

verus! {

/// The peak of a spectrum in a band, and whether it calls for a warning.
#[derive(Clone, Copy, Debug, PartialEq, Eq, Structural)]
pub struct Analysis {
    pub peak: Bin,
    pub warning: bool,
}

/// Finds the peak of `spectrum`, whose levels are taken as they are, among
/// the bins whose frequency lies in `band`, and compares the peak with
/// `warning_offset`, a level in thousandths of a decibel on the scale of
/// the spectrum. A band that holds no bin of the spectrum is an error.
pub fn analyze_adjusted(spectrum: &Spectrum, band: &FrequencyBand, warning_offset: i64) -> (outcome:
    Result<Analysis, AnalysisError>)
    ensures
        match outcome {
            Ok(analysis) => {
                &&& spectrum@.is_peak_bin(*band, analysis.peak.index as int)
                &&& analysis.peak.index == spectrum@.peak_bin(*band)
                &&& analysis.peak == spectrum@.peak(*band)
                &&& analysis.warning == warns(analysis.peak.level, warning_offset)
            },
            Err(e) => {
                &&& e == AnalysisError::EmptyBand
                &&& forall|k: int| !spectrum@.bin_in_band(*band, k)
            },
        },
{
    proof {
        use_type_invariant(spectrum);
    }
    match select_band(spectrum, band) {
        Ok(filtered) => {
            let peak = detect_peak(&filtered);
            proof {
                lemma_peak_of_selection(spectrum@, *band, peak);
                lemma_peak_bin_is_unique(spectrum@, *band, peak.index as int, peak.index as int);
            }
            Ok(Analysis { peak, warning: exceeds_threshold(&peak.level, warning_offset) })
        },
        Err(e) => {
            proof {
                assert forall|k: int| !spectrum@.bin_in_band(*band, k) by {
                    if spectrum@.bin_in_band(*band, k) {
                        lemma_selection_has_no_omissions(spectrum@, *band, k);
                    }
                }
            }
            Err(e)
        },
    }
}

/// Reads every level of `spectrum` from the median of all its levels,
/// finds the peak among the bins whose frequency lies in `band`, and
/// compares the peak with `warning_offset`, a level in thousandths of a
/// decibel on the adjusted scale.
///
/// The peak is the bin in the band with the highest adjusted level, the
/// one of the lowest frequency where several bins share that level. The
/// warning is raised where the peak lies strictly above the threshold. A
/// band that holds no bin of the spectrum is an error.
pub fn analyze(spectrum: &Spectrum, band: &FrequencyBand, warning_offset: i64) -> (outcome: Result<
    Analysis,
    AnalysisError,
>)
    ensures
        match outcome {
            Ok(analysis) => {
                &&& spectrum@.adjusted().is_peak_bin(*band, analysis.peak.index as int)
                &&& analysis.peak == spectrum@.adjusted().peak(*band)
                &&& analysis.warning == warns(analysis.peak.level, warning_offset)
            },
            Err(e) => {
                &&& e == AnalysisError::EmptyBand
                &&& forall|k: int| !spectrum@.bin_in_band(*band, k)
            },
        },
{
    let adjusted = spectrum.adjusted();
    let outcome = analyze_adjusted(&adjusted, band, warning_offset);
    proof {
        assert forall|k: int| spectrum@.bin_in_band(*band, k) == adjusted@.bin_in_band(
            *band,
            k,
        ) by {}
    }
    outcome
}

} // verus!
