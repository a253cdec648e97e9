//! Restricting a spectrum to a band of frequencies.

use crate::error::AnalysisError;
use crate::spectrum::{Bin, Spectrum, SpectrumView};
use vstd::prelude::*;

verus! {

/// A closed interval of frequencies, its two ends in thousandths of a
/// hertz. An interval whose low end lies above its high end holds no
/// frequency.
#[derive(Clone, Copy, Debug, PartialEq, Eq, Structural)]
pub struct FrequencyBand {
    pub low: u64,
    pub high: u64,
}

impl FrequencyBand {
    /// The low end is not above the high end.
    pub open spec fn is_ordered(self) -> bool {
        self.low <= self.high
    }

    /// The band from `low` to `high`, both in thousandths of a hertz, if
    /// `low` is not above `high`.
    pub fn new(low: u64, high: u64) -> (band: Option<FrequencyBand>)
        ensures
            band == if (FrequencyBand { low, high }).is_ordered() {
                Some(FrequencyBand { low, high })
            } else {
                None
            },
    {
        if low <= high {
            Some(FrequencyBand { low, high })
        } else {
            None
        }
    }
}

/// The bin numbers of `bins` grow strictly.
pub open spec fn indices_increase(bins: Seq<Bin>) -> bool {
    forall|i: int, j: int| 0 <= i < j < bins.len() ==> (#[trigger] bins[i]).index < (
    #[trigger] bins[j]).index
}

/// The bins of a spectrum that lie in a band: at least one, in the order
/// of the spectrum.
pub struct FilteredSpectrum {
    bins: Vec<Bin>,
}

impl View for FilteredSpectrum {
    type V = Seq<Bin>;

    closed spec fn view(&self) -> Seq<Bin> {
        self.bins@
    }
}

impl FilteredSpectrum {
    #[verifier::type_invariant]
    pub open spec fn well_formed(&self) -> bool {
        self@.len() > 0 && indices_increase(self@)
    }

    /// The bins, from the lowest frequency to the highest.
    pub fn bins(&self) -> (bins: &Vec<Bin>)
        ensures
            bins@ == self@,
            bins@.len() > 0,
            indices_increase(bins@),
    {
        proof {
            use_type_invariant(self);
        }
        &self.bins
    }

    /// The number of bins.
    pub fn len(&self) -> (count: usize)
        ensures
            count == self@.len(),
            count > 0,
    {
        proof {
            use_type_invariant(self);
        }
        self.bins.len()
    }
}

/// The bins of `spectrum` whose frequency lies in `band`, both ends
/// included, in the order of the spectrum. A band that holds no bin is an
/// error.
pub fn select_band(spectrum: &Spectrum, band: &FrequencyBand) -> (selected: Result<
    FilteredSpectrum,
    AnalysisError,
>)
    ensures
        match selected {
            Ok(filtered) => filtered@ == spectrum@.in_band(*band) && filtered@.len() > 0,
            Err(e) => e == AnalysisError::EmptyBand && spectrum@.in_band(*band).len() == 0,
        },
{
    let total = spectrum.len();
    let mut bins: Vec<Bin> = Vec::new();
    let mut k: usize = 0;
    proof {
        assert(spectrum@.bins().take(0) =~= Seq::<Bin>::empty());
        Seq::<Bin>::empty().lemma_filter_len(spectrum@.band_holds(*band));
    }
    while k < total
        invariant
            total == spectrum@.levels.len(),
            k <= total,
            bins@ == spectrum@.bins().take(k as int).filter(spectrum@.band_holds(*band)),
            indices_increase(bins@),
            forall|i: int| 0 <= i < bins.len() ==> (#[trigger] bins[i]).index < k,
        decreases total - k,
    {
        proof {
            let all = spectrum@.bins();
            assert(all.take(k + 1) =~= all.take(k as int).push(all[k as int]));
            all.take(k as int).lemma_filter_push(all[k as int], spectrum@.band_holds(*band));
        }
        if spectrum.bin_in_band(band, k) {
            match spectrum.bin(k) {
                Some(bin) => {
                    bins.push(bin);
                },
                None => {},
            }
        }
        k += 1;
    }
    proof {
        assert(spectrum@.bins().take(k as int) =~= spectrum@.bins());
    }
    if bins.len() == 0 {
        Err(AnalysisError::EmptyBand)
    } else {
        Ok(FilteredSpectrum { bins })
    }
}

/// What the selection keeps lies in the band and is a bin of the
/// spectrum, unchanged.
pub proof fn lemma_selection_has_no_extras(spectrum: SpectrumView, band: FrequencyBand, i: int)
    requires
        spectrum.wf(),
        0 <= i < spectrum.in_band(band).len(),
    ensures
        spectrum.bin_in_band(band, spectrum.in_band(band)[i].index as int),
        spectrum.in_band(band)[i] == spectrum.bin(spectrum.in_band(band)[i].index as int),
        band.low * spectrum.sample_count <= spectrum.in_band(band)[i].index * spectrum.sample_rate
            * 1000 <= band.high * spectrum.sample_count,
{
    let kept = spectrum.in_band(band);
    spectrum.bins().lemma_filter_pred(spectrum.band_holds(band), i);
    assert(kept.contains(kept[i]));
    spectrum.bins().lemma_filter_contains_rev(spectrum.band_holds(band), kept[i]);
    let k = choose|k: int| 0 <= k < spectrum.bins().len() && spectrum.bins()[k] == kept[i];
    assert(spectrum.bins()[k] == spectrum.bin(k));
}

/// The selection omits no bin of the spectrum whose frequency lies in the
/// band.
pub proof fn lemma_selection_has_no_omissions(spectrum: SpectrumView, band: FrequencyBand, k: int)
    requires
        spectrum.wf(),
        spectrum.bin_in_band(band, k),
    ensures
        spectrum.in_band(band).contains(spectrum.bin(k)),
{
    assert(spectrum.bins()[k] == spectrum.bin(k));
    assert(spectrum.band_holds(band)(spectrum.bins()[k]));
    spectrum.bins().lemma_filter_contains(spectrum.band_holds(band), k);
}

/// The frequency of a bin in the band, rounded down to thousandths of a
/// hertz, still lies between the two ends of the band.
pub proof fn lemma_rounded_frequency_in_band(spectrum: SpectrumView, band: FrequencyBand, k: int)
    requires
        spectrum.wf(),
        spectrum.bin_in_band(band, k),
    ensures
        band.low <= spectrum.frequency_millihertz(k) <= band.high,
{
    let count = spectrum.sample_count as int;
    let scaled = k * spectrum.sample_rate * 1000;
    let low = band.low as int;
    let high = band.high as int;
    assert(low <= scaled / count) by (nonlinear_arith)
        requires
            low * count <= scaled,
            count > 0,
    ;
    assert(scaled / count <= high) by (nonlinear_arith)
        requires
            scaled <= high * count,
            count > 0,
    ;
}

} // verus!
