//! Finding the peak of the bins in a band.

use crate::band::{
    indices_increase, lemma_selection_has_no_extras, lemma_selection_has_no_omissions,
    FilteredSpectrum, FrequencyBand,
};
use crate::spectrum::{Bin, SpectrumView};
use vstd::prelude::*;

verus! {

/// `peak` is the bin of `bins` with the highest level, and among several
/// bins with that level the one of the lowest frequency.
pub open spec fn is_peak_of(bins: Seq<Bin>, peak: Bin) -> bool {
    &&& bins.contains(peak)
    &&& forall|j: int| 0 <= j < bins.len() ==> (#[trigger] bins[j]).level.le(peak.level)
    &&& forall|j: int|
        0 <= j < bins.len() && (#[trigger] bins[j]).level == peak.level ==> peak.index
            <= bins[j].index
}

impl SpectrumView {
    /// Bin `k` lies in `band`, no bin in `band` has a higher level, and
    /// every bin in `band` of a lower frequency has a lower level.
    pub open spec fn is_peak_bin(self, band: FrequencyBand, k: int) -> bool {
        &&& self.bin_in_band(band, k)
        &&& forall|j: int| #[trigger]
            self.bin_in_band(band, j) ==> self.levels[j].le(self.levels[k])
        &&& forall|j: int| #[trigger]
            self.bin_in_band(band, j) && j < k ==> self.levels[j].lt(self.levels[k])
    }

    /// The number of the peak bin in `band`, where the band holds a bin.
    pub open spec fn peak_bin(self, band: FrequencyBand) -> int {
        choose|k: int| self.is_peak_bin(band, k)
    }

    /// The peak bin in `band`, where the band holds a bin.
    pub open spec fn peak(self, band: FrequencyBand) -> Bin {
        self.bin(self.peak_bin(band))
    }
}

/// The bin with the highest level. Where several bins share that level,
/// the one of the lowest frequency is the peak.
pub fn detect_peak(filtered: &FilteredSpectrum) -> (peak: Bin)
    ensures
        is_peak_of(filtered@, peak),
{
    let bins = filtered.bins();
    let mut peak = bins[0];
    let ghost mut at: int = 0;
    let mut i: usize = 1;
    while i < bins.len()
        invariant
            1 <= i <= bins.len(),
            0 <= at < i,
            peak == bins[at],
            forall|j: int| 0 <= j < i ==> (#[trigger] bins[j]).level.le(peak.level),
            forall|j: int| 0 <= j < at ==> (#[trigger] bins[j]).level.lt(peak.level),
        decreases bins.len() - i,
    {
        if bins[i].level.exceeds(&peak.level) {
            peak = bins[i];
            proof {
                at = i as int;
            }
        }
        i += 1;
    }
    proof {
        assert(bins@[at] == peak);
        assert forall|j: int|
            0 <= j < bins.len() && (#[trigger] bins[j]).level == peak.level implies peak.index
            <= bins[j].index by {
            if j < at {
                assert(bins[j].level.lt(peak.level));
            } else if j > at {
                assert(bins[at].index < bins[j].index);
            }
        }
    }
    peak
}

/// Among bins whose numbers grow strictly only one bin is the peak: which
/// of several bins with the highest level is reported does not depend on
/// how the peak was found.
pub proof fn lemma_peak_is_unique(bins: Seq<Bin>, a: Bin, b: Bin)
    requires
        indices_increase(bins),
        is_peak_of(bins, a),
        is_peak_of(bins, b),
    ensures
        a == b,
{
    let i = choose|i: int| 0 <= i < bins.len() && bins[i] == a;
    let j = choose|j: int| 0 <= j < bins.len() && bins[j] == b;
    assert(bins[i].level.le(b.level));
    assert(bins[j].level.le(a.level));
    assert(a.level == b.level);
    assert(b.index <= bins[i].index);
    assert(a.index <= bins[j].index);
    if i < j {
        assert(bins[i].index < bins[j].index);
    } else if j < i {
        assert(bins[j].index < bins[i].index);
    }
}

/// The peak of the bins that a band selects is the peak bin of the
/// spectrum in that band: its level is the maximum over the whole band,
/// and every bin in the band below it in frequency is below it in level.
pub proof fn lemma_peak_of_selection(spectrum: SpectrumView, band: FrequencyBand, peak: Bin)
    requires
        spectrum.wf(),
        is_peak_of(spectrum.in_band(band), peak),
    ensures
        spectrum.is_peak_bin(band, peak.index as int),
        peak == spectrum.bin(peak.index as int),
{
    let kept = spectrum.in_band(band);
    let at = choose|i: int| 0 <= i < kept.len() && kept[i] == peak;
    lemma_selection_has_no_extras(spectrum, band, at);
    assert forall|j: int| #[trigger] spectrum.bin_in_band(band, j) implies spectrum.levels[j].le(
        peak.level,
    ) && (j < peak.index ==> spectrum.levels[j].lt(peak.level)) by {
        lemma_selection_has_no_omissions(spectrum, band, j);
        let i = choose|i: int| 0 <= i < kept.len() && kept[i] == spectrum.bin(j);
        assert(kept[i].level.le(peak.level));
        if j < peak.index && kept[i].level == peak.level {
            assert(peak.index <= kept[i].index);
        }
    }
}

/// A band has at most one peak bin, and `peak_bin` names it.
pub proof fn lemma_peak_bin_is_unique(spectrum: SpectrumView, band: FrequencyBand, a: int, b: int)
    requires
        spectrum.is_peak_bin(band, a),
        spectrum.is_peak_bin(band, b),
    ensures
        a == b,
        a == spectrum.peak_bin(band),
{
    lemma_peak_bins_agree(spectrum, band, a, b);
    lemma_peak_bins_agree(spectrum, band, a, spectrum.peak_bin(band));
}

/// Two peak bins of one band are one bin.
proof fn lemma_peak_bins_agree(spectrum: SpectrumView, band: FrequencyBand, a: int, b: int)
    requires
        spectrum.is_peak_bin(band, a),
        spectrum.is_peak_bin(band, b),
    ensures
        a == b,
{
    if a < b {
        assert(spectrum.levels[a].lt(spectrum.levels[b]));
        assert(spectrum.levels[b].le(spectrum.levels[a]));
    } else if b < a {
        assert(spectrum.levels[b].lt(spectrum.levels[a]));
        assert(spectrum.levels[a].le(spectrum.levels[b]));
    }
}

} // verus!
