//! The spectrum of a signal: one level for each frequency bin.
//!
//! A signal of `sample_count` samples taken at `sample_rate` samples a
//! second has `sample_count / 2` bins. Bin `k` stands for the frequency
//! `k * sample_rate / sample_count` hertz, so the frequencies start at zero
//! and grow with the bin's number.

use crate::band::FrequencyBand;
use crate::baseline::{adjust_levels, adjusted};
use crate::error::AnalysisError;
use crate::level::Level;
use vstd::prelude::*;

verus! {

/// How many units of a frequency given as an integer make one hertz.
pub const FREQUENCY_UNITS_PER_HERTZ: u64 = 1000;

/// One bin of a spectrum: its number, its frequency in thousandths of a
/// hertz, rounded down, and its level.
#[derive(Clone, Copy, Debug, PartialEq, Eq, Structural)]
pub struct Bin {
    pub index: usize,
    pub frequency: u64,
    pub level: Level,
}

/// What a [`Spectrum`] stands for.
pub struct SpectrumView {
    pub sample_rate: nat,
    pub sample_count: nat,
    pub levels: Seq<Level>,
}

impl SpectrumView {
    /// The signal has at least two samples, taken at a positive rate, and
    /// there is one level for each of its `sample_count / 2` bins. The
    /// rate and the number of samples are numbers that the machine holds.
    pub open spec fn wf(self) -> bool {
        &&& 0 < self.sample_rate <= u32::MAX
        &&& 2 <= self.sample_count <= usize::MAX
        &&& self.levels.len() == self.sample_count / 2
    }

    /// `k` is the number of a bin.
    pub open spec fn has_bin(self, k: int) -> bool {
        0 <= k < self.levels.len()
    }

    /// The frequency of bin `k` lies in `band`, both ends included. The
    /// frequency is the fraction `k * sample_rate / sample_count`, and the
    /// comparison is exact.
    pub open spec fn bin_in_band(self, band: FrequencyBand, k: int) -> bool {
        &&& self.has_bin(k)
        &&& band.low * self.sample_count <= k * self.sample_rate * 1000
        &&& k * self.sample_rate * 1000 <= band.high * self.sample_count
    }

    /// The frequency of bin `k` in thousandths of a hertz, rounded down.
    pub open spec fn frequency_millihertz(self, k: int) -> int {
        k * self.sample_rate * 1000 / (self.sample_count as int)
    }

    /// Bin `k` as a value.
    pub open spec fn bin(self, k: int) -> Bin {
        Bin {
            index: k as usize,
            frequency: self.frequency_millihertz(k) as u64,
            level: self.levels[k],
        }
    }

    /// All bins, from the lowest frequency to the highest.
    pub open spec fn bins(self) -> Seq<Bin> {
        Seq::new(self.levels.len(), |k: int| self.bin(k))
    }

    /// The test that a bin lies in `band`.
    pub open spec fn band_holds(self, band: FrequencyBand) -> spec_fn(Bin) -> bool {
        |bin: Bin| self.bin_in_band(band, bin.index as int)
    }

    /// The bins whose frequency lies in `band`, in their order.
    pub open spec fn in_band(self, band: FrequencyBand) -> Seq<Bin> {
        self.bins().filter(self.band_holds(band))
    }

    /// The same signal with every level read from the median of all
    /// levels.
    pub open spec fn adjusted(self) -> SpectrumView {
        SpectrumView {
            sample_rate: self.sample_rate,
            sample_count: self.sample_count,
            levels: adjusted(self.levels),
        }
    }
}

/// The levels of the bins of a signal.
pub struct Spectrum {
    sample_rate: u32,
    sample_count: usize,
    levels: Vec<Level>,
}

impl View for Spectrum {
    type V = SpectrumView;

    closed spec fn view(&self) -> SpectrumView {
        SpectrumView {
            sample_rate: self.sample_rate as nat,
            sample_count: self.sample_count as nat,
            levels: self.levels@,
        }
    }
}

/// The number of bins of a signal of `sample_count` samples taken at
/// `sample_rate` samples a second: half the number of samples, rounded
/// down. A signal of fewer than two samples, or one without a rate, has no
/// spectrum.
pub fn bin_count(sample_rate: u32, sample_count: usize) -> (bins: Result<usize, AnalysisError>)
    ensures
        bins == if sample_rate > 0 && sample_count >= 2 {
            Ok::<usize, AnalysisError>((sample_count / 2) as usize)
        } else {
            Err::<usize, AnalysisError>(AnalysisError::DegenerateInput)
        },
{
    if sample_rate > 0 && sample_count >= 2 {
        Ok(sample_count / 2)
    } else {
        Err(AnalysisError::DegenerateInput)
    }
}

impl Spectrum {
    #[verifier::type_invariant]
    pub open spec fn well_formed(&self) -> bool {
        self@.wf()
    }

    /// The spectrum of a signal of `sample_count` samples taken at
    /// `sample_rate` samples a second, with `levels[k]` the level of bin
    /// `k`. It exists where the signal has a spectrum and `levels` has one
    /// level for each of its bins.
    pub fn new(sample_rate: u32, sample_count: usize, levels: Vec<Level>) -> (spectrum: Result<
        Spectrum,
        AnalysisError,
    >)
        ensures
            match spectrum {
                Ok(s) => s@ == (SpectrumView {
                    sample_rate: sample_rate as nat,
                    sample_count: sample_count as nat,
                    levels: levels@,
                }) && s@.wf(),
                Err(e) => e == AnalysisError::DegenerateInput && !(SpectrumView {
                    sample_rate: sample_rate as nat,
                    sample_count: sample_count as nat,
                    levels: levels@,
                }).wf(),
            },
    {
        match bin_count(sample_rate, sample_count) {
            Ok(bins) => if levels.len() == bins {
                Ok(Spectrum { sample_rate, sample_count, levels })
            } else {
                Err(AnalysisError::DegenerateInput)
            },
            Err(e) => Err(e),
        }
    }

    /// The number of samples a second.
    pub fn sample_rate(&self) -> (rate: u32)
        ensures
            rate == self@.sample_rate,
            self@.wf(),
    {
        proof {
            use_type_invariant(self);
        }
        self.sample_rate
    }

    /// The number of samples of the signal.
    pub fn sample_count(&self) -> (count: usize)
        ensures
            count == self@.sample_count,
            self@.wf(),
    {
        proof {
            use_type_invariant(self);
        }
        self.sample_count
    }

    /// The levels, one for each bin.
    pub fn levels(&self) -> (levels: &Vec<Level>)
        ensures
            levels@ == self@.levels,
            self@.wf(),
    {
        proof {
            use_type_invariant(self);
        }
        &self.levels
    }

    /// The number of bins.
    pub fn len(&self) -> (bins: usize)
        ensures
            bins == self@.levels.len(),
            bins == self@.sample_count / 2,
            bins >= 1,
    {
        proof {
            use_type_invariant(self);
        }
        self.levels.len()
    }

    /// Whether the frequency of bin `k` lies in `band`. No bin has the
    /// number `k` if `k` is not below the number of bins.
    pub fn bin_in_band(&self, band: &FrequencyBand, k: usize) -> (inside: bool)
        ensures
            inside == self@.bin_in_band(*band, k as int),
    {
        proof {
            use_type_invariant(self);
        }
        if k >= self.levels.len() {
            return false;
        }
        let count = self.sample_count as u128;
        let rate = self.sample_rate as u128;
        let bin = k as u128;
        assert(bin * rate <= 0xffff_ffff_ffff_ffff * 0xffff_ffff) by (nonlinear_arith)
            requires
                bin <= 0xffff_ffff_ffff_ffff,
                rate <= 0xffff_ffff,
        ;
        assert((band.low as u128) * count <= 0xffff_ffff_ffff_ffff * 0xffff_ffff_ffff_ffff)
            by (nonlinear_arith)
            requires
                band.low <= 0xffff_ffff_ffff_ffff,
                count <= 0xffff_ffff_ffff_ffff,
        ;
        assert((band.high as u128) * count <= 0xffff_ffff_ffff_ffff * 0xffff_ffff_ffff_ffff)
            by (nonlinear_arith)
            requires
                band.high <= 0xffff_ffff_ffff_ffff,
                count <= 0xffff_ffff_ffff_ffff,
        ;
        let scaled = bin * rate * 1000;
        (band.low as u128) * count <= scaled && scaled <= (band.high as u128) * count
    }

    /// Bin `k`, if there is a bin of that number.
    pub fn bin(&self, k: usize) -> (bin: Option<Bin>)
        ensures
            match bin {
                Some(b) => self@.has_bin(k as int) && b == self@.bin(k as int),
                None => !self@.has_bin(k as int),
            },
    {
        match self.frequency_millihertz(k) {
            Some(frequency) => Some(Bin { index: k, frequency, level: self.levels[k] }),
            None => None,
        }
    }

    /// The frequency of bin `k` in thousandths of a hertz, rounded down, if
    /// there is a bin `k`.
    pub fn frequency_millihertz(&self, k: usize) -> (frequency: Option<u64>)
        ensures
            match frequency {
                Some(f) => self@.has_bin(k as int) && f == self@.frequency_millihertz(k as int),
                None => !self@.has_bin(k as int),
            },
    {
        proof {
            use_type_invariant(self);
        }
        if k >= self.levels.len() {
            return None;
        }
        let count = self.sample_count as u128;
        let rate = self.sample_rate as u128;
        let bin = k as u128;
        assert(bin * rate <= 0xffff_ffff_ffff_ffff * 0xffff_ffff) by (nonlinear_arith)
            requires
                bin <= 0xffff_ffff_ffff_ffff,
                rate <= 0xffff_ffff,
        ;
        let scaled = bin * rate * 1000;
        assert(scaled / count <= 0xffff_ffff * 1000) by (nonlinear_arith)
            requires
                scaled == bin * rate * 1000,
                bin < count,
                rate <= 0xffff_ffff,
                count > 0,
        ;
        Some((scaled / count) as u64)
    }

    /// All bins, from the lowest frequency to the highest.
    pub fn all_bins(&self) -> (bins: Vec<Bin>)
        ensures
            bins@ == self@.bins(),
    {
        let mut bins: Vec<Bin> = Vec::new();
        let mut k: usize = 0;
        while k < self.len()
            invariant
                k <= self@.levels.len(),
                bins.len() == k,
                forall|i: int| 0 <= i < k ==> #[trigger] bins[i] == self@.bin(i),
            decreases self@.levels.len() - k,
        {
            match self.bin(k) {
                Some(bin) => {
                    bins.push(bin);
                },
                None => {},
            }
            k += 1;
        }
        proof {
            assert(bins@ =~= self@.bins());
        }
        bins
    }

    /// The same signal with every level read from the median of all
    /// levels. The result is a new spectrum; `self` is left as it is.
    pub fn adjusted(&self) -> (shifted: Spectrum)
        ensures
            shifted@ == self@.adjusted(),
            shifted@.wf(),
    {
        proof {
            use_type_invariant(self);
        }
        let levels = adjust_levels(&self.levels);
        Spectrum { sample_rate: self.sample_rate, sample_count: self.sample_count, levels }
    }
}

/// The frequency of the first bin is zero, and of two bins the one with
/// the higher number has the higher frequency: the frequencies are
/// fractions over one denominator, and their numerators grow strictly.
/// Rounded down to thousandths of a hertz they still do not fall.
pub proof fn lemma_frequencies_increase(spectrum: SpectrumView, i: int, j: int)
    requires
        spectrum.wf(),
        0 <= i < j,
    ensures
        spectrum.frequency_millihertz(0) == 0,
        i * spectrum.sample_rate < j * spectrum.sample_rate,
        spectrum.frequency_millihertz(i) <= spectrum.frequency_millihertz(j),
{
    let rate = spectrum.sample_rate as int;
    let count = spectrum.sample_count as int;
    assert(i * rate < j * rate) by (nonlinear_arith)
        requires
            0 <= i < j,
            rate > 0,
    ;
    assert(0 * rate * 1000 / count == 0) by (nonlinear_arith)
        requires
            count > 0,
    ;
    assert(i * rate * 1000 / count <= j * rate * 1000 / count) by (nonlinear_arith)
        requires
            i * rate < j * rate,
            count > 0,
    ;
}

} // verus!
