//! The sample formats of a decoded waveform and their full scale.

use vstd::arithmetic::power2::{
    lemma2_to64, lemma2_to64_rest, lemma_pow2_strictly_increases, lemma_pow2_unfold, pow2,
};
use vstd::prelude::*;

verus! {

/// How the samples of a waveform are stored.
#[derive(Clone, Copy, Debug, PartialEq, Eq, Structural)]
pub enum SampleFormat {
    /// Real numbers between -1 and 1.
    Normalized,
    /// Signed integers of the given number of bits.
    Integer { bits: u8 },
}

impl SampleFormat {
    /// The format has a full scale: an integer format has at least two
    /// bits and at most 64.
    pub open spec fn is_supported(self) -> bool {
        match self {
            SampleFormat::Normalized => true,
            SampleFormat::Integer { bits } => 2 <= bits <= 64,
        }
    }

    /// The largest amplitude that the format holds: 1 for normalized
    /// samples, and `2^(bits - 1) - 1` for integers of `bits` bits.
    pub open spec fn full_scale_value(self) -> nat {
        match self {
            SampleFormat::Normalized => 1,
            SampleFormat::Integer { bits } => (pow2((bits - 1) as nat) - 1) as nat,
        }
    }

    /// The largest amplitude that the format holds, the reference against
    /// which levels are measured, if the format has one.
    pub fn full_scale(&self) -> (scale: Option<u64>)
        ensures
            match scale {
                Some(s) => self.is_supported() && s == self.full_scale_value() && s >= 1,
                None => !self.is_supported(),
            },
    {
        match *self {
            SampleFormat::Normalized => Some(1),
            SampleFormat::Integer { bits } => {
                if bits < 2 || bits > 64 {
                    return None;
                }
                let mut power: u64 = 1;
                let mut i: u8 = 0;
                proof {
                    lemma2_to64();
                    lemma2_to64_rest();
                }
                while i < bits - 1
                    invariant
                        i <= bits - 1 <= 63,
                        power == pow2(i as nat),
                        pow2(63) == 0x8000_0000_0000_0000,
                    decreases bits - 1 - i,
                {
                    proof {
                        lemma_pow2_unfold((i + 1) as nat);
                        if i + 1 < 63 {
                            lemma_pow2_strictly_increases((i + 1) as nat, 63);
                        }
                    }
                    power = power * 2;
                    i = i + 1;
                }
                proof {
                    lemma_pow2_strictly_increases(0, (bits - 1) as nat);
                }
                Some(power - 1)
            },
        }
    }
}

} // verus!
