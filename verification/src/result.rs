//! The record that an analysis hands to its caller.

use crate::analysis::Analysis;
use crate::error::AnalysisError;
use crate::level::Level;
use vstd::prelude::*;

verus! {

/// What an analysis found: the level of the peak in thousandths of a
/// decibel on the adjusted scale, its frequency in thousandths of a hertz,
/// the warning verdict, and the chart as text where one was asked for.
#[derive(Clone, Debug, PartialEq, Eq)]
pub struct AnalysisResult {
    pub peak_value: Level,
    pub peak_frequency: u64,
    pub warning: bool,
    pub spectrum_image: Option<String>,
}

/// The text that the standard base64 alphabet, with padding, gives for
/// `bytes`.
pub uninterp spec fn base64_text(bytes: Seq<u8>) -> Seq<char>;

/// The number of characters of the base64 text of `length` bytes: four for
/// every three bytes begun.
pub open spec fn base64_length(length: nat) -> nat {
    4 * ((length + 2) / 3)
}

/// Calls `base64::Engine::encode` on the engine
/// `base64::engine::general_purpose::STANDARD`, which writes the standard
/// alphabet with padding. The contract names the text that the call
/// returns for the bytes it is given, and keeps out the inputs on which the
/// call panics: those whose text would be longer than an allocation can
/// be.
#[verifier::external_body]
fn base64_encode(bytes: &Vec<u8>) -> (text: String)
    requires
        base64_length(bytes@.len()) <= isize::MAX,
    ensures
        text@ == base64_text(bytes@),
{
    base64::Engine::encode(&base64::engine::general_purpose::STANDARD, bytes)
}

/// The image `bytes` as base64 text, for a place that takes text only.
/// Bytes whose text would be longer than an allocation can be are an
/// error.
pub fn encode_image_text(bytes: &Vec<u8>) -> (text: Result<String, AnalysisError>)
    ensures
        match text {
            Ok(t) => base64_length(bytes@.len()) <= isize::MAX && t@ == base64_text(bytes@),
            Err(e) => e == AnalysisError::Encode && base64_length(bytes@.len()) > isize::MAX,
        },
{
    let length = bytes.len();
    let groups = length / 3 + if length % 3 == 0 {
        0
    } else {
        1
    };
    if groups <= (isize::MAX as usize) / 4 {
        Ok(base64_encode(bytes))
    } else {
        Err(AnalysisError::Encode)
    }
}

/// Puts the peak, the verdict and the chart's text into one record. No
/// number is computed here.
pub fn assemble(analysis: &Analysis, spectrum_image: Option<String>) -> (result: AnalysisResult)
    ensures
        result.peak_value == analysis.peak.level,
        result.peak_frequency == analysis.peak.frequency,
        result.warning == analysis.warning,
        result.spectrum_image == spectrum_image,
{
    AnalysisResult {
        peak_value: analysis.peak.level,
        peak_frequency: analysis.peak.frequency,
        warning: analysis.warning,
        spectrum_image,
    }
}

} // verus!
