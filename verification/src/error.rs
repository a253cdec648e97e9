//! The ways an analysis can fail.

use vstd::prelude::*;

verus! {

/// Why no result was produced. An analysis gives either a whole result or
/// one of these, never part of a result.
#[derive(Clone, Copy, Debug, PartialEq, Eq, Structural)]
pub enum AnalysisError {
    /// The input is not the spectrum of a signal of at least two samples
    /// taken at a positive rate.
    DegenerateInput,
    /// The frequency band holds no bin of the spectrum.
    EmptyBand,
    /// The canvas asked for cannot be drawn on.
    Render,
    /// The image cannot be turned into text.
    Encode,
}

impl AnalysisError {
    /// A short name of the failure, for a diagnostic stream.
    pub fn describe(&self) -> (text: String)
        ensures
            text@ == match *self {
                AnalysisError::DegenerateInput => "degenerate input"@,
                AnalysisError::EmptyBand => "empty band"@,
                AnalysisError::Render => "render error"@,
                AnalysisError::Encode => "encode error"@,
            },
    {
        match *self {
            AnalysisError::DegenerateInput => "degenerate input".to_owned(),
            AnalysisError::EmptyBand => "empty band".to_owned(),
            AnalysisError::Render => "render error".to_owned(),
            AnalysisError::Encode => "encode error".to_owned(),
        }
    }
}

} // verus!
