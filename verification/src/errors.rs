//! The error taxonomy of the statistical engine. Every failure is
//! request-scoped and recoverable by the caller.

use vstd::prelude::*;

verus! {

#[derive(Clone, Copy, Debug, PartialEq, Eq, Structural)]
pub enum MlError {
    /// Below the minimum sample count for a stage.
    InsufficientData,
    /// `predict`/`detect` before a successful `train`.
    NotTrained,
    /// A degenerate regression system during a ridge fit.
    SingularMatrix,
    /// Zero-row input to feature extraction.
    EmptyInput,
    /// A normalizer `transform` before `fit`.
    NotFitted,
}

impl MlError {
    /// A short description, for callers that report errors as text.
    pub fn message(&self) -> (r: &'static str)
        ensures
            self is InsufficientData ==> r@ == "insufficient data"@,
            self is NotTrained ==> r@ == "model not trained"@,
            self is SingularMatrix ==> r@ == "singular matrix"@,
            self is EmptyInput ==> r@ == "empty dataset"@,
            self is NotFitted ==> r@ == "normalizer not fitted"@,
    {
        match self {
            MlError::InsufficientData => "insufficient data",
            MlError::NotTrained => "model not trained",
            MlError::SingularMatrix => "singular matrix",
            MlError::EmptyInput => "empty dataset",
            MlError::NotFitted => "normalizer not fitted",
        }
    }
}

} // verus!
