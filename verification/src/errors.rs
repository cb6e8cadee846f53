//! The protocol's failure modes.  None of them is recoverable: each reports
//! a configuration or internal-invariant problem.  A failed verification is
//! not an error; the verifier answers with a boolean.
use vstd::prelude::*;

verus! {

#[derive(PartialEq, Eq, Structural, Clone, Copy, Debug)]
pub enum ProtocolError {
    /// The requested transform size is not a supported power of two.
    InvalidDomainSize,
    /// The quotient polynomial exceeds the monomial reference string.
    DegreeTooLarge,
    /// Multi-scalar-multiplication inputs of unequal length.
    LengthMismatch,
    /// A nonzero remainder was left by the exact polynomial division.
    ExactDivisionFailure,
}

impl ProtocolError {
    /// A short description, for callers that report the error.
    pub fn describe(&self) -> (r: &'static str)
    {
        match self {
            ProtocolError::InvalidDomainSize => "unsupported FFT domain size",
            ProtocolError::DegreeTooLarge => "quotient degree exceeds the reference string",
            ProtocolError::LengthMismatch => "mismatched multi-scalar-multiplication lengths",
            ProtocolError::ExactDivisionFailure => "nonzero remainder in exact division",
        }
    }
}

} // verus!
