//! The one kind of failure a transform can report.

use vstd::prelude::*;

verus! {

/// A parameter that a transform rejected before touching any pixel.
#[derive(Clone, Copy, Debug, PartialEq, Eq, Structural)]
pub enum InvalidParameter {
    /// The contrast ratio was not greater than zero.
    Ratio,
    /// The contrast threshold was not strictly between 0 and 256.
    Threshold,
    /// The saturation amount was not greater than zero.
    Amount,
    /// The saturation strategy token was not recognised.
    Strategy,
}

impl InvalidParameter {
    /// The text shown to a user for each rejected parameter.
    pub open spec fn message_of(self) -> Seq<char> {
        match self {
            InvalidParameter::Ratio => "Contrast ratio must be greater than 0"@,
            InvalidParameter::Threshold => "Threshold must be between 1 and 255"@,
            InvalidParameter::Amount => "Saturation amount must be greater than 0"@,
            InvalidParameter::Strategy => "Invalid saturation type. Use 'hsv' or 'lum' or 'lumsimd'"@,
        }
    }

    /// A human-readable description of the rejected parameter.
    pub fn message(&self) -> (text: &'static str)
        ensures
            text@ == self.message_of(),
    {
        match self {
            InvalidParameter::Ratio => "Contrast ratio must be greater than 0",
            InvalidParameter::Threshold => "Threshold must be between 1 and 255",
            InvalidParameter::Amount => "Saturation amount must be greater than 0",
            InvalidParameter::Strategy => "Invalid saturation type. Use 'hsv' or 'lum' or 'lumsimd'",
        }
    }
}

} // verus!
