//! Fixed-point scalars.
//!
//! Every fractional quantity of the crate (a contrast ratio, a threshold, a
//! saturation amount, the components of an HSV triple) is an integer count of
//! millionths: `1_500_000` stands for 1.5, `128_000_000` for 128.

use vstd::prelude::*;

verus! {

/// Number of fixed-point units in one whole.
pub const UNIT: i64 = 1_000_000;

/// The mathematical value of [`UNIT`].
#[verifier::inline]
pub open spec fn unit() -> int {
    1_000_000
}

/// The square of [`unit`]: the denominator of a product of two fixed-point
/// numbers.
#[verifier::inline]
pub open spec fn unit_squared() -> int {
    1_000_000_000_000
}

/// `x` limited to the channel range `0..=255`.
pub open spec fn clamp_channel(x: int) -> int {
    if x < 0 {
        0
    } else if x > 255 {
        255
    } else {
        x
    }
}

} // verus!
