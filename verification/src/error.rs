use vstd::prelude::*;

verus! {

/// Rejection of a malformed configuration value, reported when the
/// configuration is built rather than in the middle of a layout pass.
#[derive(Clone, Copy, Debug, PartialEq, Eq, Structural)]
pub enum ChartError {
    /// A radius was configured with a negative value.
    NegativeRadius,
    /// A pad angle was configured with a negative value.
    NegativePadAngle,
    /// The total pad angle does not fit into the full-turn budget.
    PadAngleTooLarge,
    /// A padding ratio was outside its allowed range, or its denominator
    /// was not a positive number within the supported size.
    InvalidRatio,
}

} // verus!
