use vstd::prelude::*;

verus! {

/// Why a layout, sizing or dispatch request was refused.
#[derive(Debug, Clone, Copy, PartialEq, Eq, Structural)]
pub enum ConvertError {
    /// Width or height is zero, or the frame is too large to address.
    InvalidDimensions,
    /// The alignment is not a positive power of two.
    InvalidAlignment,
    /// A supplied buffer or stride does not fit the declared dimensions.
    BufferSizeMismatch,
    /// A rotation angle outside {0, 90, 180, 270}.
    UnsupportedAngle,
    /// The conversion primitive reported a non-zero status.
    ConversionFailed,
}

} // verus!
