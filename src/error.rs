use vstd::prelude::*;

verus! {

/// The ways an averaging or blending call can be refused.
#[derive(Debug, Clone, Copy, PartialEq, Eq, Structural)]
pub enum BlendError {
    /// There were no frames to average.
    EmptyInput,
    /// A window was asked for with room for no frame.
    InvalidCapacity,
    /// A blend was asked for with a cadence of zero steps.
    InvalidCadence,
    /// Frames of one call differ in height, width or channel count, or a
    /// sample buffer does not fit the dimensions it was given with.
    ShapeMismatch,
}

impl BlendError {
    /// A short description of the error.
    pub fn message(&self) -> (r: String) {
        match self {
            BlendError::EmptyInput => String::from_str("no frames to average"),
            BlendError::InvalidCapacity => String::from_str("window capacity must be at least 1"),
            BlendError::InvalidCadence => String::from_str("cadence must be at least 1"),
            BlendError::ShapeMismatch => String::from_str("frames differ in shape"),
        }
    }
}

} // verus!
