//! The ways in which a layout run can fail.
use vstd::prelude::*;

verus! {

/// Why a layout run produced nothing.
#[derive(Clone, Copy, Debug, PartialEq, Eq, Structural)]
pub enum LayoutError {
    /// A text could not be measured.
    MeasurementFailure,
    /// The page leaves no room for text, or a margin is negative.
    InvalidConfiguration,
}

} // verus!
