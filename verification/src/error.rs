//! The ways a request for geometry can be refused.

use vstd::prelude::*;

verus! {

/// Why a request was refused.
#[derive(Clone, Copy, Debug, PartialEq, Eq, Structural)]
pub enum GeometryError {
    /// A curve was to be sampled with zero segments.
    InvalidResolution,
    /// The corner radius is more than half of the rectangle's shorter side.
    InvalidRadius,
}

} // verus!
