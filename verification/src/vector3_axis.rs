//! The axes of three-dimensional space.

use vstd::prelude::*;

verus! {

/// One of the three coordinate axes of a three-dimensional vector.
#[derive(Copy, Clone, Debug, PartialEq, Eq, Structural)]
pub enum Vector3Axis {
    X,
    Y,
    Z,
}

} // verus!
