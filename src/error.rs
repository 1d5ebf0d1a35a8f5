//! Validation failures of the convolution operations.

use vstd::prelude::*;

verus! {

/// Why a convolution was refused. Both are detected before any arithmetic.
#[derive(Clone, Copy, Debug, PartialEq, Eq, Structural)]
pub enum Error {
    /// The kernel's channel count differs from the input's.
    ChannelDimensionMismatch,
    /// The kernel leaves no output region: an output axis would be empty.
    InvalidDimensions,
}

} // verus!
