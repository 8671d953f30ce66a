//! Error values for precondition violations at construction time.

use vstd::prelude::*;

use crate::size::Size;

verus! {

/// A structural precondition was violated while constructing a value.
///
/// Per-candidate failures (malformed images, transient fetch errors) are the
/// boundary layer's concern; the library only rejects constructions whose
/// invariants cannot be established.
#[derive(Clone, Copy, PartialEq, Eq, Structural, Debug)]
pub enum Error {
    /// An image did not have the pixel dimensions its consumer expects.
    InvalidImageSize { expected_width: u32, expected_height: u32 },
    /// A tile size does not evenly divide an origin size (or a dimension is
    /// zero), so no tile grid can be formed from the pairing.
    IndivisibleSizes { origin: Size, tile: Size },
}

} // verus!
