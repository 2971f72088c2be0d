//! Parse errors shared by fixed-header layouts.

use vstd::prelude::*;

verus! {

/// Failure to structurally validate a fixed-header wire layout.
#[derive(Clone, Copy, Debug, PartialEq, Eq)]
pub enum ParseError {
    /// Fewer bytes than the layout requires were supplied.
    Truncated {
        /// Required bytes.
        minimum: usize,
        /// Available bytes.
        available: usize,
    },
    /// The encoded header length is below the fixed header size.
    InvalidHeaderLength {
        /// Smallest legal header length.
        minimum: usize,
        /// Encoded header length.
        actual: usize,
    },
}

} // verus!
