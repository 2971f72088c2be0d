//! TLS parsing and construction errors.

use vstd::prelude::*;

verus! {

/// Failure to validate a TLS wire layout.
#[derive(Clone, Copy, Debug, PartialEq, Eq, Structural)]
pub enum TlsParseError {
    /// Fewer bytes than a fixed prefix or declared vector were supplied.
    Incomplete {
        /// Required bytes.
        required: usize,
        /// Available bytes.
        available: usize,
    },
    /// A declared vector or value violates its format constraints.
    InvalidValue,
    /// A structured payload has trailing bytes after its required fields.
    TrailingBytes,
}

/// Failure to construct TLS bytes in caller-provided storage.
#[derive(Clone, Copy, Debug, PartialEq, Eq, Structural)]
pub enum TlsBuildError {
    /// An input vector or scalar violates the TLS encoding rules.
    InvalidValue,
    /// A requested length cannot be represented by the TLS field.
    LengthTooLarge,
    /// The caller buffer cannot contain the finished encoding.
    BufferTooShort {
        /// Required bytes.
        required: usize,
        /// Available bytes.
        available: usize,
    },
}

} // verus!
