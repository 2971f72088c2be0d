//! QUIC packet-view parsing errors.

use super::header::{QuicConnectionIdField, QuicLongPacketType, QuicVersion};
use vstd::prelude::*;

verus! {

/// Failure to parse a QUIC packet-header view.
#[derive(Clone, Copy, Debug, PartialEq, Eq)]
pub enum QuicPacketParseError {
    /// A supplied UDP datagram contains no packet bytes.
    EmptyDatagram,
    /// A short-header packet cannot be delimited without caller-supplied destination ID context.
    ShortHeaderContextRequired,
    /// The first byte has the opposite QUIC header form from the requested view.
    WrongHeaderForm {
        /// Whether the requested view requires the long-header form bit to be set.
        expected_long: bool,
        /// The observed first byte.
        first_byte: u8,
    },
    /// The input does not contain all bytes structurally required by the view.
    Incomplete {
        /// Absolute byte count required from the start of the supplied input.
        required: usize,
        /// Bytes available in the supplied input.
        available: usize,
    },
    /// A caller-supplied length cannot be represented when locating a field.
    LengthOverflow {
        /// Offset before adding the supplied length.
        offset: usize,
        /// Length that could not be added to the offset.
        length: usize,
    },
    /// A version-specific packet view does not define semantics for this QUIC version.
    UnsupportedVersion {
        /// The raw unsupported version.
        version: QuicVersion,
    },
    /// A terminal packet was parsed by a view requiring a different exact version.
    WrongVersion {
        /// The observed raw version.
        version: QuicVersion,
    },
    /// A Version Negotiation packet has no advertised versions after its invariant prefix.
    EmptyVersionList,
    /// A Version Negotiation version list does not contain a whole number of four-byte versions.
    MisalignedVersionList {
        /// The observed version-list byte length.
        length: usize,
    },
    /// A supported-version terminal packet is not a Retry packet.
    NotRetry {
        /// The observed semantic packet type.
        packet_type: QuicLongPacketType,
    },
    /// A Retry packet has an integrity tag but no Retry Token bytes.
    EmptyRetryToken,
    /// A supported-version long header has its required fixed bit cleared.
    FixedBitNotSet {
        /// The observed first byte.
        first_byte: u8,
    },
    /// A supported-version connection ID exceeds its 20-byte limit.
    ConnectionIdTooLong {
        /// The overlong connection-ID field.
        field: QuicConnectionIdField,
        /// The observed byte length.
        length: usize,
    },
    /// The packet type is terminal rather than length-delimited.
    NotLengthDelimited {
        /// The terminal semantic packet type.
        packet_type: QuicLongPacketType,
    },
    /// A decoded length cannot be represented as `usize` on this target.
    LengthNotRepresentable {
        /// The decoded wire value.
        value: u64,
    },
    /// A protected packet length is too short to contain a packet number and payload.
    ProtectedRemainderTooShort {
        /// Minimum protected remainder byte length.
        minimum: u64,
        /// Decoded protected remainder byte length.
        actual: u64,
    },
}

} // verus!
