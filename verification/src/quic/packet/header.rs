//! QUIC packet-header layouts and their version and connection-ID vocabulary.

use super::parse::QuicPacketParseError;
use crate::wire::{be32, read_be32, slice_from, slice_range};
use vstd::prelude::*;

verus! {

/// An exact borrowed opaque QUIC connection ID.
///
/// This scalar deliberately does not impose QUIC versions' 20-byte connection-ID limit. The
/// invariant long-header layout carries an unsigned-byte length, and unknown versions and
/// Version Negotiation must remain representable here.
#[derive(Clone, Copy, Debug, PartialEq, Eq, Hash)]
pub struct QuicConnectionId<'a>(&'a [u8]);

impl<'a> View for QuicConnectionId<'a> {
    type V = Seq<u8>;

    closed spec fn view(&self) -> Seq<u8> {
        self.0@
    }
}

impl<'a> QuicConnectionId<'a> {
    /// Creates an opaque connection ID from exact wire bytes.
    pub fn new(bytes: &'a [u8]) -> (r: Self)
        ensures
            r@ == bytes@,
    {
        Self(bytes)
    }

    /// Returns the exact connection-ID bytes.
    pub fn as_bytes(self) -> (r: &'a [u8])
        ensures
            r@ == self@,
    {
        self.0
    }

    /// Returns the connection-ID length in bytes.
    pub fn len(self) -> (r: usize)
        ensures
            r == self@.len(),
    {
        self.0.len()
    }

    /// Returns whether the connection ID is empty.
    pub fn is_empty(self) -> (r: bool)
        ensures
            r == (self@.len() == 0),
    {
        self.0.len() == 0
    }
}

/// Identifies a long-header connection-ID field.
#[derive(Clone, Copy, Debug, PartialEq, Eq, Structural, Hash)]
pub enum QuicConnectionIdField {
    /// The destination connection ID.
    Destination,
    /// The source connection ID.
    Source,
}

/// A raw QUIC version value, preserving unknown and reserved versions.
#[derive(Clone, Copy, Debug, PartialEq, Eq, Structural, Hash)]
pub struct QuicVersion(u32);

/// The raw value of QUIC version 2.
pub open spec fn spec_v2() -> u32 {
    0x6b33_43cf
}

impl QuicVersion {
    /// The encoded wire value.
    pub closed spec fn spec_raw(self) -> u32 {
        self.0
    }

    /// The version with the wire value `raw`.
    pub closed spec fn spec_from(raw: u32) -> QuicVersion {
        QuicVersion(raw)
    }

    /// A version is determined by its wire value, and has the wire value it was made from.
    pub broadcast proof fn lemma_raw(raw: u32)
        ensures
            #[trigger] Self::spec_from(raw).spec_raw() == raw,
    {
    }

    /// Every version is the version of its own wire value.
    pub broadcast proof fn lemma_from_raw(v: QuicVersion)
        ensures
            #[trigger] Self::spec_from(v.spec_raw()) == v,
    {
    }

    /// Version Negotiation (`0x00000000`).
    #[allow(non_snake_case)]
    pub fn NEGOTIATION() -> (r: Self)
        ensures
            r == Self::spec_from(0),
    {
        Self(0)
    }

    /// QUIC version 1 (`0x00000001`).
    #[allow(non_snake_case)]
    pub fn V1() -> (r: Self)
        ensures
            r == Self::spec_from(1),
    {
        Self(1)
    }

    /// QUIC version 2 (`0x6b3343cf`).
    #[allow(non_snake_case)]
    pub fn V2() -> (r: Self)
        ensures
            r == Self::spec_from(spec_v2()),
    {
        Self(0x6b33_43cf)
    }

    /// Creates a version from its raw wire value.
    pub fn new(raw: u32) -> (r: Self)
        ensures
            r == Self::spec_from(raw),
    {
        Self(raw)
    }

    /// Returns the raw wire value.
    pub fn raw(self) -> (r: u32)
        ensures
            r == self.spec_raw(),
    {
        self.0
    }

    /// Returns whether this is a reserved version with the `0x?a?a?a?a` pattern.
    pub fn is_reserved(self) -> (r: bool)
        ensures
            r == (self.spec_raw() & 0x0f0f_0f0f == 0x0a0a_0a0a),
    {
        self.0 & 0x0f0f_0f0f == 0x0a0a_0a0a
    }
}

impl From<u32> for QuicVersion {
    fn from(raw: u32) -> (r: Self) {
        Self::new(raw)
    }
}

impl vstd::std_specs::convert::FromSpecImpl<u32> for QuicVersion {
    open spec fn obeys_from_spec() -> bool {
        true
    }

    open spec fn from_spec(raw: u32) -> Self {
        Self::spec_from(raw)
    }
}

impl From<QuicVersion> for u32 {
    fn from(version: QuicVersion) -> (r: Self) {
        version.raw()
    }
}

impl vstd::std_specs::convert::FromSpecImpl<QuicVersion> for u32 {
    open spec fn obeys_from_spec() -> bool {
        true
    }

    open spec fn from_spec(version: QuicVersion) -> Self {
        version.spec_raw()
    }
}

/// A semantic long-header packet type for a known QUIC version.
#[derive(Clone, Copy, Debug, PartialEq, Eq, Structural, Hash)]
pub enum QuicLongPacketType {
    /// Initial packet.
    Initial,
    /// 0-RTT packet.
    ZeroRtt,
    /// Handshake packet.
    Handshake,
    /// Retry packet.
    Retry,
}

/// The semantic type of the raw type bits of a version 1 or version 2 long header.
pub open spec fn spec_long_packet_type(version: u32, raw_type: u8) -> Option<QuicLongPacketType> {
    if raw_type > 3 {
        None
    } else if version == 1 {
        Some(
            if raw_type == 0 {
                QuicLongPacketType::Initial
            } else if raw_type == 1 {
                QuicLongPacketType::ZeroRtt
            } else if raw_type == 2 {
                QuicLongPacketType::Handshake
            } else {
                QuicLongPacketType::Retry
            },
        )
    } else if version == spec_v2() {
        Some(
            if raw_type == 0 {
                QuicLongPacketType::Retry
            } else if raw_type == 1 {
                QuicLongPacketType::Initial
            } else if raw_type == 2 {
                QuicLongPacketType::ZeroRtt
            } else {
                QuicLongPacketType::Handshake
            },
        )
    } else {
        None
    }
}

/// The raw type bits of a semantic type in a version 1 or version 2 long header.
pub open spec fn spec_raw_type(packet_type: QuicLongPacketType, version: u32) -> Option<u8> {
    if version == 1 {
        Some(
            match packet_type {
                QuicLongPacketType::Initial => 0u8,
                QuicLongPacketType::ZeroRtt => 1u8,
                QuicLongPacketType::Handshake => 2u8,
                QuicLongPacketType::Retry => 3u8,
            },
        )
    } else if version == spec_v2() {
        Some(
            match packet_type {
                QuicLongPacketType::Initial => 1u8,
                QuicLongPacketType::ZeroRtt => 2u8,
                QuicLongPacketType::Handshake => 3u8,
                QuicLongPacketType::Retry => 0u8,
            },
        )
    } else {
        None
    }
}

/// The long-header packet types fixed by RFC 9000 section 17.2 for QUIC version 1 (type bits 0
/// Initial, 1 0-RTT, 2 Handshake, 3 Retry) and by RFC 9369 section 3.2 for QUIC version 2 (0
/// Retry, 1 Initial, 2 0-RTT, 3 Handshake), read from the first byte's bits 0x30, in both
/// directions; no other version and no wider type value has a packet type.
pub proof fn lemma_long_packet_type_values(version: u32, first_byte: u8, raw_type: u8)
    ensures
        spec_long_packet_type(1, 0) == Some(QuicLongPacketType::Initial),
        spec_long_packet_type(1, 1) == Some(QuicLongPacketType::ZeroRtt),
        spec_long_packet_type(1, 2) == Some(QuicLongPacketType::Handshake),
        spec_long_packet_type(1, 3) == Some(QuicLongPacketType::Retry),
        spec_long_packet_type(0x6b33_43cf, 0) == Some(QuicLongPacketType::Retry),
        spec_long_packet_type(0x6b33_43cf, 1) == Some(QuicLongPacketType::Initial),
        spec_long_packet_type(0x6b33_43cf, 2) == Some(QuicLongPacketType::ZeroRtt),
        spec_long_packet_type(0x6b33_43cf, 3) == Some(QuicLongPacketType::Handshake),
        spec_raw_type(QuicLongPacketType::Initial, 1) == Some(0u8),
        spec_raw_type(QuicLongPacketType::ZeroRtt, 1) == Some(1u8),
        spec_raw_type(QuicLongPacketType::Handshake, 1) == Some(2u8),
        spec_raw_type(QuicLongPacketType::Retry, 1) == Some(3u8),
        spec_raw_type(QuicLongPacketType::Retry, 0x6b33_43cf) == Some(0u8),
        spec_raw_type(QuicLongPacketType::Initial, 0x6b33_43cf) == Some(1u8),
        spec_raw_type(QuicLongPacketType::ZeroRtt, 0x6b33_43cf) == Some(2u8),
        spec_raw_type(QuicLongPacketType::Handshake, 0x6b33_43cf) == Some(3u8),
        raw_type > 3 ==> spec_long_packet_type(version, raw_type) is None,
        version != 1 && version != 0x6b33_43cf ==> spec_long_packet_type(version, raw_type) is None,
        version != 1 && version != 0x6b33_43cf ==> forall|t: QuicLongPacketType|
            #[trigger] spec_raw_type(t, version) is None,
        first_byte & 0x30 == 0x00 <==> spec_type_bits(first_byte) == 0,
        first_byte & 0x30 == 0x10 <==> spec_type_bits(first_byte) == 1,
        first_byte & 0x30 == 0x20 <==> spec_type_bits(first_byte) == 2,
        first_byte & 0x30 == 0x30 <==> spec_type_bits(first_byte) == 3,
{
    assert(first_byte & 0x30 == 0x00 <==> (first_byte >> 4u8) & 0x03 == 0) by (bit_vector);
    assert(first_byte & 0x30 == 0x10 <==> (first_byte >> 4u8) & 0x03 == 1) by (bit_vector);
    assert(first_byte & 0x30 == 0x20 <==> (first_byte >> 4u8) & 0x03 == 2) by (bit_vector);
    assert(first_byte & 0x30 == 0x30 <==> (first_byte >> 4u8) & 0x03 == 3) by (bit_vector);
}

/// Mapping type bits to a packet type and mapping the type back to bits are inverse: a
/// version and type bits give a packet type exactly when that packet type gives those bits.
pub proof fn lemma_long_packet_type_inverse(version: u32, raw_type: u8, packet_type: QuicLongPacketType)
    ensures
        spec_long_packet_type(version, raw_type) == Some(packet_type) <==> spec_raw_type(
            packet_type,
            version,
        ) == Some(raw_type),
{
}

impl QuicLongPacketType {
    /// Maps a version and its two raw long-header type bits to a semantic packet type.
    pub fn from_raw(version: QuicVersion, raw_type: u8) -> (r: Option<Self>)
        ensures
            r == spec_long_packet_type(version.spec_raw(), raw_type),
    {
        if raw_type > 3 {
            return None;
        }
        if version.raw() == 1 {
            match raw_type {
                0 => Some(Self::Initial),
                1 => Some(Self::ZeroRtt),
                2 => Some(Self::Handshake),
                _ => Some(Self::Retry),
            }
        } else if version.raw() == 0x6b33_43cf {
            match raw_type {
                0 => Some(Self::Retry),
                1 => Some(Self::Initial),
                2 => Some(Self::ZeroRtt),
                _ => Some(Self::Handshake),
            }
        } else {
            None
        }
    }

    /// Maps this semantic packet type to its two raw long-header type bits for a version.
    pub fn raw_type(self, version: QuicVersion) -> (r: Option<u8>)
        ensures
            r == spec_raw_type(self, version.spec_raw()),
    {
        if version.raw() == 1 {
            match self {
                Self::Initial => Some(0),
                Self::ZeroRtt => Some(1),
                Self::Handshake => Some(2),
                Self::Retry => Some(3),
            }
        } else if version.raw() == 0x6b33_43cf {
            match self {
                Self::Initial => Some(1),
                Self::ZeroRtt => Some(2),
                Self::Handshake => Some(3),
                Self::Retry => Some(0),
            }
        } else {
            None
        }
    }
}

/// Caller-supplied information needed to delimit a QUIC short-header destination ID.
///
/// Short headers omit their destination connection-ID length on the wire. The context
/// therefore carries that length as a `usize`, without imposing a long-header wire-field limit
/// on the caller.
#[derive(Clone, Copy, Debug, PartialEq, Eq, Structural, Hash)]
pub struct QuicShortHeaderContext {
    destination_connection_id_len: usize,
}

impl QuicShortHeaderContext {
    /// The known short-header destination connection-ID length.
    pub closed spec fn spec_destination_connection_id_len(self) -> usize {
        self.destination_connection_id_len
    }

    /// Creates context with the known short-header destination connection-ID length.
    pub fn new(destination_connection_id_len: usize) -> (r: Self)
        ensures
            r.spec_destination_connection_id_len() == destination_connection_id_len,
    {
        Self { destination_connection_id_len }
    }

    /// Returns the known short-header destination connection-ID length.
    pub fn destination_connection_id_len(self) -> (r: usize)
        ensures
            r == self.spec_destination_connection_id_len(),
    {
        self.destination_connection_id_len
    }
}

/// The fields of an invariant long-header prefix and what follows it.
pub struct QuicLongHeaderFields {
    /// The raw first byte.
    pub first_byte: u8,
    /// The raw version.
    pub version: u32,
    /// The destination connection ID.
    pub destination_connection_id: Seq<u8>,
    /// The source connection ID.
    pub source_connection_id: Seq<u8>,
    /// The length of the invariant prefix.
    pub prefix_len: nat,
    /// The bytes after the invariant prefix.
    pub version_specific: Seq<u8>,
}

/// The RFC 8999 invariant long-header prefix that `b` starts with, or the first reason it
/// holds none.
pub open spec fn spec_long_header(b: Seq<u8>) -> Result<QuicLongHeaderFields, QuicPacketParseError> {
    if b.len() == 0 {
        Err(QuicPacketParseError::Incomplete { required: 1, available: 0 })
    } else if b[0] < 0x80 {
        Err(QuicPacketParseError::WrongHeaderForm { expected_long: true, first_byte: b[0] })
    } else if b.len() < 6 {
        Err(
            QuicPacketParseError::Incomplete {
                required: if b.len() < 5 {
                    5usize
                } else {
                    6usize
                },
                available: b.len() as usize,
            },
        )
    } else if b.len() < 7 + b[5] {
        Err(
            QuicPacketParseError::Incomplete {
                required: (if b.len() < 6 + b[5] {
                    6 + b[5]
                } else {
                    7 + b[5]
                }) as usize,
                available: b.len() as usize,
            },
        )
    } else if b.len() < 7 + b[5] + b[6 + b[5]] {
        Err(
            QuicPacketParseError::Incomplete {
                required: (7 + b[5] + b[6 + b[5]]) as usize,
                available: b.len() as usize,
            },
        )
    } else {
        Ok(
            QuicLongHeaderFields {
                first_byte: b[0],
                version: be32(b, 1) as u32,
                destination_connection_id: b.subrange(6, 6 + b[5]),
                source_connection_id: b.subrange(7 + b[5], 7 + b[5] + b[6 + b[5]]),
                prefix_len: (7 + b[5] + b[6 + b[5]]) as nat,
                version_specific: b.subrange(7 + b[5] + b[6 + b[5]], b.len() as int),
            },
        )
    }
}

/// Whether the fixed bit of a first byte is set.
pub open spec fn spec_fixed_bit(first_byte: u8) -> bool {
    first_byte & 0x40 != 0
}

/// The two long-header type bits of a first byte.
pub open spec fn spec_type_bits(first_byte: u8) -> u8 {
    (first_byte >> 4u8) & 0x03
}

/// A borrowed RFC 8999 invariant QUIC long-header prefix.
///
/// `as_bytes` contains only the invariant prefix structurally owned by this view. The following
/// bytes are available separately through `version_specific` and are intentionally not
/// interpreted as a payload by this version-independent layer.
#[derive(Clone, Copy, Debug, PartialEq, Eq)]
pub struct QuicLongHeader<'a> {
    bytes: &'a [u8],
    first_byte: u8,
    version: QuicVersion,
    destination_connection_id: QuicConnectionId<'a>,
    source_connection_id: QuicConnectionId<'a>,
    version_specific: &'a [u8],
}

impl<'a> View for QuicLongHeader<'a> {
    type V = Seq<u8>;

    closed spec fn view(&self) -> Seq<u8> {
        self.bytes@
    }
}

impl<'a> QuicLongHeader<'a> {
    /// The parsed fields.
    pub closed spec fn fields(&self) -> QuicLongHeaderFields {
        QuicLongHeaderFields {
            first_byte: self.first_byte,
            version: self.version.spec_raw(),
            destination_connection_id: self.destination_connection_id@,
            source_connection_id: self.source_connection_id@,
            prefix_len: self.bytes@.len(),
            version_specific: self.version_specific@,
        }
    }

    #[verifier::type_invariant]
    closed spec fn inv(self) -> bool {
        &&& spec_long_header(self.bytes@ + self.version_specific@) == Ok::<
            QuicLongHeaderFields,
            QuicPacketParseError,
        >(self.fields())
    }

    /// The input the header was parsed from: its prefix and what follows.
    pub open spec fn spec_input(&self) -> Seq<u8> {
        self@ + self.fields().version_specific
    }

    /// Parses exactly the RFC 8999 invariant long-header prefix.
    pub fn parse(bytes: &'a [u8]) -> (r: Result<Self, QuicPacketParseError>)
        ensures
            match r {
                Ok(header) => spec_long_header(bytes@) == Ok::<
                    QuicLongHeaderFields,
                    QuicPacketParseError,
                >(header.fields()) && header.spec_input() == bytes@,
                Err(e) => spec_long_header(bytes@) == Err::<QuicLongHeaderFields, QuicPacketParseError>(
                    e,
                ),
            },
    {
        let first_byte = match first_byte(bytes) {
            Ok(first_byte) => first_byte,
            Err(e) => return Err(e),
        };
        if first_byte & 0x80 == 0 {
            assert(first_byte & 0x80 == 0 <==> first_byte < 0x80) by (bit_vector);
            return Err(QuicPacketParseError::WrongHeaderForm { expected_long: true, first_byte });
        }
        assert(first_byte & 0x80 != 0 <==> first_byte >= 0x80) by (bit_vector);
        let n = bytes.len();
        if n < 5 {
            return Err(QuicPacketParseError::Incomplete { required: 5, available: n });
        }
        if n < 6 {
            return Err(QuicPacketParseError::Incomplete { required: 6, available: n });
        }
        let destination_length = bytes[5] as usize;
        if n < 6 + destination_length {
            return Err(
                QuicPacketParseError::Incomplete { required: 6 + destination_length, available: n },
            );
        }
        if n < 7 + destination_length {
            return Err(
                QuicPacketParseError::Incomplete { required: 7 + destination_length, available: n },
            );
        }
        let source_length = bytes[6 + destination_length] as usize;
        let prefix_len = 7 + destination_length + source_length;
        if n < prefix_len {
            return Err(QuicPacketParseError::Incomplete { required: prefix_len, available: n });
        }
        proof {
            assert(bytes@.subrange(0, prefix_len as int) + bytes@.subrange(prefix_len as int, n as int)
                =~= bytes@);
        }
        let header = Self {
            bytes: slice_range(bytes, 0, prefix_len),
            first_byte,
            version: QuicVersion::new(read_be32(bytes, 1)),
            destination_connection_id: QuicConnectionId::new(
                slice_range(bytes, 6, 6 + destination_length),
            ),
            source_connection_id: QuicConnectionId::new(
                slice_range(bytes, 7 + destination_length, prefix_len),
            ),
            version_specific: slice_from(bytes, prefix_len),
        };
        proof {
            assert(bytes@.subrange(0, prefix_len as int) + bytes@.subrange(prefix_len as int, n as int)
                =~= bytes@);
        }
        Ok(header)
    }

    /// Returns the raw first byte, including protected and version-specific bits.
    pub fn first_byte(self) -> (r: u8)
        ensures
            r == self.fields().first_byte,
    {
        self.first_byte
    }

    /// Returns whether the raw fixed bit is set, without validating it.
    pub fn has_fixed_bit(self) -> (r: bool)
        ensures
            r == spec_fixed_bit(self.fields().first_byte),
    {
        self.first_byte & 0x40 != 0
    }

    /// Returns the two raw long-header type bits, without assigning unknown-version semantics.
    pub fn raw_type_bits(self) -> (r: u8)
        ensures
            r == spec_type_bits(self.fields().first_byte),
            r <= 3,
    {
        let b = self.first_byte;
        assert((b >> 4u8) & 0x03 <= 3) by (bit_vector);
        (b >> 4u8) & 0x03
    }

    /// Returns the raw QUIC version value.
    pub fn version(self) -> (r: QuicVersion)
        ensures
            r.spec_raw() == self.fields().version,
            r == QuicVersion::spec_from(self.fields().version),
    {
        proof {
            QuicVersion::lemma_from_raw(self.version);
        }
        self.version
    }

    /// Returns the exact destination connection ID.
    pub fn destination_connection_id(self) -> (r: QuicConnectionId<'a>)
        ensures
            r@ == self.fields().destination_connection_id,
    {
        self.destination_connection_id
    }

    /// Returns the exact source connection ID.
    pub fn source_connection_id(self) -> (r: QuicConnectionId<'a>)
        ensures
            r@ == self.fields().source_connection_id,
    {
        self.source_connection_id
    }

    /// Returns the exact invariant-prefix bytes, excluding version-specific bytes.
    pub fn as_bytes(self) -> (r: &'a [u8])
        ensures
            r@ == self@,
            r@.len() == self.fields().prefix_len,
            spec_long_header(self.spec_input()) == Ok::<QuicLongHeaderFields, QuicPacketParseError>(
                self.fields(),
            ),
    {
        proof {
            use_type_invariant(&self);
        }
        self.bytes
    }

    /// Returns all bytes after the invariant prefix without interpreting them.
    pub fn version_specific(self) -> (r: &'a [u8])
        ensures
            r@ == self.fields().version_specific,
    {
        self.version_specific
    }

    /// Returns the version-aware semantic packet type for QUIC v1 or v2 only.
    pub fn long_packet_type(self) -> (r: Option<QuicLongPacketType>)
        ensures
            r == spec_long_packet_type(self.fields().version, spec_type_bits(self.fields().first_byte)),
    {
        QuicLongPacketType::from_raw(self.version, self.raw_type_bits())
    }
}

/// The fields of a short header under a destination connection-ID length.
pub struct QuicShortHeaderFields {
    /// The raw first byte.
    pub first_byte: u8,
    /// The destination connection ID.
    pub destination_connection_id: Seq<u8>,
    /// The bytes after the destination connection ID.
    pub protected_remainder: Seq<u8>,
}

/// The short header that `b` holds when its destination connection ID has `dcid_len` bytes,
/// or the first reason it holds none.
pub open spec fn spec_short_header(b: Seq<u8>, dcid_len: usize) -> Result<
    QuicShortHeaderFields,
    QuicPacketParseError,
> {
    if b.len() == 0 {
        Err(QuicPacketParseError::Incomplete { required: 1, available: 0 })
    } else if b[0] >= 0x80 {
        Err(QuicPacketParseError::WrongHeaderForm { expected_long: false, first_byte: b[0] })
    } else if 1 + dcid_len > usize::MAX {
        Err(QuicPacketParseError::LengthOverflow { offset: 1, length: dcid_len })
    } else if b.len() < 1 + dcid_len {
        Err(QuicPacketParseError::Incomplete { required: (1 + dcid_len) as usize, available: b.len() as usize })
    } else {
        Ok(
            QuicShortHeaderFields {
                first_byte: b[0],
                destination_connection_id: b.subrange(1, 1 + dcid_len),
                protected_remainder: b.subrange(1 + dcid_len, b.len() as int),
            },
        )
    }
}

/// A borrowed, context-bounded QUIC short header.
///
/// Unlike `QuicLongHeader::as_bytes`, `as_bytes` returns the complete supplied input. A short
/// header has no wire length, so this view consumes the datagram remainder after the
/// caller-context destination connection ID.
#[derive(Clone, Copy, Debug, PartialEq, Eq)]
pub struct QuicShortHeader<'a> {
    bytes: &'a [u8],
    first_byte: u8,
    destination_connection_id: QuicConnectionId<'a>,
    protected_remainder: &'a [u8],
}

impl<'a> View for QuicShortHeader<'a> {
    type V = Seq<u8>;

    closed spec fn view(&self) -> Seq<u8> {
        self.bytes@
    }
}

impl<'a> QuicShortHeader<'a> {
    /// The parsed fields.
    pub closed spec fn fields(&self) -> QuicShortHeaderFields {
        QuicShortHeaderFields {
            first_byte: self.first_byte,
            destination_connection_id: self.destination_connection_id@,
            protected_remainder: self.protected_remainder@,
        }
    }

    #[verifier::type_invariant]
    closed spec fn inv(self) -> bool {
        &&& self.bytes@.len() > 0
        &&& self.bytes@[0] == self.first_byte
        &&& self.first_byte < 0x80
        &&& self.bytes@ == seq![self.first_byte] + self.destination_connection_id@
            + self.protected_remainder@
    }

    /// Assembles a short-header view from builder-validated wire components.
    pub(crate) fn from_validated(
        bytes: &'a [u8],
        first_byte: u8,
        destination_connection_id: QuicConnectionId<'a>,
        protected_remainder: &'a [u8],
    ) -> (r: Self)
        requires
            first_byte < 0x80,
            bytes@ == seq![first_byte] + destination_connection_id@ + protected_remainder@,
        ensures
            r@ == bytes@,
            r.fields() == (QuicShortHeaderFields {
                first_byte,
                destination_connection_id: destination_connection_id@,
                protected_remainder: protected_remainder@,
            }),
    {
        Self { bytes, first_byte, destination_connection_id, protected_remainder }
    }

    /// Parses a short header using caller-supplied destination connection-ID length context.
    pub fn parse(bytes: &'a [u8], context: QuicShortHeaderContext) -> (r: Result<
        Self,
        QuicPacketParseError,
    >)
        ensures
            match r {
                Ok(header) => header@ == bytes@ && spec_short_header(
                    bytes@,
                    context.spec_destination_connection_id_len(),
                ) == Ok::<QuicShortHeaderFields, QuicPacketParseError>(header.fields()),
                Err(e) => spec_short_header(bytes@, context.spec_destination_connection_id_len())
                    == Err::<QuicShortHeaderFields, QuicPacketParseError>(e),
            },
    {
        let first_byte = match first_byte(bytes) {
            Ok(first_byte) => first_byte,
            Err(e) => return Err(e),
        };
        if first_byte & 0x80 != 0 {
            assert(first_byte & 0x80 != 0 <==> first_byte >= 0x80) by (bit_vector);
            return Err(QuicPacketParseError::WrongHeaderForm { expected_long: false, first_byte });
        }
        assert(first_byte & 0x80 == 0 <==> first_byte < 0x80) by (bit_vector);
        let destination_end = match field_end(1, context.destination_connection_id_len()) {
            Ok(end) => end,
            Err(e) => return Err(e),
        };
        match require(bytes, destination_end) {
            Ok(()) => {},
            Err(e) => return Err(e),
        }
        proof {
            assert(bytes@ =~= seq![first_byte] + bytes@.subrange(1, destination_end as int)
                + bytes@.subrange(destination_end as int, bytes@.len() as int));
        }
        let header = Self {
            bytes,
            first_byte,
            destination_connection_id: QuicConnectionId::new(slice_range(bytes, 1, destination_end)),
            protected_remainder: slice_from(bytes, destination_end),
        };
        Ok(header)
    }

    /// Returns the raw first byte, whose low bits remain protected and uninterpreted.
    pub fn first_byte(self) -> (r: u8)
        ensures
            r == self.fields().first_byte,
    {
        self.first_byte
    }

    /// Returns whether the raw fixed bit is set, without validating it.
    pub fn has_fixed_bit(self) -> (r: bool)
        ensures
            r == spec_fixed_bit(self.fields().first_byte),
    {
        self.first_byte & 0x40 != 0
    }

    /// Returns the exact destination connection ID delimited by the supplied context.
    pub fn destination_connection_id(self) -> (r: QuicConnectionId<'a>)
        ensures
            r@ == self.fields().destination_connection_id,
    {
        self.destination_connection_id
    }

    /// Returns all bytes after the context-bounded destination connection ID as opaque bytes.
    pub fn protected_remainder(self) -> (r: &'a [u8])
        ensures
            r@ == self.fields().protected_remainder,
    {
        self.protected_remainder
    }

    /// Returns the complete supplied short-packet slice.
    pub fn as_bytes(self) -> (r: &'a [u8])
        ensures
            r@ == self@,
            self@ == seq![self.fields().first_byte] + self.fields().destination_connection_id
                + self.fields().protected_remainder,
            self.fields().first_byte < 0x80,
    {
        proof {
            use_type_invariant(&self);
        }
        self.bytes
    }
}

fn first_byte(bytes: &[u8]) -> (r: Result<u8, QuicPacketParseError>)
    ensures
        bytes@.len() == 0 ==> r == Err::<u8, QuicPacketParseError>(
            QuicPacketParseError::Incomplete { required: 1, available: 0 },
        ),
        bytes@.len() > 0 ==> r == Ok::<u8, QuicPacketParseError>(bytes@[0]),
{
    if bytes.len() == 0 {
        Err(QuicPacketParseError::Incomplete { required: 1, available: 0 })
    } else {
        Ok(bytes[0])
    }
}

fn field_end(offset: usize, length: usize) -> (r: Result<usize, QuicPacketParseError>)
    ensures
        offset + length > usize::MAX ==> r == Err::<usize, QuicPacketParseError>(
            QuicPacketParseError::LengthOverflow { offset, length },
        ),
        offset + length <= usize::MAX ==> r == Ok::<usize, QuicPacketParseError>(
            (offset + length) as usize,
        ),
{
    match offset.checked_add(length) {
        Some(end) => Ok(end),
        None => Err(QuicPacketParseError::LengthOverflow { offset, length }),
    }
}

fn require(bytes: &[u8], required: usize) -> (r: Result<(), QuicPacketParseError>)
    ensures
        bytes@.len() < required ==> r == Err::<(), QuicPacketParseError>(
            QuicPacketParseError::Incomplete { required, available: bytes@.len() as usize },
        ),
        bytes@.len() >= required ==> r is Ok,
{
    if bytes.len() < required {
        return Err(QuicPacketParseError::Incomplete { required, available: bytes.len() });
    }
    Ok(())
}

} // verus!
