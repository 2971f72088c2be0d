//! Borrowed terminal QUIC Version Negotiation and Retry packet views.

use super::header::{
    QuicLongHeader, QuicLongHeaderFields, QuicLongPacketType, QuicVersion, spec_long_header,
};
use super::long::spec_supported_long_type;
use super::parse::QuicPacketParseError;
use crate::wire::{be32, read_be32, slice_from, slice_range};
use vstd::prelude::*;

verus! {

broadcast use QuicVersion::lemma_raw, QuicVersion::lemma_from_raw;

/// The invariant header of a complete Version Negotiation packet, or the first reason `b` is
/// not one.
pub open spec fn spec_version_negotiation(b: Seq<u8>) -> Result<QuicLongHeaderFields, QuicPacketParseError> {
    match spec_long_header(b) {
        Err(e) => Err(e),
        Ok(h) => if h.version != 0 {
            Err(QuicPacketParseError::WrongVersion { version: QuicVersion::spec_from(h.version) })
        } else if h.version_specific.len() == 0 {
            Err(QuicPacketParseError::EmptyVersionList)
        } else if h.version_specific.len() % 4 != 0 {
            Err(QuicPacketParseError::MisalignedVersionList { length: h.version_specific.len() as usize })
        } else {
            Ok(h)
        },
    }
}

/// The big-endian four-byte values of a byte string, in order; trailing bytes are ignored.
pub open spec fn spec_be32_list(s: Seq<u8>) -> Seq<u32> {
    Seq::new(s.len() / 4, |i: int| be32(s, 4 * i) as u32)
}

/// A borrowed QUIC Version Negotiation packet occupying its complete supplied datagram slice.
///
/// This view preserves the arbitrary lower seven bits of the first byte, connection-ID lengths
/// permitted by the invariant header, and every four-byte advertised version without applying
/// endpoint version-selection policy.
#[derive(Clone, Copy, Debug, PartialEq, Eq)]
pub struct QuicVersionNegotiationPacket<'a> {
    bytes: &'a [u8],
    header: QuicLongHeader<'a>,
    versions: &'a [u8],
}

impl<'a> View for QuicVersionNegotiationPacket<'a> {
    type V = Seq<u8>;

    closed spec fn view(&self) -> Seq<u8> {
        self.bytes@
    }
}

impl<'a> QuicVersionNegotiationPacket<'a> {
    /// The parsed invariant header.
    pub closed spec fn header_fields(&self) -> QuicLongHeaderFields {
        self.header.fields()
    }

    #[verifier::type_invariant]
    closed spec fn inv(self) -> bool {
        &&& spec_version_negotiation(self.bytes@) == Ok::<QuicLongHeaderFields, QuicPacketParseError>(
            self.header.fields(),
        )
        &&& self.header.spec_input() == self.bytes@
        &&& self.versions@ == self.header.fields().version_specific
    }

    /// Assembles a Version Negotiation view from validated wire components.
    pub(crate) fn from_validated(bytes: &'a [u8], header: QuicLongHeader<'a>, versions: &'a [u8]) -> (r: Self)
        requires
            spec_version_negotiation(bytes@) == Ok::<QuicLongHeaderFields, QuicPacketParseError>(
                header.fields(),
            ),
            header.spec_input() == bytes@,
            versions@ == header.fields().version_specific,
        ensures
            r@ == bytes@,
            r.header_fields() == header.fields(),
    {
        Self { bytes, header, versions }
    }

    /// Parses a complete Version Negotiation terminal packet.
    pub fn parse(bytes: &'a [u8]) -> (r: Result<Self, QuicPacketParseError>)
        ensures
            match r {
                Ok(packet) => packet@ == bytes@ && spec_version_negotiation(bytes@) == Ok::<
                    QuicLongHeaderFields,
                    QuicPacketParseError,
                >(packet.header_fields()),
                Err(e) => spec_version_negotiation(bytes@) == Err::<
                    QuicLongHeaderFields,
                    QuicPacketParseError,
                >(e),
            },
    {
        let header = match QuicLongHeader::parse(bytes) {
            Ok(header) => header,
            Err(e) => return Err(e),
        };
        if header.version().raw() != 0 {
            return Err(QuicPacketParseError::WrongVersion { version: header.version() });
        }
        let versions = header.version_specific();
        if versions.len() == 0 {
            return Err(QuicPacketParseError::EmptyVersionList);
        }
        if versions.len() % 4 != 0 {
            return Err(QuicPacketParseError::MisalignedVersionList { length: versions.len() });
        }
        Ok(Self { bytes, header, versions })
    }

    /// Returns the accepted invariant long-header prefix.
    pub fn header(self) -> (r: QuicLongHeader<'a>)
        ensures
            r.fields() == self.header_fields(),
            r.spec_input() == self@,
    {
        proof {
            use_type_invariant(&self);
        }
        self.header
    }

    /// Returns the exact raw four-byte version-list bytes.
    pub fn version_list_bytes(self) -> (r: &'a [u8])
        ensures
            r@ == self.header_fields().version_specific,
            r@.len() > 0,
            r@.len() % 4 == 0,
    {
        proof {
            use_type_invariant(&self);
        }
        self.versions
    }

    /// Returns an exact-size iterator over advertised versions in wire order.
    pub fn versions(self) -> (r: QuicVersionIter<'a>)
        ensures
            r@ == self.header_fields().version_specific,
    {
        proof {
            use_type_invariant(&self);
        }
        QuicVersionIter { bytes: self.versions }
    }

    /// Returns the complete supplied terminal packet bytes.
    pub fn as_bytes(self) -> (r: &'a [u8])
        ensures
            r@ == self@,
    {
        self.bytes
    }
}

/// An allocation-free iterator over the exact raw versions in a Version Negotiation packet.
#[derive(Clone, Debug)]
pub struct QuicVersionIter<'a> {
    bytes: &'a [u8],
}

impl<'a> View for QuicVersionIter<'a> {
    type V = Seq<u8>;

    closed spec fn view(&self) -> Seq<u8> {
        self.bytes@
    }
}

impl<'a> QuicVersionIter<'a> {
    /// Returns the next advertised version, or `None` once fewer than four bytes remain.
    pub fn next(&mut self) -> (r: Option<QuicVersion>)
        ensures
            old(self)@.len() < 4 ==> r is None && final(self)@ == old(self)@,
            old(self)@.len() >= 4 ==> r == Some(QuicVersion::spec_from(be32(old(self)@, 0) as u32))
                && final(self)@ == old(self)@.subrange(4, old(self)@.len() as int),
    {
        if self.bytes.len() < 4 {
            return None;
        }
        let version = QuicVersion::new(read_be32(self.bytes, 0));
        self.bytes = slice_from(self.bytes, 4);
        Some(version)
    }

    /// Returns the number of versions left.
    pub fn len(&self) -> (r: usize)
        ensures
            r == self@.len() / 4,
    {
        self.bytes.len() / 4
    }

    /// Returns the exact number of versions left as both bounds.
    pub fn size_hint(&self) -> (r: (usize, Option<usize>))
        ensures
            r.0 == self@.len() / 4,
            r.1 == Some(r.0),
    {
        let length = self.len();
        (length, Some(length))
    }
}

const RETRY_INTEGRITY_TAG_LEN: usize = 16;

/// The fields of a Retry packet.
pub struct QuicRetryFields {
    /// The invariant header.
    pub header: QuicLongHeaderFields,
    /// The opaque Retry token.
    pub token: Seq<u8>,
    /// The final sixteen-byte integrity tag.
    pub integrity_tag: Seq<u8>,
}

/// The complete version 1 or 2 Retry packet `b`, or the first reason it is not one.
pub open spec fn spec_retry_packet(b: Seq<u8>) -> Result<QuicRetryFields, QuicPacketParseError> {
    match spec_long_header(b) {
        Err(e) => Err(e),
        Ok(h) => match spec_supported_long_type(h) {
            Err(e) => Err(e),
            Ok(packet_type) => if packet_type != QuicLongPacketType::Retry {
                Err(QuicPacketParseError::NotRetry { packet_type })
            } else if h.prefix_len + 16 > usize::MAX {
                Err(QuicPacketParseError::LengthOverflow { offset: h.prefix_len as usize, length: 16 })
            } else if b.len() < h.prefix_len + 16 {
                Err(
                    QuicPacketParseError::Incomplete {
                        required: (h.prefix_len + 16) as usize,
                        available: b.len() as usize,
                    },
                )
            } else if b.len() == h.prefix_len + 16 {
                Err(QuicPacketParseError::EmptyRetryToken)
            } else {
                Ok(
                    QuicRetryFields {
                        header: h,
                        token: b.subrange(h.prefix_len as int, b.len() - 16),
                        integrity_tag: b.subrange(b.len() - 16, b.len() as int),
                    },
                )
            },
        },
    }
}

/// A borrowed QUIC v1 or v2 Retry packet occupying its complete supplied datagram slice.
///
/// Retry token bytes and the final Retry Integrity Tag remain opaque. This view does not verify
/// the integrity tag or interpret the token.
#[derive(Clone, Copy, Debug, PartialEq, Eq)]
pub struct QuicRetryPacket<'a> {
    bytes: &'a [u8],
    header: QuicLongHeader<'a>,
    packet_type: QuicLongPacketType,
    token: &'a [u8],
    integrity_tag: &'a [u8],
}

impl<'a> View for QuicRetryPacket<'a> {
    type V = Seq<u8>;

    closed spec fn view(&self) -> Seq<u8> {
        self.bytes@
    }
}

impl<'a> QuicRetryPacket<'a> {
    /// The parsed fields.
    pub closed spec fn fields(&self) -> QuicRetryFields {
        QuicRetryFields {
            header: self.header.fields(),
            token: self.token@,
            integrity_tag: self.integrity_tag@,
        }
    }

    #[verifier::type_invariant]
    closed spec fn inv(self) -> bool {
        &&& spec_retry_packet(self.bytes@) == Ok::<QuicRetryFields, QuicPacketParseError>(self.fields())
        &&& self.header.spec_input() == self.bytes@
        &&& self.packet_type == QuicLongPacketType::Retry
    }

    /// Assembles a Retry view from validated wire components.
    pub(crate) fn from_validated(
        bytes: &'a [u8],
        header: QuicLongHeader<'a>,
        packet_type: QuicLongPacketType,
        token: &'a [u8],
        integrity_tag: &'a [u8],
    ) -> (r: Self)
        requires
            spec_retry_packet(bytes@) == Ok::<QuicRetryFields, QuicPacketParseError>(
                QuicRetryFields { header: header.fields(), token: token@, integrity_tag: integrity_tag@ },
            ),
            header.spec_input() == bytes@,
            packet_type == QuicLongPacketType::Retry,
        ensures
            r@ == bytes@,
            r.fields() == (QuicRetryFields {
                header: header.fields(),
                token: token@,
                integrity_tag: integrity_tag@,
            }),
    {
        Self { bytes, header, packet_type, token, integrity_tag }
    }

    /// Parses a complete QUIC v1 or v2 Retry terminal packet.
    pub fn parse(bytes: &'a [u8]) -> (r: Result<Self, QuicPacketParseError>)
        ensures
            match r {
                Ok(packet) => packet@ == bytes@ && spec_retry_packet(bytes@) == Ok::<
                    QuicRetryFields,
                    QuicPacketParseError,
                >(packet.fields()),
                Err(e) => spec_retry_packet(bytes@) == Err::<QuicRetryFields, QuicPacketParseError>(e),
            },
    {
        let header = match QuicLongHeader::parse(bytes) {
            Ok(header) => header,
            Err(e) => return Err(e),
        };
        let version = header.version();
        if version.raw() != 1 && version.raw() != 0x6b33_43cf {
            return Err(QuicPacketParseError::UnsupportedVersion { version });
        }
        if !header.has_fixed_bit() {
            return Err(QuicPacketParseError::FixedBitNotSet { first_byte: header.first_byte() });
        }
        let destination_length = header.destination_connection_id().len();
        if destination_length > 20 {
            return Err(
                QuicPacketParseError::ConnectionIdTooLong {
                    field: super::header::QuicConnectionIdField::Destination,
                    length: destination_length,
                },
            );
        }
        let source_length = header.source_connection_id().len();
        if source_length > 20 {
            return Err(
                QuicPacketParseError::ConnectionIdTooLong {
                    field: super::header::QuicConnectionIdField::Source,
                    length: source_length,
                },
            );
        }
        let packet_type = match header.long_packet_type() {
            Some(packet_type) => packet_type,
            None => return Err(QuicPacketParseError::UnsupportedVersion { version }),
        };
        if packet_type != QuicLongPacketType::Retry {
            return Err(QuicPacketParseError::NotRetry { packet_type });
        }
        let header_end = header.as_bytes().len();
        let required = match header_end.checked_add(RETRY_INTEGRITY_TAG_LEN) {
            Some(required) => required,
            None => return Err(
                QuicPacketParseError::LengthOverflow {
                    offset: header_end,
                    length: RETRY_INTEGRITY_TAG_LEN,
                },
            ),
        };
        if bytes.len() < required {
            return Err(QuicPacketParseError::Incomplete { required, available: bytes.len() });
        }
        if bytes.len() == required {
            return Err(QuicPacketParseError::EmptyRetryToken);
        }
        let tag_start = bytes.len() - RETRY_INTEGRITY_TAG_LEN;
        Ok(
            Self {
                bytes,
                header,
                packet_type,
                token: slice_range(bytes, header_end, tag_start),
                integrity_tag: slice_from(bytes, tag_start),
            },
        )
    }

    /// Returns the accepted invariant long-header prefix.
    pub fn header(self) -> (r: QuicLongHeader<'a>)
        ensures
            r.fields() == self.fields().header,
            r.spec_input() == self@,
    {
        proof {
            use_type_invariant(&self);
        }
        self.header
    }

    /// Returns the supported QUIC version.
    pub fn version(self) -> (r: QuicVersion)
        ensures
            r.spec_raw() == self.fields().header.version,
    {
        self.header.version()
    }

    /// Returns the Retry semantic packet type.
    pub fn packet_type(self) -> (r: QuicLongPacketType)
        ensures
            r == QuicLongPacketType::Retry,
    {
        proof {
            use_type_invariant(&self);
        }
        self.packet_type
    }

    /// Returns the exact opaque Retry Token bytes.
    pub fn token(self) -> (r: &'a [u8])
        ensures
            r@ == self.fields().token,
    {
        self.token
    }

    /// Returns the exact final 16-byte opaque Retry Integrity Tag.
    pub fn integrity_tag(self) -> (r: &'a [u8])
        ensures
            r@ == self.fields().integrity_tag,
            r@.len() == 16,
    {
        proof {
            use_type_invariant(&self);
        }
        self.integrity_tag
    }

    /// Returns the complete supplied terminal packet bytes.
    pub fn as_bytes(self) -> (r: &'a [u8])
        ensures
            r@ == self@,
            spec_retry_packet(self@) == Ok::<QuicRetryFields, QuicPacketParseError>(self.fields()),
    {
        proof {
            use_type_invariant(&self);
        }
        self.bytes
    }
}

} // verus!
