//! Version-aware bounded views of protected QUIC long packets.

use super::header::{
    QuicConnectionIdField, QuicLongHeader, QuicLongHeaderFields, QuicLongPacketType, QuicVersion,
    spec_fixed_bit, spec_long_header, spec_long_packet_type, spec_type_bits, spec_v2,
};
use super::parse::QuicPacketParseError;
use crate::quic::varint::{
    QuicVarInt, QuicVarIntParseError, spec_decode_value, spec_required, spec_varint_complete,
    spec_varint_span,
};
use crate::wire::{slice_from, slice_range};
use vstd::prelude::*;

verus! {

broadcast use QuicVersion::lemma_raw, QuicVersion::lemma_from_raw;

/// The end of `length` bytes at `offset`, or the overflow error.
pub open spec fn spec_checked_end(offset: int, length: int) -> Result<int, QuicPacketParseError> {
    if offset + length > usize::MAX {
        Err(QuicPacketParseError::LengthOverflow { offset: offset as usize, length: length as usize })
    } else {
        Ok(offset + length)
    }
}

/// A decoded length as a `usize`, or the error when it does not fit.
pub open spec fn spec_to_usize(value: u64) -> Result<int, QuicPacketParseError> {
    if value > usize::MAX {
        Err(QuicPacketParseError::LengthNotRepresentable { value })
    } else {
        Ok(value as int)
    }
}

/// The encoded variable integer at `offset` of `b`, or the error locating it.
pub open spec fn spec_varint_at(b: Seq<u8>, offset: int) -> Result<Seq<u8>, QuicPacketParseError> {
    let rest = b.subrange(offset, b.len() as int);
    if spec_varint_complete(rest) {
        Ok(spec_varint_span(rest))
    } else {
        match spec_checked_end(offset, spec_required(rest) as int) {
            Err(e) => Err(e),
            Ok(required) => Err(
                QuicPacketParseError::Incomplete { required: required as usize, available: b.len() as usize },
            ),
        }
    }
}

/// The error for a connection ID longer than a supported version allows.
pub open spec fn spec_connection_id_error(header: QuicLongHeaderFields) -> Option<QuicPacketParseError> {
    if header.destination_connection_id.len() > 20 {
        Some(
            QuicPacketParseError::ConnectionIdTooLong {
                field: QuicConnectionIdField::Destination,
                length: header.destination_connection_id.len() as usize,
            },
        )
    } else if header.source_connection_id.len() > 20 {
        Some(
            QuicPacketParseError::ConnectionIdTooLong {
                field: QuicConnectionIdField::Source,
                length: header.source_connection_id.len() as usize,
            },
        )
    } else {
        None
    }
}

/// The packet type of a version 1 or 2 long header with its fixed bit set and connection IDs
/// of at most twenty bytes, or the first reason it is not one.
pub open spec fn spec_supported_long_type(header: QuicLongHeaderFields) -> Result<
    QuicLongPacketType,
    QuicPacketParseError,
> {
    if header.version != 1 && header.version != spec_v2() {
        Err(QuicPacketParseError::UnsupportedVersion { version: QuicVersion::spec_from(header.version) })
    } else if !spec_fixed_bit(header.first_byte) {
        Err(QuicPacketParseError::FixedBitNotSet { first_byte: header.first_byte })
    } else if spec_connection_id_error(header) is Some {
        Err(spec_connection_id_error(header)->0)
    } else {
        match spec_long_packet_type(header.version, spec_type_bits(header.first_byte)) {
            None => Err(
                QuicPacketParseError::UnsupportedVersion { version: QuicVersion::spec_from(header.version) },
            ),
            Some(t) => Ok(t),
        }
    }
}

/// The fields of a protected long packet.
pub struct QuicProtectedLongFields {
    /// The invariant header, parsed from the whole input.
    pub header: QuicLongHeaderFields,
    /// The semantic packet type.
    pub packet_type: QuicLongPacketType,
    /// The encoded token length of an Initial packet.
    pub token_length: Option<Seq<u8>>,
    /// The token of an Initial packet.
    pub token: Option<Seq<u8>>,
    /// The encoded protected length.
    pub length: Seq<u8>,
    /// Where the packet number starts.
    pub packet_number_offset: nat,
    /// Where the packet ends.
    pub packet_end: nat,
}

/// The token fields of an Initial packet whose header ends at `header_end`: the encoded
/// token length, the token, and where the length field starts.
pub open spec fn spec_initial_token(b: Seq<u8>, header_end: int) -> Result<
    (Seq<u8>, Seq<u8>, int),
    QuicPacketParseError,
> {
    match spec_varint_at(b, header_end) {
        Err(e) => Err(e),
        Ok(tl) => match spec_checked_end(header_end, tl.len() as int) {
            Err(e) => Err(e),
            Ok(token_start) => match spec_to_usize(spec_decode_value(tl)) {
                Err(e) => Err(e),
                Ok(token_len) => match spec_checked_end(token_start, token_len) {
                    Err(e) => Err(e),
                    Ok(token_end) => if b.len() < token_end {
                        Err(
                            QuicPacketParseError::Incomplete {
                                required: token_end as usize,
                                available: b.len() as usize,
                            },
                        )
                    } else {
                        Ok((tl, b.subrange(token_start, token_end), token_end))
                    },
                },
            },
        },
    }
}

/// The protected Initial, 0-RTT or Handshake packet that `b` starts with, or the first
/// reason it holds none.
pub open spec fn spec_protected_long_packet(b: Seq<u8>) -> Result<
    QuicProtectedLongFields,
    QuicPacketParseError,
> {
    match spec_long_header(b) {
        Err(e) => Err(e),
        Ok(h) => match spec_supported_long_type(h) {
            Err(e) => Err(e),
            Ok(packet_type) => if packet_type == QuicLongPacketType::Retry {
                Err(QuicPacketParseError::NotLengthDelimited { packet_type })
            } else {
                let token: Result<(Option<Seq<u8>>, Option<Seq<u8>>, int), QuicPacketParseError> =
                    if packet_type == QuicLongPacketType::Initial {
                    match spec_initial_token(b, h.prefix_len as int) {
                        Err(e) => Err(e),
                        Ok((tl, t, end)) => Ok((Some(tl), Some(t), end)),
                    }
                } else {
                    Ok((None, None, h.prefix_len as int))
                };
                match token {
                    Err(e) => Err(e),
                    Ok((token_length, token, length_offset)) => match spec_varint_at(b, length_offset) {
                        Err(e) => Err(e),
                        Ok(lv) => if spec_decode_value(lv) < 2 {
                            Err(
                                QuicPacketParseError::ProtectedRemainderTooShort {
                                    minimum: 2,
                                    actual: spec_decode_value(lv),
                                },
                            )
                        } else {
                            match spec_checked_end(length_offset, lv.len() as int) {
                                Err(e) => Err(e),
                                Ok(pn) => match spec_to_usize(spec_decode_value(lv)) {
                                    Err(e) => Err(e),
                                    Ok(l) => match spec_checked_end(pn, l) {
                                        Err(e) => Err(e),
                                        Ok(end) => if b.len() < end {
                                            Err(
                                                QuicPacketParseError::Incomplete {
                                                    required: end as usize,
                                                    available: b.len() as usize,
                                                },
                                            )
                                        } else {
                                            Ok(
                                                QuicProtectedLongFields {
                                                    header: h,
                                                    packet_type,
                                                    token_length,
                                                    token,
                                                    length: lv,
                                                    packet_number_offset: pn as nat,
                                                    packet_end: end as nat,
                                                },
                                            )
                                        },
                                    },
                                },
                            }
                        },
                    },
                }
            },
        },
    }
}

/// A borrowed QUIC v1 or v2 protected Initial, 0-RTT, or Handshake packet.
///
/// This view bounds the packet using its unprotected length field but deliberately leaves
/// packet number length, protected payload, and all cryptographic interpretation opaque.
#[derive(Clone, Copy, Debug, PartialEq, Eq)]
pub struct QuicProtectedLongPacket<'a> {
    bytes: &'a [u8],
    header: QuicLongHeader<'a>,
    packet_type: QuicLongPacketType,
    token_length: Option<QuicVarInt<'a>>,
    token: Option<&'a [u8]>,
    length: QuicVarInt<'a>,
    packet_number_offset: usize,
    protected_remainder: &'a [u8],
}

impl<'a> View for QuicProtectedLongPacket<'a> {
    type V = Seq<u8>;

    closed spec fn view(&self) -> Seq<u8> {
        self.bytes@
    }
}

/// The view of an optional variable integer.
pub open spec fn spec_opt_varint(v: Option<QuicVarInt<'_>>) -> Option<Seq<u8>> {
    match v {
        Some(x) => Some(x@),
        None => None,
    }
}

/// The view of an optional byte string.
pub open spec fn spec_opt_slice(v: Option<&[u8]>) -> Option<Seq<u8>> {
    match v {
        Some(x) => Some(x@),
        None => None,
    }
}

impl<'a> QuicProtectedLongPacket<'a> {
    /// The parsed fields.
    pub closed spec fn fields(&self) -> QuicProtectedLongFields {
        QuicProtectedLongFields {
            header: self.header.fields(),
            packet_type: self.packet_type,
            token_length: spec_opt_varint(self.token_length),
            token: spec_opt_slice(self.token),
            length: self.length@,
            packet_number_offset: self.packet_number_offset as nat,
            packet_end: self.bytes@.len(),
        }
    }

    /// The input the packet was parsed from.
    pub closed spec fn spec_input(&self) -> Seq<u8> {
        self.header.spec_input()
    }

    #[verifier::type_invariant]
    closed spec fn inv(self) -> bool {
        &&& spec_protected_long_packet(self.header.spec_input()) == Ok::<
            QuicProtectedLongFields,
            QuicPacketParseError,
        >(self.fields())
        &&& self.bytes@ == self.header.spec_input().subrange(0, self.bytes@.len() as int)
        &&& self.protected_remainder@ == self.bytes@.subrange(
            self.packet_number_offset as int,
            self.bytes@.len() as int,
        )
    }

    /// Assembles a protected long-packet view from validated wire components.
    pub(crate) fn from_validated(
        bytes: &'a [u8],
        header: QuicLongHeader<'a>,
        packet_type: QuicLongPacketType,
        token_fields: Option<(QuicVarInt<'a>, &'a [u8])>,
        length: QuicVarInt<'a>,
        packet_number_offset: usize,
        protected_remainder: &'a [u8],
    ) -> (r: Self)
        requires
            ({
                let fields = QuicProtectedLongFields {
                    header: header.fields(),
                    packet_type,
                    token_length: match token_fields {
                        Some((l, _)) => Some(l@),
                        None => None,
                    },
                    token: match token_fields {
                        Some((_, t)) => Some(t@),
                        None => None,
                    },
                    length: length@,
                    packet_number_offset: packet_number_offset as nat,
                    packet_end: bytes@.len(),
                };
                &&& spec_protected_long_packet(header.spec_input()) == Ok::<
                    QuicProtectedLongFields,
                    QuicPacketParseError,
                >(fields)
                &&& bytes@ == header.spec_input().subrange(0, bytes@.len() as int)
                &&& protected_remainder@ == bytes@.subrange(
                    packet_number_offset as int,
                    bytes@.len() as int,
                )
            }),
        ensures
            r@ == bytes@,
            r.spec_input() == header.spec_input(),
            r.fields() == (QuicProtectedLongFields {
                header: header.fields(),
                packet_type,
                token_length: match token_fields {
                    Some((l, _)) => Some(l@),
                    None => None,
                },
                token: match token_fields {
                    Some((_, t)) => Some(t@),
                    None => None,
                },
                length: length@,
                packet_number_offset: packet_number_offset as nat,
                packet_end: bytes@.len(),
            }),
    {
        let (token_length, token) = match token_fields {
            Some((token_length, token)) => (Some(token_length), Some(token)),
            None => (None, None),
        };
        Self {
            bytes,
            header,
            packet_type,
            token_length,
            token,
            length,
            packet_number_offset,
            protected_remainder,
        }
    }

    /// Parses one exact protected Initial, 0-RTT, or Handshake packet and returns its suffix.
    #[verifier::rlimit(40)]
    pub fn parse(bytes: &'a [u8]) -> (r: Result<(Self, &'a [u8]), QuicPacketParseError>)
        ensures
            match r {
                Ok((packet, suffix)) => spec_protected_long_packet(bytes@) == Ok::<
                    QuicProtectedLongFields,
                    QuicPacketParseError,
                >(packet.fields()) && packet.spec_input() == bytes@ && packet@ == bytes@.subrange(
                    0,
                    packet@.len() as int,
                ) && packet@.len() == packet.fields().packet_end && suffix@ == bytes@.subrange(packet@.len() as int, bytes@.len() as int),
                Err(e) => spec_protected_long_packet(bytes@) == Err::<
                    QuicProtectedLongFields,
                    QuicPacketParseError,
                >(e),
            },
    {
        let header = match QuicLongHeader::parse(bytes) {
            Ok(header) => header,
            Err(e) => return Err(e),
        };
        let version = header.version();
        if version.raw() != 1 && version.raw() != 0x6b33_43cf {
            return Err(QuicPacketParseError::UnsupportedVersion { version });
        }
        if !header.has_fixed_bit() {
            return Err(QuicPacketParseError::FixedBitNotSet { first_byte: header.first_byte() });
        }
        match validate_connection_id(
            QuicConnectionIdField::Destination,
            header.destination_connection_id().len(),
        ) {
            Ok(()) => {},
            Err(e) => return Err(e),
        }
        match validate_connection_id(QuicConnectionIdField::Source, header.source_connection_id().len()) {
            Ok(()) => {},
            Err(e) => return Err(e),
        }
        let packet_type = match header.long_packet_type() {
            Some(packet_type) => packet_type,
            None => return Err(QuicPacketParseError::UnsupportedVersion { version }),
        };
        if packet_type == QuicLongPacketType::Retry {
            return Err(QuicPacketParseError::NotLengthDelimited { packet_type });
        }
        let header_end = header.as_bytes().len();
        let (token_length, token, length_offset) = if packet_type == QuicLongPacketType::Initial {
            let token_length = match parse_varint_at(bytes, header_end) {
                Ok(v) => v,
                Err(e) => return Err(e),
            };
            let token_start = match checked_end(header_end, token_length.byte_len()) {
                Ok(end) => end,
                Err(e) => return Err(e),
            };
            let token_len = match to_usize(token_length.value()) {
                Ok(length) => length,
                Err(e) => return Err(e),
            };
            let token_end = match checked_end(token_start, token_len) {
                Ok(end) => end,
                Err(e) => return Err(e),
            };
            match require(bytes, token_end) {
                Ok(()) => {},
                Err(e) => return Err(e),
            }
            (Some(token_length), Some(slice_range(bytes, token_start, token_end)), token_end)
        } else {
            (None, None, header_end)
        };
        let length = match parse_varint_at(bytes, length_offset) {
            Ok(v) => v,
            Err(e) => return Err(e),
        };
        if length.value() < 2 {
            return Err(
                QuicPacketParseError::ProtectedRemainderTooShort {
                    minimum: 2,
                    actual: length.value(),
                },
            );
        }
        let packet_number_offset = match checked_end(length_offset, length.byte_len()) {
            Ok(end) => end,
            Err(e) => return Err(e),
        };
        let remainder_len = match to_usize(length.value()) {
            Ok(length) => length,
            Err(e) => return Err(e),
        };
        let packet_end = match checked_end(packet_number_offset, remainder_len) {
            Ok(end) => end,
            Err(e) => return Err(e),
        };
        match require(bytes, packet_end) {
            Ok(()) => {},
            Err(e) => return Err(e),
        }
        let packet_bytes = slice_range(bytes, 0, packet_end);
        let protected_remainder = slice_range(bytes, packet_number_offset, packet_end);
        proof {
            assert(protected_remainder@ =~= packet_bytes@.subrange(
                packet_number_offset as int,
                packet_end as int,
            ));
        }
        let packet = Self {
            bytes: packet_bytes,
            header,
            packet_type,
            token_length,
            token,
            length,
            packet_number_offset,
            protected_remainder,
        };
        Ok((packet, slice_from(bytes, packet_end)))
    }

    /// Returns the accepted invariant long-header prefix.
    pub fn header(self) -> (r: QuicLongHeader<'a>)
        ensures
            r.fields() == self.fields().header,
            r.spec_input() == self.spec_input(),
    {
        self.header
    }

    /// Returns the supported QUIC version.
    pub fn version(self) -> (r: QuicVersion)
        ensures
            r.spec_raw() == self.fields().header.version,
    {
        self.header.version()
    }

    /// Returns the semantic Initial, 0-RTT, or Handshake type.
    pub fn packet_type(self) -> (r: QuicLongPacketType)
        ensures
            r == self.fields().packet_type,
            r != QuicLongPacketType::Retry,
    {
        proof {
            use_type_invariant(&self);
        }
        self.packet_type
    }

    /// Returns the exact Initial token-length representation, if this is an Initial packet.
    pub fn token_length(self) -> (r: Option<QuicVarInt<'a>>)
        ensures
            spec_opt_varint(r) == self.fields().token_length,
    {
        self.token_length
    }

    /// Returns the exact Initial token, including an empty token, if this is an Initial packet.
    pub fn token(self) -> (r: Option<&'a [u8]>)
        ensures
            spec_opt_slice(r) == self.fields().token,
    {
        self.token
    }

    /// Returns the exact protected packet-length representation.
    pub fn length(self) -> (r: QuicVarInt<'a>)
        ensures
            r@ == self.fields().length,
    {
        self.length
    }

    /// Returns the absolute offset of the protected packet number from packet start.
    pub fn packet_number_offset(self) -> (r: usize)
        ensures
            r == self.fields().packet_number_offset,
    {
        self.packet_number_offset
    }

    /// Returns the exact bounded packet-number-and-protected-payload region.
    pub fn protected_remainder(self) -> (r: &'a [u8])
        ensures
            r@ == self@.subrange(self.fields().packet_number_offset as int, self@.len() as int),
            self.fields().packet_number_offset <= self@.len(),
            r@.len() >= 2,
    {
        proof {
            use_type_invariant(&self);
        }
        self.protected_remainder
    }

    /// Returns the exact complete length-delimited packet bytes.
    pub fn as_bytes(self) -> (r: &'a [u8])
        ensures
            r@ == self@,
            spec_protected_long_packet(self.spec_input()) == Ok::<
                QuicProtectedLongFields,
                QuicPacketParseError,
            >(self.fields()),
            self@ == self.spec_input().subrange(0, self@.len() as int),
            self@.len() == self.fields().packet_end,
    {
        proof {
            use_type_invariant(&self);
        }
        self.bytes
    }
}

fn validate_connection_id(field: QuicConnectionIdField, length: usize) -> (r: Result<
    (),
    QuicPacketParseError,
>)
    ensures
        length > 20 ==> r == Err::<(), QuicPacketParseError>(
            QuicPacketParseError::ConnectionIdTooLong { field, length },
        ),
        length <= 20 ==> r is Ok,
{
    if length > 20 {
        return Err(QuicPacketParseError::ConnectionIdTooLong { field, length });
    }
    Ok(())
}

fn parse_varint_at<'a>(bytes: &'a [u8], offset: usize) -> (r: Result<
    QuicVarInt<'a>,
    QuicPacketParseError,
>)
    requires
        offset <= bytes@.len(),
    ensures
        match r {
            Ok(v) => spec_varint_at(bytes@, offset as int) == Ok::<Seq<u8>, QuicPacketParseError>(v@),
            Err(e) => spec_varint_at(bytes@, offset as int) == Err::<Seq<u8>, QuicPacketParseError>(e),
        },
{
    match QuicVarInt::parse(slice_from(bytes, offset)) {
        Ok(value) => Ok(value),
        Err(QuicVarIntParseError::Incomplete { required, available: _ }) => {
            let required = match checked_end(offset, required) {
                Ok(end) => end,
                Err(e) => return Err(e),
            };
            Err(QuicPacketParseError::Incomplete { required, available: bytes.len() })
        },
    }
}

fn to_usize(value: u64) -> (r: Result<usize, QuicPacketParseError>)
    ensures
        match r {
            Ok(v) => spec_to_usize(value) == Ok::<int, QuicPacketParseError>(v as int),
            Err(e) => spec_to_usize(value) == Err::<int, QuicPacketParseError>(e),
        },
{
    if value > usize::MAX as u64 {
        Err(QuicPacketParseError::LengthNotRepresentable { value })
    } else {
        Ok(value as usize)
    }
}

fn checked_end(offset: usize, length: usize) -> (r: Result<usize, QuicPacketParseError>)
    ensures
        match r {
            Ok(v) => spec_checked_end(offset as int, length as int) == Ok::<int, QuicPacketParseError>(
                v as int,
            ),
            Err(e) => spec_checked_end(offset as int, length as int) == Err::<
                int,
                QuicPacketParseError,
            >(e),
        },
{
    match offset.checked_add(length) {
        Some(end) => Ok(end),
        None => Err(QuicPacketParseError::LengthOverflow { offset, length }),
    }
}

fn require(bytes: &[u8], required: usize) -> (r: Result<(), QuicPacketParseError>)
    ensures
        bytes@.len() < required ==> r == Err::<(), QuicPacketParseError>(
            QuicPacketParseError::Incomplete { required, available: bytes@.len() as usize },
        ),
        bytes@.len() >= required ==> r is Ok,
{
    if bytes.len() < required {
        return Err(QuicPacketParseError::Incomplete { required, available: bytes.len() });
    }
    Ok(())
}

} // verus!
