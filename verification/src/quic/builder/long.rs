//! Protected QUIC v1 and v2 length-delimited long-packet builders.

use super::{
    QuicPacketBuildError, QuicPacketBuildField, built_prefix_error, lemma_long_first_byte,
    lemma_long_prefix_roundtrip, lemma_varint_at, spec_long_first_byte, spec_long_prefix_bytes,
    write_long_prefix, write_plan_at,
};
use crate::quic::packet::header::{
    QuicConnectionId, QuicConnectionIdField, QuicLongHeader, QuicLongHeaderFields,
    QuicLongPacketType, QuicVersion, lemma_long_packet_type_inverse, spec_long_header,
    spec_raw_type,
};
use crate::quic::packet::long::{
    QuicProtectedLongFields, QuicProtectedLongPacket, spec_protected_long_packet,
};
use crate::quic::packet::parse::QuicPacketParseError;
use crate::quic::varint::{
    MAX_VALUE, QuicVarInt, QuicVarIntBuildError, QuicVarIntCodec, QuicVarIntCodecValue,
    QuicVarIntLen, spec_byte_len, spec_canonical_len, spec_decode_value, spec_encode,
    spec_len_from_first, spec_max_value,
};
use crate::wire::{copy_into, lemma_spliced_prefix, slice_range, split_at_mut_fixed};
use vstd::prelude::*;

verus! {

broadcast use QuicVersion::lemma_raw, QuicVersion::lemma_from_raw;

/// The width a variable-integer packet field gets for `value`, or why it gets none.
pub open spec fn spec_field_width(
    field: QuicPacketBuildField,
    value: u64,
    requested: Option<QuicVarIntLen>,
) -> Result<QuicVarIntLen, QuicPacketBuildError> {
    let length = match requested {
        Some(length) => length,
        None => spec_canonical_len(value),
    };
    if value > MAX_VALUE {
        Err(
            QuicPacketBuildError::VarInt {
                field,
                error: QuicVarIntBuildError::ValueTooLarge { value },
            },
        )
    } else if value > spec_max_value(length) {
        Err(
            QuicPacketBuildError::VarInt {
                field,
                error: QuicVarIntBuildError::WidthTooSmall { length, value },
            },
        )
    } else {
        Ok(length)
    }
}

/// The inputs of a protected long packet.
pub struct QuicLongBuildFields {
    /// The caller storage.
    pub destination: Seq<u8>,
    /// The version.
    pub version: u32,
    /// The protected low four bits of the first byte.
    pub protected_low_bits: u8,
    /// The destination connection ID.
    pub destination_connection_id: Seq<u8>,
    /// The source connection ID.
    pub source_connection_id: Seq<u8>,
    /// The packet type.
    pub packet_type: QuicLongPacketType,
    /// The token of an Initial packet.
    pub token: Option<Seq<u8>>,
    /// The requested width of the token length.
    pub token_length_len: Option<QuicVarIntLen>,
    /// The requested width of the packet length.
    pub length_len: Option<QuicVarIntLen>,
    /// The protected packet number and payload.
    pub protected_remainder: Seq<u8>,
}

/// The layout a protected long packet is written with: its type bits, the widths of its token
/// length and packet length, and its total length.
pub struct QuicLongLayout {
    /// The raw type bits.
    pub raw_type: u8,
    /// The width of the token length, for an Initial packet.
    pub token_length_len: Option<QuicVarIntLen>,
    /// The width of the packet length.
    pub length_len: QuicVarIntLen,
    /// The total length.
    pub required: nat,
}

/// The layout of a protected long packet, or the first error building it reports.
pub open spec fn spec_long_build(f: QuicLongBuildFields) -> Result<QuicLongLayout, QuicPacketBuildError> {
    let d = f.destination_connection_id.len();
    let s = f.source_connection_id.len();
    let rl = f.protected_remainder.len();
    if spec_raw_type(f.packet_type, f.version) is None {
        Err(QuicPacketBuildError::UnsupportedVersion { version: QuicVersion::spec_from(f.version) })
    } else if f.protected_low_bits > 0x0f {
        Err(
            QuicPacketBuildError::ProtectedLowBitsOutOfRange {
                maximum: 0x0f,
                actual: f.protected_low_bits,
            },
        )
    } else if d > 20 {
        Err(
            QuicPacketBuildError::ConnectionIdTooLong {
                field: QuicConnectionIdField::Destination,
                maximum: 20,
                actual: d as usize,
            },
        )
    } else if s > 20 {
        Err(
            QuicPacketBuildError::ConnectionIdTooLong {
                field: QuicConnectionIdField::Source,
                maximum: 20,
                actual: s as usize,
            },
        )
    } else if rl < 2 {
        Err(QuicPacketBuildError::ProtectedRemainderTooShort { minimum: 2, actual: rl as usize })
    } else {
        match spec_field_width(QuicPacketBuildField::ProtectedLength, rl as u64, f.length_len) {
            Err(e) => Err(e),
            Ok(ll) => {
                let token_width: Result<Option<QuicVarIntLen>, QuicPacketBuildError> = match f.token {
                    Some(t) => match spec_field_width(
                        QuicPacketBuildField::TokenLength,
                        t.len() as u64,
                        f.token_length_len,
                    ) {
                        Err(e) => Err(e),
                        Ok(tll) => Ok(Some(tll)),
                    },
                    None => Ok(None),
                };
                match token_width {
                    Err(e) => Err(e),
                    Ok(tll) => {
                        let source_end = 7 + d + s;
                        let token_start = match tll {
                            Some(w) => source_end + spec_byte_len(w),
                            None => source_end,
                        };
                        let token_len = match f.token {
                            Some(t) => t.len(),
                            None => 0,
                        };
                        let token_end = token_start + token_len;
                        let pn = token_end + spec_byte_len(ll);
                        let required = pn + rl;
                        if token_end > usize::MAX {
                            Err(
                                QuicPacketBuildError::LengthOverflow {
                                    component: "Initial token",
                                    offset: token_start as usize,
                                    length: token_len as usize,
                                },
                            )
                        } else if pn > usize::MAX {
                            Err(
                                QuicPacketBuildError::LengthOverflow {
                                    component: "protected length",
                                    offset: token_end as usize,
                                    length: spec_byte_len(ll) as usize,
                                },
                            )
                        } else if required > usize::MAX {
                            Err(
                                QuicPacketBuildError::LengthOverflow {
                                    component: "protected remainder",
                                    offset: pn as usize,
                                    length: rl as usize,
                                },
                            )
                        } else if f.destination.len() < required {
                            Err(
                                QuicPacketBuildError::BufferTooShort {
                                    required: required as usize,
                                    available: f.destination.len() as usize,
                                },
                            )
                        } else {
                            Ok(
                                QuicLongLayout {
                                    raw_type: spec_raw_type(f.packet_type, f.version)->0,
                                    token_length_len: tll,
                                    length_len: ll,
                                    required,
                                },
                            )
                        }
                    },
                }
            },
        }
    }
}

/// The token-length field and token of an Initial packet, as written.
pub open spec fn spec_token_part(token: Option<Seq<u8>>, width: Option<QuicVarIntLen>) -> Seq<u8> {
    match (token, width) {
        (Some(t), Some(w)) => spec_encode(t.len() as u64, w) + t,
        _ => Seq::empty(),
    }
}

/// The bytes of a protected long packet written with layout `l`.
pub open spec fn spec_long_packet_bytes(f: QuicLongBuildFields, l: QuicLongLayout) -> Seq<u8> {
    spec_long_prefix_bytes(
        spec_long_first_byte(l.raw_type, f.protected_low_bits),
        f.version,
        f.destination_connection_id,
        f.source_connection_id,
    ) + spec_token_part(f.token, l.token_length_len) + spec_encode(
        f.protected_remainder.len() as u64,
        l.length_len,
    ) + f.protected_remainder
}

/// The fields a written protected long packet is read back with.
pub open spec fn spec_long_packet_fields(f: QuicLongBuildFields, l: QuicLongLayout) -> QuicProtectedLongFields {
    let bytes = spec_long_packet_bytes(f, l);
    let prefix_len = 7 + f.destination_connection_id.len() + f.source_connection_id.len();
    let token_start = match l.token_length_len {
        Some(w) => prefix_len + spec_byte_len(w),
        None => prefix_len,
    };
    let token_end = token_start + match f.token {
        Some(t) => t.len(),
        None => 0,
    };
    QuicProtectedLongFields {
        header: QuicLongHeaderFields {
            first_byte: spec_long_first_byte(l.raw_type, f.protected_low_bits),
            version: f.version,
            destination_connection_id: f.destination_connection_id,
            source_connection_id: f.source_connection_id,
            prefix_len,
            version_specific: bytes.subrange(prefix_len as int, bytes.len() as int),
        },
        packet_type: f.packet_type,
        token_length: match (f.token, l.token_length_len) {
            (Some(t), Some(w)) => Some(spec_encode(t.len() as u64, w)),
            _ => None,
        },
        token: f.token,
        length: spec_encode(f.protected_remainder.len() as u64, l.length_len),
        packet_number_offset: token_end + spec_byte_len(l.length_len),
        packet_end: bytes.len(),
    }
}

/// A protected long packet written from valid inputs carries them back: its type, version,
/// connection IDs and token, the requested low bits of its first byte, a length field that
/// decodes to the length of the protected remainder, and that remainder after the packet number
/// offset.
pub proof fn lemma_long_build_fields(f: QuicLongBuildFields, l: QuicLongLayout)
    requires
        spec_long_build(f) == Ok::<QuicLongLayout, QuicPacketBuildError>(l),
    ensures
        ({
            let p = spec_long_packet_fields(f, l);
            let b = spec_long_packet_bytes(f, l);
            &&& p.packet_type == f.packet_type
            &&& p.header.version == f.version
            &&& p.header.destination_connection_id == f.destination_connection_id
            &&& p.header.source_connection_id == f.source_connection_id
            &&& p.header.first_byte & 0x0f == f.protected_low_bits
            &&& p.token == f.token
            &&& spec_decode_value(p.length) == f.protected_remainder.len()
            &&& p.packet_number_offset <= b.len()
            &&& b.subrange(p.packet_number_offset as int, b.len() as int) == f.protected_remainder
            &&& f.version == 1 ==> p.header.first_byte & 0xf0 == match f.packet_type {
                QuicLongPacketType::Initial => 0xc0u8,
                QuicLongPacketType::ZeroRtt => 0xd0u8,
                QuicLongPacketType::Handshake => 0xe0u8,
                QuicLongPacketType::Retry => 0xf0u8,
            }
            &&& f.version == 0x6b33_43cf ==> p.header.first_byte & 0xf0 == match f.packet_type {
                QuicLongPacketType::Initial => 0xd0u8,
                QuicLongPacketType::ZeroRtt => 0xe0u8,
                QuicLongPacketType::Handshake => 0xf0u8,
                QuicLongPacketType::Retry => 0xc0u8,
            }
        }),
{
    let raw = l.raw_type;
    let low = f.protected_low_bits;
    assert(raw <= 3 && low <= 0x0f ==> (0xc0u8 | (raw << 4u8) | low) as u8 & 0xf0 == (0xc0u8 | (
    raw << 4u8)) as u8) by (bit_vector);
    assert(raw == 0 ==> (0xc0u8 | (raw << 4u8)) as u8 == 0xc0u8) by (bit_vector);
    assert(raw == 1 ==> (0xc0u8 | (raw << 4u8)) as u8 == 0xd0u8) by (bit_vector);
    assert(raw == 2 ==> (0xc0u8 | (raw << 4u8)) as u8 == 0xe0u8) by (bit_vector);
    assert(raw == 3 ==> (0xc0u8 | (raw << 4u8)) as u8 == 0xf0u8) by (bit_vector);
    assert(raw <= 3 && low <= 0x0f ==> (0xc0u8 | (raw << 4u8) | low) as u8 & 0x0f == low)
        by (bit_vector);
    QuicVarIntCodec::lemma_encode_decode(f.protected_remainder.len() as u64, l.length_len);
    let b = spec_long_packet_bytes(f, l);
    let p = spec_long_packet_fields(f, l);
    let head = spec_long_prefix_bytes(
        spec_long_first_byte(l.raw_type, f.protected_low_bits),
        f.version,
        f.destination_connection_id,
        f.source_connection_id,
    ) + spec_token_part(f.token, l.token_length_len) + spec_encode(
        f.protected_remainder.len() as u64,
        l.length_len,
    );
    assert(b == head + f.protected_remainder);
    assert(head.len() == p.packet_number_offset);
    assert(b.subrange(head.len() as int, b.len() as int) =~= f.protected_remainder);
}

/// A protected long packet written from valid inputs is read back as exactly the packet written:
/// its header, type, token, length and protected remainder.
#[verifier::rlimit(60)]
pub proof fn lemma_long_packet_roundtrip(f: QuicLongBuildFields, l: QuicLongLayout)
    requires
        spec_long_build(f) == Ok::<QuicLongLayout, QuicPacketBuildError>(l),
        f.packet_type != QuicLongPacketType::Retry,
        (f.packet_type == QuicLongPacketType::Initial) == (f.token is Some),
    ensures
        spec_long_packet_bytes(f, l).len() == l.required,
        spec_protected_long_packet(spec_long_packet_bytes(f, l)) == Ok::<
            QuicProtectedLongFields,
            QuicPacketParseError,
        >(spec_long_packet_fields(f, l)),
{
    let b = spec_long_packet_bytes(f, l);
    let first = spec_long_first_byte(l.raw_type, f.protected_low_bits);
    let d = f.destination_connection_id.len() as int;
    let s = f.source_connection_id.len() as int;
    let prefix = spec_long_prefix_bytes(
        first,
        f.version,
        f.destination_connection_id,
        f.source_connection_id,
    );
    let rest = spec_token_part(f.token, l.token_length_len) + spec_encode(
        f.protected_remainder.len() as u64,
        l.length_len,
    ) + f.protected_remainder;
    assert(b =~= prefix + rest);
    lemma_long_first_byte(l.raw_type, f.protected_low_bits);
    lemma_long_prefix_roundtrip(
        first,
        f.version,
        f.destination_connection_id,
        f.source_connection_id,
        rest,
    );
    lemma_long_packet_type_inverse(f.version, l.raw_type, f.packet_type);
    let prefix_len: int = 7 + d + s;
    assert(prefix.len() == prefix_len);
    let rl = f.protected_remainder.len();
    let ll = l.length_len;
    QuicVarIntCodec::lemma_encode_decode(rl as u64, ll);
    match (f.token, l.token_length_len) {
        (Some(t), Some(w)) => {
            QuicVarIntCodec::lemma_encode_decode(t.len() as u64, w);
            let tw = spec_byte_len(w) as int;
            assert(b.subrange(prefix_len, prefix_len + tw) =~= spec_encode(
                t.len() as u64,
                w,
            ));
            lemma_varint_at(b, prefix_len, t.len() as u64, w);
            assert(b.subrange(prefix_len + tw, prefix_len + tw + t.len()) =~= t);
            let lo: int = prefix_len + tw + t.len();
            assert(b.subrange(lo, lo + spec_byte_len(ll)) =~= spec_encode(rl as u64, ll));
            lemma_varint_at(b, lo, rl as u64, ll);
        },
        _ => {
            assert(spec_token_part(f.token, l.token_length_len) =~= Seq::<u8>::empty());
            let lo: int = prefix_len;
            assert(b.subrange(lo, lo + spec_byte_len(ll)) =~= spec_encode(rl as u64, ll));
            lemma_varint_at(b, lo, rl as u64, ll);
        },
    }
}

/// Builds a protected QUIC v1 or v2 Initial packet in caller-owned storage.
pub struct QuicInitialPacketBuilder<'buffer, 'input> {
    destination: &'buffer mut [u8],
    version: QuicVersion,
    protected_low_bits: u8,
    destination_connection_id: QuicConnectionId<'input>,
    source_connection_id: QuicConnectionId<'input>,
    token: &'input [u8],
    protected_remainder: &'input [u8],
    token_length_len: Option<QuicVarIntLen>,
    length_len: Option<QuicVarIntLen>,
}

impl<'buffer, 'input> QuicInitialPacketBuilder<'buffer, 'input> {
    /// The packet inputs this builder holds.
    pub closed spec fn fields(&self) -> QuicLongBuildFields {
        QuicLongBuildFields {
            destination: self.destination@,
            version: self.version.spec_raw(),
            protected_low_bits: self.protected_low_bits,
            destination_connection_id: self.destination_connection_id@,
            source_connection_id: self.source_connection_id@,
            packet_type: QuicLongPacketType::Initial,
            token: Some(self.token@),
            token_length_len: self.token_length_len,
            length_len: self.length_len,
            protected_remainder: self.protected_remainder@,
        }
    }

    /// Creates a builder with exact opaque Initial token and protected-remainder bytes.
    pub fn new(
        destination: &'buffer mut [u8],
        version: QuicVersion,
        protected_low_bits: u8,
        destination_connection_id: QuicConnectionId<'input>,
        source_connection_id: QuicConnectionId<'input>,
        token: &'input [u8],
        protected_remainder: &'input [u8],
    ) -> (r: Self)
        ensures
            r.fields() == (QuicLongBuildFields {
                destination: old(destination)@,
                version: version.spec_raw(),
                protected_low_bits,
                destination_connection_id: destination_connection_id@,
                source_connection_id: source_connection_id@,
                packet_type: QuicLongPacketType::Initial,
                token: Some(token@),
                token_length_len: None,
                length_len: None,
                protected_remainder: protected_remainder@,
            }),
    {
        Self {
            destination,
            version,
            protected_low_bits,
            destination_connection_id,
            source_connection_id,
            token,
            protected_remainder,
            token_length_len: None,
            length_len: None,
        }
    }

    /// Requests an explicit legal encoded width for the Initial token-length field.
    pub fn with_token_length_len(self, length: QuicVarIntLen) -> (r: Self)
        ensures
            r.fields() == (QuicLongBuildFields { token_length_len: Some(length), ..self.fields() }),
    {
        let mut b = self;
        b.token_length_len = Some(length);
        b
    }

    /// Requests an explicit legal encoded width for the protected packet-length field.
    pub fn with_length_len(self, length: QuicVarIntLen) -> (r: Self)
        ensures
            r.fields() == (QuicLongBuildFields { length_len: Some(length), ..self.fields() }),
    {
        let mut b = self;
        b.length_len = Some(length);
        b
    }

    /// Validates all inputs and capacity before writing a complete protected Initial packet.
    pub fn build(self) -> (r: Result<QuicProtectedLongPacket<'buffer>, QuicPacketBuildError>)
        ensures
            match r {
                Ok(packet) => spec_long_build(self.fields()) is Ok && packet@ == spec_long_packet_bytes(
                    self.fields(),
                    spec_long_build(self.fields())->Ok_0,
                ) && packet.fields() == spec_long_packet_fields(
                    self.fields(),
                    spec_long_build(self.fields())->Ok_0,
                ) && packet.spec_input() == packet@ && spec_protected_long_packet(packet@) == Ok::<
                    QuicProtectedLongFields,
                    QuicPacketParseError,
                >(packet.fields())
                    && packet.fields().packet_type == self.fields().packet_type
                    && packet.fields().header.version == self.fields().version
                    && packet.fields().header.destination_connection_id == self.fields().destination_connection_id
                    && packet.fields().header.source_connection_id == self.fields().source_connection_id
                    && packet.fields().header.first_byte & 0x0f == self.fields().protected_low_bits
                    && packet.fields().token == self.fields().token
                    && spec_decode_value(packet.fields().length) == self.fields().protected_remainder.len()
                    && packet@.subrange(packet.fields().packet_number_offset as int, packet@.len() as int)
                    == self.fields().protected_remainder
                    && (self.fields().version == 1 ==> packet.fields().header.first_byte & 0xf0
                    == 0xc0u8) && (self.fields().version == 0x6b33_43cf
                    ==> packet.fields().header.first_byte & 0xf0 == 0xd0u8),
                Err(e) => spec_long_build(self.fields()) == Err::<QuicLongLayout, QuicPacketBuildError>(
                    e,
                ),
            },
    {
        build_long(
            BuildInput {
                destination: self.destination,
                version: self.version,
                protected_low_bits: self.protected_low_bits,
                destination_connection_id: self.destination_connection_id,
                source_connection_id: self.source_connection_id,
                packet_type: QuicLongPacketType::Initial,
                token: Some(self.token),
                token_length_len: self.token_length_len,
                length_len: self.length_len,
                protected_remainder: self.protected_remainder,
            },
        )
    }
}

/// Builds a protected QUIC v1 or v2 0-RTT packet in caller-owned storage.
pub struct QuicZeroRttPacketBuilder<'buffer, 'input> {
    destination: &'buffer mut [u8],
    version: QuicVersion,
    protected_low_bits: u8,
    destination_connection_id: QuicConnectionId<'input>,
    source_connection_id: QuicConnectionId<'input>,
    protected_remainder: &'input [u8],
    length_len: Option<QuicVarIntLen>,
}

impl<'buffer, 'input> QuicZeroRttPacketBuilder<'buffer, 'input> {
    /// The packet inputs this builder holds.
    pub closed spec fn fields(&self) -> QuicLongBuildFields {
        QuicLongBuildFields {
            destination: self.destination@,
            version: self.version.spec_raw(),
            protected_low_bits: self.protected_low_bits,
            destination_connection_id: self.destination_connection_id@,
            source_connection_id: self.source_connection_id@,
            packet_type: QuicLongPacketType::ZeroRtt,
            token: None,
            token_length_len: None,
            length_len: self.length_len,
            protected_remainder: self.protected_remainder@,
        }
    }

    /// Creates a builder with exact opaque protected-remainder bytes.
    pub fn new(
        destination: &'buffer mut [u8],
        version: QuicVersion,
        protected_low_bits: u8,
        destination_connection_id: QuicConnectionId<'input>,
        source_connection_id: QuicConnectionId<'input>,
        protected_remainder: &'input [u8],
    ) -> (r: Self)
        ensures
            r.fields() == (QuicLongBuildFields {
                destination: old(destination)@,
                version: version.spec_raw(),
                protected_low_bits,
                destination_connection_id: destination_connection_id@,
                source_connection_id: source_connection_id@,
                packet_type: QuicLongPacketType::ZeroRtt,
                token: None,
                token_length_len: None,
                length_len: None,
                protected_remainder: protected_remainder@,
            }),
    {
        Self {
            destination,
            version,
            protected_low_bits,
            destination_connection_id,
            source_connection_id,
            protected_remainder,
            length_len: None,
        }
    }

    /// Requests an explicit legal encoded width for the protected packet-length field.
    pub fn with_length_len(self, length: QuicVarIntLen) -> (r: Self)
        ensures
            r.fields() == (QuicLongBuildFields { length_len: Some(length), ..self.fields() }),
    {
        let mut b = self;
        b.length_len = Some(length);
        b
    }

    /// Validates all inputs and capacity before writing a complete protected 0-RTT packet.
    pub fn build(self) -> (r: Result<QuicProtectedLongPacket<'buffer>, QuicPacketBuildError>)
        ensures
            match r {
                Ok(packet) => spec_long_build(self.fields()) is Ok && packet@ == spec_long_packet_bytes(
                    self.fields(),
                    spec_long_build(self.fields())->Ok_0,
                ) && packet.fields() == spec_long_packet_fields(
                    self.fields(),
                    spec_long_build(self.fields())->Ok_0,
                ) && packet.spec_input() == packet@ && spec_protected_long_packet(packet@) == Ok::<
                    QuicProtectedLongFields,
                    QuicPacketParseError,
                >(packet.fields())
                    && packet.fields().packet_type == self.fields().packet_type
                    && packet.fields().header.version == self.fields().version
                    && packet.fields().header.destination_connection_id == self.fields().destination_connection_id
                    && packet.fields().header.source_connection_id == self.fields().source_connection_id
                    && packet.fields().header.first_byte & 0x0f == self.fields().protected_low_bits
                    && packet.fields().token == self.fields().token
                    && spec_decode_value(packet.fields().length) == self.fields().protected_remainder.len()
                    && packet@.subrange(packet.fields().packet_number_offset as int, packet@.len() as int)
                    == self.fields().protected_remainder
                    && (self.fields().version == 1 ==> packet.fields().header.first_byte & 0xf0
                    == 0xd0u8) && (self.fields().version == 0x6b33_43cf
                    ==> packet.fields().header.first_byte & 0xf0 == 0xe0u8),
                Err(e) => spec_long_build(self.fields()) == Err::<QuicLongLayout, QuicPacketBuildError>(
                    e,
                ),
            },
    {
        build_long(
            BuildInput {
                destination: self.destination,
                version: self.version,
                protected_low_bits: self.protected_low_bits,
                destination_connection_id: self.destination_connection_id,
                source_connection_id: self.source_connection_id,
                packet_type: QuicLongPacketType::ZeroRtt,
                token: None,
                token_length_len: None,
                length_len: self.length_len,
                protected_remainder: self.protected_remainder,
            },
        )
    }
}

/// Builds a protected QUIC v1 or v2 Handshake packet in caller-owned storage.
pub struct QuicHandshakePacketBuilder<'buffer, 'input> {
    destination: &'buffer mut [u8],
    version: QuicVersion,
    protected_low_bits: u8,
    destination_connection_id: QuicConnectionId<'input>,
    source_connection_id: QuicConnectionId<'input>,
    protected_remainder: &'input [u8],
    length_len: Option<QuicVarIntLen>,
}

impl<'buffer, 'input> QuicHandshakePacketBuilder<'buffer, 'input> {
    /// The packet inputs this builder holds.
    pub closed spec fn fields(&self) -> QuicLongBuildFields {
        QuicLongBuildFields {
            destination: self.destination@,
            version: self.version.spec_raw(),
            protected_low_bits: self.protected_low_bits,
            destination_connection_id: self.destination_connection_id@,
            source_connection_id: self.source_connection_id@,
            packet_type: QuicLongPacketType::Handshake,
            token: None,
            token_length_len: None,
            length_len: self.length_len,
            protected_remainder: self.protected_remainder@,
        }
    }

    /// Creates a builder with exact opaque protected-remainder bytes.
    pub fn new(
        destination: &'buffer mut [u8],
        version: QuicVersion,
        protected_low_bits: u8,
        destination_connection_id: QuicConnectionId<'input>,
        source_connection_id: QuicConnectionId<'input>,
        protected_remainder: &'input [u8],
    ) -> (r: Self)
        ensures
            r.fields() == (QuicLongBuildFields {
                destination: old(destination)@,
                version: version.spec_raw(),
                protected_low_bits,
                destination_connection_id: destination_connection_id@,
                source_connection_id: source_connection_id@,
                packet_type: QuicLongPacketType::Handshake,
                token: None,
                token_length_len: None,
                length_len: None,
                protected_remainder: protected_remainder@,
            }),
    {
        Self {
            destination,
            version,
            protected_low_bits,
            destination_connection_id,
            source_connection_id,
            protected_remainder,
            length_len: None,
        }
    }

    /// Requests an explicit legal encoded width for the protected packet-length field.
    pub fn with_length_len(self, length: QuicVarIntLen) -> (r: Self)
        ensures
            r.fields() == (QuicLongBuildFields { length_len: Some(length), ..self.fields() }),
    {
        let mut b = self;
        b.length_len = Some(length);
        b
    }

    /// Validates all inputs and capacity before writing a complete protected Handshake packet.
    pub fn build(self) -> (r: Result<QuicProtectedLongPacket<'buffer>, QuicPacketBuildError>)
        ensures
            match r {
                Ok(packet) => spec_long_build(self.fields()) is Ok && packet@ == spec_long_packet_bytes(
                    self.fields(),
                    spec_long_build(self.fields())->Ok_0,
                ) && packet.fields() == spec_long_packet_fields(
                    self.fields(),
                    spec_long_build(self.fields())->Ok_0,
                ) && packet.spec_input() == packet@ && spec_protected_long_packet(packet@) == Ok::<
                    QuicProtectedLongFields,
                    QuicPacketParseError,
                >(packet.fields())
                    && packet.fields().packet_type == self.fields().packet_type
                    && packet.fields().header.version == self.fields().version
                    && packet.fields().header.destination_connection_id == self.fields().destination_connection_id
                    && packet.fields().header.source_connection_id == self.fields().source_connection_id
                    && packet.fields().header.first_byte & 0x0f == self.fields().protected_low_bits
                    && packet.fields().token == self.fields().token
                    && spec_decode_value(packet.fields().length) == self.fields().protected_remainder.len()
                    && packet@.subrange(packet.fields().packet_number_offset as int, packet@.len() as int)
                    == self.fields().protected_remainder
                    && (self.fields().version == 1 ==> packet.fields().header.first_byte & 0xf0
                    == 0xe0u8) && (self.fields().version == 0x6b33_43cf
                    ==> packet.fields().header.first_byte & 0xf0 == 0xf0u8),
                Err(e) => spec_long_build(self.fields()) == Err::<QuicLongLayout, QuicPacketBuildError>(
                    e,
                ),
            },
    {
        build_long(
            BuildInput {
                destination: self.destination,
                version: self.version,
                protected_low_bits: self.protected_low_bits,
                destination_connection_id: self.destination_connection_id,
                source_connection_id: self.source_connection_id,
                packet_type: QuicLongPacketType::Handshake,
                token: None,
                token_length_len: None,
                length_len: self.length_len,
                protected_remainder: self.protected_remainder,
            },
        )
    }
}

struct BuildInput<'buffer, 'input> {
    destination: &'buffer mut [u8],
    version: QuicVersion,
    protected_low_bits: u8,
    destination_connection_id: QuicConnectionId<'input>,
    source_connection_id: QuicConnectionId<'input>,
    packet_type: QuicLongPacketType,
    token: Option<&'input [u8]>,
    token_length_len: Option<QuicVarIntLen>,
    length_len: Option<QuicVarIntLen>,
    protected_remainder: &'input [u8],
}

impl<'buffer, 'input> BuildInput<'buffer, 'input> {
    spec fn fields(&self) -> QuicLongBuildFields {
        QuicLongBuildFields {
            destination: self.destination@,
            version: self.version.spec_raw(),
            protected_low_bits: self.protected_low_bits,
            destination_connection_id: self.destination_connection_id@,
            source_connection_id: self.source_connection_id@,
            packet_type: self.packet_type,
            token: match self.token {
                Some(t) => Some(t@),
                None => None,
            },
            token_length_len: self.token_length_len,
            length_len: self.length_len,
            protected_remainder: self.protected_remainder@,
        }
    }
}

/// The exec layout of a protected long packet.
struct LongLayout {
    raw_type: u8,
    token_length_len: Option<QuicVarIntLen>,
    length_len: QuicVarIntLen,
    source_end: usize,
    token_start: usize,
    token_end: usize,
    packet_number_offset: usize,
    required: usize,
}

impl LongLayout {
    spec fn spec(&self) -> QuicLongLayout {
        QuicLongLayout {
            raw_type: self.raw_type,
            token_length_len: self.token_length_len,
            length_len: self.length_len,
            required: self.required as nat,
        }
    }
}

/// Validates the inputs of a protected long packet and lays it out.
#[verifier::rlimit(40)]
fn long_layout(input: &BuildInput<'_, '_>) -> (r: Result<LongLayout, QuicPacketBuildError>)
    requires
        input.token is None ==> input.token_length_len is None,
    ensures
        match r {
            Ok(l) => {
                let f = input.fields();
                &&& spec_long_build(f) == Ok::<QuicLongLayout, QuicPacketBuildError>(l.spec())
                &&& l.source_end == 7 + f.destination_connection_id.len() + f.source_connection_id.len()
                &&& l.token_start as int == match l.token_length_len {
                    Some(w) => l.source_end + spec_byte_len(w),
                    None => l.source_end as int,
                }
                &&& l.token_end as int == l.token_start + match f.token {
                    Some(t) => t.len() as int,
                    None => 0int,
                }
                &&& l.packet_number_offset == l.token_end + spec_byte_len(l.length_len)
                &&& l.required == l.packet_number_offset + f.protected_remainder.len()
                &&& (l.token_length_len is Some) == (f.token is Some)
                &&& l.raw_type <= 3
                &&& input.protected_low_bits <= 0x0f
                &&& f.destination_connection_id.len() <= 20
                &&& f.source_connection_id.len() <= 20
                &&& f.protected_remainder.len() <= spec_max_value(l.length_len)
                &&& (f.token matches Some(t) ==> t.len() <= spec_max_value(
                    l.token_length_len->0,
                ))
            },
            Err(e) => spec_long_build(input.fields()) == Err::<QuicLongLayout, QuicPacketBuildError>(e),
        },
{
    let raw_type = match input.packet_type.raw_type(input.version) {
        Some(raw_type) => raw_type,
        None => return Err(QuicPacketBuildError::UnsupportedVersion { version: input.version }),
    };
    proof {
        lemma_long_packet_type_inverse(input.version.spec_raw(), raw_type, input.packet_type);
    }
    if input.protected_low_bits > 0x0f {
        return Err(
            QuicPacketBuildError::ProtectedLowBitsOutOfRange {
                maximum: 0x0f,
                actual: input.protected_low_bits,
            },
        );
    }
    match validate_connection_id(
        QuicConnectionIdField::Destination,
        input.destination_connection_id.len(),
    ) {
        Ok(()) => {},
        Err(e) => return Err(e),
    }
    match validate_connection_id(QuicConnectionIdField::Source, input.source_connection_id.len()) {
        Ok(()) => {},
        Err(e) => return Err(e),
    }
    if input.protected_remainder.len() < 2 {
        return Err(
            QuicPacketBuildError::ProtectedRemainderTooShort {
                minimum: 2,
                actual: input.protected_remainder.len(),
            },
        );
    }
    let protected_length = input.protected_remainder.len() as u64;
    let length_len = match validate_varint(
        QuicPacketBuildField::ProtectedLength,
        protected_length,
        input.length_len,
    ) {
        Ok(length) => length,
        Err(e) => return Err(e),
    };
    let token_length_value: u64 = match input.token {
        Some(token) => token.len() as u64,
        None => 0,
    };
    let token_length_len = match input.token {
        Some(_) => match validate_varint(
            QuicPacketBuildField::TokenLength,
            token_length_value,
            input.token_length_len,
        ) {
            Ok(length) => Some(length),
            Err(e) => return Err(e),
        },
        None => None,
    };
    let source_end = 7 + input.destination_connection_id.len() + input.source_connection_id.len();
    let token_start = match token_length_len {
        Some(length) => source_end + length.byte_len(),
        None => source_end,
    };
    let token_end = match input.token {
        Some(token) => match checked_add(token_start, token.len(), "Initial token") {
            Ok(end) => end,
            Err(e) => return Err(e),
        },
        None => token_start,
    };
    let packet_number_offset = match checked_add(token_end, length_len.byte_len(), "protected length") {
        Ok(end) => end,
        Err(e) => return Err(e),
    };
    let required = match checked_add(
        packet_number_offset,
        input.protected_remainder.len(),
        "protected remainder",
    ) {
        Ok(required) => required,
        Err(e) => return Err(e),
    };
    if input.destination.len() < required {
        return Err(
            QuicPacketBuildError::BufferTooShort { required, available: input.destination.len() },
        );
    }
    Ok(
        LongLayout {
            raw_type,
            token_length_len,
            length_len,
            source_end,
            token_start,
            token_end,
            packet_number_offset,
            required,
        },
    )
}

/// Writes a whole protected long packet into `bytes`.
#[verifier::rlimit(40)]
fn write_long(
    bytes: &mut [u8],
    first_byte: u8,
    version: u32,
    destination_connection_id: &[u8],
    source_connection_id: &[u8],
    token: Option<&[u8]>,
    token_length_len: Option<QuicVarIntLen>,
    length_len: QuicVarIntLen,
    protected_remainder: &[u8],
)
    requires
        destination_connection_id@.len() <= 20,
        source_connection_id@.len() <= 20,
        (token is Some) == (token_length_len is Some),
        token matches Some(t) ==> t@.len() <= spec_max_value(token_length_len->0),
        protected_remainder@.len() <= spec_max_value(length_len),
        old(bytes)@.len() == 7 + destination_connection_id@.len() + source_connection_id@.len()
            + spec_token_part(spec_opt_bytes(token), token_length_len).len() + spec_byte_len(
            length_len,
        ) + protected_remainder@.len(),
    ensures
        final(bytes)@ == spec_long_prefix_bytes(
            first_byte,
            version,
            destination_connection_id@,
            source_connection_id@,
        ) + spec_token_part(spec_opt_bytes(token), token_length_len) + spec_encode(
            protected_remainder@.len() as u64,
            length_len,
        ) + protected_remainder@,
{
    proof {
        assert(bytes.len() == bytes@.len());
        QuicVarIntCodec::lemma_encode_decode(protected_remainder@.len() as u64, length_len);
        if let (Some(t), Some(w)) = (token, token_length_len) {
            QuicVarIntCodec::lemma_encode_decode(t@.len() as u64, w);
        }
    }
    let source_end = write_long_prefix(
        bytes,
        first_byte,
        version,
        destination_connection_id,
        source_connection_id,
    );
    let ghost prefix = spec_long_prefix_bytes(
        first_byte,
        version,
        destination_connection_id@,
        source_connection_id@,
    );
    proof {
        assert(bytes@.subrange(0, source_end as int) =~= prefix);
    }
    let mut offset = source_end;
    match (token, token_length_len) {
        (Some(token), Some(width)) => {
            let plan = plan_varint(token.len() as u64, width);
            let ghost before = bytes@;
            write_plan_at(bytes, offset, &plan);
            proof {
                lemma_spliced_prefix(before, offset as int, plan.spec_bytes(), prefix);
                prefix = prefix + plan.spec_bytes();
            }
            offset = offset + width.byte_len();
            let ghost before = bytes@;
            copy_into(bytes, offset, token);
            proof {
                lemma_spliced_prefix(before, offset as int, token@, prefix);
                prefix = prefix + token@;
            }
            offset = offset + token.len();
        },
        _ => {},
    }
    let plan = plan_varint(protected_remainder.len() as u64, length_len);
    let ghost before = bytes@;
    write_plan_at(bytes, offset, &plan);
    proof {
        lemma_spliced_prefix(before, offset as int, plan.spec_bytes(), prefix);
        prefix = prefix + plan.spec_bytes();
    }
    offset = offset + length_len.byte_len();
    let ghost before = bytes@;
    copy_into(bytes, offset, protected_remainder);
    proof {
        lemma_spliced_prefix(before, offset as int, protected_remainder@, prefix);
        prefix = prefix + protected_remainder@;
        assert(bytes@ =~= prefix);
    }
}

/// The view of an optional borrowed byte string.
pub open spec fn spec_opt_bytes(b: Option<&[u8]>) -> Option<Seq<u8>> {
    match b {
        Some(x) => Some(x@),
        None => None,
    }
}

#[verifier::rlimit(100)]
#[verifier::spinoff_prover]
fn build_long<'buffer>(input: BuildInput<'buffer, '_>) -> (r: Result<
    QuicProtectedLongPacket<'buffer>,
    QuicPacketBuildError,
>)
    requires
        input.packet_type != QuicLongPacketType::Retry,
        (input.packet_type == QuicLongPacketType::Initial) == (input.token is Some),
        input.token is None ==> input.token_length_len is None,
    ensures
        match r {
            Ok(packet) => spec_long_build(input.fields()) is Ok && packet@ == spec_long_packet_bytes(
                input.fields(),
                spec_long_build(input.fields())->Ok_0,
            ) && packet.fields() == spec_long_packet_fields(
                input.fields(),
                spec_long_build(input.fields())->Ok_0,
            ) && packet.spec_input() == packet@ && spec_protected_long_packet(packet@) == Ok::<
                    QuicProtectedLongFields,
                    QuicPacketParseError,
                >(packet.fields())
                    && packet.fields().packet_type == input.fields().packet_type
                    && packet.fields().header.version == input.fields().version
                    && packet.fields().header.destination_connection_id == input.fields().destination_connection_id
                    && packet.fields().header.source_connection_id == input.fields().source_connection_id
                    && packet.fields().header.first_byte & 0x0f == input.fields().protected_low_bits
                    && packet.fields().token == input.fields().token
                    && spec_decode_value(packet.fields().length) == input.fields().protected_remainder.len()
                    && packet@.subrange(packet.fields().packet_number_offset as int, packet@.len() as int)
                    == input.fields().protected_remainder
                    && (input.fields().version == 1 ==> packet.fields().header.first_byte & 0xf0
                    == match input.fields().packet_type {
                    QuicLongPacketType::Initial => 0xc0u8,
                    QuicLongPacketType::ZeroRtt => 0xd0u8,
                    QuicLongPacketType::Handshake => 0xe0u8,
                    QuicLongPacketType::Retry => 0xf0u8,
                }) && (input.fields().version == 0x6b33_43cf ==> packet.fields().header.first_byte
                    & 0xf0 == match input.fields().packet_type {
                    QuicLongPacketType::Initial => 0xd0u8,
                    QuicLongPacketType::ZeroRtt => 0xe0u8,
                    QuicLongPacketType::Handshake => 0xf0u8,
                    QuicLongPacketType::Retry => 0xc0u8,
                }),
            Err(e) => spec_long_build(input.fields()) == Err::<QuicLongLayout, QuicPacketBuildError>(e),
        },
        r is Err ==> final(input.destination)@ == old(input.destination)@,
        r matches Ok(p) ==> final(input.destination)@ == p@ + old(input.destination)@.subrange(
            p@.len() as int,
            old(input.destination)@.len() as int,
        ),
{
    let ghost f = input.fields();
    let layout = match long_layout(&input) {
        Ok(layout) => layout,
        Err(e) => return Err(e),
    };
    let ghost l = layout.spec();
    proof {
        lemma_long_packet_roundtrip(f, l);
        lemma_long_build_fields(f, l);
        lemma_long_first_byte(layout.raw_type, input.protected_low_bits);
    }
    let BuildInput {
        destination,
        version,
        protected_low_bits,
        destination_connection_id,
        source_connection_id,
        packet_type,
        token,
        token_length_len: _,
        length_len: _,
        protected_remainder,
    } = input;
    let first_byte = 0xc0u8 | (layout.raw_type << 4u8) | protected_low_bits;
    let (bytes, _) = split_at_mut_fixed(destination, layout.required);
    write_long(
        bytes,
        first_byte,
        version.raw(),
        destination_connection_id.as_bytes(),
        source_connection_id.as_bytes(),
        token,
        layout.token_length_len,
        layout.length_len,
        protected_remainder,
    );
    let bytes: &'buffer [u8] = bytes;
    proof {
        assert(bytes@ =~= spec_long_packet_bytes(f, l));
    }
    let header = match QuicLongHeader::parse(bytes) {
        Ok(header) => header,
        Err(e) => return Err(built_prefix_error(e)),
    };
    let protected_length = protected_remainder.len() as u64;
    proof {
        QuicVarIntCodec::lemma_encode_decode(protected_length, layout.length_len);
    }
    let token_fields = match (token, layout.token_length_len) {
        (Some(t), Some(width)) => {
            proof {
                QuicVarIntCodec::lemma_encode_decode(t.len() as u64, width);
                assert(bytes@.subrange(layout.source_end as int, layout.token_start as int)
                    =~= spec_encode(t@.len() as u64, width));
            }
            let token_length = QuicVarInt::from_validated(
                slice_range(bytes, layout.source_end, layout.token_start),
                t.len() as u64,
                width,
            );
            let token_bytes = slice_range(bytes, layout.token_start, layout.token_end);
            proof {
                assert(token_bytes@ =~= t@);
            }
            Some((token_length, token_bytes))
        },
        _ => None,
    };
    proof {
        assert(bytes@.subrange(layout.token_end as int, layout.packet_number_offset as int)
            =~= spec_encode(protected_length, layout.length_len));
    }
    let length = QuicVarInt::from_validated(
        slice_range(bytes, layout.token_end, layout.packet_number_offset),
        protected_length,
        layout.length_len,
    );
    let remainder = slice_range(bytes, layout.packet_number_offset, layout.required);
    proof {
        assert(bytes@.subrange(0, bytes@.len() as int) =~= bytes@);
    }
    Ok(
        QuicProtectedLongPacket::from_validated(
            bytes,
            header,
            packet_type,
            token_fields,
            length,
            layout.packet_number_offset,
            remainder,
        ),
    )
}

fn plan_varint(value: u64, length: QuicVarIntLen) -> (r: crate::quic::varint::QuicVarIntEncodePlan)
    requires
        value <= spec_max_value(length),
    ensures
        r.spec_length() == length,
        r.spec_bytes() == spec_encode(value, length),
{
    match QuicVarIntCodec::plan(QuicVarIntCodecValue::encoding(value, Some(length))) {
        Ok(plan) => plan,
        Err(_) => {
            proof {
                assert(false);
            }
            vstd::pervasive::unreached()
        },
    }
}

fn validate_connection_id(field: QuicConnectionIdField, actual: usize) -> (r: Result<
    (),
    QuicPacketBuildError,
>)
    ensures
        actual > 20 ==> r == Err::<(), QuicPacketBuildError>(
            QuicPacketBuildError::ConnectionIdTooLong { field, maximum: 20, actual },
        ),
        actual <= 20 ==> r is Ok,
{
    if actual > 20 {
        return Err(QuicPacketBuildError::ConnectionIdTooLong { field, maximum: 20, actual });
    }
    Ok(())
}

fn validate_varint(field: QuicPacketBuildField, value: u64, requested: Option<QuicVarIntLen>) -> (r: Result<
    QuicVarIntLen,
    QuicPacketBuildError,
>)
    ensures
        r == spec_field_width(field, value, requested),
{
    if value > QuicVarIntLen::Eight.max_value() {
        return Err(
            QuicPacketBuildError::VarInt { field, error: QuicVarIntBuildError::ValueTooLarge { value } },
        );
    }
    let length = match requested {
        Some(length) => length,
        None => canonical_len(value),
    };
    if value > length.max_value() {
        return Err(
            QuicPacketBuildError::VarInt {
                field,
                error: QuicVarIntBuildError::WidthTooSmall { length, value },
            },
        );
    }
    Ok(length)
}

fn canonical_len(value: u64) -> (r: QuicVarIntLen)
    ensures
        r == spec_canonical_len(value),
{
    if value <= QuicVarIntLen::One.max_value() {
        QuicVarIntLen::One
    } else if value <= QuicVarIntLen::Two.max_value() {
        QuicVarIntLen::Two
    } else if value <= QuicVarIntLen::Four.max_value() {
        QuicVarIntLen::Four
    } else {
        QuicVarIntLen::Eight
    }
}

fn checked_add(offset: usize, length: usize, component: &'static str) -> (r: Result<
    usize,
    QuicPacketBuildError,
>)
    ensures
        offset + length > usize::MAX ==> r == Err::<usize, QuicPacketBuildError>(
            QuicPacketBuildError::LengthOverflow { component, offset, length },
        ),
        offset + length <= usize::MAX ==> r == Ok::<usize, QuicPacketBuildError>(
            (offset + length) as usize,
        ),
{
    match offset.checked_add(length) {
        Some(end) => Ok(end),
        None => Err(QuicPacketBuildError::LengthOverflow { component, offset, length }),
    }
}

} // verus!
