//! Caller-buffer builders for QUIC packets.

use super::packet::header::{
    QuicConnectionIdField, QuicLongHeaderFields, QuicVersion, spec_long_header,
};
use super::packet::parse::QuicPacketParseError;
use super::packet::long::spec_varint_at;
use super::varint::{
    QuicVarIntBuildError, QuicVarIntCodec, QuicVarIntEncodePlan, QuicVarIntLen, spec_byte_len,
    spec_decode_value, spec_encode, spec_len_from_first, spec_max_value,
};
use crate::wire::{
    be32, be32_bytes, copy_into, lemma_be32_roundtrip, lemma_spliced_prefix, spliced,
    split_at_mut_fixed, write_be32, write_u8,
};
use vstd::prelude::*;

pub(crate) mod long;
pub(crate) mod short;
pub(crate) mod terminal;

verus! {

/// Identifies a QUIC variable-length integer field during packet construction.
#[derive(Clone, Copy, Debug, PartialEq, Eq, Structural)]
pub enum QuicPacketBuildField {
    /// The Initial packet token-length field.
    TokenLength,
    /// The protected packet-length field.
    ProtectedLength,
}

/// Failure to build a QUIC packet in caller-owned storage.
#[derive(Clone, Copy, Debug, PartialEq, Eq)]
pub enum QuicPacketBuildError {
    /// The supplied unused-bit value exceeds the packet form's maximum.
    UnusedBitsOutOfRange {
        /// Greatest permitted unused-bit value.
        maximum: u8,
        /// Supplied unused-bit value.
        actual: u8,
    },
    /// The supplied protected-low-bit value exceeds the maximum permitted value.
    ProtectedLowBitsOutOfRange {
        /// Greatest permitted protected-low-bit value.
        maximum: u8,
        /// Supplied protected-low-bit value.
        actual: u8,
    },
    /// Packet construction supports only QUIC v1 and v2.
    UnsupportedVersion {
        /// Supplied raw version.
        version: QuicVersion,
    },
    /// A connection ID cannot be represented by this packet form.
    ConnectionIdTooLong {
        /// Connection-ID field that is too long.
        field: QuicConnectionIdField,
        /// Greatest permitted byte length.
        maximum: usize,
        /// Supplied byte length.
        actual: usize,
    },
    /// A Version Negotiation packet requires at least one advertised version.
    EmptyVersionList,
    /// A Retry packet requires at least one token byte.
    EmptyRetryToken,
    /// A protected packet remainder is too short to contain a packet number and payload.
    ProtectedRemainderTooShort {
        /// Minimum protected remainder byte length.
        minimum: usize,
        /// Supplied protected remainder byte length.
        actual: usize,
    },
    /// A packet variable-length field cannot represent its requested value or width.
    VarInt {
        /// Field that could not be encoded.
        field: QuicPacketBuildField,
        /// Exact variable-integer construction failure.
        error: QuicVarIntBuildError,
    },
    /// Packet-size arithmetic cannot represent an intermediate total.
    LengthOverflow {
        /// Named packet-size component being added.
        component: &'static str,
        /// Accumulated byte length before adding the component.
        offset: usize,
        /// Component byte length.
        length: usize,
    },
    /// The invariant-prefix representation could not encode validated inputs.
    InvalidRepresentation,
    /// The caller buffer cannot contain the complete packet.
    BufferTooShort {
        /// Complete packet byte length required.
        required: usize,
        /// Bytes available in the caller buffer.
        available: usize,
    },
}

/// Reports a written prefix that did not read back.
fn built_prefix_error(error: QuicPacketParseError) -> (r: QuicPacketBuildError)
    ensures
        r == QuicPacketBuildError::InvalidRepresentation,
{
    QuicPacketBuildError::InvalidRepresentation
}

/// The invariant long-header prefix with the given fields.
pub open spec fn spec_long_prefix_bytes(
    first_byte: u8,
    version: u32,
    destination_connection_id: Seq<u8>,
    source_connection_id: Seq<u8>,
) -> Seq<u8> {
    seq![first_byte] + be32_bytes(version) + seq![destination_connection_id.len() as u8]
        + destination_connection_id + seq![source_connection_id.len() as u8] + source_connection_id
}

/// A written invariant prefix is read back with the fields written, whatever follows it.
pub proof fn lemma_long_prefix_roundtrip(
    first_byte: u8,
    version: u32,
    destination_connection_id: Seq<u8>,
    source_connection_id: Seq<u8>,
    rest: Seq<u8>,
)
    requires
        first_byte >= 0x80,
        destination_connection_id.len() <= 255,
        source_connection_id.len() <= 255,
    ensures
        spec_long_header(
            spec_long_prefix_bytes(first_byte, version, destination_connection_id, source_connection_id)
                + rest,
        ) == Ok::<QuicLongHeaderFields, QuicPacketParseError>(
            QuicLongHeaderFields {
                first_byte,
                version,
                destination_connection_id,
                source_connection_id,
                prefix_len: 7 + destination_connection_id.len() + source_connection_id.len(),
                version_specific: rest,
            },
        ),
{
    let p = spec_long_prefix_bytes(
        first_byte,
        version,
        destination_connection_id,
        source_connection_id,
    );
    let b = p + rest;
    let d = destination_connection_id.len() as int;
    let s = source_connection_id.len() as int;
    lemma_be32_roundtrip(version);
    assert(p.len() == 7 + d + s);
    assert(b[0] == first_byte);
    assert(b[5] == d as u8);
    assert(b[6 + d] == s as u8);
    assert(be32(b, 1) == be32(be32_bytes(version), 0));
    assert(b.subrange(6, 6 + d) =~= destination_connection_id);
    assert(b.subrange(7 + d, 7 + d + s) =~= source_connection_id);
    assert(b.subrange(7 + d + s, b.len() as int) =~= rest);
}

/// The first byte of a version 1 or 2 long header: form and fixed bits, the type bits, and
/// the low bits.
pub open spec fn spec_long_first_byte(raw_type: u8, low_bits: u8) -> u8 {
    (0xc0u8 | (raw_type << 4u8) | low_bits) as u8
}

/// Such a first byte is a long-header form byte with its fixed bit set and the given type
/// bits.
pub proof fn lemma_long_first_byte(raw_type: u8, low_bits: u8)
    requires
        raw_type <= 3,
        low_bits <= 0x0f,
    ensures
        spec_long_first_byte(raw_type, low_bits) >= 0x80,
        spec_long_first_byte(raw_type, low_bits) & 0x40 != 0,
        (spec_long_first_byte(raw_type, low_bits) >> 4u8) & 0x03 == raw_type,
{
    assert(raw_type <= 3 && low_bits <= 0x0f ==> ({
        let f = (0xc0u8 | (raw_type << 4u8) | low_bits) as u8;
        &&& f >= 0x80
        &&& f & 0x40 != 0
        &&& (f >> 4u8) & 0x03 == raw_type
    })) by (bit_vector);
}

/// Writes an invariant long-header prefix at the start of `dst`, leaving the rest unchanged.
pub(crate) fn write_long_prefix(
    dst: &mut [u8],
    first_byte: u8,
    version: u32,
    destination_connection_id: &[u8],
    source_connection_id: &[u8],
) -> (end: usize)
    requires
        destination_connection_id@.len() <= 255,
        source_connection_id@.len() <= 255,
        7 + destination_connection_id@.len() + source_connection_id@.len() <= old(dst)@.len(),
    ensures
        end == 7 + destination_connection_id@.len() + source_connection_id@.len(),
        final(dst)@ == spec_long_prefix_bytes(
            first_byte,
            version,
            destination_connection_id@,
            source_connection_id@,
        ) + old(dst)@.subrange(end as int, old(dst)@.len() as int),
{
    let ghost original = dst@;
    let ghost prefix = Seq::<u8>::empty();
    assert(dst@.subrange(0, 0) =~= prefix);
    let ghost before = dst@;
    write_u8(dst, 0, first_byte);
    proof {
        lemma_spliced_prefix(before, 0, seq![first_byte], prefix);
        prefix = prefix + seq![first_byte];
    }
    let ghost before = dst@;
    write_be32(dst, 1, version);
    proof {
        lemma_spliced_prefix(before, 1, be32_bytes(version), prefix);
        prefix = prefix + be32_bytes(version);
    }
    let d = destination_connection_id.len();
    let ghost before = dst@;
    write_u8(dst, 5, d as u8);
    proof {
        lemma_spliced_prefix(before, 5, seq![d as u8], prefix);
        prefix = prefix + seq![d as u8];
    }
    let ghost before = dst@;
    copy_into(dst, 6, destination_connection_id);
    proof {
        lemma_spliced_prefix(before, 6, destination_connection_id@, prefix);
        prefix = prefix + destination_connection_id@;
    }
    let s = source_connection_id.len();
    let ghost before = dst@;
    write_u8(dst, 6 + d, s as u8);
    proof {
        lemma_spliced_prefix(before, 6 + d, seq![s as u8], prefix);
        prefix = prefix + seq![s as u8];
    }
    let ghost before = dst@;
    copy_into(dst, 7 + d, source_connection_id);
    proof {
        lemma_spliced_prefix(before, 7 + d, source_connection_id@, prefix);
        prefix = prefix + source_connection_id@;
    }
    let end = 7 + d + s;
    proof {
        assert(prefix =~= spec_long_prefix_bytes(
            first_byte,
            version,
            destination_connection_id@,
            source_connection_id@,
        ));
        assert(dst@.subrange(end as int, dst@.len() as int) =~= original.subrange(
            end as int,
            original.len() as int,
        ));
        assert(dst@ =~= dst@.subrange(0, end as int) + dst@.subrange(end as int, dst@.len() as int));
    }
    end
}

/// An encoded variable integer written at `offset` is read back there, with its value.
pub proof fn lemma_varint_at(b: Seq<u8>, offset: int, value: u64, length: QuicVarIntLen)
    requires
        0 <= offset,
        value <= spec_max_value(length),
        offset + spec_byte_len(length) <= b.len(),
        b.subrange(offset, offset + spec_byte_len(length)) == spec_encode(value, length),
    ensures
        spec_varint_at(b, offset) == Ok::<Seq<u8>, QuicPacketParseError>(spec_encode(value, length)),
        spec_decode_value(spec_encode(value, length)) == value,
        spec_encode(value, length).len() == spec_byte_len(length),
{
    QuicVarIntCodec::lemma_encode_decode(value, length);
    let rest = b.subrange(offset, b.len() as int);
    assert(rest[0] == spec_encode(value, length)[0]);
    assert(rest.subrange(0, spec_byte_len(length) as int) =~= spec_encode(value, length));
}

/// Writes a planned variable integer at `at`.
pub(crate) fn write_plan_at(dst: &mut [u8], at: usize, plan: &QuicVarIntEncodePlan)
    requires
        at + spec_byte_len(plan.spec_length()) <= old(dst)@.len(),
    ensures
        final(dst)@ == spliced(old(dst)@, at as int, plan.spec_bytes()),
{
    let n = plan.encoded_len();
    let ghost original = dst@;
    let (_, right) = split_at_mut_fixed(dst, at);
    let (middle, _) = split_at_mut_fixed(right, n);
    plan.write_into(middle);
}

} // verus!
