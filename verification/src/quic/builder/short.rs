//! Protected QUIC v1 and v2 short-packet builder.

use super::QuicPacketBuildError;
use crate::quic::packet::header::{
    QuicConnectionId, QuicConnectionIdField, QuicShortHeader, QuicShortHeaderFields,
    spec_short_header,
};
use crate::quic::packet::parse::QuicPacketParseError;
use crate::wire::{copy_into, lemma_spliced_prefix, slice_from, slice_range, split_at_mut_fixed, write_u8};
use vstd::prelude::*;

verus! {

/// The first byte of a short packet with the given spin bit and protected low bits.
pub open spec fn spec_short_first_byte(spin: bool, protected_low_bits: u8) -> u8 {
    (0x40u8 | ((if spin {
        1u8
    } else {
        0u8
    }) << 5u8) | protected_low_bits) as u8
}

/// The values a short-packet builder holds.
pub struct QuicShortPacketBuilderFields {
    /// The caller storage.
    pub destination: Seq<u8>,
    /// The spin bit.
    pub spin: bool,
    /// The protected low five bits.
    pub protected_low_bits: u8,
    /// The destination connection ID.
    pub destination_connection_id: Seq<u8>,
    /// The protected remainder.
    pub protected_remainder: Seq<u8>,
}

/// The first error a short-packet builder reports, if any.
pub open spec fn spec_short_build_error(f: QuicShortPacketBuilderFields) -> Option<QuicPacketBuildError> {
    let required = 1 + f.destination_connection_id.len() + f.protected_remainder.len();
    if f.protected_low_bits > 0x1f {
        Some(
            QuicPacketBuildError::ProtectedLowBitsOutOfRange {
                maximum: 0x1f,
                actual: f.protected_low_bits,
            },
        )
    } else if f.destination_connection_id.len() > 20 {
        Some(
            QuicPacketBuildError::ConnectionIdTooLong {
                field: QuicConnectionIdField::Destination,
                maximum: 20,
                actual: f.destination_connection_id.len() as usize,
            },
        )
    } else if f.protected_remainder.len() < 2 {
        Some(
            QuicPacketBuildError::ProtectedRemainderTooShort {
                minimum: 2,
                actual: f.protected_remainder.len() as usize,
            },
        )
    } else if required > usize::MAX {
        Some(
            QuicPacketBuildError::LengthOverflow {
                component: "protected remainder",
                offset: (1 + f.destination_connection_id.len()) as usize,
                length: f.protected_remainder.len() as usize,
            },
        )
    } else if f.destination.len() < required {
        Some(
            QuicPacketBuildError::BufferTooShort {
                required: required as usize,
                available: f.destination.len() as usize,
            },
        )
    } else {
        None
    }
}

/// Builds a complete protected QUIC short-header packet in caller-owned storage.
///
/// The protected low five bits and protected remainder are copied exactly without
/// interpreting header-protection, packet-number, or payload semantics.
pub struct QuicShortPacketBuilder<'buffer, 'input> {
    destination: &'buffer mut [u8],
    spin: bool,
    protected_low_bits: u8,
    destination_connection_id: QuicConnectionId<'input>,
    protected_remainder: &'input [u8],
}

impl<'buffer, 'input> QuicShortPacketBuilder<'buffer, 'input> {
    /// The builder's values.
    pub closed spec fn fields(&self) -> QuicShortPacketBuilderFields {
        QuicShortPacketBuilderFields {
            destination: self.destination@,
            spin: self.spin,
            protected_low_bits: self.protected_low_bits,
            destination_connection_id: self.destination_connection_id@,
            protected_remainder: self.protected_remainder@,
        }
    }

    /// Creates a builder with exact opaque short-header protected bytes.
    pub fn new(
        destination: &'buffer mut [u8],
        spin: bool,
        protected_low_bits: u8,
        destination_connection_id: QuicConnectionId<'input>,
        protected_remainder: &'input [u8],
    ) -> (r: Self)
        ensures
            r.fields() == (QuicShortPacketBuilderFields {
                destination: old(destination)@,
                spin,
                protected_low_bits,
                destination_connection_id: destination_connection_id@,
                protected_remainder: protected_remainder@,
            }),
    {
        Self { destination, spin, protected_low_bits, destination_connection_id, protected_remainder }
    }

    /// Validates all inputs and capacity before writing a complete protected short packet.
    pub fn build(self) -> (r: Result<QuicShortHeader<'buffer>, QuicPacketBuildError>)
        ensures
            ({
                let f = self.fields();
                match r {
                    Ok(header) => spec_short_build_error(f) is None && header@ == seq![
                        spec_short_first_byte(f.spin, f.protected_low_bits),
                    ] + f.destination_connection_id + f.protected_remainder && header.fields() == (
                    QuicShortHeaderFields {
                        first_byte: spec_short_first_byte(f.spin, f.protected_low_bits),
                        destination_connection_id: f.destination_connection_id,
                        protected_remainder: f.protected_remainder,
                    }),
                    Err(e) => spec_short_build_error(f) == Some(e),
                }
            }),
    {
        if self.protected_low_bits > 0x1f {
            return Err(
                QuicPacketBuildError::ProtectedLowBitsOutOfRange {
                    maximum: 0x1f,
                    actual: self.protected_low_bits,
                },
            );
        }
        if self.destination_connection_id.len() > 20 {
            return Err(
                QuicPacketBuildError::ConnectionIdTooLong {
                    field: QuicConnectionIdField::Destination,
                    maximum: 20,
                    actual: self.destination_connection_id.len(),
                },
            );
        }
        if self.protected_remainder.len() < 2 {
            return Err(
                QuicPacketBuildError::ProtectedRemainderTooShort {
                    minimum: 2,
                    actual: self.protected_remainder.len(),
                },
            );
        }
        let destination_end = match checked_add(
            1,
            self.destination_connection_id.len(),
            "destination connection ID",
        ) {
            Ok(end) => end,
            Err(e) => return Err(e),
        };
        let required = match checked_add(
            destination_end,
            self.protected_remainder.len(),
            "protected remainder",
        ) {
            Ok(required) => required,
            Err(e) => return Err(e),
        };
        let destination = self.destination;
        if destination.len() < required {
            return Err(
                QuicPacketBuildError::BufferTooShort { required, available: destination.len() },
            );
        }
        let spin_bit: u8 = if self.spin {
            1
        } else {
            0
        };
        let first_byte = 0x40u8 | (spin_bit << 5u8) | self.protected_low_bits;
        let low = self.protected_low_bits;
        assert(low <= 0x1f && spin_bit <= 1 ==> (0x40u8 | (spin_bit << 5u8) | low) < 0x80)
            by (bit_vector);
        let (bytes, _) = split_at_mut_fixed(destination, required);
        let ghost prefix = Seq::<u8>::empty();
        assert(bytes@.subrange(0, 0) =~= prefix);
        let ghost before = bytes@;
        write_u8(bytes, 0, first_byte);
        proof {
            lemma_spliced_prefix(before, 0, seq![first_byte], prefix);
            prefix = prefix + seq![first_byte];
        }
        let ghost before = bytes@;
        copy_into(bytes, 1, self.destination_connection_id.as_bytes());
        proof {
            lemma_spliced_prefix(before, 1, self.destination_connection_id@, prefix);
            prefix = prefix + self.destination_connection_id@;
        }
        let ghost before = bytes@;
        copy_into(bytes, destination_end, self.protected_remainder);
        proof {
            lemma_spliced_prefix(before, destination_end as int, self.protected_remainder@, prefix);
            prefix = prefix + self.protected_remainder@;
            assert(bytes@ =~= prefix);
        }
        let bytes: &'buffer [u8] = bytes;
        let destination_connection_id = QuicConnectionId::new(slice_range(bytes, 1, destination_end));
        let protected_remainder = slice_from(bytes, destination_end);
        proof {
            assert(destination_connection_id@ =~= self.destination_connection_id@);
            assert(protected_remainder@ =~= self.protected_remainder@);
        }
        Ok(QuicShortHeader::from_validated(bytes, bytes[0], destination_connection_id, protected_remainder))
    }
}

fn checked_add(offset: usize, length: usize, component: &'static str) -> (r: Result<
    usize,
    QuicPacketBuildError,
>)
    ensures
        offset + length > usize::MAX ==> r == Err::<usize, QuicPacketBuildError>(
            QuicPacketBuildError::LengthOverflow { component, offset, length },
        ),
        offset + length <= usize::MAX ==> r == Ok::<usize, QuicPacketBuildError>(
            (offset + length) as usize,
        ),
{
    match offset.checked_add(length) {
        Some(end) => Ok(end),
        None => Err(QuicPacketBuildError::LengthOverflow { component, offset, length }),
    }
}


/// A short packet built from valid fields is read back, with its destination connection-ID
/// length as context, with the first byte, connection ID and protected remainder written.
pub proof fn lemma_short_packet_roundtrip(f: QuicShortPacketBuilderFields)
    requires
        spec_short_build_error(f) is None,
    ensures
        spec_short_header(
            seq![spec_short_first_byte(f.spin, f.protected_low_bits)] + f.destination_connection_id
                + f.protected_remainder,
            f.destination_connection_id.len() as usize,
        ) == Ok::<QuicShortHeaderFields, QuicPacketParseError>(
            QuicShortHeaderFields {
                first_byte: spec_short_first_byte(f.spin, f.protected_low_bits),
                destination_connection_id: f.destination_connection_id,
                protected_remainder: f.protected_remainder,
            },
        ),
{
    let low = f.protected_low_bits;
    let spin: u8 = if f.spin {
        1u8
    } else {
        0u8
    };
    assert(low <= 0x1f && spin <= 1 ==> ((0x40u8 | (spin << 5u8) | low) as u8) < 0x80) by (bit_vector);
    let b = seq![spec_short_first_byte(f.spin, low)] + f.destination_connection_id
        + f.protected_remainder;
    let d = f.destination_connection_id.len() as int;
    assert(b.subrange(1, 1 + d) =~= f.destination_connection_id);
    assert(b.subrange(1 + d, b.len() as int) =~= f.protected_remainder);
}

} // verus!
