//! Terminal QUIC packet builders.

use super::{
    QuicPacketBuildError, built_prefix_error, lemma_long_first_byte, lemma_long_prefix_roundtrip,
    spec_long_first_byte, spec_long_prefix_bytes, write_long_prefix,
};
use crate::quic::packet::header::{
    QuicConnectionId, QuicConnectionIdField, QuicLongHeader, QuicLongHeaderFields,
    QuicLongPacketType, QuicVersion, lemma_long_packet_type_inverse, spec_long_header,
    spec_raw_type, spec_v2,
};
use crate::quic::packet::parse::QuicPacketParseError;
use crate::quic::packet::terminal::{
    QuicRetryFields, QuicRetryPacket, QuicVersionNegotiationPacket, spec_retry_packet,
    spec_version_negotiation,
};
use crate::quic::packet::terminal::spec_be32_list;
use crate::wire::{
    be32, be32_bytes, copy_into, lemma_be32_roundtrip, lemma_spliced_prefix, slice_from, slice_range, split_at_mut_fixed,
    write_be32,
};
use vstd::prelude::*;

verus! {

broadcast use QuicVersion::lemma_raw, QuicVersion::lemma_from_raw;

const RETRY_INTEGRITY_TAG_LEN: usize = 16;

/// The four-byte big-endian encodings of a list of versions, in order.
pub open spec fn spec_version_list_bytes(versions: Seq<QuicVersion>) -> Seq<u8>
    decreases versions.len(),
{
    if versions.len() == 0 {
        Seq::empty()
    } else {
        spec_version_list_bytes(versions.drop_last()) + be32_bytes(versions.last().spec_raw())
    }
}

proof fn lemma_version_list_len(versions: Seq<QuicVersion>)
    ensures
        spec_version_list_bytes(versions).len() == 4 * versions.len(),
    decreases versions.len(),
{
    if versions.len() > 0 {
        lemma_version_list_len(versions.drop_last());
    }
}

/// The values a Version Negotiation builder holds.
pub struct QuicVersionNegotiationBuilderFields {
    /// The caller storage.
    pub destination: Seq<u8>,
    /// The unused low seven bits of the first byte.
    pub unused_bits: u8,
    /// The destination connection ID.
    pub destination_connection_id: Seq<u8>,
    /// The source connection ID.
    pub source_connection_id: Seq<u8>,
    /// The advertised versions.
    pub versions: Seq<QuicVersion>,
}

/// The first error a Version Negotiation builder reports, if any.
pub open spec fn spec_version_negotiation_build_error(f: QuicVersionNegotiationBuilderFields) -> Option<
    QuicPacketBuildError,
> {
    let prefix = 7 + f.destination_connection_id.len() + f.source_connection_id.len();
    let required = prefix + 4 * f.versions.len();
    if f.unused_bits > 0x7f {
        Some(QuicPacketBuildError::UnusedBitsOutOfRange { maximum: 0x7f, actual: f.unused_bits })
    } else if f.destination_connection_id.len() > 255 {
        Some(
            QuicPacketBuildError::ConnectionIdTooLong {
                field: QuicConnectionIdField::Destination,
                maximum: 255,
                actual: f.destination_connection_id.len() as usize,
            },
        )
    } else if f.source_connection_id.len() > 255 {
        Some(
            QuicPacketBuildError::ConnectionIdTooLong {
                field: QuicConnectionIdField::Source,
                maximum: 255,
                actual: f.source_connection_id.len() as usize,
            },
        )
    } else if f.versions.len() == 0 {
        Some(QuicPacketBuildError::EmptyVersionList)
    } else if 4 * f.versions.len() > usize::MAX {
        Some(
            QuicPacketBuildError::LengthOverflow {
                component: "version list",
                offset: f.versions.len() as usize,
                length: 4,
            },
        )
    } else if required > usize::MAX {
        Some(
            QuicPacketBuildError::LengthOverflow {
                component: "version list",
                offset: prefix as usize,
                length: (4 * f.versions.len()) as usize,
            },
        )
    } else if f.destination.len() < required {
        Some(
            QuicPacketBuildError::BufferTooShort {
                required: required as usize,
                available: f.destination.len() as usize,
            },
        )
    } else {
        None
    }
}

/// Builds a terminal QUIC Version Negotiation packet in caller-owned storage.
pub struct QuicVersionNegotiationPacketBuilder<'buffer, 'input> {
    destination: &'buffer mut [u8],
    unused_bits: u8,
    destination_connection_id: QuicConnectionId<'input>,
    source_connection_id: QuicConnectionId<'input>,
    versions: &'input [QuicVersion],
}

impl<'buffer, 'input> QuicVersionNegotiationPacketBuilder<'buffer, 'input> {
    /// The builder's values.
    pub closed spec fn fields(&self) -> QuicVersionNegotiationBuilderFields {
        QuicVersionNegotiationBuilderFields {
            destination: self.destination@,
            unused_bits: self.unused_bits,
            destination_connection_id: self.destination_connection_id@,
            source_connection_id: self.source_connection_id@,
            versions: self.versions@,
        }
    }

    /// Creates a builder for a Version Negotiation packet with the supplied wire components.
    pub fn new(
        destination: &'buffer mut [u8],
        unused_bits: u8,
        destination_connection_id: QuicConnectionId<'input>,
        source_connection_id: QuicConnectionId<'input>,
        versions: &'input [QuicVersion],
    ) -> (r: Self)
        ensures
            r.fields() == (QuicVersionNegotiationBuilderFields {
                destination: old(destination)@,
                unused_bits,
                destination_connection_id: destination_connection_id@,
                source_connection_id: source_connection_id@,
                versions: versions@,
            }),
    {
        Self { destination, unused_bits, destination_connection_id, source_connection_id, versions }
    }

    /// Validates all inputs and capacity before writing a complete Version Negotiation packet.
    #[verifier::rlimit(40)]
    pub fn build(self) -> (r: Result<QuicVersionNegotiationPacket<'buffer>, QuicPacketBuildError>)
        ensures
            ({
                let f = self.fields();
                match r {
                    Ok(packet) => spec_version_negotiation_build_error(f) is None && packet@
                        == spec_long_prefix_bytes(
                        (0x80u8 | f.unused_bits) as u8,
                        0,
                        f.destination_connection_id,
                        f.source_connection_id,
                    ) + spec_version_list_bytes(f.versions),
                    Err(e) => spec_version_negotiation_build_error(f) == Some(e),
                }
            }),
    {
        let ghost f = self.fields();
        if self.unused_bits > 0x7f {
            return Err(
                QuicPacketBuildError::UnusedBitsOutOfRange { maximum: 0x7f, actual: self.unused_bits },
            );
        }
        match validate_connection_id(
            QuicConnectionIdField::Destination,
            self.destination_connection_id.len(),
            255,
        ) {
            Ok(()) => {},
            Err(e) => return Err(e),
        }
        match validate_connection_id(
            QuicConnectionIdField::Source,
            self.source_connection_id.len(),
            255,
        ) {
            Ok(()) => {},
            Err(e) => return Err(e),
        }
        let versions = self.versions;
        if versions.len() == 0 {
            return Err(QuicPacketBuildError::EmptyVersionList);
        }
        let version_bytes = match versions.len().checked_mul(4) {
            Some(bytes) => bytes,
            None => return Err(
                QuicPacketBuildError::LengthOverflow {
                    component: "version list",
                    offset: versions.len(),
                    length: 4,
                },
            ),
        };
        let source_end = 7 + self.destination_connection_id.len() + self.source_connection_id.len();
        let required = match checked_add(source_end, version_bytes, "version list") {
            Ok(required) => required,
            Err(e) => return Err(e),
        };
        let destination = self.destination;
        if destination.len() < required {
            return Err(
                QuicPacketBuildError::BufferTooShort { required, available: destination.len() },
            );
        }
        let first_byte = 0x80u8 | self.unused_bits;
        let unused = self.unused_bits;
        assert(0x80u8 | unused >= 0x80) by (bit_vector);
        let (bytes, _) = split_at_mut_fixed(destination, required);
        let end = write_long_prefix(
            bytes,
            first_byte,
            0,
            self.destination_connection_id.as_bytes(),
            self.source_connection_id.as_bytes(),
        );
        let ghost prefix = spec_long_prefix_bytes(
            first_byte,
            0,
            self.destination_connection_id@,
            self.source_connection_id@,
        );
        proof {
            assert(bytes@.subrange(0, end as int) =~= prefix);
        }
        let mut i: usize = 0;
        while i < versions.len()
            invariant
                i <= versions@.len(),
                versions@.len() * 4 == version_bytes,
                end == source_end,
                end + version_bytes == required,
                bytes@.len() == required,
                prefix.len() == end,
                bytes@.subrange(0, end + 4 * i) == prefix + spec_version_list_bytes(
                    versions@.subrange(0, i as int),
                ),
            decreases versions@.len() - i,
        {
            let ghost before = bytes@;
            proof {
                lemma_version_list_len(versions@.subrange(0, i as int));
            }
            write_be32(bytes, end + 4 * i, versions[i].raw());
            proof {
                lemma_spliced_prefix(
                    before,
                    end + 4 * i,
                    be32_bytes(versions@[i as int].spec_raw()),
                    prefix + spec_version_list_bytes(versions@.subrange(0, i as int)),
                );
                assert(versions@.subrange(0, i + 1).drop_last() =~= versions@.subrange(0, i as int));
            }
            i = i + 1;
        }
        proof {
            assert(versions@.subrange(0, i as int) =~= versions@);
            assert(bytes@ =~= bytes@.subrange(0, required as int));
            lemma_version_list_len(versions@);
            lemma_long_prefix_roundtrip(
                first_byte,
                0,
                self.destination_connection_id@,
                self.source_connection_id@,
                spec_version_list_bytes(versions@),
            );
        }
        let bytes: &'buffer [u8] = bytes;
        let header = match QuicLongHeader::parse(bytes) {
            Ok(header) => header,
            Err(e) => return Err(built_prefix_error(e)),
        };
        let version_list = slice_from(bytes, source_end);
        proof {
            assert(version_list@ =~= spec_version_list_bytes(versions@));
        }
        Ok(QuicVersionNegotiationPacket::from_validated(bytes, header, version_list))
    }
}

/// The values a Retry builder holds.
pub struct QuicRetryBuilderFields {
    /// The caller storage.
    pub destination: Seq<u8>,
    /// The version.
    pub version: u32,
    /// The unused low four bits of the first byte.
    pub unused_bits: u8,
    /// The destination connection ID.
    pub destination_connection_id: Seq<u8>,
    /// The source connection ID.
    pub source_connection_id: Seq<u8>,
    /// The opaque Retry token.
    pub token: Seq<u8>,
    /// The integrity tag.
    pub integrity_tag: Seq<u8>,
}

/// The first error a Retry builder reports, if any.
pub open spec fn spec_retry_build_error(f: QuicRetryBuilderFields) -> Option<QuicPacketBuildError> {
    let prefix = 7 + f.destination_connection_id.len() + f.source_connection_id.len();
    let token_end = prefix + f.token.len();
    if spec_raw_type(QuicLongPacketType::Retry, f.version) is None {
        Some(QuicPacketBuildError::UnsupportedVersion { version: QuicVersion::spec_from(f.version) })
    } else if f.unused_bits > 0x0f {
        Some(QuicPacketBuildError::UnusedBitsOutOfRange { maximum: 0x0f, actual: f.unused_bits })
    } else if f.destination_connection_id.len() > 20 {
        Some(
            QuicPacketBuildError::ConnectionIdTooLong {
                field: QuicConnectionIdField::Destination,
                maximum: 20,
                actual: f.destination_connection_id.len() as usize,
            },
        )
    } else if f.source_connection_id.len() > 20 {
        Some(
            QuicPacketBuildError::ConnectionIdTooLong {
                field: QuicConnectionIdField::Source,
                maximum: 20,
                actual: f.source_connection_id.len() as usize,
            },
        )
    } else if f.token.len() == 0 {
        Some(QuicPacketBuildError::EmptyRetryToken)
    } else if token_end > usize::MAX {
        Some(
            QuicPacketBuildError::LengthOverflow {
                component: "Retry Token",
                offset: prefix as usize,
                length: f.token.len() as usize,
            },
        )
    } else if token_end + 16 > usize::MAX {
        Some(
            QuicPacketBuildError::LengthOverflow {
                component: "Retry Integrity Tag",
                offset: token_end as usize,
                length: 16,
            },
        )
    } else if f.destination.len() < token_end + 16 {
        Some(
            QuicPacketBuildError::BufferTooShort {
                required: (token_end + 16) as usize,
                available: f.destination.len() as usize,
            },
        )
    } else {
        None
    }
}

/// Builds a terminal QUIC v1 or v2 Retry packet in caller-owned storage.
pub struct QuicRetryPacketBuilder<'buffer, 'input> {
    destination: &'buffer mut [u8],
    version: QuicVersion,
    unused_bits: u8,
    destination_connection_id: QuicConnectionId<'input>,
    source_connection_id: QuicConnectionId<'input>,
    token: &'input [u8],
    integrity_tag: &'input [u8; 16],
}

impl<'buffer, 'input> QuicRetryPacketBuilder<'buffer, 'input> {
    /// The builder's values.
    pub closed spec fn fields(&self) -> QuicRetryBuilderFields {
        QuicRetryBuilderFields {
            destination: self.destination@,
            version: self.version.spec_raw(),
            unused_bits: self.unused_bits,
            destination_connection_id: self.destination_connection_id@,
            source_connection_id: self.source_connection_id@,
            token: self.token@,
            integrity_tag: self.integrity_tag@,
        }
    }

    /// Creates a builder for a Retry packet with supplied opaque token and integrity-tag bytes.
    pub fn new(
        destination: &'buffer mut [u8],
        version: QuicVersion,
        unused_bits: u8,
        destination_connection_id: QuicConnectionId<'input>,
        source_connection_id: QuicConnectionId<'input>,
        token: &'input [u8],
        integrity_tag: &'input [u8; 16],
    ) -> (r: Self)
        ensures
            r.fields() == (QuicRetryBuilderFields {
                destination: old(destination)@,
                version: version.spec_raw(),
                unused_bits,
                destination_connection_id: destination_connection_id@,
                source_connection_id: source_connection_id@,
                token: token@,
                integrity_tag: integrity_tag@,
            }),
    {
        Self {
            destination,
            version,
            unused_bits,
            destination_connection_id,
            source_connection_id,
            token,
            integrity_tag,
        }
    }

    /// Validates all inputs and capacity before writing a complete Retry packet.
    #[verifier::rlimit(40)]
    pub fn build(self) -> (r: Result<QuicRetryPacket<'buffer>, QuicPacketBuildError>)
        ensures
            ({
                let f = self.fields();
                match r {
                    Ok(packet) => spec_retry_build_error(f) is None && packet@
                        == spec_long_prefix_bytes(
                        spec_long_first_byte(
                            spec_raw_type(QuicLongPacketType::Retry, f.version)->0,
                            f.unused_bits,
                        ),
                        f.version,
                        f.destination_connection_id,
                        f.source_connection_id,
                    ) + f.token + f.integrity_tag && packet.fields().token == f.token
                        && packet.fields().integrity_tag == f.integrity_tag,
                    Err(e) => spec_retry_build_error(f) == Some(e),
                }
            }),
    {
        let ghost f = self.fields();
        let raw_type = match QuicLongPacketType::Retry.raw_type(self.version) {
            Some(raw_type) => raw_type,
            None => return Err(QuicPacketBuildError::UnsupportedVersion { version: self.version }),
        };
        if self.unused_bits > 0x0f {
            return Err(
                QuicPacketBuildError::UnusedBitsOutOfRange { maximum: 0x0f, actual: self.unused_bits },
            );
        }
        match validate_connection_id(
            QuicConnectionIdField::Destination,
            self.destination_connection_id.len(),
            20,
        ) {
            Ok(()) => {},
            Err(e) => return Err(e),
        }
        match validate_connection_id(QuicConnectionIdField::Source, self.source_connection_id.len(), 20) {
            Ok(()) => {},
            Err(e) => return Err(e),
        }
        if self.token.len() == 0 {
            return Err(QuicPacketBuildError::EmptyRetryToken);
        }
        let source_end = 7 + self.destination_connection_id.len() + self.source_connection_id.len();
        let token_end = match checked_add(source_end, self.token.len(), "Retry Token") {
            Ok(end) => end,
            Err(e) => return Err(e),
        };
        let required = match checked_add(token_end, RETRY_INTEGRITY_TAG_LEN, "Retry Integrity Tag") {
            Ok(required) => required,
            Err(e) => return Err(e),
        };
        let destination = self.destination;
        if destination.len() < required {
            return Err(
                QuicPacketBuildError::BufferTooShort { required, available: destination.len() },
            );
        }
        let first_byte = 0xc0u8 | (raw_type << 4u8) | self.unused_bits;
        proof {
            lemma_long_first_byte(raw_type, self.unused_bits);
            lemma_long_packet_type_inverse(
                self.version.spec_raw(),
                raw_type,
                QuicLongPacketType::Retry,
            );
        }
        let (bytes, _) = split_at_mut_fixed(destination, required);
        let end = write_long_prefix(
            bytes,
            first_byte,
            self.version.raw(),
            self.destination_connection_id.as_bytes(),
            self.source_connection_id.as_bytes(),
        );
        let ghost prefix = spec_long_prefix_bytes(
            first_byte,
            self.version.spec_raw(),
            self.destination_connection_id@,
            self.source_connection_id@,
        );
        proof {
            assert(bytes@.subrange(0, end as int) =~= prefix);
        }
        let ghost before = bytes@;
        copy_into(bytes, source_end, self.token);
        proof {
            lemma_spliced_prefix(before, source_end as int, self.token@, prefix);
        }
        let ghost before = bytes@;
        copy_into(bytes, token_end, self.integrity_tag.as_slice());
        proof {
            lemma_spliced_prefix(before, token_end as int, self.integrity_tag@, prefix + self.token@);
            assert(bytes@ =~= prefix + self.token@ + self.integrity_tag@);
            lemma_long_prefix_roundtrip(
                first_byte,
                self.version.spec_raw(),
                self.destination_connection_id@,
                self.source_connection_id@,
                self.token@ + self.integrity_tag@,
            );
            assert(prefix + self.token@ + self.integrity_tag@ =~= prefix + (self.token@
                + self.integrity_tag@));
            let b = bytes@;
            assert(b.subrange(source_end as int, b.len() - 16) =~= self.token@);
            assert(b.subrange(b.len() - 16, b.len() as int) =~= self.integrity_tag@);
        }
        let bytes: &'buffer [u8] = bytes;
        let header = match QuicLongHeader::parse(bytes) {
            Ok(header) => header,
            Err(e) => return Err(built_prefix_error(e)),
        };
        let token = slice_range(bytes, source_end, token_end);
        let integrity_tag = slice_from(bytes, token_end);
        Ok(QuicRetryPacket::from_validated(bytes, header, QuicLongPacketType::Retry, token, integrity_tag))
    }
}

fn validate_connection_id(field: QuicConnectionIdField, actual: usize, maximum: usize) -> (r: Result<
    (),
    QuicPacketBuildError,
>)
    ensures
        actual > maximum ==> r == Err::<(), QuicPacketBuildError>(
            QuicPacketBuildError::ConnectionIdTooLong { field, maximum, actual },
        ),
        actual <= maximum ==> r is Ok,
{
    if actual > maximum {
        return Err(QuicPacketBuildError::ConnectionIdTooLong { field, maximum, actual });
    }
    Ok(())
}

fn checked_add(offset: usize, length: usize, component: &'static str) -> (r: Result<
    usize,
    QuicPacketBuildError,
>)
    ensures
        offset + length > usize::MAX ==> r == Err::<usize, QuicPacketBuildError>(
            QuicPacketBuildError::LengthOverflow { component, offset, length },
        ),
        offset + length <= usize::MAX ==> r == Ok::<usize, QuicPacketBuildError>(
            (offset + length) as usize,
        ),
{
    match offset.checked_add(length) {
        Some(end) => Ok(end),
        None => Err(QuicPacketBuildError::LengthOverflow { component, offset, length }),
    }
}


/// The big-endian values read back from a written version list are the versions written.
proof fn lemma_version_list_values(versions: Seq<QuicVersion>)
    ensures
        spec_be32_list(spec_version_list_bytes(versions)) =~= versions.map_values(
            |v: QuicVersion| v.spec_raw(),
        ),
    decreases versions.len(),
{
    lemma_version_list_len(versions);
    if versions.len() > 0 {
        let init = versions.drop_last();
        let a = spec_version_list_bytes(init);
        let last = versions.last().spec_raw();
        lemma_version_list_values(init);
        lemma_version_list_len(init);
        lemma_be32_roundtrip(last);
        let b = a + be32_bytes(last);
        assert forall|i: int| 0 <= i < versions.len() implies #[trigger] spec_be32_list(b)[i]
            == versions[i].spec_raw() by {
            if i < init.len() {
                assert(b.subrange(4 * i, 4 * i + 4) =~= a.subrange(4 * i, 4 * i + 4));
                assert(spec_be32_list(a)[i] == init[i].spec_raw());
                assert(be32(b, 4 * i) == be32(a, 4 * i));
            } else {
                assert(be32(b, 4 * i) == be32(be32_bytes(last), 0));
            }
        }
    }
}

/// A Version Negotiation packet built from valid fields is read back with the header written,
/// and its advertised versions are the versions written, in order.
pub proof fn lemma_version_negotiation_roundtrip(f: QuicVersionNegotiationBuilderFields)
    requires
        spec_version_negotiation_build_error(f) is None,
    ensures
        spec_version_negotiation(
            spec_long_prefix_bytes(
                (0x80u8 | f.unused_bits) as u8,
                0,
                f.destination_connection_id,
                f.source_connection_id,
            ) + spec_version_list_bytes(f.versions),
        ) == Ok::<QuicLongHeaderFields, QuicPacketParseError>(
            QuicLongHeaderFields {
                first_byte: (0x80u8 | f.unused_bits) as u8,
                version: 0,
                destination_connection_id: f.destination_connection_id,
                source_connection_id: f.source_connection_id,
                prefix_len: 7 + f.destination_connection_id.len() + f.source_connection_id.len(),
                version_specific: spec_version_list_bytes(f.versions),
            },
        ),
        spec_be32_list(spec_version_list_bytes(f.versions)) == f.versions.map_values(
            |v: QuicVersion| v.spec_raw(),
        ),
{
    let u = f.unused_bits;
    assert((0x80u8 | u) as u8 >= 0x80) by (bit_vector);
    lemma_long_prefix_roundtrip(
        (0x80u8 | u) as u8,
        0,
        f.destination_connection_id,
        f.source_connection_id,
        spec_version_list_bytes(f.versions),
    );
    lemma_version_list_len(f.versions);
    lemma_version_list_values(f.versions);
}

/// A Retry packet built from valid fields is read back with the header, token and integrity
/// tag written.
pub proof fn lemma_retry_roundtrip(f: QuicRetryBuilderFields)
    requires
        spec_retry_build_error(f) is None,
        f.integrity_tag.len() == 16,
    ensures
        ({
            let first_byte = spec_long_first_byte(
                spec_raw_type(QuicLongPacketType::Retry, f.version)->0,
                f.unused_bits,
            );
            spec_retry_packet(
                spec_long_prefix_bytes(
                    first_byte,
                    f.version,
                    f.destination_connection_id,
                    f.source_connection_id,
                ) + f.token + f.integrity_tag,
            ) == Ok::<QuicRetryFields, QuicPacketParseError>(
                QuicRetryFields {
                    header: QuicLongHeaderFields {
                        first_byte,
                        version: f.version,
                        destination_connection_id: f.destination_connection_id,
                        source_connection_id: f.source_connection_id,
                        prefix_len: 7 + f.destination_connection_id.len()
                            + f.source_connection_id.len(),
                        version_specific: f.token + f.integrity_tag,
                    },
                    token: f.token,
                    integrity_tag: f.integrity_tag,
                },
            )
        }),
{
    let raw = spec_raw_type(QuicLongPacketType::Retry, f.version)->0;
    let first_byte = spec_long_first_byte(raw, f.unused_bits);
    let prefix = spec_long_prefix_bytes(
        first_byte,
        f.version,
        f.destination_connection_id,
        f.source_connection_id,
    );
    let rest = f.token + f.integrity_tag;
    let b = prefix + rest;
    lemma_long_first_byte(raw, f.unused_bits);
    lemma_long_prefix_roundtrip(
        first_byte,
        f.version,
        f.destination_connection_id,
        f.source_connection_id,
        rest,
    );
    lemma_long_packet_type_inverse(f.version, raw, QuicLongPacketType::Retry);
    assert(b =~= prefix + f.token + f.integrity_tag);
    let p = prefix.len() as int;
    assert(b.subrange(p, b.len() - 16) =~= f.token);
    assert(b.subrange(b.len() - 16, b.len() as int) =~= f.integrity_tag);
}

} // verus!
