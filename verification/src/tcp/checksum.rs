//! TCP checksum over IP pseudoheaders.

use super::segment::{TcpSegment, TcpSegmentMut, TcpSegmentMutationError, spec_data_offset_length};
use crate::internet_checksum::{
    self, add_ipv4_pseudoheader, add_ipv6_pseudoheader, ipv4_pseudoheader, ipv6_pseudoheader,
    lemma_add_piece, lemma_fold_absorb, lemma_word_sum_append, lemma_word_sum_pair, ones_fold,
    word_sum,
};
use crate::wire::{
    be16, be16_bytes, be32, be32_bytes, lemma_be16_bytes_of, lemma_be32_bytes_of, spliced,
};
use vstd::prelude::*;

verus! {

const TCP_PROTOCOL: u8 = 6;

/// Failure to represent or update a TCP checksum.
#[derive(Clone, Copy, Debug, PartialEq, Eq)]
pub enum TcpChecksumError {
    /// The message length cannot be represented by the pseudoheader's length field.
    LengthTooLarge {
        /// Largest representable message length on this platform.
        maximum: usize,
        /// Actual message length.
        actual: usize,
    },
    /// A field value could not be encoded at its required wire width.
    InvalidFieldEncoding {
        /// The field whose plan was invalid.
        field: &'static str,
        /// The required fixed width.
        expected: usize,
        /// The encoded width that was produced.
        actual: usize,
    },
}

impl From<TcpSegmentMutationError> for TcpChecksumError {
    fn from(error: TcpSegmentMutationError) -> (r: Self) {
        match error {
            TcpSegmentMutationError::InvalidFieldEncoding { field, expected, actual } => {
                Self::InvalidFieldEncoding { field, expected, actual }
            },
        }
    }
}

impl vstd::std_specs::convert::FromSpecImpl<TcpSegmentMutationError> for TcpChecksumError {
    open spec fn obeys_from_spec() -> bool {
        true
    }

    open spec fn from_spec(error: TcpSegmentMutationError) -> Self {
        match error {
            TcpSegmentMutationError::InvalidFieldEncoding { field, expected, actual } => {
                Self::InvalidFieldEncoding { field, expected, actual }
            },
        }
    }
}

/// The folded ones'-complement sum of a transport message under its pseudoheader.
pub open spec fn transport_sum(pseudoheader: Seq<u8>, message: Seq<u8>) -> nat {
    ones_fold(word_sum(pseudoheader) + word_sum(message))
}

/// `segment` with `checksum` written into its checksum field.
pub open spec fn with_checksum(segment: Seq<u8>, checksum: u16) -> Seq<u8> {
    spliced(segment, 16, be16_bytes(checksum))
}

/// The checksum that makes `segment` valid under `pseudoheader`: the ones' complement of the
/// folded sum taken with a zero checksum field.
pub open spec fn tcp_checksum_for(pseudoheader: Seq<u8>, segment: Seq<u8>) -> u16 {
    (0xffff - transport_sum(pseudoheader, with_checksum(segment, 0))) as u16
}

/// The IPv4 pseudoheader of a TCP segment of `length` bytes.
pub open spec fn tcp_ipv4_pseudoheader(source: [u8; 4], destination: [u8; 4], length: nat) -> Seq<
    u8,
> {
    ipv4_pseudoheader(source@, destination@, 6, length as u16)
}

/// The IPv6 pseudoheader of a TCP segment of `length` bytes.
pub open spec fn tcp_ipv6_pseudoheader(source: [u8; 16], destination: [u8; 16], length: nat) -> Seq<
    u8,
> {
    ipv6_pseudoheader(source@, destination@, 6, length as u32)
}

/// The sum of a segment's words splits around its checksum field.
proof fn lemma_checksum_field_sum(segment: Seq<u8>, checksum: u16)
    requires
        segment.len() >= 20,
    ensures
        word_sum(with_checksum(segment, checksum)) == word_sum(segment.subrange(0, 16)) + checksum
            + word_sum(segment.subrange(18, segment.len() as int)),
{
    let head = segment.subrange(0, 16);
    let field = be16_bytes(checksum);
    let tail = segment.subrange(18, segment.len() as int);
    assert(with_checksum(segment, checksum) =~= head + field + tail);
    lemma_word_sum_append(head, field);
    lemma_word_sum_append(head + field, tail);
    lemma_word_sum_pair(field);
}

/// A segment whose checksum field holds the checksum computed for it is valid: its folded
/// sum under the same pseudoheader is `0xffff`.
pub proof fn lemma_updated_checksum_is_valid(pseudoheader: Seq<u8>, segment: Seq<u8>)
    requires
        segment.len() >= 20,
    ensures
        transport_sum(
            pseudoheader,
            with_checksum(segment, tcp_checksum_for(pseudoheader, segment)),
        ) == 0xffff,
{
    let c = tcp_checksum_for(pseudoheader, segment);
    let rest = word_sum(segment.subrange(0, 16)) + word_sum(
        segment.subrange(18, segment.len() as int),
    );
    let a = word_sum(pseudoheader) + rest;
    lemma_checksum_field_sum(segment, 0);
    lemma_checksum_field_sum(segment, c);
    assert(transport_sum(pseudoheader, with_checksum(segment, 0)) == ones_fold(a));
    assert(c == 0xffff - ones_fold(a));
    lemma_fold_absorb(a, c as nat);
    assert(ones_fold(a) + c == 0xffff);
}

/// Checking a segment whose field already holds its checksum is checking the segment itself.
proof fn lemma_own_checksum(segment: Seq<u8>)
    requires
        segment.len() >= 20,
    ensures
        with_checksum(segment, be16(segment, 16) as u16) == segment,
{
    lemma_be16_bytes_of(segment, 16);
    assert(with_checksum(segment, be16(segment, 16) as u16) =~= segment);
}

fn segment_length(header_length: usize, payload_length: usize) -> (r: usize)
    requires
        header_length + payload_length <= usize::MAX,
    ensures
        r == header_length + payload_length,
{
    header_length + payload_length
}

struct TcpChecksumParts<'a> {
    source_port: u16,
    destination_port: u16,
    sequence_number: u32,
    acknowledgment_number: u32,
    data_offset: u8,
    reserved: u8,
    flags: u8,
    window_size: u16,
    checksum: u16,
    urgent_pointer: u16,
    options: &'a [u8],
    payload: &'a [u8],
}

/// The bytes that a set of checksum parts stands for.
spec fn parts_bytes(parts: TcpChecksumParts<'_>) -> Seq<u8> {
    be16_bytes(parts.source_port) + be16_bytes(parts.destination_port) + be32_bytes(
        parts.sequence_number,
    ) + be32_bytes(parts.acknowledgment_number) + seq![
        (parts.data_offset << 4u8) | parts.reserved,
        parts.flags,
    ] + be16_bytes(parts.window_size) + be16_bytes(parts.checksum) + be16_bytes(
        parts.urgent_pointer,
    ) + parts.options@ + parts.payload@
}

fn checksum_sum(parts: TcpChecksumParts<'_>, initial: u32) -> (r: u32)
    requires
        parts.options@.len() % 2 == 0,
    ensures
        r == ones_fold(initial as nat + word_sum(parts_bytes(parts))),
        r <= 0xffff,
{
    let ghost i = initial as nat;
    let source = [(parts.source_port / 256) as u8, (parts.source_port % 256) as u8];
    let destination = [(parts.destination_port / 256) as u8, (parts.destination_port % 256) as u8];
    let s = parts.sequence_number;
    let sequence = [
        (s / 0x100_0000) as u8,
        ((s / 0x1_0000) % 256) as u8,
        ((s / 256) % 256) as u8,
        (s % 256) as u8,
    ];
    let a = parts.acknowledgment_number;
    let acknowledgment = [
        (a / 0x100_0000) as u8,
        ((a / 0x1_0000) % 256) as u8,
        ((a / 256) % 256) as u8,
        (a % 256) as u8,
    ];
    let offset_flags = [(parts.data_offset << 4u8) | parts.reserved, parts.flags];
    let window = [(parts.window_size / 256) as u8, (parts.window_size % 256) as u8];
    let checksum = [(parts.checksum / 256) as u8, (parts.checksum % 256) as u8];
    let urgent = [(parts.urgent_pointer / 256) as u8, (parts.urgent_pointer % 256) as u8];
    let ghost p0 = source@;
    let sum = internet_checksum::add_bytes(initial, source.as_slice());
    let sum = internet_checksum::add_bytes(sum, destination.as_slice());
    proof {
        lemma_add_piece(i, p0, destination@);
    }
    let ghost p1 = p0 + destination@;
    let sum = internet_checksum::add_bytes(sum, sequence.as_slice());
    proof {
        lemma_add_piece(i, p1, sequence@);
    }
    let ghost p2 = p1 + sequence@;
    let sum = internet_checksum::add_bytes(sum, acknowledgment.as_slice());
    proof {
        lemma_add_piece(i, p2, acknowledgment@);
    }
    let ghost p3 = p2 + acknowledgment@;
    let sum = internet_checksum::add_bytes(sum, offset_flags.as_slice());
    proof {
        lemma_add_piece(i, p3, offset_flags@);
    }
    let ghost p4 = p3 + offset_flags@;
    let sum = internet_checksum::add_bytes(sum, window.as_slice());
    proof {
        lemma_add_piece(i, p4, window@);
    }
    let ghost p5 = p4 + window@;
    let sum = internet_checksum::add_bytes(sum, checksum.as_slice());
    proof {
        lemma_add_piece(i, p5, checksum@);
    }
    let ghost p6 = p5 + checksum@;
    let sum = internet_checksum::add_bytes(sum, urgent.as_slice());
    proof {
        lemma_add_piece(i, p6, urgent@);
    }
    let ghost p7 = p6 + urgent@;
    let sum = internet_checksum::add_bytes(sum, parts.options);
    proof {
        lemma_add_piece(i, p7, parts.options@);
    }
    let ghost p8 = p7 + parts.options@;
    let sum = internet_checksum::add_bytes(sum, parts.payload);
    proof {
        lemma_add_piece(i, p8, parts.payload@);
        assert(p8 + parts.payload@ =~= parts_bytes(parts));
    }
    sum
}

/// The parts read from a segment stand for its bytes with `checksum` in the checksum field.
proof fn lemma_parts_bytes(segment: Seq<u8>, parts: TcpChecksumParts<'_>)
    requires
        20 <= spec_data_offset_length(segment) <= segment.len(),
        parts.source_port == be16(segment, 0),
        parts.destination_port == be16(segment, 2),
        parts.sequence_number == be32(segment, 4),
        parts.acknowledgment_number == be32(segment, 8),
        parts.data_offset == segment[12] / 16,
        parts.reserved == segment[12] % 16,
        parts.flags == segment[13],
        parts.window_size == be16(segment, 14),
        parts.urgent_pointer == be16(segment, 18),
        parts.options@ == segment.subrange(20, spec_data_offset_length(segment)),
        parts.payload@ == segment.subrange(spec_data_offset_length(segment), segment.len() as int),
    ensures
        parts_bytes(parts) == with_checksum(segment, parts.checksum),
        parts.options@.len() % 2 == 0,
{
    lemma_be16_bytes_of(segment, 0);
    lemma_be16_bytes_of(segment, 2);
    lemma_be32_bytes_of(segment, 4);
    lemma_be32_bytes_of(segment, 8);
    lemma_be16_bytes_of(segment, 14);
    lemma_be16_bytes_of(segment, 18);
    let b = segment[12];
    assert(((b / 16) << 4u8) | (b % 16) == b) by (bit_vector);
    assert(parts_bytes(parts) =~= with_checksum(segment, parts.checksum));
}

fn segment_checksum_sum(segment: &TcpSegment<'_>, checksum: u16, initial: u32) -> (r: u32)
    ensures
        r == ones_fold(initial as nat + word_sum(with_checksum(segment@, checksum))),
        r <= 0xffff,
{
    let header_length = segment.header_length();
    let parts = TcpChecksumParts {
        source_port: segment.source_port(),
        destination_port: segment.destination_port(),
        sequence_number: segment.sequence_number(),
        acknowledgment_number: segment.acknowledgment_number(),
        data_offset: segment.data_offset(),
        reserved: segment.reserved(),
        flags: segment.flags().raw(),
        window_size: segment.window_size(),
        checksum,
        urgent_pointer: segment.urgent_pointer(),
        options: segment.options(),
        payload: segment.payload(),
    };
    proof {
        lemma_parts_bytes(segment@, parts);
    }
    checksum_sum(parts, initial)
}

fn segment_mut_checksum_sum(segment: &TcpSegmentMut<'_>, checksum: u16, initial: u32) -> (r: u32)
    requires
        segment.wf(),
    ensures
        r == ones_fold(initial as nat + word_sum(with_checksum(segment@, checksum))),
        r <= 0xffff,
{
    let header_length = segment.header_length();
    let parts = TcpChecksumParts {
        source_port: segment.source_port(),
        destination_port: segment.destination_port(),
        sequence_number: segment.sequence_number(),
        acknowledgment_number: segment.acknowledgment_number(),
        data_offset: segment.data_offset(),
        reserved: segment.reserved(),
        flags: segment.flags().raw(),
        window_size: segment.window_size(),
        checksum,
        urgent_pointer: segment.urgent_pointer(),
        options: segment.options(),
        payload: segment.payload(),
    };
    proof {
        lemma_parts_bytes(segment@, parts);
    }
    checksum_sum(parts, initial)
}

fn tcp_ipv4_length(length: usize) -> (r: Result<u16, TcpChecksumError>)
    ensures
        r == if length > 0xffff {
            Err(TcpChecksumError::LengthTooLarge { maximum: 0xffff, actual: length })
        } else {
            Ok::<u16, TcpChecksumError>(length as u16)
        },
{
    if length > 0xffff {
        Err(TcpChecksumError::LengthTooLarge { maximum: 0xffff, actual: length })
    } else {
        Ok(length as u16)
    }
}

fn tcp_ipv6_length(length: usize) -> (r: Result<u32, TcpChecksumError>)
    ensures
        r == if length > 0xffff_ffff {
            Err(TcpChecksumError::LengthTooLarge { maximum: 0xffff_ffff, actual: length })
        } else {
            Ok::<u32, TcpChecksumError>(length as u32)
        },
{
    let maximum: usize = 0xffff_ffff;
    if length > maximum {
        Err(TcpChecksumError::LengthTooLarge { maximum, actual: length })
    } else {
        Ok(length as u32)
    }
}

/// What checking a segment against a pseudoheader gives, or the error when its length
/// does not fit the pseudoheader's length field of `width_max`.
pub open spec fn checksum_check_result(
    pseudoheader: Seq<u8>,
    segment: Seq<u8>,
    width_max: nat,
) -> Result<bool, TcpChecksumError> {
    if segment.len() > width_max {
        Err(
            TcpChecksumError::LengthTooLarge {
                maximum: width_max as usize,
                actual: segment.len() as usize,
            },
        )
    } else {
        Ok(transport_sum(pseudoheader, segment) == 0xffff)
    }
}

impl TcpSegment<'_> {
    /// Checks this TCP segment against its IPv4 pseudoheader.
    pub fn checksum_is_valid_ipv4(&self, source: [u8; 4], destination: [u8; 4]) -> (r: Result<
        bool,
        TcpChecksumError,
    >)
        ensures
            r == checksum_check_result(
                tcp_ipv4_pseudoheader(source, destination, self@.len()),
                self@,
                0xffff,
            ),
    {
        let header_length = self.header_length();
        let length = match tcp_ipv4_length(segment_length(header_length, self.payload().len())) {
            Ok(length) => length,
            Err(e) => return Err(e),
        };
        let initial = add_ipv4_pseudoheader(0, source, destination, TCP_PROTOCOL, length);
        let sum = segment_checksum_sum(self, self.checksum(), initial);
        proof {
            lemma_own_checksum(self@);
            lemma_fold_absorb(
                word_sum(tcp_ipv4_pseudoheader(source, destination, self@.len())),
                word_sum(self@),
            );
            lemma_fold_absorb(sum as nat, 0);
        }
        Ok(internet_checksum::fold(sum) == 0xffff)
    }

    /// Checks this TCP segment against its IPv6 pseudoheader.
    pub fn checksum_is_valid_ipv6(&self, source: [u8; 16], destination: [u8; 16]) -> (r: Result<
        bool,
        TcpChecksumError,
    >)
        ensures
            r == checksum_check_result(
                tcp_ipv6_pseudoheader(source, destination, self@.len()),
                self@,
                0xffff_ffff,
            ),
    {
        let header_length = self.header_length();
        let length = match tcp_ipv6_length(segment_length(header_length, self.payload().len())) {
            Ok(length) => length,
            Err(e) => return Err(e),
        };
        let initial = add_ipv6_pseudoheader(0, source, destination, TCP_PROTOCOL, length);
        let sum = segment_checksum_sum(self, self.checksum(), initial);
        proof {
            lemma_own_checksum(self@);
            lemma_fold_absorb(
                word_sum(tcp_ipv6_pseudoheader(source, destination, self@.len())),
                word_sum(self@),
            );
            lemma_fold_absorb(sum as nat, 0);
        }
        Ok(internet_checksum::fold(sum) == 0xffff)
    }
}

impl TcpSegmentMut<'_> {
    /// Checks this TCP segment against its IPv4 pseudoheader.
    pub fn checksum_is_valid_ipv4(&self, source: [u8; 4], destination: [u8; 4]) -> (r: Result<
        bool,
        TcpChecksumError,
    >)
        requires
            self.wf(),
        ensures
            r == checksum_check_result(
                tcp_ipv4_pseudoheader(source, destination, self@.len()),
                self@,
                0xffff,
            ),
    {
        let header_length = self.header_length();
        let length = match tcp_ipv4_length(segment_length(header_length, self.payload().len())) {
            Ok(length) => length,
            Err(e) => return Err(e),
        };
        let initial = add_ipv4_pseudoheader(0, source, destination, TCP_PROTOCOL, length);
        let sum = segment_mut_checksum_sum(self, self.checksum(), initial);
        proof {
            lemma_own_checksum(self@);
            lemma_fold_absorb(
                word_sum(tcp_ipv4_pseudoheader(source, destination, self@.len())),
                word_sum(self@),
            );
            lemma_fold_absorb(sum as nat, 0);
        }
        Ok(internet_checksum::fold(sum) == 0xffff)
    }

    /// Recomputes this TCP segment's IPv4 pseudoheader checksum.
    pub fn update_checksum_ipv4(&mut self, source: [u8; 4], destination: [u8; 4]) -> (r: Result<
        (),
        TcpChecksumError,
    >)
        requires
            old(self).wf(),
        ensures
            final(self).wf(),
            old(self)@.len() > 0xffff ==> r == Err::<(), TcpChecksumError>(
                TcpChecksumError::LengthTooLarge {
                    maximum: 0xffff,
                    actual: old(self)@.len() as usize,
                },
            ) && final(self)@ == old(self)@,
            old(self)@.len() <= 0xffff ==> r is Ok && final(self)@ == with_checksum(
                old(self)@,
                tcp_checksum_for(
                    tcp_ipv4_pseudoheader(source, destination, old(self)@.len()),
                    old(self)@,
                ),
            ),
    {
        let header_length = self.header_length();
        let length = match tcp_ipv4_length(segment_length(header_length, self.payload().len())) {
            Ok(length) => length,
            Err(e) => return Err(e),
        };
        let initial = add_ipv4_pseudoheader(0, source, destination, TCP_PROTOCOL, length);
        let sum = segment_mut_checksum_sum(self, 0, initial);
        proof {
            lemma_fold_absorb(
                word_sum(tcp_ipv4_pseudoheader(source, destination, self@.len())),
                word_sum(with_checksum(self@, 0)),
            );
        }
        let checksum = internet_checksum::checksum(sum);
        proof {
            lemma_fold_absorb(sum as nat, 0);
        }
        match self.set_checksum(checksum) {
            Ok(()) => Ok(()),
            Err(e) => Err(TcpChecksumError::from(e)),
        }
    }

    /// Checks this TCP segment against its IPv6 pseudoheader.
    pub fn checksum_is_valid_ipv6(&self, source: [u8; 16], destination: [u8; 16]) -> (r: Result<
        bool,
        TcpChecksumError,
    >)
        requires
            self.wf(),
        ensures
            r == checksum_check_result(
                tcp_ipv6_pseudoheader(source, destination, self@.len()),
                self@,
                0xffff_ffff,
            ),
    {
        let header_length = self.header_length();
        let length = match tcp_ipv6_length(segment_length(header_length, self.payload().len())) {
            Ok(length) => length,
            Err(e) => return Err(e),
        };
        let initial = add_ipv6_pseudoheader(0, source, destination, TCP_PROTOCOL, length);
        let sum = segment_mut_checksum_sum(self, self.checksum(), initial);
        proof {
            lemma_own_checksum(self@);
            lemma_fold_absorb(
                word_sum(tcp_ipv6_pseudoheader(source, destination, self@.len())),
                word_sum(self@),
            );
            lemma_fold_absorb(sum as nat, 0);
        }
        Ok(internet_checksum::fold(sum) == 0xffff)
    }

    /// Recomputes this TCP segment's IPv6 pseudoheader checksum.
    pub fn update_checksum_ipv6(&mut self, source: [u8; 16], destination: [u8; 16]) -> (r: Result<
        (),
        TcpChecksumError,
    >)
        requires
            old(self).wf(),
        ensures
            final(self).wf(),
            old(self)@.len() > 0xffff_ffff ==> r == Err::<(), TcpChecksumError>(
                TcpChecksumError::LengthTooLarge {
                    maximum: 0xffff_ffff,
                    actual: old(self)@.len() as usize,
                },
            ) && final(self)@ == old(self)@,
            old(self)@.len() <= 0xffff_ffff ==> r is Ok && final(self)@ == with_checksum(
                old(self)@,
                tcp_checksum_for(
                    tcp_ipv6_pseudoheader(source, destination, old(self)@.len()),
                    old(self)@,
                ),
            ),
    {
        let header_length = self.header_length();
        let length = match tcp_ipv6_length(segment_length(header_length, self.payload().len())) {
            Ok(length) => length,
            Err(e) => return Err(e),
        };
        let initial = add_ipv6_pseudoheader(0, source, destination, TCP_PROTOCOL, length);
        let sum = segment_mut_checksum_sum(self, 0, initial);
        proof {
            lemma_fold_absorb(
                word_sum(tcp_ipv6_pseudoheader(source, destination, self@.len())),
                word_sum(with_checksum(self@, 0)),
            );
        }
        let checksum = internet_checksum::checksum(sum);
        proof {
            lemma_fold_absorb(sum as nat, 0);
        }
        match self.set_checksum(checksum) {
            Ok(()) => Ok(()),
            Err(e) => Err(TcpChecksumError::from(e)),
        }
    }
}

} // verus!
