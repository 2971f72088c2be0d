//! Checked borrowed TCP segment views.

use super::flags::TcpFlags;
use crate::error::ParseError;
use crate::wire::{
    be16, be16_bytes, be32, be32_bytes, read_be16, read_be32, slice_from, slice_range, split_at_mut_fixed, spliced,
    write_be16, write_be32,
};
use vstd::prelude::*;

verus! {

/// Length of the fixed TCP header.
pub const HEADER_LENGTH: usize = 20;

/// A TCP field mutation failure.
#[derive(Clone, Copy, Debug, PartialEq, Eq)]
pub enum TcpSegmentMutationError {
    /// A field value could not be encoded at its required wire width.
    InvalidFieldEncoding {
        /// The field whose plan was invalid.
        field: &'static str,
        /// The required fixed width.
        expected: usize,
        /// The encoded width that was produced.
        actual: usize,
    },
}

/// The header length announced by the data-offset nibble of a segment's thirteenth byte.
pub open spec fn spec_data_offset_length(s: Seq<u8>) -> int {
    (s[12] / 16) * 4
}

/// The structural validation of a complete TCP segment: its header length, or why there is
/// none.
pub open spec fn spec_validated_header_length(s: Seq<u8>) -> Result<usize, ParseError> {
    if s.len() < 20 {
        Err(ParseError::Truncated { minimum: 20, available: s.len() as usize })
    } else if spec_data_offset_length(s) < 20 {
        Err(
            ParseError::InvalidHeaderLength {
                minimum: 20,
                actual: spec_data_offset_length(s) as usize,
            },
        )
    } else if s.len() < spec_data_offset_length(s) {
        Err(
            ParseError::Truncated {
                minimum: spec_data_offset_length(s) as usize,
                available: s.len() as usize,
            },
        )
    } else {
        Ok(spec_data_offset_length(s) as usize)
    }
}

/// Whether `s` is a structurally complete TCP segment.
pub open spec fn spec_is_segment(s: Seq<u8>) -> bool {
    spec_validated_header_length(s) is Ok
}

fn validated_header_length(bytes: &[u8]) -> (r: Result<usize, ParseError>)
    ensures
        r == spec_validated_header_length(bytes@),
{
    if bytes.len() < HEADER_LENGTH {
        return Err(ParseError::Truncated { minimum: HEADER_LENGTH, available: bytes.len() });
    }
    let header_length = ((bytes[12] / 16) as usize) * 4;
    if header_length < HEADER_LENGTH {
        return Err(ParseError::InvalidHeaderLength { minimum: HEADER_LENGTH, actual: header_length });
    }
    if bytes.len() < header_length {
        return Err(ParseError::Truncated { minimum: header_length, available: bytes.len() });
    }
    Ok(header_length)
}

/// A structurally validated TCP segment.
#[derive(Clone, Copy, Debug, PartialEq, Eq)]
pub struct TcpSegment<'a> {
    bytes: &'a [u8],
    header_length: usize,
}

impl<'a> View for TcpSegment<'a> {
    type V = Seq<u8>;

    closed spec fn view(&self) -> Seq<u8> {
        self.bytes@
    }
}

impl<'a> TcpSegment<'a> {
    #[verifier::type_invariant]
    closed spec fn inv(self) -> bool {
        &&& spec_is_segment(self.bytes@)
        &&& self.header_length == spec_data_offset_length(self.bytes@)
    }

    /// Parses a complete TCP segment without checking its checksum.
    pub fn parse(bytes: &'a [u8]) -> (r: Result<Self, ParseError>)
        ensures
            match r {
                Ok(segment) => spec_is_segment(bytes@) && segment@ == bytes@,
                Err(e) => spec_validated_header_length(bytes@) == Err::<usize, ParseError>(e),
            },
    {
        let header_length = match validated_header_length(bytes) {
            Ok(length) => length,
            Err(e) => return Err(e),
        };
        Ok(Self { bytes, header_length })
    }

    /// Returns the source port.
    pub fn source_port(&self) -> (r: u16)
        ensures
            r == be16(self@, 0),
    {
        proof {
            use_type_invariant(self);
        }
        read_be16(self.bytes, 0)
    }

    /// Returns the destination port.
    pub fn destination_port(&self) -> (r: u16)
        ensures
            r == be16(self@, 2),
    {
        proof {
            use_type_invariant(self);
        }
        read_be16(self.bytes, 2)
    }

    /// Returns the sequence number.
    pub fn sequence_number(&self) -> (r: u32)
        ensures
            r == be32(self@, 4),
    {
        proof {
            use_type_invariant(self);
        }
        read_be32(self.bytes, 4)
    }

    /// Returns the acknowledgment number.
    pub fn acknowledgment_number(&self) -> (r: u32)
        ensures
            r == be32(self@, 8),
    {
        proof {
            use_type_invariant(self);
        }
        read_be32(self.bytes, 8)
    }

    /// Returns the data offset in four-octet words.
    pub fn data_offset(&self) -> (r: u8)
        ensures
            r == self@[12] / 16,
    {
        proof {
            use_type_invariant(self);
        }
        self.bytes[12] / 16
    }

    /// Returns the header length in octets.
    pub fn header_length(&self) -> (r: usize)
        ensures
            r == spec_data_offset_length(self@),
            20 <= r <= self@.len() <= usize::MAX,
    {
        proof {
            use_type_invariant(self);
            assert(self.bytes.len() == self.bytes@.len());
        }
        self.header_length
    }

    /// Returns the four reserved header bits.
    pub fn reserved(&self) -> (r: u8)
        ensures
            r == self@[12] % 16,
    {
        proof {
            use_type_invariant(self);
        }
        self.bytes[12] % 16
    }

    /// Returns TCP control flags with their raw wire value preserved.
    pub fn flags(&self) -> (r: TcpFlags)
        ensures
            r.spec_raw() == self@[13],
    {
        proof {
            use_type_invariant(self);
        }
        TcpFlags::new(self.bytes[13])
    }

    /// Returns the window size.
    pub fn window_size(&self) -> (r: u16)
        ensures
            r == be16(self@, 14),
    {
        proof {
            use_type_invariant(self);
        }
        read_be16(self.bytes, 14)
    }

    /// Returns the encoded checksum.
    pub fn checksum(&self) -> (r: u16)
        ensures
            r == be16(self@, 16),
    {
        proof {
            use_type_invariant(self);
        }
        read_be16(self.bytes, 16)
    }

    /// Returns the urgent pointer.
    pub fn urgent_pointer(&self) -> (r: u16)
        ensures
            r == be16(self@, 18),
    {
        proof {
            use_type_invariant(self);
        }
        read_be16(self.bytes, 18)
    }

    /// Returns header options.
    pub fn options(&self) -> (r: &'a [u8])
        ensures
            r@ == self@.subrange(20, spec_data_offset_length(self@)),
    {
        proof {
            use_type_invariant(self);
        }
        slice_range(self.bytes, HEADER_LENGTH, self.header_length)
    }

    /// Returns payload bytes.
    pub fn payload(&self) -> (r: &'a [u8])
        ensures
            r@ == self@.subrange(spec_data_offset_length(self@), self@.len() as int),
    {
        proof {
            use_type_invariant(self);
        }
        slice_from(self.bytes, self.header_length)
    }

    /// Returns all represented segment bytes.
    pub fn as_bytes(&self) -> (r: &'a [u8])
        ensures
            r@ == self@,
    {
        self.bytes
    }
}

/// A mutable structurally validated TCP segment.
#[derive(Debug, PartialEq, Eq)]
pub struct TcpSegmentMut<'a> {
    bytes: &'a mut [u8],
    header_length: usize,
}

impl<'a> View for TcpSegmentMut<'a> {
    type V = Seq<u8>;

    closed spec fn view(&self) -> Seq<u8> {
        self.bytes@
    }
}

impl<'a> TcpSegmentMut<'a> {
    /// The segment is structurally valid and caches its header length.
    pub closed spec fn wf(&self) -> bool {
        &&& spec_is_segment(self.bytes@)
        &&& self.header_length == spec_data_offset_length(self.bytes@)
    }

    /// Parses a complete TCP segment without checking its checksum.
    pub fn parse(bytes: &'a mut [u8]) -> (r: Result<Self, ParseError>)
        ensures
            match r {
                Ok(segment) => segment.wf() && segment@ == old(bytes)@,
                Err(e) => spec_validated_header_length(old(bytes)@) == Err::<usize, ParseError>(e),
            },
    {
        let header_length = match validated_header_length(bytes) {
            Ok(length) => length,
            Err(e) => return Err(e),
        };
        Ok(Self { bytes, header_length })
    }

    pub(super) fn from_validated(bytes: &'a mut [u8], header_length: usize) -> (r: Self)
        requires
            spec_is_segment(old(bytes)@),
            header_length == spec_data_offset_length(old(bytes)@),
        ensures
            r.wf(),
            r@ == old(bytes)@,
    {
        Self { bytes, header_length }
    }

    /// Returns the source port.
    pub fn source_port(&self) -> (r: u16)
        requires
            self.wf(),
        ensures
            r == be16(self@, 0),
    {
        read_be16(self.bytes, 0)
    }

    /// Returns the destination port.
    pub fn destination_port(&self) -> (r: u16)
        requires
            self.wf(),
        ensures
            r == be16(self@, 2),
    {
        read_be16(self.bytes, 2)
    }

    /// Returns the sequence number.
    pub fn sequence_number(&self) -> (r: u32)
        requires
            self.wf(),
        ensures
            r == be32(self@, 4),
    {
        read_be32(self.bytes, 4)
    }

    /// Returns the acknowledgment number.
    pub fn acknowledgment_number(&self) -> (r: u32)
        requires
            self.wf(),
        ensures
            r == be32(self@, 8),
    {
        read_be32(self.bytes, 8)
    }

    /// Returns the data offset in four-octet words.
    pub fn data_offset(&self) -> (r: u8)
        requires
            self.wf(),
        ensures
            r == self@[12] / 16,
    {
        self.bytes[12] / 16
    }

    /// Returns the header length in octets.
    pub fn header_length(&self) -> (r: usize)
        requires
            self.wf(),
        ensures
            r == spec_data_offset_length(self@),
            20 <= r <= self@.len() <= usize::MAX,
    {
        proof {
            assert(self.bytes.len() == self.bytes@.len());
        }
        self.header_length
    }

    /// Returns the four reserved header bits.
    pub fn reserved(&self) -> (r: u8)
        requires
            self.wf(),
        ensures
            r == self@[12] % 16,
    {
        self.bytes[12] % 16
    }

    /// Returns TCP control flags with their raw wire value preserved.
    pub fn flags(&self) -> (r: TcpFlags)
        requires
            self.wf(),
        ensures
            r.spec_raw() == self@[13],
    {
        TcpFlags::new(self.bytes[13])
    }

    /// Returns the window size.
    pub fn window_size(&self) -> (r: u16)
        requires
            self.wf(),
        ensures
            r == be16(self@, 14),
    {
        read_be16(self.bytes, 14)
    }

    /// Returns the encoded checksum.
    pub fn checksum(&self) -> (r: u16)
        requires
            self.wf(),
        ensures
            r == be16(self@, 16),
    {
        read_be16(self.bytes, 16)
    }

    /// Returns the urgent pointer.
    pub fn urgent_pointer(&self) -> (r: u16)
        requires
            self.wf(),
        ensures
            r == be16(self@, 18),
    {
        read_be16(self.bytes, 18)
    }

    /// Returns header options.
    pub fn options(&self) -> (r: &[u8])
        requires
            self.wf(),
        ensures
            r@ == self@.subrange(20, spec_data_offset_length(self@)),
    {
        slice_range(self.bytes, HEADER_LENGTH, self.header_length)
    }

    /// Returns payload bytes.
    pub fn payload(&self) -> (r: &[u8])
        requires
            self.wf(),
        ensures
            r@ == self@.subrange(spec_data_offset_length(self@), self@.len() as int),
    {
        slice_from(self.bytes, self.header_length)
    }

    /// Returns all represented segment bytes.
    pub fn as_bytes(&self) -> (r: &[u8])
        requires
            self.wf(),
        ensures
            r@ == self@,
    {
        self.bytes
    }

    /// Returns mutable header options without updating the checksum.
    pub fn options_mut(&mut self) -> (r: &mut [u8])
        requires
            old(self).wf(),
        ensures
            final(self).wf(),
            r@ == old(self)@.subrange(20, spec_data_offset_length(old(self)@)),
            final(r)@.len() == r@.len(),
            final(self)@ == old(self)@.subrange(0, 20) + final(r)@ + old(self)@.subrange(
                spec_data_offset_length(old(self)@),
                old(self)@.len() as int,
            ),
    {
        let header_length = self.header_length;
        let (head, _) = split_at_mut_fixed(self.bytes, header_length);
        let (_, options) = split_at_mut_fixed(head, HEADER_LENGTH);
        options
    }

    /// Returns mutable payload bytes without updating the checksum.
    pub fn payload_mut(&mut self) -> (r: &mut [u8])
        requires
            old(self).wf(),
        ensures
            final(self).wf(),
            r@ == old(self)@.subrange(spec_data_offset_length(old(self)@), old(self)@.len() as int),
            final(self)@ == old(self)@.subrange(0, spec_data_offset_length(old(self)@))
                + final(r)@,
            final(r)@.len() == r@.len(),
    {
        let header_length = self.header_length;
        let (_, payload) = split_at_mut_fixed(self.bytes, header_length);
        payload
    }

    /// Replaces the source port without updating the checksum.
    pub fn set_source_port(&mut self, value: u16) -> (r: Result<(), TcpSegmentMutationError>)
        requires
            old(self).wf(),
        ensures
            final(self).wf(),
            r is Ok,
            final(self)@ == spliced(old(self)@, 0, be16_bytes(value)),
    {
        write_be16(self.bytes, 0, value);
        Ok(())
    }

    /// Replaces the destination port without updating the checksum.
    pub fn set_destination_port(&mut self, value: u16) -> (r: Result<(), TcpSegmentMutationError>)
        requires
            old(self).wf(),
        ensures
            final(self).wf(),
            r is Ok,
            final(self)@ == spliced(old(self)@, 2, be16_bytes(value)),
    {
        write_be16(self.bytes, 2, value);
        Ok(())
    }

    /// Replaces the sequence number without updating the checksum.
    pub fn set_sequence_number(&mut self, value: u32) -> (r: Result<(), TcpSegmentMutationError>)
        requires
            old(self).wf(),
        ensures
            final(self).wf(),
            r is Ok,
            final(self)@ == spliced(old(self)@, 4, be32_bytes(value)),
    {
        write_be32(self.bytes, 4, value);
        Ok(())
    }

    /// Replaces the acknowledgment number without updating the checksum.
    pub fn set_acknowledgment_number(&mut self, value: u32) -> (r: Result<
        (),
        TcpSegmentMutationError,
    >)
        requires
            old(self).wf(),
        ensures
            final(self).wf(),
            r is Ok,
            final(self)@ == spliced(old(self)@, 8, be32_bytes(value)),
    {
        write_be32(self.bytes, 8, value);
        Ok(())
    }

    /// Replaces flags without updating the checksum.
    pub fn set_flags(&mut self, value: TcpFlags) -> (r: Result<(), TcpSegmentMutationError>)
        requires
            old(self).wf(),
        ensures
            final(self).wf(),
            r is Ok,
            final(self)@ == old(self)@.update(13, value.spec_raw()),
    {
        self.bytes[13] = value.raw();
        Ok(())
    }

    /// Replaces the window size without updating the checksum.
    pub fn set_window_size(&mut self, value: u16) -> (r: Result<(), TcpSegmentMutationError>)
        requires
            old(self).wf(),
        ensures
            final(self).wf(),
            r is Ok,
            final(self)@ == spliced(old(self)@, 14, be16_bytes(value)),
    {
        write_be16(self.bytes, 14, value);
        Ok(())
    }

    /// Replaces the checksum directly.
    pub fn set_checksum(&mut self, value: u16) -> (r: Result<(), TcpSegmentMutationError>)
        requires
            old(self).wf(),
        ensures
            final(self).wf(),
            r is Ok,
            final(self)@ == spliced(old(self)@, 16, be16_bytes(value)),
    {
        write_be16(self.bytes, 16, value);
        Ok(())
    }

    /// Replaces the urgent pointer without updating the checksum.
    pub fn set_urgent_pointer(&mut self, value: u16) -> (r: Result<(), TcpSegmentMutationError>)
        requires
            old(self).wf(),
        ensures
            final(self).wf(),
            r is Ok,
            final(self)@ == spliced(old(self)@, 18, be16_bytes(value)),
    {
        write_be16(self.bytes, 18, value);
        Ok(())
    }
}

} // verus!
