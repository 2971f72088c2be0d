//! TCP caller-buffer builder.

use super::flags::TcpFlags;
use super::segment::{
    HEADER_LENGTH, TcpSegmentMut, spec_data_offset_length, spec_is_segment,
    spec_validated_header_length,
};
use crate::wire::{
    be16, be16_bytes, be32, be32_bytes, copy_into, lemma_be16_roundtrip, lemma_be32_roundtrip,
    split_at_mut_fixed, write_be16, write_be32,
};
use vstd::prelude::*;

verus! {

/// Failure to construct a TCP segment in caller-provided storage.
#[derive(Clone, Copy, Debug, PartialEq, Eq)]
pub enum TcpSegmentBuildError {
    /// The source port was not supplied.
    MissingSourcePort,
    /// The destination port was not supplied.
    MissingDestinationPort,
    /// Options are not a multiple of four octets or exceed forty octets.
    InvalidOptionsLength,
    /// The requested segment length cannot be represented as a `usize`.
    SegmentLengthTooLarge,
    /// The buffer cannot hold the requested segment.
    BufferTooShort {
        /// Required bytes.
        required: usize,
        /// Available bytes.
        available: usize,
    },
    /// A field value could not be encoded at its required wire width.
    InvalidFieldEncoding {
        /// The field whose encoding was invalid.
        field: &'static str,
        /// The required fixed width.
        expected: usize,
        /// The encoded width that was produced.
        actual: usize,
    },
    /// The validated segment could not be represented by the TCP layout.
    InvalidRepresentation,
}

/// The fixed header and options of a TCP segment with the given field values.
pub open spec fn spec_tcp_header(
    source_port: u16,
    destination_port: u16,
    sequence_number: u32,
    acknowledgment_number: u32,
    flags: u8,
    window_size: u16,
    checksum: u16,
    urgent_pointer: u16,
    options: Seq<u8>,
) -> Seq<u8> {
    be16_bytes(source_port) + be16_bytes(destination_port) + be32_bytes(sequence_number)
        + be32_bytes(acknowledgment_number) + seq![
        (((20 + options.len()) / 4) * 16) as u8,
        flags,
    ] + be16_bytes(window_size) + be16_bytes(checksum) + be16_bytes(urgent_pointer) + options
}

/// Every field of a written header reads back as the value written.
pub proof fn lemma_header_fields(
    source_port: u16,
    destination_port: u16,
    sequence_number: u32,
    acknowledgment_number: u32,
    flags: u8,
    window_size: u16,
    checksum: u16,
    urgent_pointer: u16,
    options: Seq<u8>,
    payload: Seq<u8>,
)
    requires
        options.len() <= 40,
        options.len() % 4 == 0,
    ensures
        ({
            let s = spec_tcp_header(
                source_port,
                destination_port,
                sequence_number,
                acknowledgment_number,
                flags,
                window_size,
                checksum,
                urgent_pointer,
                options,
            ) + payload;
            &&& s.len() == 20 + options.len() + payload.len()
            &&& be16(s, 0) == source_port
            &&& be16(s, 2) == destination_port
            &&& be32(s, 4) == sequence_number
            &&& be32(s, 8) == acknowledgment_number
            &&& spec_data_offset_length(s) == 20 + options.len()
            &&& s[13] == flags
            &&& be16(s, 14) == window_size
            &&& be16(s, 16) == checksum
            &&& be16(s, 18) == urgent_pointer
            &&& s.subrange(20, (20 + options.len()) as int) == options
        }),
{
    let s = spec_tcp_header(
        source_port,
        destination_port,
        sequence_number,
        acknowledgment_number,
        flags,
        window_size,
        checksum,
        urgent_pointer,
        options,
    ) + payload;
    lemma_be16_roundtrip(source_port);
    lemma_be16_roundtrip(destination_port);
    lemma_be32_roundtrip(sequence_number);
    lemma_be32_roundtrip(acknowledgment_number);
    lemma_be16_roundtrip(window_size);
    lemma_be16_roundtrip(checksum);
    lemma_be16_roundtrip(urgent_pointer);
    assert(be16(s, 0) == be16(be16_bytes(source_port), 0));
    assert(be16(s, 2) == be16(be16_bytes(destination_port), 0));
    assert(be32(s, 4) == be32(be32_bytes(sequence_number), 0));
    assert(be32(s, 8) == be32(be32_bytes(acknowledgment_number), 0));
    assert(be16(s, 14) == be16(be16_bytes(window_size), 0));
    assert(be16(s, 16) == be16(be16_bytes(checksum), 0));
    assert(be16(s, 18) == be16(be16_bytes(urgent_pointer), 0));
    assert(s.subrange(20, (20 + options.len()) as int) =~= options);
}

/// Builds a TCP header in caller-owned storage.
pub struct TcpSegmentBuilder<'a, 'b> {
    buffer: &'a mut [u8],
    payload_length: usize,
    options: &'b [u8],
    source_port: Option<u16>,
    destination_port: Option<u16>,
    sequence_number: u32,
    acknowledgment_number: u32,
    flags: TcpFlags,
    window_size: u16,
    checksum: u16,
    urgent_pointer: u16,
}

/// The values a TCP segment builder holds.
pub struct TcpSegmentFields {
    /// The caller storage.
    pub buffer: Seq<u8>,
    /// Payload bytes reserved after the header.
    pub payload_length: usize,
    /// Header options to copy.
    pub options: Seq<u8>,
    /// The source port, once supplied.
    pub source_port: Option<u16>,
    /// The destination port, once supplied.
    pub destination_port: Option<u16>,
    /// The sequence number.
    pub sequence_number: u32,
    /// The acknowledgment number.
    pub acknowledgment_number: u32,
    /// The raw flags.
    pub flags: u8,
    /// The window size.
    pub window_size: u16,
    /// The checksum field.
    pub checksum: u16,
    /// The urgent pointer.
    pub urgent_pointer: u16,
}

impl<'a, 'b> TcpSegmentBuilder<'a, 'b> {
    /// The builder's current field values.
    pub closed spec fn fields(&self) -> TcpSegmentFields {
        TcpSegmentFields {
            buffer: self.buffer@,
            payload_length: self.payload_length,
            options: self.options@,
            source_port: self.source_port,
            destination_port: self.destination_port,
            sequence_number: self.sequence_number,
            acknowledgment_number: self.acknowledgment_number,
            flags: self.flags.spec_raw(),
            window_size: self.window_size,
            checksum: self.checksum,
            urgent_pointer: self.urgent_pointer,
        }
    }

    /// Starts a builder for `payload_length` bytes, which are left untouched.
    pub fn new(buffer: &'a mut [u8], payload_length: usize) -> (r: Self)
        ensures
            r.fields() == (TcpSegmentFields {
                buffer: old(buffer)@,
                payload_length,
                options: Seq::<u8>::empty(),
                source_port: None,
                destination_port: None,
                sequence_number: 0,
                acknowledgment_number: 0,
                flags: 0,
                window_size: 0,
                checksum: 0,
                urgent_pointer: 0,
            }),
    {
        let options: &'b [u8] = &[];
        assert(options@ =~= Seq::<u8>::empty());
        Self {
            buffer,
            payload_length,
            options,
            source_port: None,
            destination_port: None,
            sequence_number: 0,
            acknowledgment_number: 0,
            flags: TcpFlags::new(0),
            window_size: 0,
            checksum: 0,
            urgent_pointer: 0,
        }
    }

    /// Supplies the source port.
    pub fn source_port(self, value: u16) -> (r: Self)
        ensures
            r.fields() == (TcpSegmentFields { source_port: Some(value), ..self.fields() }),
    {
        let mut b = self;
        b.source_port = Some(value);
        b
    }

    /// Supplies the destination port.
    pub fn destination_port(self, value: u16) -> (r: Self)
        ensures
            r.fields() == (TcpSegmentFields { destination_port: Some(value), ..self.fields() }),
    {
        let mut b = self;
        b.destination_port = Some(value);
        b
    }

    /// Supplies copied header options.
    pub fn options(self, value: &'b [u8]) -> (r: Self)
        ensures
            r.fields() == (TcpSegmentFields { options: value@, ..self.fields() }),
    {
        let mut b = self;
        b.options = value;
        b
    }

    /// Supplies the sequence number.
    pub fn sequence_number(self, value: u32) -> (r: Self)
        ensures
            r.fields() == (TcpSegmentFields { sequence_number: value, ..self.fields() }),
    {
        let mut b = self;
        b.sequence_number = value;
        b
    }

    /// Supplies the acknowledgment number.
    pub fn acknowledgment_number(self, value: u32) -> (r: Self)
        ensures
            r.fields() == (TcpSegmentFields { acknowledgment_number: value, ..self.fields() }),
    {
        let mut b = self;
        b.acknowledgment_number = value;
        b
    }

    /// Supplies flags.
    pub fn flags(self, value: TcpFlags) -> (r: Self)
        ensures
            r.fields() == (TcpSegmentFields { flags: value.spec_raw(), ..self.fields() }),
    {
        let mut b = self;
        b.flags = value;
        b
    }

    /// Supplies the window size.
    pub fn window_size(self, value: u16) -> (r: Self)
        ensures
            r.fields() == (TcpSegmentFields { window_size: value, ..self.fields() }),
    {
        let mut b = self;
        b.window_size = value;
        b
    }

    /// Supplies the checksum.
    pub fn checksum(self, value: u16) -> (r: Self)
        ensures
            r.fields() == (TcpSegmentFields { checksum: value, ..self.fields() }),
    {
        let mut b = self;
        b.checksum = value;
        b
    }

    /// Supplies the urgent pointer.
    pub fn urgent_pointer(self, value: u16) -> (r: Self)
        ensures
            r.fields() == (TcpSegmentFields { urgent_pointer: value, ..self.fields() }),
    {
        let mut b = self;
        b.urgent_pointer = value;
        b
    }

    /// Validates inputs and writes only the TCP header and options.
    #[verifier::rlimit(60)]
    #[verifier::spinoff_prover]
    pub fn build(self) -> (r: Result<TcpSegmentMut<'a>, TcpSegmentBuildError>)
        ensures
            ({
                let f = self.fields();
                let header_length = 20 + f.options.len();
                let segment_length = header_length + f.payload_length;
                &&& r is Ok <==> (f.source_port is Some && f.destination_port is Some
                    && f.options.len() <= 40 && f.options.len() % 4 == 0 && segment_length
                    <= usize::MAX && segment_length <= f.buffer.len())
                &&& r matches Err(e) ==> e == if f.source_port is None {
                    TcpSegmentBuildError::MissingSourcePort
                } else if f.destination_port is None {
                    TcpSegmentBuildError::MissingDestinationPort
                } else if f.options.len() > 40 || f.options.len() % 4 != 0 {
                    TcpSegmentBuildError::InvalidOptionsLength
                } else if segment_length > usize::MAX {
                    TcpSegmentBuildError::SegmentLengthTooLarge
                } else {
                    TcpSegmentBuildError::BufferTooShort {
                        required: segment_length as usize,
                        available: f.buffer.len() as usize,
                    }
                }
                &&& r matches Ok(segment) ==> {
                    &&& segment.wf()
                    &&& segment@ == spec_tcp_header(
                        f.source_port->0,
                        f.destination_port->0,
                        f.sequence_number,
                        f.acknowledgment_number,
                        f.flags,
                        f.window_size,
                        f.checksum,
                        f.urgent_pointer,
                        f.options,
                    ) + f.buffer.subrange(header_length as int, segment_length as int)
                    &&& be16(segment@, 0) == f.source_port->0
                    &&& be16(segment@, 2) == f.destination_port->0
                    &&& be32(segment@, 4) == f.sequence_number
                    &&& be32(segment@, 8) == f.acknowledgment_number
                    &&& spec_data_offset_length(segment@) == header_length
                    &&& segment@[13] == f.flags
                    &&& be16(segment@, 14) == f.window_size
                    &&& be16(segment@, 16) == f.checksum
                    &&& be16(segment@, 18) == f.urgent_pointer
                    &&& segment@.subrange(20, header_length as int) == f.options
                    &&& segment@.len() == segment_length
                }
            }),
    {
        let source_port = match self.source_port {
            Some(port) => port,
            None => return Err(TcpSegmentBuildError::MissingSourcePort),
        };
        let destination_port = match self.destination_port {
            Some(port) => port,
            None => return Err(TcpSegmentBuildError::MissingDestinationPort),
        };
        let options = self.options;
        if options.len() > 40 || options.len() % 4 != 0 {
            return Err(TcpSegmentBuildError::InvalidOptionsLength);
        }
        let header_length = HEADER_LENGTH + options.len();
        let segment_length = match header_length.checked_add(self.payload_length) {
            Some(length) => length,
            None => return Err(TcpSegmentBuildError::SegmentLengthTooLarge),
        };
        let buffer = self.buffer;
        if buffer.len() < segment_length {
            return Err(TcpSegmentBuildError::BufferTooShort {
                required: segment_length,
                available: buffer.len(),
            });
        }
        let ghost original = buffer@;
        let data_offset_reserved = ((header_length / 4) as u8) * 16;
        let (bytes, _) = split_at_mut_fixed(buffer, segment_length);
        write_be16(bytes, 0, source_port);
        write_be16(bytes, 2, destination_port);
        write_be32(bytes, 4, self.sequence_number);
        write_be32(bytes, 8, self.acknowledgment_number);
        bytes[12] = data_offset_reserved;
        bytes[13] = self.flags.raw();
        write_be16(bytes, 14, self.window_size);
        write_be16(bytes, 16, self.checksum);
        write_be16(bytes, 18, self.urgent_pointer);
        copy_into(bytes, HEADER_LENGTH, options);
        let ghost header = spec_tcp_header(
            source_port,
            destination_port,
            self.sequence_number,
            self.acknowledgment_number,
            self.flags.spec_raw(),
            self.window_size,
            self.checksum,
            self.urgent_pointer,
            options@,
        );
        proof {
            assert(bytes@ =~= header + original.subrange(
                header_length as int,
                segment_length as int,
            ));
            lemma_header_fields(
                source_port,
                destination_port,
                self.sequence_number,
                self.acknowledgment_number,
                self.flags.spec_raw(),
                self.window_size,
                self.checksum,
                self.urgent_pointer,
                options@,
                original.subrange(header_length as int, segment_length as int),
            );
        }
        Ok(TcpSegmentMut::from_validated(bytes, header_length))
    }
}

} // verus!
