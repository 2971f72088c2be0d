//! RFC 9000 CRYPTO frame parsing.

use super::parse::{
    QuicFrameField, QuicFrameParseError, field_at, spec_field_at, spec_frame_type_prefix,
    spec_max_range_end,
};
use crate::quic::varint::{QuicVarInt, spec_decode_value};
use crate::wire::{slice_from, slice_range};
use vstd::prelude::*;

verus! {

const MAX_CRYPTO_RANGE_END: u64 = 0x3fff_ffff_ffff_ffff;

/// The fields of a CRYPTO frame.
pub struct QuicCryptoFields {
    /// The encoded frame type.
    pub frame_type: Seq<u8>,
    /// The encoded offset.
    pub offset: Seq<u8>,
    /// The encoded data length.
    pub length: Seq<u8>,
    /// The data.
    pub crypto_data: Seq<u8>,
    /// The frame's length.
    pub frame_len: nat,
}

/// The CRYPTO frame that `b` starts with, its type already read, or the first error.
pub open spec fn spec_crypto(b: Seq<u8>, frame_type: Seq<u8>, offset: int) -> Result<
    QuicCryptoFields,
    QuicFrameParseError,
> {
    let s0 = frame_type.len() as int;
    match spec_field_at(b, s0, offset, QuicFrameField::CryptoOffset) {
        Err(e) => Err(e),
        Ok(co) => {
            let s1 = s0 + co.len();
            match spec_field_at(b, s1, offset, QuicFrameField::CryptoLength) {
                Err(e) => Err(e),
                Ok(lv) => {
                    let start = spec_decode_value(co);
                    let len = spec_decode_value(lv);
                    let ds = s1 + lv.len();
                    if start + len > spec_max_range_end() {
                        Err(
                            QuicFrameParseError::FieldRangeOutOfRange {
                                field: QuicFrameField::CryptoOffset,
                                offset: (offset + s0) as usize,
                                start,
                                length: len,
                                maximum: spec_max_range_end() as u64,
                            },
                        )
                    } else if len > usize::MAX {
                        Err(
                            QuicFrameParseError::LengthNotRepresentable {
                                field: QuicFrameField::CryptoLength,
                                offset: (offset + s1) as usize,
                                value: len,
                            },
                        )
                    } else if ds + len > usize::MAX {
                        Err(
                            QuicFrameParseError::LengthOverflow {
                                field: QuicFrameField::CryptoData,
                                offset: (offset + ds) as usize,
                                length: len as usize,
                            },
                        )
                    } else if b.len() - ds < len {
                        Err(
                            QuicFrameParseError::IncompleteBytes {
                                field: QuicFrameField::CryptoData,
                                offset: (offset + ds) as usize,
                                required: len as usize,
                                available: (b.len() - ds) as usize,
                            },
                        )
                    } else {
                        Ok(
                            QuicCryptoFields {
                                frame_type,
                                offset: co,
                                length: lv,
                                crypto_data: b.subrange(ds, ds + len),
                                frame_len: (ds + len) as nat,
                            },
                        )
                    }
                },
            }
        },
    }
}

/// A checked borrowed RFC 9000 CRYPTO frame view.
#[derive(Clone, Copy, Debug, PartialEq, Eq)]
pub struct QuicCryptoFrame<'a> {
    bytes: &'a [u8],
    frame_type: QuicVarInt<'a>,
    offset: QuicVarInt<'a>,
    length: QuicVarInt<'a>,
    crypto_data: &'a [u8],
}

impl<'a> View for QuicCryptoFrame<'a> {
    type V = Seq<u8>;

    closed spec fn view(&self) -> Seq<u8> {
        self.bytes@
    }
}

impl<'a> QuicCryptoFrame<'a> {
    /// The parsed fields.
    pub closed spec fn fields(&self) -> QuicCryptoFields {
        QuicCryptoFields {
            frame_type: self.frame_type@,
            offset: self.offset@,
            length: self.length@,
            crypto_data: self.crypto_data@,
            frame_len: self.bytes@.len(),
        }
    }

    /// Returns the exact encoded frame bytes.
    pub fn as_bytes(self) -> (r: &'a [u8])
        ensures
            r@ == self@,
    {
        self.bytes
    }

    /// Returns the exact encoded frame-type variable integer.
    pub fn frame_type(self) -> (r: QuicVarInt<'a>)
        ensures
            r@ == self.fields().frame_type,
    {
        self.frame_type
    }

    /// Returns the exact encoded CRYPTO offset variable integer.
    pub fn offset(self) -> (r: QuicVarInt<'a>)
        ensures
            r@ == self.fields().offset,
    {
        self.offset
    }

    /// Returns the exact encoded CRYPTO data-length variable integer.
    pub fn length(self) -> (r: QuicVarInt<'a>)
        ensures
            r@ == self.fields().length,
    {
        self.length
    }

    /// Returns the exact borrowed CRYPTO data bytes, which may be empty.
    pub fn crypto_data(self) -> (r: &'a [u8])
        ensures
            r@ == self.fields().crypto_data,
    {
        self.crypto_data
    }
}

pub(crate) fn parse_crypto<'a>(bytes: &'a [u8], frame_type: QuicVarInt<'a>, offset: usize) -> (r: Result<
    (QuicCryptoFrame<'a>, &'a [u8]),
    QuicFrameParseError,
>)
    requires
        spec_frame_type_prefix(bytes@, frame_type@),
        offset + bytes@.len() <= usize::MAX,
    ensures
        match r {
            Ok((frame, suffix)) => spec_crypto(bytes@, frame_type@, offset as int) == Ok::<
                QuicCryptoFields,
                QuicFrameParseError,
            >(frame.fields()) && frame@.len() == frame.fields().frame_len && frame.fields().frame_type == frame_type@ && frame_type@.len() <= frame@.len() <= bytes@.len() && frame@ == bytes@.subrange(0, frame@.len() as int) && suffix@
                == bytes@.subrange(frame@.len() as int, bytes@.len() as int),
            Err(e) => spec_crypto(bytes@, frame_type@, offset as int) == Err::<
                QuicCryptoFields,
                QuicFrameParseError,
            >(e),
        },
{
    let offset_start = frame_type.byte_len();
    let offset_offset = offset + offset_start;
    let crypto_offset = match field_at(bytes, offset_start, offset, QuicFrameField::CryptoOffset) {
        Ok(v) => v,
        Err(e) => return Err(e),
    };
    let length_start = offset_start + crypto_offset.byte_len();
    let length_offset = offset + length_start;
    let length = match field_at(bytes, length_start, offset, QuicFrameField::CryptoLength) {
        Ok(v) => v,
        Err(e) => return Err(e),
    };
    let range_end = crypto_offset.value().checked_add(length.value());
    let out_of_range = match range_end {
        None => true,
        Some(end) => end > MAX_CRYPTO_RANGE_END,
    };
    if out_of_range {
        return Err(
            QuicFrameParseError::FieldRangeOutOfRange {
                field: QuicFrameField::CryptoOffset,
                offset: offset_offset,
                start: crypto_offset.value(),
                length: length.value(),
                maximum: MAX_CRYPTO_RANGE_END,
            },
        );
    }
    let length_value = length.value();
    if length_value > usize::MAX as u64 {
        return Err(
            QuicFrameParseError::LengthNotRepresentable {
                field: QuicFrameField::CryptoLength,
                offset: length_offset,
                value: length_value,
            },
        );
    }
    let length_usize = length_value as usize;
    let data_start = length_start + length.byte_len();
    let data_offset = offset + data_start;
    let data_end = match data_start.checked_add(length_usize) {
        Some(end) => end,
        None => return Err(
            QuicFrameParseError::LengthOverflow {
                field: QuicFrameField::CryptoData,
                offset: data_offset,
                length: length_usize,
            },
        ),
    };
    let available = bytes.len() - data_start;
    if available < length_usize {
        return Err(
            QuicFrameParseError::IncompleteBytes {
                field: QuicFrameField::CryptoData,
                offset: data_offset,
                required: length_usize,
                available,
            },
        );
    }
    Ok(
        (
            QuicCryptoFrame {
                bytes: slice_range(bytes, 0, data_end),
                frame_type,
                offset: crypto_offset,
                length,
                crypto_data: slice_range(bytes, data_start, data_end),
            },
            slice_from(bytes, data_end),
        ),
    )
}

} // verus!
