//! RFC 9000 NEW_TOKEN frame parsing.

use super::parse::{
    QuicFrameField, QuicFrameParseError, field_at, spec_field_at, spec_frame_type_prefix,
};
use crate::quic::varint::{QuicVarInt, spec_decode_value};
use crate::wire::{slice_from, slice_range};
use vstd::prelude::*;

verus! {

/// The fields of a NEW_TOKEN frame.
pub struct QuicNewTokenFields {
    /// The encoded frame type.
    pub frame_type: Seq<u8>,
    /// The encoded token length.
    pub token_length: Seq<u8>,
    /// The token.
    pub token: Seq<u8>,
    /// The frame's length.
    pub frame_len: nat,
}

/// The NEW_TOKEN frame that `b` starts with, its type already read, or the first error.
pub open spec fn spec_new_token(b: Seq<u8>, frame_type: Seq<u8>, offset: int) -> Result<
    QuicNewTokenFields,
    QuicFrameParseError,
> {
    let s0 = frame_type.len() as int;
    match spec_field_at(b, s0, offset, QuicFrameField::TokenLength) {
        Err(e) => Err(e),
        Ok(tl) => {
            let len = spec_decode_value(tl);
            let ts = s0 + tl.len();
            if len > usize::MAX {
                Err(
                    QuicFrameParseError::LengthNotRepresentable {
                        field: QuicFrameField::TokenLength,
                        offset: (offset + s0) as usize,
                        value: len,
                    },
                )
            } else if len == 0 {
                Err(
                    QuicFrameParseError::EmptyField {
                        field: QuicFrameField::Token,
                        offset: (offset + ts) as usize,
                    },
                )
            } else if ts + len > usize::MAX {
                Err(
                    QuicFrameParseError::LengthOverflow {
                        field: QuicFrameField::Token,
                        offset: (offset + ts) as usize,
                        length: len as usize,
                    },
                )
            } else if b.len() - ts < len {
                Err(
                    QuicFrameParseError::IncompleteBytes {
                        field: QuicFrameField::Token,
                        offset: (offset + ts) as usize,
                        required: len as usize,
                        available: (b.len() - ts) as usize,
                    },
                )
            } else {
                Ok(
                    QuicNewTokenFields {
                        frame_type,
                        token_length: tl,
                        token: b.subrange(ts, ts + len),
                        frame_len: (ts + len) as nat,
                    },
                )
            }
        },
    }
}

/// A checked borrowed RFC 9000 NEW_TOKEN frame view.
#[derive(Clone, Copy, Debug, PartialEq, Eq)]
pub struct QuicNewTokenFrame<'a> {
    bytes: &'a [u8],
    frame_type: QuicVarInt<'a>,
    token_length: QuicVarInt<'a>,
    token: &'a [u8],
}

impl<'a> View for QuicNewTokenFrame<'a> {
    type V = Seq<u8>;

    closed spec fn view(&self) -> Seq<u8> {
        self.bytes@
    }
}

impl<'a> QuicNewTokenFrame<'a> {
    /// The parsed fields.
    pub closed spec fn fields(&self) -> QuicNewTokenFields {
        QuicNewTokenFields {
            frame_type: self.frame_type@,
            token_length: self.token_length@,
            token: self.token@,
            frame_len: self.bytes@.len(),
        }
    }

    /// Returns the exact encoded frame bytes.
    pub fn as_bytes(self) -> (r: &'a [u8])
        ensures
            r@ == self@,
    {
        self.bytes
    }

    /// Returns the exact encoded frame-type variable integer.
    pub fn frame_type(self) -> (r: QuicVarInt<'a>)
        ensures
            r@ == self.fields().frame_type,
    {
        self.frame_type
    }

    /// Returns the exact encoded token-length variable integer.
    pub fn token_length(self) -> (r: QuicVarInt<'a>)
        ensures
            r@ == self.fields().token_length,
    {
        self.token_length
    }

    /// Returns the nonempty opaque token bytes.
    pub fn token(self) -> (r: &'a [u8])
        ensures
            r@ == self.fields().token,
    {
        self.token
    }
}

pub(crate) fn parse_new_token<'a>(bytes: &'a [u8], frame_type: QuicVarInt<'a>, offset: usize) -> (r: Result<
    (QuicNewTokenFrame<'a>, &'a [u8]),
    QuicFrameParseError,
>)
    requires
        spec_frame_type_prefix(bytes@, frame_type@),
        offset + bytes@.len() <= usize::MAX,
    ensures
        match r {
            Ok((frame, suffix)) => spec_new_token(bytes@, frame_type@, offset as int) == Ok::<
                QuicNewTokenFields,
                QuicFrameParseError,
            >(frame.fields()) && frame@.len() == frame.fields().frame_len && frame.fields().frame_type == frame_type@ && frame_type@.len() <= frame@.len() <= bytes@.len() && frame@ == bytes@.subrange(0, frame@.len() as int) && suffix@
                == bytes@.subrange(frame@.len() as int, bytes@.len() as int),
            Err(e) => spec_new_token(bytes@, frame_type@, offset as int) == Err::<
                QuicNewTokenFields,
                QuicFrameParseError,
            >(e),
        },
{
    let frame_type_len = frame_type.byte_len();
    let token_length_offset = offset + frame_type_len;
    let token_length = match field_at(bytes, frame_type_len, offset, QuicFrameField::TokenLength) {
        Ok(v) => v,
        Err(e) => return Err(e),
    };
    let token_length_value = token_length.value();
    if token_length_value > usize::MAX as u64 {
        return Err(
            QuicFrameParseError::LengthNotRepresentable {
                field: QuicFrameField::TokenLength,
                offset: token_length_offset,
                value: token_length_value,
            },
        );
    }
    let token_length_usize = token_length_value as usize;
    let token_start = frame_type_len + token_length.byte_len();
    let token_offset = token_length_offset + token_length.byte_len();
    if token_length_usize == 0 {
        return Err(QuicFrameParseError::EmptyField { field: QuicFrameField::Token, offset: token_offset });
    }
    let token_end = match token_start.checked_add(token_length_usize) {
        Some(end) => end,
        None => return Err(
            QuicFrameParseError::LengthOverflow {
                field: QuicFrameField::Token,
                offset: token_offset,
                length: token_length_usize,
            },
        ),
    };
    let available = bytes.len() - token_start;
    if available < token_length_usize {
        return Err(
            QuicFrameParseError::IncompleteBytes {
                field: QuicFrameField::Token,
                offset: token_offset,
                required: token_length_usize,
                available,
            },
        );
    }
    Ok(
        (
            QuicNewTokenFrame {
                bytes: slice_range(bytes, 0, token_end),
                frame_type,
                token_length,
                token: slice_range(bytes, token_start, token_end),
            },
            slice_from(bytes, token_end),
        ),
    )
}

} // verus!
