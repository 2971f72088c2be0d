//! RFC 9000 CONNECTION_CLOSE frame parsing.

use super::parse::{
    QuicFrameField, QuicFrameParseError, field_at, spec_field_at, spec_frame_type_prefix,
};
use crate::quic::varint::{QuicVarInt, spec_decode_value};
use crate::wire::{slice_from, slice_range};
use vstd::prelude::*;

verus! {

/// The fields of a CONNECTION_CLOSE frame.
pub struct QuicConnectionCloseFields {
    /// The encoded frame type.
    pub frame_type: Seq<u8>,
    /// The encoded error code.
    pub error_code: Seq<u8>,
    /// The encoded triggering frame type, present for a transport close (type 0x1c).
    pub triggering_frame_type: Option<Seq<u8>>,
    /// The encoded reason-phrase length.
    pub reason_phrase_length: Seq<u8>,
    /// The reason phrase.
    pub reason_phrase: Seq<u8>,
    /// The frame's length.
    pub frame_len: nat,
}

/// The reason phrase of a CONNECTION_CLOSE frame whose reason-phrase length field starts at
/// `s`, with the fields before it already read.
pub open spec fn spec_close_reason(
    b: Seq<u8>,
    frame_type: Seq<u8>,
    error_code: Seq<u8>,
    trig: Option<Seq<u8>>,
    s: int,
    offset: int,
) -> Result<QuicConnectionCloseFields, QuicFrameParseError> {
    match spec_field_at(b, s, offset, QuicFrameField::ReasonPhraseLength) {
        Err(e) => Err(e),
        Ok(rl) => {
            let len = spec_decode_value(rl);
            let rs = s + rl.len();
            if len > usize::MAX {
                Err(
                    QuicFrameParseError::LengthNotRepresentable {
                        field: QuicFrameField::ReasonPhraseLength,
                        offset: (offset + s) as usize,
                        value: len,
                    },
                )
            } else if rs + len > usize::MAX {
                Err(
                    QuicFrameParseError::LengthOverflow {
                        field: QuicFrameField::ReasonPhrase,
                        offset: (offset + rs) as usize,
                        length: len as usize,
                    },
                )
            } else if b.len() - rs < len {
                Err(
                    QuicFrameParseError::IncompleteBytes {
                        field: QuicFrameField::ReasonPhrase,
                        offset: (offset + rs) as usize,
                        required: len as usize,
                        available: (b.len() - rs) as usize,
                    },
                )
            } else {
                Ok(
                    QuicConnectionCloseFields {
                        frame_type,
                        error_code,
                        triggering_frame_type: trig,
                        reason_phrase_length: rl,
                        reason_phrase: b.subrange(rs, rs + len),
                        frame_len: (rs + len) as nat,
                    },
                )
            }
        },
    }
}

/// The CONNECTION_CLOSE frame that `b` starts with, its type already read, or the first error.
pub open spec fn spec_connection_close(b: Seq<u8>, frame_type: Seq<u8>, offset: int) -> Result<
    QuicConnectionCloseFields,
    QuicFrameParseError,
> {
    let s0 = frame_type.len() as int;
    match spec_field_at(b, s0, offset, QuicFrameField::ConnectionCloseErrorCode) {
        Err(e) => Err(e),
        Ok(ec) => {
            let s1 = s0 + ec.len();
            if spec_decode_value(frame_type) == 0x1c {
                match spec_field_at(b, s1, offset, QuicFrameField::TriggeringFrameType) {
                    Err(e) => Err(e),
                    Ok(tf) => spec_close_reason(
                        b,
                        frame_type,
                        ec,
                        Some(tf),
                        s1 + tf.len(),
                        offset,
                    ),
                }
            } else {
                spec_close_reason(b, frame_type, ec, None, s1, offset)
            }
        },
    }
}

/// A checked borrowed RFC 9000 CONNECTION_CLOSE frame view.
#[derive(Clone, Copy, Debug, PartialEq, Eq)]
pub struct QuicConnectionCloseFrame<'a> {
    bytes: &'a [u8],
    frame_type: QuicVarInt<'a>,
    error_code: QuicVarInt<'a>,
    triggering_frame_type: Option<QuicVarInt<'a>>,
    reason_phrase_length: QuicVarInt<'a>,
    reason_phrase: &'a [u8],
}

impl<'a> View for QuicConnectionCloseFrame<'a> {
    type V = Seq<u8>;

    closed spec fn view(&self) -> Seq<u8> {
        self.bytes@
    }
}

impl<'a> QuicConnectionCloseFrame<'a> {
    /// The parsed fields.
    pub closed spec fn fields(&self) -> QuicConnectionCloseFields {
        QuicConnectionCloseFields {
            frame_type: self.frame_type@,
            error_code: self.error_code@,
            triggering_frame_type: match self.triggering_frame_type {
                Some(t) => Some(t@),
                None => None,
            },
            reason_phrase_length: self.reason_phrase_length@,
            reason_phrase: self.reason_phrase@,
            frame_len: self.bytes@.len(),
        }
    }

    /// Returns the exact encoded frame bytes.
    pub fn as_bytes(self) -> (r: &'a [u8])
        ensures
            r@ == self@,
    {
        self.bytes
    }

    /// Returns the exact encoded frame-type variable integer.
    pub fn frame_type(self) -> (r: QuicVarInt<'a>)
        ensures
            r@ == self.fields().frame_type,
    {
        self.frame_type
    }

    /// Returns the exact encoded error-code variable integer.
    pub fn error_code(self) -> (r: QuicVarInt<'a>)
        ensures
            r@ == self.fields().error_code,
    {
        self.error_code
    }

    /// Returns the triggering frame type for a transport close, if present.
    pub fn triggering_frame_type(self) -> (r: Option<QuicVarInt<'a>>)
        ensures
            match r {
                Some(t) => self.fields().triggering_frame_type == Some(t@),
                None => self.fields().triggering_frame_type is None,
            },
    {
        self.triggering_frame_type
    }

    /// Returns the exact encoded reason-phrase-length variable integer.
    pub fn reason_phrase_length(self) -> (r: QuicVarInt<'a>)
        ensures
            r@ == self.fields().reason_phrase_length,
    {
        self.reason_phrase_length
    }

    /// Returns the exact opaque reason-phrase bytes, which may be empty.
    pub fn reason_phrase(self) -> (r: &'a [u8])
        ensures
            r@ == self.fields().reason_phrase,
    {
        self.reason_phrase
    }
}

pub(crate) fn parse_connection_close<'a>(
    bytes: &'a [u8],
    frame_type: QuicVarInt<'a>,
    offset: usize,
) -> (r: Result<(QuicConnectionCloseFrame<'a>, &'a [u8]), QuicFrameParseError>)
    requires
        spec_frame_type_prefix(bytes@, frame_type@),
        offset + bytes@.len() <= usize::MAX,
    ensures
        match r {
            Ok((frame, suffix)) => spec_connection_close(bytes@, frame_type@, offset as int)
                == Ok::<QuicConnectionCloseFields, QuicFrameParseError>(frame.fields()) && frame@.len() == frame.fields().frame_len && frame.fields().frame_type == frame_type@ && frame_type@.len() <= frame@.len() <= bytes@.len() && frame@ == bytes@.subrange(0, frame@.len() as int) && suffix@ == bytes@.subrange(
                frame@.len() as int,
                bytes@.len() as int,
            ),
            Err(e) => spec_connection_close(bytes@, frame_type@, offset as int) == Err::<
                QuicConnectionCloseFields,
                QuicFrameParseError,
            >(e),
        },
{
    let mut start = frame_type.byte_len();
    let error_code = match field_at(bytes, start, offset, QuicFrameField::ConnectionCloseErrorCode) {
        Ok(v) => v,
        Err(e) => return Err(e),
    };
    start = start + error_code.byte_len();
    let triggering_frame_type = if frame_type.value() == 0x1c {
        let t = match field_at(bytes, start, offset, QuicFrameField::TriggeringFrameType) {
            Ok(v) => v,
            Err(e) => return Err(e),
        };
        start = start + t.byte_len();
        Some(t)
    } else {
        None
    };
    let reason_phrase_length = match field_at(bytes, start, offset, QuicFrameField::ReasonPhraseLength) {
        Ok(v) => v,
        Err(e) => return Err(e),
    };
    let length_start = start;
    start = start + reason_phrase_length.byte_len();
    let reason_length_value = reason_phrase_length.value();
    if reason_length_value > usize::MAX as u64 {
        return Err(
            QuicFrameParseError::LengthNotRepresentable {
                field: QuicFrameField::ReasonPhraseLength,
                offset: offset + length_start,
                value: reason_length_value,
            },
        );
    }
    let reason_length = reason_length_value as usize;
    let reason_offset = offset + start;
    let end = match start.checked_add(reason_length) {
        Some(end) => end,
        None => return Err(
            QuicFrameParseError::LengthOverflow {
                field: QuicFrameField::ReasonPhrase,
                offset: reason_offset,
                length: reason_length,
            },
        ),
    };
    let available = bytes.len() - start;
    if available < reason_length {
        return Err(
            QuicFrameParseError::IncompleteBytes {
                field: QuicFrameField::ReasonPhrase,
                offset: reason_offset,
                required: reason_length,
                available,
            },
        );
    }
    Ok(
        (
            QuicConnectionCloseFrame {
                bytes: slice_range(bytes, 0, end),
                frame_type,
                error_code,
                triggering_frame_type,
                reason_phrase_length,
                reason_phrase: slice_range(bytes, start, end),
            },
            slice_from(bytes, end),
        ),
    )
}

} // verus!
