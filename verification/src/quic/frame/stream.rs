//! RFC 9000 STREAM frame parsing.

use super::parse::{
    QuicFrameField, QuicFrameParseError, field_at, lemma_field_span, spec_field_at,
    spec_frame_type_prefix,
    spec_max_range_end,
};
use crate::quic::varint::{QuicVarInt, spec_decode_value};
use crate::wire::{slice_from, slice_range};
use vstd::prelude::*;

verus! {

const MAX_STREAM_RANGE_END: u64 = 0x3fff_ffff_ffff_ffff;

/// Whether a STREAM frame type carries the OFF bit.
pub open spec fn spec_stream_has_offset(frame_type_value: u64) -> bool {
    frame_type_value & 0x04 != 0
}

/// Whether a STREAM frame type carries the LEN bit.
pub open spec fn spec_stream_has_length(frame_type_value: u64) -> bool {
    frame_type_value & 0x02 != 0
}

/// The length of an optional encoded field.
pub open spec fn spec_opt_len(field: Option<Seq<u8>>) -> int {
    match field {
        Some(f) => f.len() as int,
        None => 0,
    }
}

/// The encoded optional variable integer of `field` at `start`, read only when `present`.
pub open spec fn spec_opt_field_at(
    b: Seq<u8>,
    start: int,
    offset: int,
    field: QuicFrameField,
    present: bool,
) -> Result<Option<Seq<u8>>, QuicFrameParseError> {
    if present {
        match spec_field_at(b, start, offset, field) {
            Err(e) => Err(e),
            Ok(v) => Ok(Some(v)),
        }
    } else {
        Ok(None)
    }
}

/// The fields of a STREAM frame.
pub struct QuicStreamFields {
    /// The encoded frame type.
    pub frame_type: Seq<u8>,
    /// The encoded stream ID.
    pub stream_id: Seq<u8>,
    /// The encoded offset, when the OFF bit is set.
    pub offset: Option<Seq<u8>>,
    /// The encoded data length, when the LEN bit is set.
    pub length: Option<Seq<u8>>,
    /// The stream data.
    pub stream_data: Seq<u8>,
    /// The frame's length.
    pub frame_len: nat,
}

/// The stream ID, offset and length fields of the STREAM frame that `b` starts with.
pub open spec fn spec_stream_header(b: Seq<u8>, frame_type: Seq<u8>, offset: int) -> Result<
    (Seq<u8>, Option<Seq<u8>>, Option<Seq<u8>>),
    QuicFrameParseError,
> {
    let v = spec_decode_value(frame_type);
    let s0 = frame_type.len() as int;
    match spec_field_at(b, s0, offset, QuicFrameField::StreamId) {
        Err(e) => Err(e),
        Ok(sid) => {
            let s1 = s0 + sid.len();
            match spec_opt_field_at(
                b,
                s1,
                offset,
                QuicFrameField::StreamOffset,
                spec_stream_has_offset(v),
            ) {
                Err(e) => Err(e),
                Ok(so) => match spec_opt_field_at(
                    b,
                    s1 + spec_opt_len(so),
                    offset,
                    QuicFrameField::StreamLength,
                    spec_stream_has_length(v),
                ) {
                    Err(e) => Err(e),
                    Ok(sl) => Ok((sid, so, sl)),
                },
            }
        },
    }
}

/// The error when a STREAM frame's data range `start..start + len` ends past 2^62 - 1.
pub open spec fn spec_stream_range_error(start: u64, len: u64, range_offset: int) -> QuicFrameParseError {
    QuicFrameParseError::FieldRangeOutOfRange {
        field: QuicFrameField::StreamOffset,
        offset: range_offset as usize,
        start,
        length: len,
        maximum: spec_max_range_end() as u64,
    }
}

/// The STREAM frame with the given header fields that `b` starts with, or the first error
/// in its data.
pub open spec fn spec_stream_body(
    b: Seq<u8>,
    frame_type: Seq<u8>,
    sid: Seq<u8>,
    so: Option<Seq<u8>>,
    sl: Option<Seq<u8>>,
    offset: int,
) -> Result<QuicStreamFields, QuicFrameParseError> {
    let s1 = frame_type.len() + sid.len();
    let s2 = s1 + spec_opt_len(so);
    let ds = s2 + spec_opt_len(sl);
    let start: u64 = match so {
        Some(o) => spec_decode_value(o),
        None => 0,
    };
    match sl {
        Some(l) => {
            let len = spec_decode_value(l);
            if start + len > spec_max_range_end() {
                Err(spec_stream_range_error(start, len, offset + s1))
            } else if len > usize::MAX {
                Err(
                    QuicFrameParseError::LengthNotRepresentable {
                        field: QuicFrameField::StreamLength,
                        offset: (offset + s2) as usize,
                        value: len,
                    },
                )
            } else if ds + len > usize::MAX {
                Err(
                    QuicFrameParseError::LengthOverflow {
                        field: QuicFrameField::StreamData,
                        offset: (offset + ds) as usize,
                        length: len as usize,
                    },
                )
            } else if b.len() - ds < len {
                Err(
                    QuicFrameParseError::IncompleteBytes {
                        field: QuicFrameField::StreamData,
                        offset: (offset + ds) as usize,
                        required: len as usize,
                        available: (b.len() - ds) as usize,
                    },
                )
            } else {
                Ok(
                    QuicStreamFields {
                        frame_type,
                        stream_id: sid,
                        offset: so,
                        length: sl,
                        stream_data: b.subrange(ds, ds + len),
                        frame_len: (ds + len) as nat,
                    },
                )
            }
        },
        None => {
            let len = b.len() - ds;
            if start + len > spec_max_range_end() {
                Err(spec_stream_range_error(start, len as u64, offset + s1))
            } else {
                Ok(
                    QuicStreamFields {
                        frame_type,
                        stream_id: sid,
                        offset: so,
                        length: None,
                        stream_data: b.subrange(ds, b.len() as int),
                        frame_len: b.len(),
                    },
                )
            }
        },
    }
}

/// The STREAM frame that `b` starts with, its type already read, or the first error.
pub open spec fn spec_stream(b: Seq<u8>, frame_type: Seq<u8>, offset: int) -> Result<
    QuicStreamFields,
    QuicFrameParseError,
> {
    match spec_stream_header(b, frame_type, offset) {
        Err(e) => Err(e),
        Ok((sid, so, sl)) => spec_stream_body(b, frame_type, sid, so, sl, offset),
    }
}

/// A parsed STREAM frame is at least its type long and ends within its input.
pub(crate) proof fn lemma_stream_span(b: Seq<u8>, frame_type: Seq<u8>, offset: int)
    requires
        spec_frame_type_prefix(b, frame_type),
    ensures
        spec_stream(b, frame_type, offset) matches Ok(f) ==> frame_type.len() <= f.frame_len <= b.len(),
{
    let v = spec_decode_value(frame_type);
    let s0 = frame_type.len() as int;
    lemma_field_span(b, s0, offset, QuicFrameField::StreamId);
    if let Ok(sid) = spec_field_at(b, s0, offset, QuicFrameField::StreamId) {
        let s1 = s0 + sid.len();
        lemma_field_span(b, s1, offset, QuicFrameField::StreamOffset);
        if let Ok(so) = spec_opt_field_at(b, s1, offset, QuicFrameField::StreamOffset, spec_stream_has_offset(v)) {
            lemma_field_span(b, s1 + spec_opt_len(so), offset, QuicFrameField::StreamLength);
        }
    }
}

/// RFC 9000 section 19.8: a STREAM frame (types 0x08 to 0x0f) carries an Offset field exactly
/// when its type has bit 0x04 and a Length field exactly when its type has bit 0x02; without a
/// Length field its data runs to the end of the input. So a frame whose stream ID and the
/// fields its type announces read completely, and whose data fits and ends at most at 2^62 - 1,
/// parses.
pub proof fn lemma_stream_fields_by_type(b: Seq<u8>, frame_type: Seq<u8>, offset: int)
    requires
        spec_frame_type_prefix(b, frame_type),
        0x08 <= spec_decode_value(frame_type) <= 0x0f,
    ensures
        spec_stream(b, frame_type, offset) matches Ok(f) ==> {
            &&& (f.offset is Some <==> spec_decode_value(frame_type) & 0x04 != 0)
            &&& (f.length is Some <==> spec_decode_value(frame_type) & 0x02 != 0)
            &&& (f.length is None ==> f.frame_len == b.len())
        },
        spec_decode_value(frame_type) & 0x02 == 0 ==> match spec_field_at(
            b,
            frame_type.len() as int,
            offset,
            QuicFrameField::StreamId,
        ) {
            Err(_) => true,
            Ok(sid) => {
                let s1 = (frame_type.len() + sid.len()) as int;
                if spec_decode_value(frame_type) & 0x04 != 0 {
                    match spec_field_at(b, s1, offset, QuicFrameField::StreamOffset) {
                        Err(_) => true,
                        Ok(o) => spec_decode_value(o) + (b.len() - (s1 + o.len()))
                            <= 0x3fff_ffff_ffff_ffff ==> (spec_stream(b, frame_type, offset)
                            matches Ok(f) && f.offset == Some(o) && f.stream_data == b.subrange(
                            s1 + o.len(),
                            b.len() as int,
                        )),
                    }
                } else {
                    b.len() - s1 <= 0x3fff_ffff_ffff_ffff ==> (spec_stream(b, frame_type, offset)
                        matches Ok(f) && f.offset is None && f.stream_data == b.subrange(
                        s1,
                        b.len() as int,
                    ))
                }
            },
        },
        spec_decode_value(frame_type) & 0x02 != 0 && spec_decode_value(frame_type) & 0x04 == 0
            && b.len() <= usize::MAX ==> match spec_field_at(
            b,
            frame_type.len() as int,
            offset,
            QuicFrameField::StreamId,
        ) {
            Err(_) => true,
            Ok(sid) => {
                let s1 = (frame_type.len() + sid.len()) as int;
                match spec_field_at(b, s1, offset, QuicFrameField::StreamLength) {
                    Err(_) => true,
                    Ok(l) => s1 + l.len() + spec_decode_value(l) <= b.len() && spec_decode_value(l)
                        <= 0x3fff_ffff_ffff_ffff ==> (spec_stream(
                        b,
                        frame_type,
                        offset,
                    ) matches Ok(f) && f.offset is None && f.length == Some(l) && f.stream_data
                        == b.subrange(s1 + l.len(), s1 + l.len() + spec_decode_value(l))),
                }
            },
        },
{
    let s0 = frame_type.len() as int;
    lemma_field_span(b, s0, offset, QuicFrameField::StreamId);
    if let Ok(sid) = spec_field_at(b, s0, offset, QuicFrameField::StreamId) {
        let s1 = s0 + sid.len();
        lemma_field_span(b, s1, offset, QuicFrameField::StreamOffset);
        lemma_field_span(b, s1, offset, QuicFrameField::StreamLength);
        let v = spec_decode_value(frame_type);
        if let Ok(so) = spec_opt_field_at(b, s1, offset, QuicFrameField::StreamOffset, spec_stream_has_offset(v)) {
            lemma_field_span(b, s1 + spec_opt_len(so), offset, QuicFrameField::StreamLength);
        }
    }
}

/// A checked borrowed RFC 9000 STREAM frame view.
#[derive(Clone, Copy, Debug, PartialEq, Eq)]
pub struct QuicStreamFrame<'a> {
    bytes: &'a [u8],
    frame_type: QuicVarInt<'a>,
    stream_id: QuicVarInt<'a>,
    offset: Option<QuicVarInt<'a>>,
    length: Option<QuicVarInt<'a>>,
    stream_data: &'a [u8],
}

impl<'a> View for QuicStreamFrame<'a> {
    type V = Seq<u8>;

    closed spec fn view(&self) -> Seq<u8> {
        self.bytes@
    }
}

/// The view of an optional variable integer.
pub open spec fn spec_opt_view(v: Option<QuicVarInt<'_>>) -> Option<Seq<u8>> {
    match v {
        Some(x) => Some(x@),
        None => None,
    }
}

impl<'a> QuicStreamFrame<'a> {
    /// The parsed fields.
    pub closed spec fn fields(&self) -> QuicStreamFields {
        QuicStreamFields {
            frame_type: self.frame_type@,
            stream_id: self.stream_id@,
            offset: spec_opt_view(self.offset),
            length: spec_opt_view(self.length),
            stream_data: self.stream_data@,
            frame_len: self.bytes@.len(),
        }
    }

    /// Returns the exact encoded frame bytes.
    pub fn as_bytes(self) -> (r: &'a [u8])
        ensures
            r@ == self@,
    {
        self.bytes
    }

    /// Returns the exact encoded frame-type variable integer.
    pub fn frame_type(self) -> (r: QuicVarInt<'a>)
        ensures
            r@ == self.fields().frame_type,
    {
        self.frame_type
    }

    /// Returns the exact encoded stream-ID variable integer.
    pub fn stream_id(self) -> (r: QuicVarInt<'a>)
        ensures
            r@ == self.fields().stream_id,
    {
        self.stream_id
    }

    /// Returns the exact encoded offset when the OFF bit is present.
    ///
    /// `None` means the effective stream offset is zero.
    pub fn offset(self) -> (r: Option<QuicVarInt<'a>>)
        ensures
            spec_opt_view(r) == self.fields().offset,
    {
        self.offset
    }

    /// Returns the exact encoded data length when the LEN bit is present.
    ///
    /// `None` means stream data consumes the remaining supplied frame-sequence bytes.
    pub fn length(self) -> (r: Option<QuicVarInt<'a>>)
        ensures
            spec_opt_view(r) == self.fields().length,
    {
        self.length
    }

    /// Returns the exact borrowed STREAM data bytes, which may be empty.
    pub fn stream_data(self) -> (r: &'a [u8])
        ensures
            r@ == self.fields().stream_data,
    {
        self.stream_data
    }

    /// Returns whether the FIN bit is set in the frame type.
    pub fn fin(self) -> (r: bool)
        ensures
            r == (spec_decode_value(self.fields().frame_type) & 0x01 != 0),
    {
        self.frame_type.value() & 0x01 != 0
    }
}

fn opt_field_at<'a>(
    bytes: &'a [u8],
    start: usize,
    offset: usize,
    field: QuicFrameField,
    present: bool,
) -> (r: Result<Option<QuicVarInt<'a>>, QuicFrameParseError>)
    requires
        start <= bytes@.len(),
        offset + bytes@.len() <= usize::MAX,
    ensures
        match r {
            Ok(v) => spec_opt_field_at(bytes@, start as int, offset as int, field, present) == Ok::<
                Option<Seq<u8>>,
                QuicFrameParseError,
            >(spec_opt_view(v)) && start + spec_opt_len(spec_opt_view(v)) <= bytes@.len(),
            Err(e) => spec_opt_field_at(bytes@, start as int, offset as int, field, present) == Err::<
                Option<Seq<u8>>,
                QuicFrameParseError,
            >(e),
        },
{
    if present {
        match field_at(bytes, start, offset, field) {
            Ok(v) => Ok(Some(v)),
            Err(e) => Err(e),
        }
    } else {
        Ok(None)
    }
}

fn opt_byte_len(v: Option<QuicVarInt<'_>>) -> (r: usize)
    ensures
        r == spec_opt_len(spec_opt_view(v)),
{
    match v {
        Some(x) => x.byte_len(),
        None => 0,
    }
}

fn validate_range(start: u64, length: u64, offset: usize) -> (r: Result<(), QuicFrameParseError>)
    ensures
        r == if start + length > spec_max_range_end() {
            Err::<(), QuicFrameParseError>(spec_stream_range_error(start, length, offset as int))
        } else {
            Ok::<(), QuicFrameParseError>(())
        },
{
    if start > MAX_STREAM_RANGE_END || length > MAX_STREAM_RANGE_END - start {
        return Err(
            QuicFrameParseError::FieldRangeOutOfRange {
                field: QuicFrameField::StreamOffset,
                offset,
                start,
                length,
                maximum: MAX_STREAM_RANGE_END,
            },
        );
    }
    Ok(())
}

pub(crate) fn parse_stream<'a>(bytes: &'a [u8], frame_type: QuicVarInt<'a>, offset: usize) -> (r: Result<
    (QuicStreamFrame<'a>, &'a [u8]),
    QuicFrameParseError,
>)
    requires
        spec_frame_type_prefix(bytes@, frame_type@),
        offset + bytes@.len() <= usize::MAX,
    ensures
        match r {
            Ok((frame, suffix)) => spec_stream(bytes@, frame_type@, offset as int) == Ok::<
                QuicStreamFields,
                QuicFrameParseError,
            >(frame.fields()) && frame@.len() == frame.fields().frame_len && frame.fields().frame_type == frame_type@ && frame_type@.len() <= frame@.len() <= bytes@.len() && frame@ == bytes@.subrange(0, frame@.len() as int) && suffix@
                == bytes@.subrange(frame@.len() as int, bytes@.len() as int),
            Err(e) => spec_stream(bytes@, frame_type@, offset as int) == Err::<
                QuicStreamFields,
                QuicFrameParseError,
            >(e),
        },
{
    let flags = frame_type.value();
    let stream_id_start = frame_type.byte_len();
    let stream_id = match field_at(bytes, stream_id_start, offset, QuicFrameField::StreamId) {
        Ok(v) => v,
        Err(e) => return Err(e),
    };
    let offset_start = stream_id_start + stream_id.byte_len();
    let range_offset = offset + offset_start;
    let stream_offset = match opt_field_at(
        bytes,
        offset_start,
        offset,
        QuicFrameField::StreamOffset,
        flags & 0x04 != 0,
    ) {
        Ok(v) => v,
        Err(e) => return Err(e),
    };
    let length_start = offset_start + opt_byte_len(stream_offset);
    let length = match opt_field_at(
        bytes,
        length_start,
        offset,
        QuicFrameField::StreamLength,
        flags & 0x02 != 0,
    ) {
        Ok(v) => v,
        Err(e) => return Err(e),
    };
    let data_start = length_start + opt_byte_len(length);
    let data_offset = offset + data_start;
    let start: u64 = match stream_offset {
        Some(o) => o.value(),
        None => 0,
    };
    let data_end = match length {
        Some(l) => {
            let data_length = l.value();
            match validate_range(start, data_length, range_offset) {
                Ok(()) => {},
                Err(e) => return Err(e),
            }
            if data_length > usize::MAX as u64 {
                return Err(
                    QuicFrameParseError::LengthNotRepresentable {
                        field: QuicFrameField::StreamLength,
                        offset: offset + length_start,
                        value: data_length,
                    },
                );
            }
            let length_usize = data_length as usize;
            let data_end = match data_start.checked_add(length_usize) {
                Some(end) => end,
                None => return Err(
                    QuicFrameParseError::LengthOverflow {
                        field: QuicFrameField::StreamData,
                        offset: data_offset,
                        length: length_usize,
                    },
                ),
            };
            let available = bytes.len() - data_start;
            if available < length_usize {
                return Err(
                    QuicFrameParseError::IncompleteBytes {
                        field: QuicFrameField::StreamData,
                        offset: data_offset,
                        required: length_usize,
                        available,
                    },
                );
            }
            data_end
        },
        None => {
            let data_length = (bytes.len() - data_start) as u64;
            match validate_range(start, data_length, range_offset) {
                Ok(()) => {},
                Err(e) => return Err(e),
            }
            bytes.len()
        },
    };
    Ok(
        (
            QuicStreamFrame {
                bytes: slice_range(bytes, 0, data_end),
                frame_type,
                stream_id,
                offset: stream_offset,
                length,
                stream_data: slice_range(bytes, data_start, data_end),
            },
            slice_from(bytes, data_end),
        ),
    )
}

} // verus!
