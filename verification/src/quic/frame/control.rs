//! RFC 9000 scalar control frame views.

use super::parse::{
    QuicFrameField, QuicFrameParseError, field_at, spec_field_at, spec_frame_type_prefix,
};
use crate::quic::varint::{QuicVarInt, spec_decode_value};
use crate::wire::{slice_from, slice_range};
use vstd::prelude::*;

verus! {

/// The largest maximum-streams value a frame may carry (2^60).
pub const MAXIMUM_STREAMS_LIMIT: u64 = 0x1000_0000_0000_0000;

/// Identifies whether a QUIC stream is bidirectional or unidirectional.
#[derive(Clone, Copy, Debug, PartialEq, Eq, Hash, Structural)]
pub enum QuicStreamDirection {
    /// A stream carrying data in both directions.
    Bidirectional,
    /// A stream carrying data in one direction.
    Unidirectional,
}

/// The one variable-integer field that follows the frame type of the frame `b` starts with.
pub open spec fn spec_one_field(b: Seq<u8>, frame_type: Seq<u8>, offset: int, f1: QuicFrameField) -> Result<
    Seq<u8>,
    QuicFrameParseError,
> {
    spec_field_at(b, frame_type.len() as int, offset, f1)
}

/// The two variable-integer fields that follow the frame type of the frame `b` starts with.
pub open spec fn spec_two_fields(
    b: Seq<u8>,
    frame_type: Seq<u8>,
    offset: int,
    f1: QuicFrameField,
    f2: QuicFrameField,
) -> Result<(Seq<u8>, Seq<u8>), QuicFrameParseError> {
    match spec_field_at(b, frame_type.len() as int, offset, f1) {
        Err(e) => Err(e),
        Ok(v1) => match spec_field_at(b, (frame_type.len() + v1.len()) as int, offset, f2) {
            Err(e) => Err(e),
            Ok(v2) => Ok((v1, v2)),
        },
    }
}

/// The three variable-integer fields that follow the frame type of the frame `b` starts with.
pub open spec fn spec_three_fields(
    b: Seq<u8>,
    frame_type: Seq<u8>,
    offset: int,
    f1: QuicFrameField,
    f2: QuicFrameField,
    f3: QuicFrameField,
) -> Result<(Seq<u8>, Seq<u8>, Seq<u8>), QuicFrameParseError> {
    match spec_two_fields(b, frame_type, offset, f1, f2) {
        Err(e) => Err(e),
        Ok((v1, v2)) => match spec_field_at(b, (frame_type.len() + v1.len() + v2.len()) as int, offset, f3) {
            Err(e) => Err(e),
            Ok(v3) => Ok((v1, v2, v3)),
        },
    }
}

/// The maximum-streams field of a MAX_STREAMS or STREAMS_BLOCKED frame, or the error when it
/// is incomplete or exceeds 2^60.
pub open spec fn spec_maximum_streams(b: Seq<u8>, frame_type: Seq<u8>, offset: int) -> Result<
    Seq<u8>,
    QuicFrameParseError,
> {
    match spec_one_field(b, frame_type, offset, QuicFrameField::MaximumStreams) {
        Err(e) => Err(e),
        Ok(v) => if spec_decode_value(v) > MAXIMUM_STREAMS_LIMIT {
            Err(
                QuicFrameParseError::FieldValueOutOfRange {
                    field: QuicFrameField::MaximumStreams,
                    offset: (offset + frame_type.len()) as usize,
                    value: spec_decode_value(v),
                    maximum: MAXIMUM_STREAMS_LIMIT,
                },
            )
        } else {
            Ok(v)
        },
    }
}

fn read_one<'a>(bytes: &'a [u8], frame_type: QuicVarInt<'a>, offset: usize, f1: QuicFrameField) -> (r: Result<
    (QuicVarInt<'a>, usize),
    QuicFrameParseError,
>)
    requires
        spec_frame_type_prefix(bytes@, frame_type@),
        offset + bytes@.len() <= usize::MAX,
    ensures
        match r {
            Ok((v1, end)) => spec_one_field(bytes@, frame_type@, offset as int, f1) == Ok::<
                Seq<u8>,
                QuicFrameParseError,
            >(v1@) && end == frame_type@.len() + v1@.len() && end <= bytes@.len(),
            Err(e) => spec_one_field(bytes@, frame_type@, offset as int, f1) == Err::<
                Seq<u8>,
                QuicFrameParseError,
            >(e),
        },
{
    let start = frame_type.byte_len();
    match field_at(bytes, start, offset, f1) {
        Ok(v1) => Ok((v1, start + v1.byte_len())),
        Err(e) => Err(e),
    }
}

fn read_two<'a>(
    bytes: &'a [u8],
    frame_type: QuicVarInt<'a>,
    offset: usize,
    f1: QuicFrameField,
    f2: QuicFrameField,
) -> (r: Result<(QuicVarInt<'a>, QuicVarInt<'a>, usize), QuicFrameParseError>)
    requires
        spec_frame_type_prefix(bytes@, frame_type@),
        offset + bytes@.len() <= usize::MAX,
    ensures
        match r {
            Ok((v1, v2, end)) => spec_two_fields(bytes@, frame_type@, offset as int, f1, f2)
                == Ok::<(Seq<u8>, Seq<u8>), QuicFrameParseError>((v1@, v2@)) && end
                == frame_type@.len() + v1@.len() + v2@.len() && end <= bytes@.len(),
            Err(e) => spec_two_fields(bytes@, frame_type@, offset as int, f1, f2) == Err::<
                (Seq<u8>, Seq<u8>),
                QuicFrameParseError,
            >(e),
        },
{
    let (v1, start) = match read_one(bytes, frame_type, offset, f1) {
        Ok(p) => p,
        Err(e) => return Err(e),
    };
    match field_at(bytes, start, offset, f2) {
        Ok(v2) => Ok((v1, v2, start + v2.byte_len())),
        Err(e) => Err(e),
    }
}

fn read_three<'a>(
    bytes: &'a [u8],
    frame_type: QuicVarInt<'a>,
    offset: usize,
    f1: QuicFrameField,
    f2: QuicFrameField,
    f3: QuicFrameField,
) -> (r: Result<(QuicVarInt<'a>, QuicVarInt<'a>, QuicVarInt<'a>, usize), QuicFrameParseError>)
    requires
        spec_frame_type_prefix(bytes@, frame_type@),
        offset + bytes@.len() <= usize::MAX,
    ensures
        match r {
            Ok((v1, v2, v3, end)) => spec_three_fields(bytes@, frame_type@, offset as int, f1, f2, f3)
                == Ok::<(Seq<u8>, Seq<u8>, Seq<u8>), QuicFrameParseError>((v1@, v2@, v3@)) && end
                == frame_type@.len() + v1@.len() + v2@.len() + v3@.len() && end <= bytes@.len(),
            Err(e) => spec_three_fields(bytes@, frame_type@, offset as int, f1, f2, f3) == Err::<
                (Seq<u8>, Seq<u8>, Seq<u8>),
                QuicFrameParseError,
            >(e),
        },
{
    let (v1, v2, start) = match read_two(bytes, frame_type, offset, f1, f2) {
        Ok(p) => p,
        Err(e) => return Err(e),
    };
    match field_at(bytes, start, offset, f3) {
        Ok(v3) => Ok((v1, v2, v3, start + v3.byte_len())),
        Err(e) => Err(e),
    }
}

fn parse_maximum_streams<'a>(bytes: &'a [u8], frame_type: QuicVarInt<'a>, offset: usize) -> (r: Result<
    (QuicVarInt<'a>, usize),
    QuicFrameParseError,
>)
    requires
        spec_frame_type_prefix(bytes@, frame_type@),
        offset + bytes@.len() <= usize::MAX,
    ensures
        match r {
            Ok((v1, end)) => spec_maximum_streams(bytes@, frame_type@, offset as int) == Ok::<
                Seq<u8>,
                QuicFrameParseError,
            >(v1@) && end == frame_type@.len() + v1@.len() && end <= bytes@.len(),
            Err(e) => spec_maximum_streams(bytes@, frame_type@, offset as int) == Err::<
                Seq<u8>,
                QuicFrameParseError,
            >(e),
        },
{
    let (v, end) = match read_one(bytes, frame_type, offset, QuicFrameField::MaximumStreams) {
        Ok(p) => p,
        Err(e) => return Err(e),
    };
    if v.value() > MAXIMUM_STREAMS_LIMIT {
        return Err(
            QuicFrameParseError::FieldValueOutOfRange {
                field: QuicFrameField::MaximumStreams,
                offset: offset + frame_type.byte_len(),
                value: v.value(),
                maximum: MAXIMUM_STREAMS_LIMIT,
            },
        );
    }
    Ok((v, end))
}

/// A checked borrowed RFC 9000 MAX_STREAMS frame view.
#[derive(Clone, Copy, Debug, PartialEq, Eq)]
pub struct QuicMaxStreamsFrame<'a> {
    bytes: &'a [u8],
    frame_type: QuicVarInt<'a>,
    direction: QuicStreamDirection,
    maximum_streams: QuicVarInt<'a>,
}

impl<'a> View for QuicMaxStreamsFrame<'a> {
    type V = Seq<u8>;

    closed spec fn view(&self) -> Seq<u8> {
        self.bytes@
    }
}

impl<'a> QuicMaxStreamsFrame<'a> {
    /// The encoded maximum-streams field.
    pub closed spec fn fields(&self) -> Seq<u8> {
        self.maximum_streams@
    }

    /// The encoded frame type.
    pub closed spec fn spec_frame_type(&self) -> Seq<u8> {
        self.frame_type@
    }

    /// Returns the exact encoded frame bytes.
    pub fn as_bytes(self) -> (r: &'a [u8])
        ensures
            r@ == self@,
    {
        self.bytes
    }

    /// Returns the exact encoded frame-type variable integer.
    pub fn frame_type(self) -> (r: QuicVarInt<'a>)
        ensures
            r@ == self.spec_frame_type(),
    {
        self.frame_type
    }

    /// The stream direction selected by the frame type.
    pub closed spec fn spec_direction(&self) -> QuicStreamDirection {
        self.direction
    }

    /// Returns the stream direction selected by the frame type.
    pub fn direction(self) -> (r: QuicStreamDirection)
        ensures
            r == self.spec_direction(),
    {
        self.direction
    }

    /// Returns the exact encoded maximum-streams variable integer.
    pub fn maximum_streams(self) -> (r: QuicVarInt<'a>)
        ensures
            r@ == self.fields(),
    {
        self.maximum_streams
    }
}

/// A checked borrowed RFC 9000 STREAMS_BLOCKED frame view.
#[derive(Clone, Copy, Debug, PartialEq, Eq)]
pub struct QuicStreamsBlockedFrame<'a> {
    bytes: &'a [u8],
    frame_type: QuicVarInt<'a>,
    direction: QuicStreamDirection,
    maximum_streams: QuicVarInt<'a>,
}

impl<'a> View for QuicStreamsBlockedFrame<'a> {
    type V = Seq<u8>;

    closed spec fn view(&self) -> Seq<u8> {
        self.bytes@
    }
}

impl<'a> QuicStreamsBlockedFrame<'a> {
    /// The encoded maximum-streams field.
    pub closed spec fn fields(&self) -> Seq<u8> {
        self.maximum_streams@
    }

    /// The encoded frame type.
    pub closed spec fn spec_frame_type(&self) -> Seq<u8> {
        self.frame_type@
    }

    /// Returns the exact encoded frame bytes.
    pub fn as_bytes(self) -> (r: &'a [u8])
        ensures
            r@ == self@,
    {
        self.bytes
    }

    /// Returns the exact encoded frame-type variable integer.
    pub fn frame_type(self) -> (r: QuicVarInt<'a>)
        ensures
            r@ == self.spec_frame_type(),
    {
        self.frame_type
    }

    /// The stream direction selected by the frame type.
    pub closed spec fn spec_direction(&self) -> QuicStreamDirection {
        self.direction
    }

    /// Returns the stream direction selected by the frame type.
    pub fn direction(self) -> (r: QuicStreamDirection)
        ensures
            r == self.spec_direction(),
    {
        self.direction
    }

    /// Returns the exact encoded maximum-streams variable integer.
    pub fn maximum_streams(self) -> (r: QuicVarInt<'a>)
        ensures
            r@ == self.fields(),
    {
        self.maximum_streams
    }
}

/// A checked borrowed RFC 9000 MAX_DATA frame view.
#[derive(Clone, Copy, Debug, PartialEq, Eq)]
pub struct QuicMaxDataFrame<'a> {
    bytes: &'a [u8],
    frame_type: QuicVarInt<'a>,
    maximum_data: QuicVarInt<'a>,
}

impl<'a> View for QuicMaxDataFrame<'a> {
    type V = Seq<u8>;

    closed spec fn view(&self) -> Seq<u8> {
        self.bytes@
    }
}

impl<'a> QuicMaxDataFrame<'a> {
    /// The encoded maximum-data field.
    pub closed spec fn fields(&self) -> Seq<u8> {
        self.maximum_data@
    }

    /// The encoded frame type.
    pub closed spec fn spec_frame_type(&self) -> Seq<u8> {
        self.frame_type@
    }

    /// Returns the exact encoded frame bytes.
    pub fn as_bytes(self) -> (r: &'a [u8])
        ensures
            r@ == self@,
    {
        self.bytes
    }

    /// Returns the exact encoded frame-type variable integer.
    pub fn frame_type(self) -> (r: QuicVarInt<'a>)
        ensures
            r@ == self.spec_frame_type(),
    {
        self.frame_type
    }

    /// Returns the exact encoded maximum-data variable integer.
    pub fn maximum_data(self) -> (r: QuicVarInt<'a>)
        ensures
            r@ == self.fields(),
    {
        self.maximum_data
    }
}

/// A checked borrowed RFC 9000 MAX_STREAM_DATA frame view.
#[derive(Clone, Copy, Debug, PartialEq, Eq)]
pub struct QuicMaxStreamDataFrame<'a> {
    bytes: &'a [u8],
    frame_type: QuicVarInt<'a>,
    stream_id: QuicVarInt<'a>,
    maximum_stream_data: QuicVarInt<'a>,
}

impl<'a> View for QuicMaxStreamDataFrame<'a> {
    type V = Seq<u8>;

    closed spec fn view(&self) -> Seq<u8> {
        self.bytes@
    }
}

impl<'a> QuicMaxStreamDataFrame<'a> {
    /// The encoded stream-ID and maximum-stream-data fields.
    pub closed spec fn fields(&self) -> (Seq<u8>, Seq<u8>) {
        (self.stream_id@, self.maximum_stream_data@)
    }

    /// The encoded frame type.
    pub closed spec fn spec_frame_type(&self) -> Seq<u8> {
        self.frame_type@
    }

    /// Returns the exact encoded frame bytes.
    pub fn as_bytes(self) -> (r: &'a [u8])
        ensures
            r@ == self@,
    {
        self.bytes
    }

    /// Returns the exact encoded frame-type variable integer.
    pub fn frame_type(self) -> (r: QuicVarInt<'a>)
        ensures
            r@ == self.spec_frame_type(),
    {
        self.frame_type
    }

    /// Returns the exact encoded stream-ID variable integer.
    pub fn stream_id(self) -> (r: QuicVarInt<'a>)
        ensures
            r@ == self.fields().0,
    {
        self.stream_id
    }

    /// Returns the exact encoded maximum-stream-data variable integer.
    pub fn maximum_stream_data(self) -> (r: QuicVarInt<'a>)
        ensures
            r@ == self.fields().1,
    {
        self.maximum_stream_data
    }
}

/// A checked borrowed RFC 9000 DATA_BLOCKED frame view.
#[derive(Clone, Copy, Debug, PartialEq, Eq)]
pub struct QuicDataBlockedFrame<'a> {
    bytes: &'a [u8],
    frame_type: QuicVarInt<'a>,
    maximum_data: QuicVarInt<'a>,
}

impl<'a> View for QuicDataBlockedFrame<'a> {
    type V = Seq<u8>;

    closed spec fn view(&self) -> Seq<u8> {
        self.bytes@
    }
}

impl<'a> QuicDataBlockedFrame<'a> {
    /// The encoded maximum-data field.
    pub closed spec fn fields(&self) -> Seq<u8> {
        self.maximum_data@
    }

    /// The encoded frame type.
    pub closed spec fn spec_frame_type(&self) -> Seq<u8> {
        self.frame_type@
    }

    /// Returns the exact encoded frame bytes.
    pub fn as_bytes(self) -> (r: &'a [u8])
        ensures
            r@ == self@,
    {
        self.bytes
    }

    /// Returns the exact encoded frame-type variable integer.
    pub fn frame_type(self) -> (r: QuicVarInt<'a>)
        ensures
            r@ == self.spec_frame_type(),
    {
        self.frame_type
    }

    /// Returns the exact encoded maximum-data variable integer.
    pub fn maximum_data(self) -> (r: QuicVarInt<'a>)
        ensures
            r@ == self.fields(),
    {
        self.maximum_data
    }
}

/// A checked borrowed RFC 9000 STREAM_DATA_BLOCKED frame view.
#[derive(Clone, Copy, Debug, PartialEq, Eq)]
pub struct QuicStreamDataBlockedFrame<'a> {
    bytes: &'a [u8],
    frame_type: QuicVarInt<'a>,
    stream_id: QuicVarInt<'a>,
    maximum_stream_data: QuicVarInt<'a>,
}

impl<'a> View for QuicStreamDataBlockedFrame<'a> {
    type V = Seq<u8>;

    closed spec fn view(&self) -> Seq<u8> {
        self.bytes@
    }
}

impl<'a> QuicStreamDataBlockedFrame<'a> {
    /// The encoded stream-ID and maximum-stream-data fields.
    pub closed spec fn fields(&self) -> (Seq<u8>, Seq<u8>) {
        (self.stream_id@, self.maximum_stream_data@)
    }

    /// The encoded frame type.
    pub closed spec fn spec_frame_type(&self) -> Seq<u8> {
        self.frame_type@
    }

    /// Returns the exact encoded frame bytes.
    pub fn as_bytes(self) -> (r: &'a [u8])
        ensures
            r@ == self@,
    {
        self.bytes
    }

    /// Returns the exact encoded frame-type variable integer.
    pub fn frame_type(self) -> (r: QuicVarInt<'a>)
        ensures
            r@ == self.spec_frame_type(),
    {
        self.frame_type
    }

    /// Returns the exact encoded stream-ID variable integer.
    pub fn stream_id(self) -> (r: QuicVarInt<'a>)
        ensures
            r@ == self.fields().0,
    {
        self.stream_id
    }

    /// Returns the exact encoded maximum-stream-data variable integer.
    pub fn maximum_stream_data(self) -> (r: QuicVarInt<'a>)
        ensures
            r@ == self.fields().1,
    {
        self.maximum_stream_data
    }
}

/// A checked borrowed RFC 9000 RESET_STREAM frame view.
#[derive(Clone, Copy, Debug, PartialEq, Eq)]
pub struct QuicResetStreamFrame<'a> {
    bytes: &'a [u8],
    frame_type: QuicVarInt<'a>,
    stream_id: QuicVarInt<'a>,
    application_error_code: QuicVarInt<'a>,
    final_size: QuicVarInt<'a>,
}

impl<'a> View for QuicResetStreamFrame<'a> {
    type V = Seq<u8>;

    closed spec fn view(&self) -> Seq<u8> {
        self.bytes@
    }
}

impl<'a> QuicResetStreamFrame<'a> {
    /// The encoded stream-ID, application-error-code and final-size fields.
    pub closed spec fn fields(&self) -> (Seq<u8>, Seq<u8>, Seq<u8>) {
        (self.stream_id@, self.application_error_code@, self.final_size@)
    }

    /// The encoded frame type.
    pub closed spec fn spec_frame_type(&self) -> Seq<u8> {
        self.frame_type@
    }

    /// Returns the exact encoded frame bytes.
    pub fn as_bytes(self) -> (r: &'a [u8])
        ensures
            r@ == self@,
    {
        self.bytes
    }

    /// Returns the exact encoded frame-type variable integer.
    pub fn frame_type(self) -> (r: QuicVarInt<'a>)
        ensures
            r@ == self.spec_frame_type(),
    {
        self.frame_type
    }

    /// Returns the exact encoded stream-ID variable integer.
    pub fn stream_id(self) -> (r: QuicVarInt<'a>)
        ensures
            r@ == self.fields().0,
    {
        self.stream_id
    }

    /// Returns the exact encoded application-error-code variable integer.
    pub fn application_error_code(self) -> (r: QuicVarInt<'a>)
        ensures
            r@ == self.fields().1,
    {
        self.application_error_code
    }

    /// Returns the exact encoded final-size variable integer.
    pub fn final_size(self) -> (r: QuicVarInt<'a>)
        ensures
            r@ == self.fields().2,
    {
        self.final_size
    }
}

/// A checked borrowed RFC 9000 STOP_SENDING frame view.
#[derive(Clone, Copy, Debug, PartialEq, Eq)]
pub struct QuicStopSendingFrame<'a> {
    bytes: &'a [u8],
    frame_type: QuicVarInt<'a>,
    stream_id: QuicVarInt<'a>,
    application_error_code: QuicVarInt<'a>,
}

impl<'a> View for QuicStopSendingFrame<'a> {
    type V = Seq<u8>;

    closed spec fn view(&self) -> Seq<u8> {
        self.bytes@
    }
}

impl<'a> QuicStopSendingFrame<'a> {
    /// The encoded stream-ID and application-error-code fields.
    pub closed spec fn fields(&self) -> (Seq<u8>, Seq<u8>) {
        (self.stream_id@, self.application_error_code@)
    }

    /// The encoded frame type.
    pub closed spec fn spec_frame_type(&self) -> Seq<u8> {
        self.frame_type@
    }

    /// Returns the exact encoded frame bytes.
    pub fn as_bytes(self) -> (r: &'a [u8])
        ensures
            r@ == self@,
    {
        self.bytes
    }

    /// Returns the exact encoded frame-type variable integer.
    pub fn frame_type(self) -> (r: QuicVarInt<'a>)
        ensures
            r@ == self.spec_frame_type(),
    {
        self.frame_type
    }

    /// Returns the exact encoded stream-ID variable integer.
    pub fn stream_id(self) -> (r: QuicVarInt<'a>)
        ensures
            r@ == self.fields().0,
    {
        self.stream_id
    }

    /// Returns the exact encoded application-error-code variable integer.
    pub fn application_error_code(self) -> (r: QuicVarInt<'a>)
        ensures
            r@ == self.fields().1,
    {
        self.application_error_code
    }
}

pub(crate) fn parse_max_data<'a>(
    bytes: &'a [u8],
    frame_type: QuicVarInt<'a>,
    offset: usize,
) -> (r: Result<(QuicMaxDataFrame<'a>, &'a [u8]), QuicFrameParseError>)
    requires
        spec_frame_type_prefix(bytes@, frame_type@),
        offset + bytes@.len() <= usize::MAX,
    ensures
        match r {
            Ok((frame, suffix)) => spec_one_field(bytes@, frame_type@, offset as int, QuicFrameField::MaximumData) == Ok::<Seq<u8>, QuicFrameParseError>(frame.fields())
                && frame.spec_frame_type() == frame_type@ && frame@ == bytes@.subrange(0, frame@.len() as int)
                && frame@.len() == frame_type@.len() + frame.fields().len() && suffix@ == bytes@.subrange(
                frame@.len() as int,
                bytes@.len() as int,
            ),
            Err(e) => spec_one_field(bytes@, frame_type@, offset as int, QuicFrameField::MaximumData) == Err::<Seq<u8>, QuicFrameParseError>(e),
        },
{
    let (maximum_data, end) = match read_one(bytes, frame_type, offset, QuicFrameField::MaximumData) {
        Ok(p) => p,
        Err(e) => return Err(e),
    };
    Ok((QuicMaxDataFrame { bytes: slice_range(bytes, 0, end), frame_type, maximum_data }, slice_from(bytes, end)))
}

pub(crate) fn parse_data_blocked<'a>(
    bytes: &'a [u8],
    frame_type: QuicVarInt<'a>,
    offset: usize,
) -> (r: Result<(QuicDataBlockedFrame<'a>, &'a [u8]), QuicFrameParseError>)
    requires
        spec_frame_type_prefix(bytes@, frame_type@),
        offset + bytes@.len() <= usize::MAX,
    ensures
        match r {
            Ok((frame, suffix)) => spec_one_field(bytes@, frame_type@, offset as int, QuicFrameField::MaximumData) == Ok::<Seq<u8>, QuicFrameParseError>(frame.fields())
                && frame.spec_frame_type() == frame_type@ && frame@ == bytes@.subrange(0, frame@.len() as int)
                && frame@.len() == frame_type@.len() + frame.fields().len() && suffix@ == bytes@.subrange(
                frame@.len() as int,
                bytes@.len() as int,
            ),
            Err(e) => spec_one_field(bytes@, frame_type@, offset as int, QuicFrameField::MaximumData) == Err::<Seq<u8>, QuicFrameParseError>(e),
        },
{
    let (maximum_data, end) = match read_one(bytes, frame_type, offset, QuicFrameField::MaximumData) {
        Ok(p) => p,
        Err(e) => return Err(e),
    };
    Ok((QuicDataBlockedFrame { bytes: slice_range(bytes, 0, end), frame_type, maximum_data }, slice_from(bytes, end)))
}

pub(crate) fn parse_max_stream_data<'a>(
    bytes: &'a [u8],
    frame_type: QuicVarInt<'a>,
    offset: usize,
) -> (r: Result<(QuicMaxStreamDataFrame<'a>, &'a [u8]), QuicFrameParseError>)
    requires
        spec_frame_type_prefix(bytes@, frame_type@),
        offset + bytes@.len() <= usize::MAX,
    ensures
        match r {
            Ok((frame, suffix)) => spec_two_fields(bytes@, frame_type@, offset as int, QuicFrameField::StreamId, QuicFrameField::MaximumStreamData) == Ok::<(Seq<u8>, Seq<u8>), QuicFrameParseError>(frame.fields())
                && frame.spec_frame_type() == frame_type@ && frame@ == bytes@.subrange(0, frame@.len() as int)
                && frame@.len() == frame_type@.len() + frame.fields().0.len() + frame.fields().1.len() && suffix@ == bytes@.subrange(
                frame@.len() as int,
                bytes@.len() as int,
            ),
            Err(e) => spec_two_fields(bytes@, frame_type@, offset as int, QuicFrameField::StreamId, QuicFrameField::MaximumStreamData) == Err::<(Seq<u8>, Seq<u8>), QuicFrameParseError>(e),
        },
{
    let (stream_id, maximum_stream_data, end) = match read_two(bytes, frame_type, offset, QuicFrameField::StreamId, QuicFrameField::MaximumStreamData) {
        Ok(p) => p,
        Err(e) => return Err(e),
    };
    Ok((QuicMaxStreamDataFrame { bytes: slice_range(bytes, 0, end), frame_type, stream_id, maximum_stream_data }, slice_from(bytes, end)))
}

pub(crate) fn parse_stream_data_blocked<'a>(
    bytes: &'a [u8],
    frame_type: QuicVarInt<'a>,
    offset: usize,
) -> (r: Result<(QuicStreamDataBlockedFrame<'a>, &'a [u8]), QuicFrameParseError>)
    requires
        spec_frame_type_prefix(bytes@, frame_type@),
        offset + bytes@.len() <= usize::MAX,
    ensures
        match r {
            Ok((frame, suffix)) => spec_two_fields(bytes@, frame_type@, offset as int, QuicFrameField::StreamId, QuicFrameField::MaximumStreamData) == Ok::<(Seq<u8>, Seq<u8>), QuicFrameParseError>(frame.fields())
                && frame.spec_frame_type() == frame_type@ && frame@ == bytes@.subrange(0, frame@.len() as int)
                && frame@.len() == frame_type@.len() + frame.fields().0.len() + frame.fields().1.len() && suffix@ == bytes@.subrange(
                frame@.len() as int,
                bytes@.len() as int,
            ),
            Err(e) => spec_two_fields(bytes@, frame_type@, offset as int, QuicFrameField::StreamId, QuicFrameField::MaximumStreamData) == Err::<(Seq<u8>, Seq<u8>), QuicFrameParseError>(e),
        },
{
    let (stream_id, maximum_stream_data, end) = match read_two(bytes, frame_type, offset, QuicFrameField::StreamId, QuicFrameField::MaximumStreamData) {
        Ok(p) => p,
        Err(e) => return Err(e),
    };
    Ok((QuicStreamDataBlockedFrame { bytes: slice_range(bytes, 0, end), frame_type, stream_id, maximum_stream_data }, slice_from(bytes, end)))
}

pub(crate) fn parse_stop_sending<'a>(
    bytes: &'a [u8],
    frame_type: QuicVarInt<'a>,
    offset: usize,
) -> (r: Result<(QuicStopSendingFrame<'a>, &'a [u8]), QuicFrameParseError>)
    requires
        spec_frame_type_prefix(bytes@, frame_type@),
        offset + bytes@.len() <= usize::MAX,
    ensures
        match r {
            Ok((frame, suffix)) => spec_two_fields(bytes@, frame_type@, offset as int, QuicFrameField::StreamId, QuicFrameField::ApplicationErrorCode) == Ok::<(Seq<u8>, Seq<u8>), QuicFrameParseError>(frame.fields())
                && frame.spec_frame_type() == frame_type@ && frame@ == bytes@.subrange(0, frame@.len() as int)
                && frame@.len() == frame_type@.len() + frame.fields().0.len() + frame.fields().1.len() && suffix@ == bytes@.subrange(
                frame@.len() as int,
                bytes@.len() as int,
            ),
            Err(e) => spec_two_fields(bytes@, frame_type@, offset as int, QuicFrameField::StreamId, QuicFrameField::ApplicationErrorCode) == Err::<(Seq<u8>, Seq<u8>), QuicFrameParseError>(e),
        },
{
    let (stream_id, application_error_code, end) = match read_two(bytes, frame_type, offset, QuicFrameField::StreamId, QuicFrameField::ApplicationErrorCode) {
        Ok(p) => p,
        Err(e) => return Err(e),
    };
    Ok((QuicStopSendingFrame { bytes: slice_range(bytes, 0, end), frame_type, stream_id, application_error_code }, slice_from(bytes, end)))
}

pub(crate) fn parse_reset_stream<'a>(
    bytes: &'a [u8],
    frame_type: QuicVarInt<'a>,
    offset: usize,
) -> (r: Result<(QuicResetStreamFrame<'a>, &'a [u8]), QuicFrameParseError>)
    requires
        spec_frame_type_prefix(bytes@, frame_type@),
        offset + bytes@.len() <= usize::MAX,
    ensures
        match r {
            Ok((frame, suffix)) => spec_three_fields(bytes@, frame_type@, offset as int, QuicFrameField::StreamId, QuicFrameField::ApplicationErrorCode, QuicFrameField::FinalSize) == Ok::<(Seq<u8>, Seq<u8>, Seq<u8>), QuicFrameParseError>(frame.fields())
                && frame.spec_frame_type() == frame_type@ && frame@ == bytes@.subrange(0, frame@.len() as int)
                && frame@.len() == frame_type@.len() + frame.fields().0.len() + frame.fields().1.len() + frame.fields().2.len() && suffix@ == bytes@.subrange(
                frame@.len() as int,
                bytes@.len() as int,
            ),
            Err(e) => spec_three_fields(bytes@, frame_type@, offset as int, QuicFrameField::StreamId, QuicFrameField::ApplicationErrorCode, QuicFrameField::FinalSize) == Err::<(Seq<u8>, Seq<u8>, Seq<u8>), QuicFrameParseError>(e),
        },
{
    let (stream_id, application_error_code, final_size, end) = match read_three(bytes, frame_type, offset, QuicFrameField::StreamId, QuicFrameField::ApplicationErrorCode, QuicFrameField::FinalSize) {
        Ok(p) => p,
        Err(e) => return Err(e),
    };
    Ok((QuicResetStreamFrame { bytes: slice_range(bytes, 0, end), frame_type, stream_id, application_error_code, final_size }, slice_from(bytes, end)))
}

pub(crate) fn parse_max_streams<'a>(
    bytes: &'a [u8],
    frame_type: QuicVarInt<'a>,
    offset: usize,
    direction: QuicStreamDirection,
) -> (r: Result<(QuicMaxStreamsFrame<'a>, &'a [u8]), QuicFrameParseError>)
    requires
        spec_frame_type_prefix(bytes@, frame_type@),
        offset + bytes@.len() <= usize::MAX,
    ensures
        match r {
            Ok((frame, suffix)) => spec_maximum_streams(bytes@, frame_type@, offset as int) == Ok::<Seq<u8>, QuicFrameParseError>(frame.fields())
                && frame.spec_frame_type() == frame_type@ && frame.spec_direction() == direction && frame@ == bytes@.subrange(0, frame@.len() as int)
                && frame@.len() == frame_type@.len() + frame.fields().len() && suffix@ == bytes@.subrange(
                frame@.len() as int,
                bytes@.len() as int,
            ),
            Err(e) => spec_maximum_streams(bytes@, frame_type@, offset as int) == Err::<Seq<u8>, QuicFrameParseError>(e),
        },
{
    let (maximum_streams, end) = match parse_maximum_streams(bytes, frame_type, offset) {
        Ok(p) => p,
        Err(e) => return Err(e),
    };
    Ok((QuicMaxStreamsFrame { bytes: slice_range(bytes, 0, end), frame_type, direction, maximum_streams }, slice_from(bytes, end)))
}

pub(crate) fn parse_streams_blocked<'a>(
    bytes: &'a [u8],
    frame_type: QuicVarInt<'a>,
    offset: usize,
    direction: QuicStreamDirection,
) -> (r: Result<(QuicStreamsBlockedFrame<'a>, &'a [u8]), QuicFrameParseError>)
    requires
        spec_frame_type_prefix(bytes@, frame_type@),
        offset + bytes@.len() <= usize::MAX,
    ensures
        match r {
            Ok((frame, suffix)) => spec_maximum_streams(bytes@, frame_type@, offset as int) == Ok::<Seq<u8>, QuicFrameParseError>(frame.fields())
                && frame.spec_frame_type() == frame_type@ && frame.spec_direction() == direction && frame@ == bytes@.subrange(0, frame@.len() as int)
                && frame@.len() == frame_type@.len() + frame.fields().len() && suffix@ == bytes@.subrange(
                frame@.len() as int,
                bytes@.len() as int,
            ),
            Err(e) => spec_maximum_streams(bytes@, frame_type@, offset as int) == Err::<Seq<u8>, QuicFrameParseError>(e),
        },
{
    let (maximum_streams, end) = match parse_maximum_streams(bytes, frame_type, offset) {
        Ok(p) => p,
        Err(e) => return Err(e),
    };
    Ok((QuicStreamsBlockedFrame { bytes: slice_range(bytes, 0, end), frame_type, direction, maximum_streams }, slice_from(bytes, end)))
}

} // verus!
