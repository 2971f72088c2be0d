//! RFC 9000 PATH_CHALLENGE and PATH_RESPONSE frame parsing.

use super::parse::{QuicFrameField, QuicFrameParseError, spec_frame_type_prefix};
use crate::quic::varint::QuicVarInt;
use crate::wire::{array_ref, slice_from, slice_range};
use vstd::prelude::*;

verus! {

/// The path-validation frame that `b` starts with, its type already read: its eight data
/// bytes, or the error when fewer remain.
pub open spec fn spec_path_data(b: Seq<u8>, frame_type: Seq<u8>, offset: int) -> Result<
    Seq<u8>,
    QuicFrameParseError,
> {
    let s0 = frame_type.len() as int;
    if b.len() - s0 < 8 {
        Err(
            QuicFrameParseError::IncompleteBytes {
                field: QuicFrameField::PathData,
                offset: (offset + s0) as usize,
                required: 8,
                available: (b.len() - s0) as usize,
            },
        )
    } else {
        Ok(b.subrange(s0, s0 + 8))
    }
}

/// A checked borrowed RFC 9000 PATH_CHALLENGE frame view.
#[derive(Clone, Copy, Debug, PartialEq, Eq)]
pub struct QuicPathChallengeFrame<'a> {
    bytes: &'a [u8],
    frame_type: QuicVarInt<'a>,
    data: &'a [u8; 8],
}

impl<'a> View for QuicPathChallengeFrame<'a> {
    type V = Seq<u8>;

    closed spec fn view(&self) -> Seq<u8> {
        self.bytes@
    }
}

impl<'a> QuicPathChallengeFrame<'a> {
    /// The encoded frame type.
    pub closed spec fn spec_frame_type(&self) -> Seq<u8> {
        self.frame_type@
    }

    /// The path-validation data.
    pub closed spec fn spec_data(&self) -> Seq<u8> {
        self.data@
    }

    /// Returns the exact encoded frame bytes.
    pub fn as_bytes(self) -> (r: &'a [u8])
        ensures
            r@ == self@,
    {
        self.bytes
    }

    /// Returns the exact encoded frame-type variable integer.
    pub fn frame_type(self) -> (r: QuicVarInt<'a>)
        ensures
            r@ == self.spec_frame_type(),
    {
        self.frame_type
    }

    /// Returns the opaque path-validation data.
    pub fn data(self) -> (r: &'a [u8; 8])
        ensures
            r@ == self.spec_data(),
    {
        self.data
    }
}

/// A checked borrowed RFC 9000 PATH_RESPONSE frame view.
#[derive(Clone, Copy, Debug, PartialEq, Eq)]
pub struct QuicPathResponseFrame<'a> {
    bytes: &'a [u8],
    frame_type: QuicVarInt<'a>,
    data: &'a [u8; 8],
}

impl<'a> View for QuicPathResponseFrame<'a> {
    type V = Seq<u8>;

    closed spec fn view(&self) -> Seq<u8> {
        self.bytes@
    }
}

impl<'a> QuicPathResponseFrame<'a> {
    /// The encoded frame type.
    pub closed spec fn spec_frame_type(&self) -> Seq<u8> {
        self.frame_type@
    }

    /// The path-validation data.
    pub closed spec fn spec_data(&self) -> Seq<u8> {
        self.data@
    }

    /// Returns the exact encoded frame bytes.
    pub fn as_bytes(self) -> (r: &'a [u8])
        ensures
            r@ == self@,
    {
        self.bytes
    }

    /// Returns the exact encoded frame-type variable integer.
    pub fn frame_type(self) -> (r: QuicVarInt<'a>)
        ensures
            r@ == self.spec_frame_type(),
    {
        self.frame_type
    }

    /// Returns the opaque path-validation data.
    pub fn data(self) -> (r: &'a [u8; 8])
        ensures
            r@ == self.spec_data(),
    {
        self.data
    }
}

pub(crate) fn parse_path_challenge<'a>(bytes: &'a [u8], frame_type: QuicVarInt<'a>, offset: usize) -> (r: Result<
    (QuicPathChallengeFrame<'a>, &'a [u8]),
    QuicFrameParseError,
>)
    requires
        spec_frame_type_prefix(bytes@, frame_type@),
        offset + bytes@.len() <= usize::MAX,
    ensures
        match r {
            Ok((frame, suffix)) => spec_path_data(bytes@, frame_type@, offset as int) == Ok::<
                Seq<u8>,
                QuicFrameParseError,
            >(frame.spec_data()) && frame.spec_frame_type() == frame_type@ && frame@
                == bytes@.subrange(0, (frame_type@.len() + 8) as int) && suffix@ == bytes@.subrange(
                (frame_type@.len() + 8) as int,
                bytes@.len() as int,
            ),
            Err(e) => spec_path_data(bytes@, frame_type@, offset as int) == Err::<
                Seq<u8>,
                QuicFrameParseError,
            >(e),
        },
{
    let parsed = match parse_path_data(bytes, frame_type, offset) {
        Ok(parsed) => parsed,
        Err(e) => return Err(e),
    };
    Ok((QuicPathChallengeFrame { bytes: parsed.bytes, frame_type, data: parsed.data }, parsed.suffix))
}

pub(crate) fn parse_path_response<'a>(bytes: &'a [u8], frame_type: QuicVarInt<'a>, offset: usize) -> (r: Result<
    (QuicPathResponseFrame<'a>, &'a [u8]),
    QuicFrameParseError,
>)
    requires
        spec_frame_type_prefix(bytes@, frame_type@),
        offset + bytes@.len() <= usize::MAX,
    ensures
        match r {
            Ok((frame, suffix)) => spec_path_data(bytes@, frame_type@, offset as int) == Ok::<
                Seq<u8>,
                QuicFrameParseError,
            >(frame.spec_data()) && frame.spec_frame_type() == frame_type@ && frame@
                == bytes@.subrange(0, (frame_type@.len() + 8) as int) && suffix@ == bytes@.subrange(
                (frame_type@.len() + 8) as int,
                bytes@.len() as int,
            ),
            Err(e) => spec_path_data(bytes@, frame_type@, offset as int) == Err::<
                Seq<u8>,
                QuicFrameParseError,
            >(e),
        },
{
    let parsed = match parse_path_data(bytes, frame_type, offset) {
        Ok(parsed) => parsed,
        Err(e) => return Err(e),
    };
    Ok((QuicPathResponseFrame { bytes: parsed.bytes, frame_type, data: parsed.data }, parsed.suffix))
}

struct ParsedPathData<'a> {
    bytes: &'a [u8],
    data: &'a [u8; 8],
    suffix: &'a [u8],
}

fn parse_path_data<'a>(bytes: &'a [u8], frame_type: QuicVarInt<'a>, offset: usize) -> (r: Result<
    ParsedPathData<'a>,
    QuicFrameParseError,
>)
    requires
        spec_frame_type_prefix(bytes@, frame_type@),
        offset + bytes@.len() <= usize::MAX,
    ensures
        match r {
            Ok(p) => spec_path_data(bytes@, frame_type@, offset as int) == Ok::<
                Seq<u8>,
                QuicFrameParseError,
            >(p.data@) && p.bytes@ == bytes@.subrange(0, (frame_type@.len() + 8) as int) && p.suffix@
                == bytes@.subrange((frame_type@.len() + 8) as int, bytes@.len() as int),
            Err(e) => spec_path_data(bytes@, frame_type@, offset as int) == Err::<
                Seq<u8>,
                QuicFrameParseError,
            >(e),
        },
{
    let data_start = frame_type.byte_len();
    let input = slice_from(bytes, data_start);
    if input.len() < 8 {
        return Err(
            QuicFrameParseError::IncompleteBytes {
                field: QuicFrameField::PathData,
                offset: offset + data_start,
                required: 8,
                available: input.len(),
            },
        );
    }
    let data = array_ref::<8>(slice_range(input, 0, 8));
    let suffix = slice_from(input, 8);
    let frame_len = bytes.len() - suffix.len();
    proof {
        assert(suffix@ =~= bytes@.subrange(data_start + 8, bytes@.len() as int));
        assert(data@ =~= bytes@.subrange(data_start as int, data_start + 8));
    }
    Ok(ParsedPathData { bytes: slice_range(bytes, 0, frame_len), data, suffix })
}

} // verus!
