//! RFC 9000 core frame parsing.

pub(crate) mod ack;
pub(crate) mod connection_close;
pub(crate) mod connection_id;
pub(crate) mod control;
pub(crate) mod crypto;
pub(crate) mod parse;
pub(crate) mod path;
pub(crate) mod stream;
pub(crate) mod token;

use self::ack::{
    QuicAckFields, QuicAckFrame, lemma_ranges_end_error, lemma_ranges_end_ge, parse_ack, spec_ack,
    spec_ack_head, spec_ack_ranges_end, spec_subtract,
};
use self::connection_close::{
    QuicConnectionCloseFields, QuicConnectionCloseFrame, parse_connection_close,
    spec_connection_close,
};
use self::connection_id::{
    QuicNewConnectionIdFields, QuicNewConnectionIdFrame, QuicRetireConnectionIdFrame,
    parse_new_connection_id, parse_retire_connection_id, spec_new_connection_id,
    spec_retire_connection_id,
};
use self::control::{
    QuicDataBlockedFrame, QuicMaxDataFrame, QuicMaxStreamDataFrame, QuicMaxStreamsFrame,
    QuicResetStreamFrame, QuicStopSendingFrame, QuicStreamDataBlockedFrame, QuicStreamDirection,
    QuicStreamsBlockedFrame, parse_data_blocked, parse_max_data, parse_max_stream_data,
    parse_max_streams, parse_reset_stream, parse_stop_sending, parse_stream_data_blocked,
    parse_streams_blocked, spec_maximum_streams, spec_one_field, spec_three_fields,
    spec_two_fields,
};
use self::crypto::{QuicCryptoFields, QuicCryptoFrame, parse_crypto, spec_crypto};
use self::parse::{
    QuicFrameField, QuicFrameParseError, lemma_field_span, spec_field_at, spec_frame_type_prefix,
};
use self::path::{QuicPathChallengeFrame, QuicPathResponseFrame, parse_path_challenge, parse_path_response, spec_path_data};
use self::stream::{QuicStreamFields, QuicStreamFrame, lemma_stream_span, parse_stream, spec_stream};
use self::token::{QuicNewTokenFields, QuicNewTokenFrame, parse_new_token, spec_new_token};
use crate::quic::varint::{
    QuicVarInt, QuicVarIntParseError, spec_decode_value, spec_len_from_first, spec_required,
    spec_varint_complete, spec_varint_span,
};
use crate::wire::{empty_slice, slice_from, slice_range};
use vstd::prelude::*;

verus! {

/// A checked borrowed PADDING frame view.
#[derive(Clone, Copy, Debug, PartialEq, Eq)]
pub struct QuicPaddingFrame<'a> {
    bytes: &'a [u8],
    frame_type: QuicVarInt<'a>,
}

/// A checked borrowed PING frame view.
#[derive(Clone, Copy, Debug, PartialEq, Eq)]
pub struct QuicPingFrame<'a> {
    bytes: &'a [u8],
    frame_type: QuicVarInt<'a>,
}

/// A checked borrowed HANDSHAKE_DONE frame view.
#[derive(Clone, Copy, Debug, PartialEq, Eq)]
pub struct QuicHandshakeDoneFrame<'a> {
    bytes: &'a [u8],
    frame_type: QuicVarInt<'a>,
}

impl<'a> View for QuicPaddingFrame<'a> {
    type V = Seq<u8>;

    closed spec fn view(&self) -> Seq<u8> {
        self.bytes@
    }
}

impl<'a> QuicPaddingFrame<'a> {
    /// The encoded frame type.
    pub closed spec fn spec_frame_type(&self) -> Seq<u8> {
        self.frame_type@
    }

    /// Returns the exact encoded frame bytes.
    pub fn as_bytes(self) -> (r: &'a [u8])
        ensures
            r@ == self@,
    {
        self.bytes
    }

    /// Returns the exact encoded frame-type variable integer.
    pub fn frame_type(self) -> (r: QuicVarInt<'a>)
        ensures
            r@ == self.spec_frame_type(),
    {
        self.frame_type
    }
}

impl<'a> View for QuicPingFrame<'a> {
    type V = Seq<u8>;

    closed spec fn view(&self) -> Seq<u8> {
        self.bytes@
    }
}

impl<'a> QuicPingFrame<'a> {
    /// The encoded frame type.
    pub closed spec fn spec_frame_type(&self) -> Seq<u8> {
        self.frame_type@
    }

    /// Returns the exact encoded frame bytes.
    pub fn as_bytes(self) -> (r: &'a [u8])
        ensures
            r@ == self@,
    {
        self.bytes
    }

    /// Returns the exact encoded frame-type variable integer.
    pub fn frame_type(self) -> (r: QuicVarInt<'a>)
        ensures
            r@ == self.spec_frame_type(),
    {
        self.frame_type
    }
}

impl<'a> View for QuicHandshakeDoneFrame<'a> {
    type V = Seq<u8>;

    closed spec fn view(&self) -> Seq<u8> {
        self.bytes@
    }
}

impl<'a> QuicHandshakeDoneFrame<'a> {
    /// The encoded frame type.
    pub closed spec fn spec_frame_type(&self) -> Seq<u8> {
        self.frame_type@
    }

    /// Returns the exact encoded frame bytes.
    pub fn as_bytes(self) -> (r: &'a [u8])
        ensures
            r@ == self@,
    {
        self.bytes
    }

    /// Returns the exact encoded frame-type variable integer.
    pub fn frame_type(self) -> (r: QuicVarInt<'a>)
        ensures
            r@ == self.spec_frame_type(),
    {
        self.frame_type
    }
}

/// What a parsed frame holds beyond its type, by kind.
pub enum QuicFrameFields {
    /// A PADDING frame.
    Padding,
    /// A PING frame.
    Ping,
    /// An ACK or ACK_ECN frame.
    Ack(QuicAckFields),
    /// A NEW_TOKEN frame.
    NewToken(QuicNewTokenFields),
    /// A CRYPTO frame.
    Crypto(QuicCryptoFields),
    /// A STREAM frame.
    Stream(QuicStreamFields),
    /// A RESET_STREAM frame: stream ID, application error code and final size.
    ResetStream(Seq<u8>, Seq<u8>, Seq<u8>),
    /// A STOP_SENDING frame: stream ID and application error code.
    StopSending(Seq<u8>, Seq<u8>),
    /// A MAX_DATA frame: maximum data.
    MaxData(Seq<u8>),
    /// A MAX_STREAM_DATA frame: stream ID and maximum stream data.
    MaxStreamData(Seq<u8>, Seq<u8>),
    /// A MAX_STREAMS frame: direction and maximum streams.
    MaxStreams(QuicStreamDirection, Seq<u8>),
    /// A DATA_BLOCKED frame: maximum data.
    DataBlocked(Seq<u8>),
    /// A STREAM_DATA_BLOCKED frame: stream ID and maximum stream data.
    StreamDataBlocked(Seq<u8>, Seq<u8>),
    /// A STREAMS_BLOCKED frame: direction and maximum streams.
    StreamsBlocked(QuicStreamDirection, Seq<u8>),
    /// A NEW_CONNECTION_ID frame.
    NewConnectionId(QuicNewConnectionIdFields),
    /// A RETIRE_CONNECTION_ID frame: sequence number.
    RetireConnectionId(Seq<u8>),
    /// A PATH_CHALLENGE frame: data.
    PathChallenge(Seq<u8>),
    /// A PATH_RESPONSE frame: data.
    PathResponse(Seq<u8>),
    /// A CONNECTION_CLOSE frame.
    ConnectionClose(QuicConnectionCloseFields),
    /// A HANDSHAKE_DONE frame.
    HandshakeDone,
}

/// A checked borrowed QUIC frame.
#[derive(Clone, Copy, Debug, PartialEq, Eq)]
pub enum QuicFrame<'a> {
    /// An RFC 9000 PADDING frame.
    Padding(QuicPaddingFrame<'a>),
    /// An RFC 9000 PING frame.
    Ping(QuicPingFrame<'a>),
    /// An RFC 9000 ACK or ACK_ECN frame.
    Ack(QuicAckFrame<'a>),
    /// An RFC 9000 NEW_TOKEN frame.
    NewToken(QuicNewTokenFrame<'a>),
    /// An RFC 9000 CRYPTO frame.
    Crypto(QuicCryptoFrame<'a>),
    /// An RFC 9000 STREAM frame.
    Stream(QuicStreamFrame<'a>),
    /// An RFC 9000 RESET_STREAM frame.
    ResetStream(QuicResetStreamFrame<'a>),
    /// An RFC 9000 STOP_SENDING frame.
    StopSending(QuicStopSendingFrame<'a>),
    /// An RFC 9000 MAX_DATA frame.
    MaxData(QuicMaxDataFrame<'a>),
    /// An RFC 9000 MAX_STREAM_DATA frame.
    MaxStreamData(QuicMaxStreamDataFrame<'a>),
    /// An RFC 9000 MAX_STREAMS frame.
    MaxStreams(QuicMaxStreamsFrame<'a>),
    /// An RFC 9000 DATA_BLOCKED frame.
    DataBlocked(QuicDataBlockedFrame<'a>),
    /// An RFC 9000 STREAM_DATA_BLOCKED frame.
    StreamDataBlocked(QuicStreamDataBlockedFrame<'a>),
    /// An RFC 9000 STREAMS_BLOCKED frame.
    StreamsBlocked(QuicStreamsBlockedFrame<'a>),
    /// An RFC 9000 NEW_CONNECTION_ID frame.
    NewConnectionId(QuicNewConnectionIdFrame<'a>),
    /// An RFC 9000 RETIRE_CONNECTION_ID frame.
    RetireConnectionId(QuicRetireConnectionIdFrame<'a>),
    /// An RFC 9000 PATH_CHALLENGE frame.
    PathChallenge(QuicPathChallengeFrame<'a>),
    /// An RFC 9000 PATH_RESPONSE frame.
    PathResponse(QuicPathResponseFrame<'a>),
    /// An RFC 9000 CONNECTION_CLOSE frame.
    ConnectionClose(QuicConnectionCloseFrame<'a>),
    /// An RFC 9000 HANDSHAKE_DONE frame.
    HandshakeDone(QuicHandshakeDoneFrame<'a>),
}

/// The frame that `b` starts with, its encoded type `frame_type` already read, as its kind's
/// fields and its length, or the first error.
pub open spec fn spec_frame_body(b: Seq<u8>, frame_type: Seq<u8>, offset: int) -> Result<
    (QuicFrameFields, nat),
    QuicFrameParseError,
> {
    let v = spec_decode_value(frame_type);
    let n = frame_type.len();
    if v == 0 {
        Ok((QuicFrameFields::Padding, n))
    } else if v == 1 {
        Ok((QuicFrameFields::Ping, n))
    } else if v == 2 || v == 3 {
        match spec_ack(b, frame_type, offset) {
            Err(e) => Err(e),
            Ok(f) => Ok((QuicFrameFields::Ack(f), f.frame_len)),
        }
    } else if v == 4 {
        match spec_three_fields(b, frame_type, offset, QuicFrameField::StreamId, QuicFrameField::ApplicationErrorCode, QuicFrameField::FinalSize) {
            Err(e) => Err(e),
            Ok((a, c, d)) => Ok((QuicFrameFields::ResetStream(a, c, d), n + a.len() + c.len() + d.len())),
        }
    } else if v == 5 {
        match spec_two_fields(b, frame_type, offset, QuicFrameField::StreamId, QuicFrameField::ApplicationErrorCode) {
            Err(e) => Err(e),
            Ok((a, c)) => Ok((QuicFrameFields::StopSending(a, c), n + a.len() + c.len())),
        }
    } else if v == 6 {
        match spec_crypto(b, frame_type, offset) {
            Err(e) => Err(e),
            Ok(f) => Ok((QuicFrameFields::Crypto(f), f.frame_len)),
        }
    } else if v == 7 {
        match spec_new_token(b, frame_type, offset) {
            Err(e) => Err(e),
            Ok(f) => Ok((QuicFrameFields::NewToken(f), f.frame_len)),
        }
    } else if 0x08 <= v <= 0x0f {
        match spec_stream(b, frame_type, offset) {
            Err(e) => Err(e),
            Ok(f) => Ok((QuicFrameFields::Stream(f), f.frame_len)),
        }
    } else if v == 0x10 || v == 0x14 {
        match spec_one_field(b, frame_type, offset, QuicFrameField::MaximumData) {
            Err(e) => Err(e),
            Ok(a) => Ok((
                if v == 0x10 {
                    QuicFrameFields::MaxData(a)
                } else {
                    QuicFrameFields::DataBlocked(a)
                },
                n + a.len(),
            )),
        }
    } else if v == 0x11 || v == 0x15 {
        match spec_two_fields(b, frame_type, offset, QuicFrameField::StreamId, QuicFrameField::MaximumStreamData) {
            Err(e) => Err(e),
            Ok((a, c)) => Ok((
                if v == 0x11 {
                    QuicFrameFields::MaxStreamData(a, c)
                } else {
                    QuicFrameFields::StreamDataBlocked(a, c)
                },
                n + a.len() + c.len(),
            )),
        }
    } else if 0x12 <= v <= 0x13 || 0x16 <= v <= 0x17 {
        let direction = if v == 0x12 || v == 0x16 {
            QuicStreamDirection::Bidirectional
        } else {
            QuicStreamDirection::Unidirectional
        };
        match spec_maximum_streams(b, frame_type, offset) {
            Err(e) => Err(e),
            Ok(a) => Ok((
                if v <= 0x13 {
                    QuicFrameFields::MaxStreams(direction, a)
                } else {
                    QuicFrameFields::StreamsBlocked(direction, a)
                },
                n + a.len(),
            )),
        }
    } else if v == 0x18 {
        match spec_new_connection_id(b, frame_type, offset) {
            Err(e) => Err(e),
            Ok(f) => Ok((QuicFrameFields::NewConnectionId(f), f.frame_len)),
        }
    } else if v == 0x19 {
        match spec_retire_connection_id(b, frame_type, offset) {
            Err(e) => Err(e),
            Ok((_, a)) => Ok((QuicFrameFields::RetireConnectionId(a), n + a.len())),
        }
    } else if v == 0x1a || v == 0x1b {
        match spec_path_data(b, frame_type, offset) {
            Err(e) => Err(e),
            Ok(d) => Ok((
                if v == 0x1a {
                    QuicFrameFields::PathChallenge(d)
                } else {
                    QuicFrameFields::PathResponse(d)
                },
                n + 8,
            )),
        }
    } else if v == 0x1c || v == 0x1d {
        match spec_connection_close(b, frame_type, offset) {
            Err(e) => Err(e),
            Ok(f) => Ok((QuicFrameFields::ConnectionClose(f), f.frame_len)),
        }
    } else if v == 0x1e {
        Ok((QuicFrameFields::HandshakeDone, n))
    } else {
        Err(
            QuicFrameParseError::UnsupportedFrameType {
                value: v,
                length: spec_len_from_first(frame_type[0]),
                offset: offset as usize,
            },
        )
    }
}

/// The frame that `b` starts with, `offset` bytes into its sequence: its encoded type, its
/// kind's fields and its length, or the first error.
#[verifier::opaque]
pub open spec fn spec_parse_frame(b: Seq<u8>, offset: int) -> Result<
    (Seq<u8>, QuicFrameFields, nat),
    QuicFrameParseError,
> {
    if !spec_varint_complete(b) {
        Err(
            QuicFrameParseError::FrameType {
                offset: offset as usize,
                error: QuicVarIntParseError::Incomplete {
                    required: spec_required(b) as usize,
                    available: b.len() as usize,
                },
            },
        )
    } else {
        let frame_type = spec_varint_span(b);
        match spec_frame_body(b, frame_type, offset) {
            Err(e) => Err(e),
            Ok((f, n)) => Ok((frame_type, f, n)),
        }
    }
}

/// Whether every frame of the sequence `b`, which starts `offset` bytes into the whole, parses.
pub open spec fn spec_frames_from(b: Seq<u8>, offset: int) -> Result<(), QuicFrameParseError>
    decreases b.len(),
{
    if b.len() == 0 {
        Ok(())
    } else {
        match spec_parse_frame(b, offset) {
            Err(e) => Err(e),
            Ok((_, _, n)) => {
                proof {
                    lemma_parse_frame_span(b, offset);
                }
                spec_frames_from(b.subrange(n as int, b.len() as int), offset + n)
            },
        }
    }
}

proof fn lemma_ack_span(b: Seq<u8>, frame_type: Seq<u8>, offset: int)
    requires
        spec_frame_type_prefix(b, frame_type),
    ensures
        spec_ack(b, frame_type, offset) matches Ok(f) ==> frame_type.len() <= f.frame_len <= b.len(),
{
    let s0 = frame_type.len() as int;
    lemma_field_span(b, s0, offset, QuicFrameField::LargestAcknowledged);
    if let Ok(la) = spec_field_at(b, s0, offset, QuicFrameField::LargestAcknowledged) {
        let s1 = s0 + la.len();
        lemma_field_span(b, s1, offset, QuicFrameField::AckDelay);
        if let Ok(ad) = spec_field_at(b, s1, offset, QuicFrameField::AckDelay) {
            let s2 = s1 + ad.len();
            lemma_field_span(b, s2, offset, QuicFrameField::AckRangeCount);
            if let Ok(arc) = spec_field_at(b, s2, offset, QuicFrameField::AckRangeCount) {
                let s3 = s2 + arc.len();
                lemma_field_span(b, s3, offset, QuicFrameField::FirstAckRange);
                if let Ok(far) = spec_field_at(b, s3, offset, QuicFrameField::FirstAckRange) {
                    let rs = s3 + far.len();
                    if let Some(fs) = spec_subtract(spec_decode_value(la), spec_decode_value(far), 0) {
                        let count = spec_decode_value(arc) as nat;
                        lemma_ranges_end_ge(b, rs, fs, offset, count);
                        if let Ok(re) = spec_ack_ranges_end(b, rs, fs, offset, count) {
                            lemma_field_span(b, re, offset, QuicFrameField::Ect0Count);
                            if let Ok(e0) = spec_field_at(b, re, offset, QuicFrameField::Ect0Count) {
                                lemma_field_span(b, re + e0.len(), offset, QuicFrameField::Ect1Count);
                                if let Ok(e1) = spec_field_at(b, re + e0.len(), offset, QuicFrameField::Ect1Count) {
                                    lemma_field_span(b, re + e0.len() + e1.len(), offset, QuicFrameField::EcnCeCount);
                                }
                            }
                        }
                    }
                }
            }
        }
    }
}

proof fn lemma_fields_span(b: Seq<u8>, frame_type: Seq<u8>, offset: int, f1: QuicFrameField, f2: QuicFrameField, f3: QuicFrameField)
    requires
        spec_frame_type_prefix(b, frame_type),
    ensures
        spec_one_field(b, frame_type, offset, f1) matches Ok(a) ==> frame_type.len() + a.len() <= b.len(),
        spec_maximum_streams(b, frame_type, offset) matches Ok(a) ==> frame_type.len() + a.len() <= b.len(),
        spec_retire_connection_id(b, frame_type, offset) matches Ok((_, a)) ==> frame_type.len() + a.len() <= b.len(),
        spec_two_fields(b, frame_type, offset, f1, f2) matches Ok((a, c)) ==> frame_type.len() + a.len() + c.len() <= b.len(),
        spec_three_fields(b, frame_type, offset, f1, f2, f3) matches Ok((a, c, d)) ==> frame_type.len() + a.len() + c.len() + d.len() <= b.len(),
        spec_path_data(b, frame_type, offset) is Ok ==> frame_type.len() + 8 <= b.len(),
{
    let s0 = frame_type.len() as int;
    lemma_field_span(b, s0, offset, f1);
    lemma_field_span(b, s0, offset, QuicFrameField::MaximumStreams);
    lemma_field_span(b, s0, offset, QuicFrameField::SequenceNumber);
    if let Ok(a) = spec_field_at(b, s0, offset, f1) {
        lemma_field_span(b, s0 + a.len(), offset, f2);
        if let Ok(c) = spec_field_at(b, s0 + a.len(), offset, f2) {
            lemma_field_span(b, s0 + a.len() + c.len(), offset, f3);
        }
    }
}

proof fn lemma_data_frames_span(b: Seq<u8>, frame_type: Seq<u8>, offset: int)
    requires
        spec_frame_type_prefix(b, frame_type),
    ensures
        spec_crypto(b, frame_type, offset) matches Ok(f) ==> frame_type.len() <= f.frame_len <= b.len(),
        spec_new_token(b, frame_type, offset) matches Ok(f) ==> frame_type.len() <= f.frame_len <= b.len(),
        spec_stream(b, frame_type, offset) matches Ok(f) ==> frame_type.len() <= f.frame_len <= b.len(),
{
    let s0 = frame_type.len() as int;
    lemma_field_span(b, s0, offset, QuicFrameField::CryptoOffset);
    lemma_field_span(b, s0, offset, QuicFrameField::TokenLength);
    if let Ok(co) = spec_field_at(b, s0, offset, QuicFrameField::CryptoOffset) {
        lemma_field_span(b, s0 + co.len(), offset, QuicFrameField::CryptoLength);
    }
    lemma_stream_span(b, frame_type, offset);
}

proof fn lemma_close_frames_span(b: Seq<u8>, frame_type: Seq<u8>, offset: int)
    requires
        spec_frame_type_prefix(b, frame_type),
    ensures
        spec_connection_close(b, frame_type, offset) matches Ok(f) ==> frame_type.len() <= f.frame_len <= b.len(),
        spec_new_connection_id(b, frame_type, offset) matches Ok(f) ==> frame_type.len() <= f.frame_len <= b.len(),
{
    let s0 = frame_type.len() as int;
    lemma_field_span(b, s0, offset, QuicFrameField::ConnectionCloseErrorCode);
    if let Ok(ec) = spec_field_at(b, s0, offset, QuicFrameField::ConnectionCloseErrorCode) {
        let s1 = s0 + ec.len();
        lemma_field_span(b, s1, offset, QuicFrameField::TriggeringFrameType);
        lemma_field_span(b, s1, offset, QuicFrameField::ReasonPhraseLength);
        if let Ok(tf) = spec_field_at(b, s1, offset, QuicFrameField::TriggeringFrameType) {
            lemma_field_span(b, s1 + tf.len(), offset, QuicFrameField::ReasonPhraseLength);
        }
    }
    lemma_field_span(b, s0, offset, QuicFrameField::SequenceNumber);
    if let Ok(seq) = spec_field_at(b, s0, offset, QuicFrameField::SequenceNumber) {
        lemma_field_span(b, s0 + seq.len(), offset, QuicFrameField::RetirePriorTo);
    }
}

proof fn lemma_frame_body_span(b: Seq<u8>, frame_type: Seq<u8>, offset: int)
    requires
        spec_frame_type_prefix(b, frame_type),
    ensures
        spec_frame_body(b, frame_type, offset) matches Ok((_, n)) ==> frame_type.len() <= n <= b.len(),
{
    lemma_ack_span(b, frame_type, offset);
    lemma_data_frames_span(b, frame_type, offset);
    lemma_close_frames_span(b, frame_type, offset);
    lemma_fields_span(b, frame_type, offset, QuicFrameField::StreamId, QuicFrameField::ApplicationErrorCode, QuicFrameField::FinalSize);
    lemma_fields_span(b, frame_type, offset, QuicFrameField::MaximumData, QuicFrameField::ApplicationErrorCode, QuicFrameField::FinalSize);
    lemma_fields_span(b, frame_type, offset, QuicFrameField::StreamId, QuicFrameField::MaximumStreamData, QuicFrameField::FinalSize);
}

proof fn lemma_ack_error(b: Seq<u8>, frame_type: Seq<u8>, offset: int)
    ensures
        spec_ack(b, frame_type, offset) matches Err(e) ==> !(e is EmptySequence),
{
    if let Ok((la, ad, arc, far)) = spec_ack_head(b, frame_type, offset) {
        let rs = (frame_type.len() + la.len() + ad.len() + arc.len() + far.len()) as int;
        if let Some(fs) = spec_subtract(spec_decode_value(la), spec_decode_value(far), 0) {
            lemma_ranges_end_error(b, rs, fs, offset, spec_decode_value(arc) as nat);
        }
    }
}

proof fn lemma_data_frames_error(b: Seq<u8>, frame_type: Seq<u8>, offset: int)
    ensures
        spec_crypto(b, frame_type, offset) matches Err(e) ==> !(e is EmptySequence),
        spec_new_token(b, frame_type, offset) matches Err(e) ==> !(e is EmptySequence),
        spec_stream(b, frame_type, offset) matches Err(e) ==> !(e is EmptySequence),
{
}

proof fn lemma_close_frames_error(b: Seq<u8>, frame_type: Seq<u8>, offset: int)
    ensures
        spec_connection_close(b, frame_type, offset) matches Err(e) ==> !(e is EmptySequence),
        spec_new_connection_id(b, frame_type, offset) matches Err(e) ==> !(e is EmptySequence),
{
}

proof fn lemma_fields_error(b: Seq<u8>, frame_type: Seq<u8>, offset: int, f1: QuicFrameField, f2: QuicFrameField, f3: QuicFrameField)
    ensures
        spec_one_field(b, frame_type, offset, f1) matches Err(e) ==> !(e is EmptySequence),
        spec_maximum_streams(b, frame_type, offset) matches Err(e) ==> !(e is EmptySequence),
        spec_retire_connection_id(b, frame_type, offset) matches Err(e) ==> !(e is EmptySequence),
        spec_two_fields(b, frame_type, offset, f1, f2) matches Err(e) ==> !(e is EmptySequence),
        spec_three_fields(b, frame_type, offset, f1, f2, f3) matches Err(e) ==> !(e is EmptySequence),
        spec_path_data(b, frame_type, offset) matches Err(e) ==> !(e is EmptySequence),
{
}

/// Reading one frame never reports an empty frame sequence: that error is only for a sequence
/// with no bytes.
pub proof fn lemma_parse_frame_error(b: Seq<u8>, offset: int)
    ensures
        spec_parse_frame(b, offset) matches Err(e) ==> !(e is EmptySequence),
{
    reveal(spec_parse_frame);
    if spec_varint_complete(b) {
        let frame_type = spec_varint_span(b);
        lemma_ack_error(b, frame_type, offset);
        lemma_data_frames_error(b, frame_type, offset);
        lemma_close_frames_error(b, frame_type, offset);
        lemma_fields_error(b, frame_type, offset, QuicFrameField::StreamId, QuicFrameField::ApplicationErrorCode, QuicFrameField::FinalSize);
        lemma_fields_error(b, frame_type, offset, QuicFrameField::MaximumData, QuicFrameField::ApplicationErrorCode, QuicFrameField::FinalSize);
        lemma_fields_error(b, frame_type, offset, QuicFrameField::StreamId, QuicFrameField::MaximumStreamData, QuicFrameField::FinalSize);
    }
}

/// Validating a frame sequence never reports an empty sequence for bytes it reads.
pub proof fn lemma_frames_from_error(b: Seq<u8>, offset: int)
    ensures
        spec_frames_from(b, offset) matches Err(e) ==> !(e is EmptySequence),
    decreases b.len(),
{
    if b.len() > 0 {
        lemma_parse_frame_error(b, offset);
        lemma_parse_frame_span(b, offset);
        if let Ok((_, _, n)) = spec_parse_frame(b, offset) {
            lemma_frames_from_error(b.subrange(n as int, b.len() as int), offset + n);
        }
    }
}

/// RFC 9000 section 12.4, Table 3: the frame type value decides the frame's kind: 0x00
/// PADDING, 0x01 PING, 0x02 and 0x03 ACK (0x03 with ECN counts), 0x04 RESET_STREAM, 0x05
/// STOP_SENDING, 0x06 CRYPTO, 0x07 NEW_TOKEN, 0x08 to 0x0f STREAM, 0x10 MAX_DATA, 0x11
/// MAX_STREAM_DATA, 0x12 and 0x13 MAX_STREAMS (bidirectional, unidirectional), 0x14
/// DATA_BLOCKED, 0x15 STREAM_DATA_BLOCKED, 0x16 and 0x17 STREAMS_BLOCKED (bidirectional,
/// unidirectional), 0x18 NEW_CONNECTION_ID, 0x19 RETIRE_CONNECTION_ID, 0x1a PATH_CHALLENGE,
/// 0x1b PATH_RESPONSE, 0x1c and 0x1d CONNECTION_CLOSE (0x1c with a triggering frame type) and
/// 0x1e HANDSHAKE_DONE; no other type parses.
pub proof fn lemma_frame_kind_by_type(b: Seq<u8>, offset: int)
    ensures
        spec_parse_frame(b, offset) matches Ok((frame_type, fields, _)) ==> {
            let v = spec_decode_value(frame_type);
            &&& (fields is Padding <==> v == 0x00)
            &&& (fields is Ping <==> v == 0x01)
            &&& (fields is Ack <==> v == 0x02 || v == 0x03)
            &&& (fields matches QuicFrameFields::Ack(a) ==> (a.ecn_counts is Some <==> v == 0x03))
            &&& (fields is ResetStream <==> v == 0x04)
            &&& (fields is StopSending <==> v == 0x05)
            &&& (fields is Crypto <==> v == 0x06)
            &&& (fields is NewToken <==> v == 0x07)
            &&& (fields is Stream <==> 0x08 <= v <= 0x0f)
            &&& (fields is MaxData <==> v == 0x10)
            &&& (fields is MaxStreamData <==> v == 0x11)
            &&& (fields matches QuicFrameFields::MaxStreams(d, _) ==> (d
                == QuicStreamDirection::Bidirectional <==> v == 0x12))
            &&& (fields is MaxStreams <==> v == 0x12 || v == 0x13)
            &&& (fields is DataBlocked <==> v == 0x14)
            &&& (fields is StreamDataBlocked <==> v == 0x15)
            &&& (fields matches QuicFrameFields::StreamsBlocked(d, _) ==> (d
                == QuicStreamDirection::Bidirectional <==> v == 0x16))
            &&& (fields is StreamsBlocked <==> v == 0x16 || v == 0x17)
            &&& (fields is NewConnectionId <==> v == 0x18)
            &&& (fields is RetireConnectionId <==> v == 0x19)
            &&& (fields is PathChallenge <==> v == 0x1a)
            &&& (fields is PathResponse <==> v == 0x1b)
            &&& (fields is ConnectionClose <==> v == 0x1c || v == 0x1d)
            &&& (fields matches QuicFrameFields::ConnectionClose(c) ==> (c.triggering_frame_type
                is Some <==> v == 0x1c))
            &&& (fields is HandshakeDone <==> v == 0x1e)
        },
        spec_varint_complete(b) && spec_decode_value(spec_varint_span(b)) > 0x1e ==> spec_parse_frame(
            b,
            offset,
        ) matches Err(QuicFrameParseError::UnsupportedFrameType { .. }),
{
    reveal(spec_parse_frame);
}

/// A parsed frame begins with its encoded type, and is nonempty and no longer than its input.
pub proof fn lemma_parse_frame_span(b: Seq<u8>, offset: int)
    ensures
        spec_parse_frame(b, offset) matches Ok((frame_type, _, n)) ==> {
            &&& 0 < frame_type.len() <= n <= b.len()
            &&& frame_type == b.subrange(0, frame_type.len() as int)
            &&& frame_type == spec_varint_span(b)
            &&& spec_varint_complete(b)
        },
{
    reveal(spec_parse_frame);
    if spec_varint_complete(b) {
        let frame_type = spec_varint_span(b);
        lemma_frame_body_span(b, frame_type, offset);
    }
}

/// The items that iterating over the frame sequence `b`, which starts `offset` bytes into the
/// whole, yields: each frame's bytes, encoded type and fields, up to and including the first
/// error, which ends the iteration.
pub open spec fn spec_frame_items(b: Seq<u8>, offset: int) -> Seq<
    Result<(Seq<u8>, Seq<u8>, QuicFrameFields), QuicFrameParseError>,
>
    decreases b.len(),
{
    if b.len() == 0 {
        Seq::empty()
    } else {
        match spec_parse_frame(b, offset) {
            Err(e) => seq![Err(e)],
            Ok((frame_type, fields, n)) => {
                proof {
                    lemma_parse_frame_span(b, offset);
                }
                seq![Ok((b.subrange(0, n as int), frame_type, fields))] + spec_frame_items(
                    b.subrange(n as int, b.len() as int),
                    offset + n,
                )
            },
        }
    }
}

/// The bytes of the frames among `items`, in order.
pub open spec fn spec_frame_items_bytes(
    items: Seq<Result<(Seq<u8>, Seq<u8>, QuicFrameFields), QuicFrameParseError>>,
) -> Seq<u8>
    decreases items.len(),
{
    if items.len() == 0 {
        Seq::empty()
    } else {
        let head = match items[0] {
            Ok((frame, _, _)) => frame,
            Err(_) => Seq::empty(),
        };
        head + spec_frame_items_bytes(items.drop_first())
    }
}

/// A frame, or the error, that an iteration step returned, as an item.
pub open spec fn spec_frame_item(r: Result<QuicFrame<'_>, QuicFrameParseError>) -> Result<
    (Seq<u8>, Seq<u8>, QuicFrameFields),
    QuicFrameParseError,
> {
    match r {
        Ok(frame) => Ok((frame.spec_bytes(), frame.spec_frame_type(), frame.spec_fields())),
        Err(e) => Err(e),
    }
}

/// One unfolding of the frame items: the first item, and the items after it.
pub proof fn lemma_frame_items_step(b: Seq<u8>, offset: int)
    requires
        b.len() > 0,
    ensures
        spec_frame_items(b, offset).len() > 0,
        match spec_parse_frame(b, offset) {
            Err(e) => spec_frame_items(b, offset)[0] == Err::<
                (Seq<u8>, Seq<u8>, QuicFrameFields),
                QuicFrameParseError,
            >(e) && spec_frame_items(b, offset).drop_first() == Seq::<
                Result<(Seq<u8>, Seq<u8>, QuicFrameFields), QuicFrameParseError>,
            >::empty(),
            Ok((frame_type, fields, n)) => spec_frame_items(b, offset)[0] == Ok::<
                (Seq<u8>, Seq<u8>, QuicFrameFields),
                QuicFrameParseError,
            >((b.subrange(0, n as int), frame_type, fields)) && spec_frame_items(b, offset).drop_first()
                == spec_frame_items(b.subrange(n as int, b.len() as int), offset + n),
        },
{
    lemma_parse_frame_span(b, offset);
    match spec_parse_frame(b, offset) {
        Err(e) => {
            assert(spec_frame_items(b, offset).drop_first() =~= Seq::empty());
        },
        Ok((frame_type, fields, n)) => {
            let rest = spec_frame_items(b.subrange(n as int, b.len() as int), offset + n);
            assert(spec_frame_items(b, offset).drop_first() =~= rest);
        },
    }
}

/// Iterating over a frame sequence yields frames up to the first error, which is the last
/// item; the sequence validates exactly when no item is an error, and that first error is
/// what validation reports. The bytes of the frames yielded are a prefix of the sequence, and
/// all of it when it validates.
pub proof fn lemma_frame_items(b: Seq<u8>, offset: int)
    ensures
        (spec_frames_from(b, offset) is Ok) <==> (forall|i: int|
            0 <= i < spec_frame_items(b, offset).len() ==> #[trigger] spec_frame_items(b, offset)[i] is Ok),
        forall|i: int|
            0 <= i < spec_frame_items(b, offset).len() - 1 ==> #[trigger] spec_frame_items(b, offset)[i] is Ok,
        spec_frames_from(b, offset) matches Err(e) ==> spec_frame_items(b, offset).len() > 0
            && spec_frame_items(b, offset).last() == Err::<
            (Seq<u8>, Seq<u8>, QuicFrameFields),
            QuicFrameParseError,
        >(e),
        spec_frame_items_bytes(spec_frame_items(b, offset)).len() <= b.len(),
        spec_frame_items_bytes(spec_frame_items(b, offset)) == b.subrange(
            0,
            spec_frame_items_bytes(spec_frame_items(b, offset)).len() as int,
        ),
        spec_frames_from(b, offset) is Ok ==> spec_frame_items_bytes(spec_frame_items(b, offset)) == b,
    decreases b.len(),
{
    let items = spec_frame_items(b, offset);
    if b.len() == 0 {
        assert(spec_frame_items_bytes(items) =~= b.subrange(0, 0));
        assert(b =~= Seq::<u8>::empty());
    } else {
        lemma_frame_items_step(b, offset);
        lemma_parse_frame_span(b, offset);
        match spec_parse_frame(b, offset) {
            Err(e) => {
                assert(spec_frame_items_bytes(items.drop_first()) =~= Seq::<u8>::empty());
                assert(spec_frame_items_bytes(items) =~= b.subrange(0, 0));
            },
            Ok((frame_type, fields, n)) => {
                let rest_b = b.subrange(n as int, b.len() as int);
                let rest = spec_frame_items(rest_b, offset + n);
                lemma_frame_items(rest_b, offset + n);
                assert(items.drop_first() == rest);
                assert forall|i: int| 0 < i < items.len() implies items[i] == rest[i - 1] by {
                    assert(items.drop_first()[i - 1] == items[i]);
                }
                let rb = spec_frame_items_bytes(rest);
                assert(spec_frame_items_bytes(items) == b.subrange(0, n as int) + rb);
                assert(rb =~= rest_b.subrange(0, rb.len() as int));
                assert(spec_frame_items_bytes(items) =~= b.subrange(0, (n + rb.len()) as int));
                if spec_frames_from(b, offset) is Ok {
                    assert(rest_b =~= b.subrange(n as int, b.len() as int));
                    assert(b.subrange(0, n as int) + rest_b =~= b);
                }
                if forall|i: int| 0 <= i < items.len() ==> #[trigger] items[i] is Ok {
                    assert forall|i: int| 0 <= i < rest.len() implies #[trigger] rest[i] is Ok by {
                        assert(items[i + 1] is Ok);
                    }
                }
                if items.len() > 1 {
                    assert(items.last() == rest.last());
                }
            },
        }
    }
}

impl<'a> QuicFrame<'a> {
    /// The exact encoded frame bytes.
    pub open spec fn spec_bytes(&self) -> Seq<u8> {
        match *self {
            QuicFrame::Padding(f) => f@,
            QuicFrame::Ping(f) => f@,
            QuicFrame::Ack(f) => f@,
            QuicFrame::NewToken(f) => f@,
            QuicFrame::Crypto(f) => f@,
            QuicFrame::Stream(f) => f@,
            QuicFrame::ResetStream(f) => f@,
            QuicFrame::StopSending(f) => f@,
            QuicFrame::MaxData(f) => f@,
            QuicFrame::MaxStreamData(f) => f@,
            QuicFrame::MaxStreams(f) => f@,
            QuicFrame::DataBlocked(f) => f@,
            QuicFrame::StreamDataBlocked(f) => f@,
            QuicFrame::StreamsBlocked(f) => f@,
            QuicFrame::NewConnectionId(f) => f@,
            QuicFrame::RetireConnectionId(f) => f@,
            QuicFrame::PathChallenge(f) => f@,
            QuicFrame::PathResponse(f) => f@,
            QuicFrame::ConnectionClose(f) => f@,
            QuicFrame::HandshakeDone(f) => f@,
        }
    }

    /// The encoded frame type.
    pub open spec fn spec_frame_type(&self) -> Seq<u8> {
        match *self {
            QuicFrame::Padding(f) => f.spec_frame_type(),
            QuicFrame::Ping(f) => f.spec_frame_type(),
            QuicFrame::Ack(f) => f.fields().frame_type,
            QuicFrame::NewToken(f) => f.fields().frame_type,
            QuicFrame::Crypto(f) => f.fields().frame_type,
            QuicFrame::Stream(f) => f.fields().frame_type,
            QuicFrame::ResetStream(f) => f.spec_frame_type(),
            QuicFrame::StopSending(f) => f.spec_frame_type(),
            QuicFrame::MaxData(f) => f.spec_frame_type(),
            QuicFrame::MaxStreamData(f) => f.spec_frame_type(),
            QuicFrame::MaxStreams(f) => f.spec_frame_type(),
            QuicFrame::DataBlocked(f) => f.spec_frame_type(),
            QuicFrame::StreamDataBlocked(f) => f.spec_frame_type(),
            QuicFrame::StreamsBlocked(f) => f.spec_frame_type(),
            QuicFrame::NewConnectionId(f) => f.fields().frame_type,
            QuicFrame::RetireConnectionId(f) => f.fields().0,
            QuicFrame::PathChallenge(f) => f.spec_frame_type(),
            QuicFrame::PathResponse(f) => f.spec_frame_type(),
            QuicFrame::ConnectionClose(f) => f.fields().frame_type,
            QuicFrame::HandshakeDone(f) => f.spec_frame_type(),
        }
    }

    /// The kind's fields.
    pub open spec fn spec_fields(&self) -> QuicFrameFields {
        match *self {
            QuicFrame::Padding(f) => QuicFrameFields::Padding,
            QuicFrame::Ping(f) => QuicFrameFields::Ping,
            QuicFrame::Ack(f) => QuicFrameFields::Ack(f.fields()),
            QuicFrame::NewToken(f) => QuicFrameFields::NewToken(f.fields()),
            QuicFrame::Crypto(f) => QuicFrameFields::Crypto(f.fields()),
            QuicFrame::Stream(f) => QuicFrameFields::Stream(f.fields()),
            QuicFrame::ResetStream(f) => QuicFrameFields::ResetStream(f.fields().0, f.fields().1, f.fields().2),
            QuicFrame::StopSending(f) => QuicFrameFields::StopSending(f.fields().0, f.fields().1),
            QuicFrame::MaxData(f) => QuicFrameFields::MaxData(f.fields()),
            QuicFrame::MaxStreamData(f) => QuicFrameFields::MaxStreamData(f.fields().0, f.fields().1),
            QuicFrame::MaxStreams(f) => QuicFrameFields::MaxStreams(f.spec_direction(), f.fields()),
            QuicFrame::DataBlocked(f) => QuicFrameFields::DataBlocked(f.fields()),
            QuicFrame::StreamDataBlocked(f) => QuicFrameFields::StreamDataBlocked(f.fields().0, f.fields().1),
            QuicFrame::StreamsBlocked(f) => QuicFrameFields::StreamsBlocked(f.spec_direction(), f.fields()),
            QuicFrame::NewConnectionId(f) => QuicFrameFields::NewConnectionId(f.fields()),
            QuicFrame::RetireConnectionId(f) => QuicFrameFields::RetireConnectionId(f.fields().1),
            QuicFrame::PathChallenge(f) => QuicFrameFields::PathChallenge(f.spec_data()),
            QuicFrame::PathResponse(f) => QuicFrameFields::PathResponse(f.spec_data()),
            QuicFrame::ConnectionClose(f) => QuicFrameFields::ConnectionClose(f.fields()),
            QuicFrame::HandshakeDone(f) => QuicFrameFields::HandshakeDone,
        }
    }

    /// Parses exactly one frame, returning its unconsumed input suffix.
    pub fn parse(bytes: &'a [u8]) -> (r: Result<(Self, &'a [u8]), QuicFrameParseError>)
        ensures
            match r {
                Ok((frame, suffix)) => spec_parse_frame(bytes@, 0) == Ok::<
                    (Seq<u8>, QuicFrameFields, nat),
                    QuicFrameParseError,
                >((frame.spec_frame_type(), frame.spec_fields(), frame.spec_bytes().len()))
                    && frame.spec_bytes() == bytes@.subrange(0, frame.spec_bytes().len() as int)
                    && suffix@ == bytes@.subrange(frame.spec_bytes().len() as int, bytes@.len() as int)
                    && frame.spec_bytes() + suffix@ == bytes@ && frame.spec_bytes().len() > 0
                    && frame.spec_frame_type() == spec_varint_span(bytes@)
                    && frame.spec_frame_type() == spec_varint_span(frame.spec_bytes())
                    && frame.spec_frame_type() == frame.spec_bytes().subrange(
                    0,
                    frame.spec_frame_type().len() as int,
                ),
                Err(e) => spec_parse_frame(bytes@, 0) == Err::<
                    (Seq<u8>, QuicFrameFields, nat),
                    QuicFrameParseError,
                >(e),
            },
    {
        proof {
            assert(bytes.len() == bytes@.len());
            lemma_parse_frame_span(bytes@, 0);
        }
        let r = parse_at(bytes, 0);
        proof {
            if let Ok((frame, suffix)) = r {
                let fb = frame.spec_bytes();
                let ft = frame.spec_frame_type();
                assert(fb + suffix@ =~= bytes@);
                assert(fb.subrange(0, ft.len() as int) =~= bytes@.subrange(0, ft.len() as int));
                assert(fb[0] == bytes@[0]);
                assert(spec_required(fb) == spec_required(bytes@));
                assert(ft == spec_varint_span(bytes@));
                assert(ft.len() == spec_required(bytes@));
                assert(ft.len() <= fb.len());
                assert(spec_varint_span(fb) =~= ft);
            }
        }
        r
    }

    /// Returns the exact encoded frame bytes.
    pub fn as_bytes(self) -> (r: &'a [u8])
        ensures
            r@ == self.spec_bytes(),
    {
        match self {
            QuicFrame::Padding(frame) => frame.as_bytes(),
            QuicFrame::Ping(frame) => frame.as_bytes(),
            QuicFrame::Ack(frame) => frame.as_bytes(),
            QuicFrame::NewToken(frame) => frame.as_bytes(),
            QuicFrame::Crypto(frame) => frame.as_bytes(),
            QuicFrame::Stream(frame) => frame.as_bytes(),
            QuicFrame::ResetStream(frame) => frame.as_bytes(),
            QuicFrame::StopSending(frame) => frame.as_bytes(),
            QuicFrame::MaxData(frame) => frame.as_bytes(),
            QuicFrame::MaxStreamData(frame) => frame.as_bytes(),
            QuicFrame::MaxStreams(frame) => frame.as_bytes(),
            QuicFrame::DataBlocked(frame) => frame.as_bytes(),
            QuicFrame::StreamDataBlocked(frame) => frame.as_bytes(),
            QuicFrame::StreamsBlocked(frame) => frame.as_bytes(),
            QuicFrame::NewConnectionId(frame) => frame.as_bytes(),
            QuicFrame::RetireConnectionId(frame) => frame.as_bytes(),
            QuicFrame::PathChallenge(frame) => frame.as_bytes(),
            QuicFrame::PathResponse(frame) => frame.as_bytes(),
            QuicFrame::ConnectionClose(frame) => frame.as_bytes(),
            QuicFrame::HandshakeDone(frame) => frame.as_bytes(),
        }
    }

    /// Returns the exact encoded frame-type variable integer.
    pub fn frame_type(self) -> (r: QuicVarInt<'a>)
        ensures
            r@ == self.spec_frame_type(),
    {
        match self {
            QuicFrame::Padding(frame) => frame.frame_type(),
            QuicFrame::Ping(frame) => frame.frame_type(),
            QuicFrame::Ack(frame) => frame.frame_type(),
            QuicFrame::NewToken(frame) => frame.frame_type(),
            QuicFrame::Crypto(frame) => frame.frame_type(),
            QuicFrame::Stream(frame) => frame.frame_type(),
            QuicFrame::ResetStream(frame) => frame.frame_type(),
            QuicFrame::StopSending(frame) => frame.frame_type(),
            QuicFrame::MaxData(frame) => frame.frame_type(),
            QuicFrame::MaxStreamData(frame) => frame.frame_type(),
            QuicFrame::MaxStreams(frame) => frame.frame_type(),
            QuicFrame::DataBlocked(frame) => frame.frame_type(),
            QuicFrame::StreamDataBlocked(frame) => frame.frame_type(),
            QuicFrame::StreamsBlocked(frame) => frame.frame_type(),
            QuicFrame::NewConnectionId(frame) => frame.frame_type(),
            QuicFrame::RetireConnectionId(frame) => frame.frame_type(),
            QuicFrame::PathChallenge(frame) => frame.frame_type(),
            QuicFrame::PathResponse(frame) => frame.frame_type(),
            QuicFrame::ConnectionClose(frame) => frame.frame_type(),
            QuicFrame::HandshakeDone(frame) => frame.frame_type(),
        }
    }
}

/// A validated complete borrowed QUIC plaintext frame sequence.
#[derive(Clone, Copy, Debug, PartialEq, Eq)]
pub struct QuicFrames<'a> {
    bytes: &'a [u8],
}

impl<'a> View for QuicFrames<'a> {
    type V = Seq<u8>;

    closed spec fn view(&self) -> Seq<u8> {
        self.bytes@
    }
}

impl<'a> QuicFrames<'a> {
    #[verifier::type_invariant]
    closed spec fn inv(self) -> bool {
        &&& self.bytes@.len() > 0
        &&& spec_frames_from(self.bytes@, 0) is Ok
    }

    /// Parses and validates a complete nonempty plaintext frame sequence.
    pub fn parse(bytes: &'a [u8]) -> (r: Result<Self, QuicFrameParseError>)
        ensures
            match r {
                Ok(frames) => frames@ == bytes@ && bytes@.len() > 0 && spec_frames_from(bytes@, 0)
                    is Ok,
                Err(e) => if bytes@.len() == 0 {
                    e == QuicFrameParseError::EmptySequence
                } else {
                    spec_frames_from(bytes@, 0) == Err::<(), QuicFrameParseError>(e)
                },
            },
            r matches Err(e) ==> (e is EmptySequence <==> bytes@.len() == 0),
            r is Ok <==> bytes@.len() > 0 && forall|i: int|
                0 <= i < spec_frame_items(bytes@, 0).len() ==> #[trigger] spec_frame_items(bytes@, 0)[i] is Ok,
            r is Ok ==> spec_frame_items_bytes(spec_frame_items(bytes@, 0)) == bytes@,
            bytes@.len() > 0 ==> match r {
                Err(e) => spec_frame_items(bytes@, 0).last() == Err::<
                    (Seq<u8>, Seq<u8>, QuicFrameFields),
                    QuicFrameParseError,
                >(e),
                Ok(_) => true,
            },
    {
        proof {
            lemma_frame_items(bytes@, 0);
            lemma_frames_from_error(bytes@, 0);
        }
        if bytes.len() == 0 {
            return Err(QuicFrameParseError::EmptySequence);
        }
        let mut frames = QuicFrameIter::new(bytes);
        loop
            invariant
                !frames.spec_failed(),
                spec_frames_from(bytes@, 0) == spec_frames_from(
                    frames.spec_remaining(),
                    frames.spec_offset(),
                ),
            ensures
                frames.spec_remaining().len() == 0,
            decreases frames.spec_remaining().len(),
        {
            match frames.next() {
                None => break,
                Some(Err(e)) => {
                    proof {
                        lemma_frame_items(bytes@, 0);
                        lemma_frames_from_error(bytes@, 0);
                    }
                    return Err(e);
                },
                Some(Ok(_)) => {},
            }
        }
        proof {
            assert(frames.spec_remaining() =~= Seq::<u8>::empty());
        }
        Ok(Self { bytes })
    }

    /// Returns the exact complete frame-sequence bytes.
    pub fn as_bytes(self) -> (r: &'a [u8])
        ensures
            r@ == self@,
    {
        self.bytes
    }

    /// Returns a fresh iterator over this already validated frame sequence.
    pub fn iter(self) -> (r: QuicFrameIter<'a>)
        ensures
            r.spec_remaining() == self@,
            r.spec_offset() == 0,
            !r.spec_failed(),
            r.spec_rest() is Ok,
            forall|i: int| 0 <= i < r.spec_items().len() ==> #[trigger] r.spec_items()[i] is Ok,
            spec_frame_items_bytes(r.spec_items()) == self@,
    {
        proof {
            use_type_invariant(&self);
            lemma_frame_items(self.bytes@, 0);
        }
        QuicFrameIter::new(self.bytes)
    }
}

/// A fallible fused iterator over a borrowed QUIC frame sequence.
#[derive(Clone, Copy, Debug)]
pub struct QuicFrameIter<'a> {
    remaining: &'a [u8],
    offset: usize,
    failed: bool,
}

impl<'a> QuicFrameIter<'a> {
    #[verifier::type_invariant]
    closed spec fn inv(self) -> bool {
        self.offset + self.remaining@.len() <= usize::MAX
    }

    /// The bytes not yet parsed.
    pub closed spec fn spec_remaining(&self) -> Seq<u8> {
        self.remaining@
    }

    /// The sequence offset of the remaining bytes.
    pub closed spec fn spec_offset(&self) -> int {
        self.offset as int
    }

    /// Whether a frame failed to parse.
    pub closed spec fn spec_failed(&self) -> bool {
        self.failed
    }

    /// Whether parsing what is left succeeds.
    pub open spec fn spec_rest(&self) -> Result<(), QuicFrameParseError> {
        if self.spec_failed() {
            Ok(())
        } else {
            spec_frames_from(self.spec_remaining(), self.spec_offset())
        }
    }

    /// The items that the iteration still yields.
    pub open spec fn spec_items(&self) -> Seq<
        Result<(Seq<u8>, Seq<u8>, QuicFrameFields), QuicFrameParseError>,
    > {
        if self.spec_failed() {
            Seq::empty()
        } else {
            spec_frame_items(self.spec_remaining(), self.spec_offset())
        }
    }

    /// Creates an iterator that can expose a valid prefix before the first parse error.
    pub fn new(bytes: &'a [u8]) -> (r: Self)
        ensures
            r.spec_remaining() == bytes@,
            r.spec_offset() == 0,
            !r.spec_failed(),
    {
        proof {
            assert(bytes.len() == bytes@.len());
        }
        Self { remaining: bytes, offset: 0, failed: false }
    }

    /// Returns the next frame, or the error that ends iteration.
    pub fn next(&mut self) -> (r: Option<Result<QuicFrame<'a>, QuicFrameParseError>>)
        ensures
            old(self).spec_failed() || old(self).spec_remaining().len() == 0 ==> r is None
                && *final(self) == *old(self),
            !old(self).spec_failed() && old(self).spec_remaining().len() > 0 ==> match spec_parse_frame(
                old(self).spec_remaining(),
                old(self).spec_offset(),
            ) {
                Ok((frame_type, fields, n)) => r matches Some(Ok(frame)) && frame.spec_frame_type()
                    == frame_type && frame.spec_fields() == fields && frame.spec_bytes()
                    == old(self).spec_remaining().subrange(0, n as int) && 0 < n
                    <= old(self).spec_remaining().len() && final(self).spec_remaining()
                    == old(self).spec_remaining().subrange(
                    n as int,
                    old(self).spec_remaining().len() as int,
                ) && final(self).spec_offset() == old(self).spec_offset() + n
                    && !final(self).spec_failed(),
                Err(e) => r == Some(Err::<QuicFrame<'a>, QuicFrameParseError>(e))
                    && final(self).spec_failed() && final(self).spec_remaining().len() == 0,
            },
            old(self).spec_rest() is Ok ==> final(self).spec_rest() is Ok && !(r matches Some(Err(_))),
            match r {
                None => old(self).spec_items().len() == 0,
                Some(item) => old(self).spec_items().len() > 0 && spec_frame_item(item)
                    == old(self).spec_items()[0] && final(self).spec_items()
                    == old(self).spec_items().drop_first(),
            },
    {
        proof {
            use_type_invariant(&*self);
            if !self.failed && self.remaining@.len() > 0 {
                lemma_frame_items_step(self.remaining@, self.offset as int);
            }
        }
        if self.failed || self.remaining.len() == 0 {
            return None;
        }
        match parse_at(self.remaining, self.offset) {
            Ok((frame, suffix)) => {
                let consumed = frame.as_bytes().len();
                self.remaining = suffix;
                self.offset = self.offset + consumed;
                Some(Ok(frame))
            },
            Err(error) => {
                self.failed = true;
                self.remaining = empty_slice();
                Some(Err(error))
            },
        }
    }
}

fn parse_at<'a>(bytes: &'a [u8], offset: usize) -> (r: Result<(QuicFrame<'a>, &'a [u8]), QuicFrameParseError>)
    requires
        offset + bytes@.len() <= usize::MAX,
    ensures
        match r {
            Ok((frame, suffix)) => spec_parse_frame(bytes@, offset as int) == Ok::<
                (Seq<u8>, QuicFrameFields, nat),
                QuicFrameParseError,
            >((frame.spec_frame_type(), frame.spec_fields(), frame.spec_bytes().len()))
                && 0 < frame.spec_bytes().len() <= bytes@.len() && frame.spec_bytes()
                == bytes@.subrange(0, frame.spec_bytes().len() as int) && suffix@
                == bytes@.subrange(frame.spec_bytes().len() as int, bytes@.len() as int),
            Err(e) => spec_parse_frame(bytes@, offset as int) == Err::<
                (Seq<u8>, QuicFrameFields, nat),
                QuicFrameParseError,
            >(e),
        },
{
    proof {
        reveal(spec_parse_frame);
    }
    let frame_type = match QuicVarInt::parse(bytes) {
        Ok(v) => v,
        Err(error) => return Err(QuicFrameParseError::FrameType { offset, error }),
    };
    parse_body(bytes, frame_type, offset)
}

fn parse_body<'a>(bytes: &'a [u8], frame_type: QuicVarInt<'a>, offset: usize) -> (r: Result<
    (QuicFrame<'a>, &'a [u8]),
    QuicFrameParseError,
>)
    requires
        spec_frame_type_prefix(bytes@, frame_type@),
        offset + bytes@.len() <= usize::MAX,
    ensures
        match r {
            Ok((frame, suffix)) => spec_frame_body(bytes@, frame_type@, offset as int) == Ok::<
                (QuicFrameFields, nat),
                QuicFrameParseError,
            >((frame.spec_fields(), frame.spec_bytes().len())) && frame.spec_frame_type()
                == frame_type@ && frame_type@.len() <= frame.spec_bytes().len() <= bytes@.len()
                && frame.spec_bytes() == bytes@.subrange(0, frame.spec_bytes().len() as int)
                && suffix@ == bytes@.subrange(frame.spec_bytes().len() as int, bytes@.len() as int),
            Err(e) => spec_frame_body(bytes@, frame_type@, offset as int) == Err::<
                (QuicFrameFields, nat),
                QuicFrameParseError,
            >(e),
        },
{
    let v = frame_type.value();
    if v <= 7 {
        parse_body_low(bytes, frame_type, offset)
    } else if v <= 0x17 {
        parse_body_mid(bytes, frame_type, offset)
    } else {
        parse_body_high(bytes, frame_type, offset)
    }
}

fn parse_body_low<'a>(bytes: &'a [u8], frame_type: QuicVarInt<'a>, offset: usize) -> (r: Result<
    (QuicFrame<'a>, &'a [u8]),
    QuicFrameParseError,
>)
    requires
        spec_frame_type_prefix(bytes@, frame_type@),
        offset + bytes@.len() <= usize::MAX,
        spec_decode_value(frame_type@) <= 7,
    ensures
        match r {
            Ok((frame, suffix)) => spec_frame_body(bytes@, frame_type@, offset as int) == Ok::<
                (QuicFrameFields, nat),
                QuicFrameParseError,
            >((frame.spec_fields(), frame.spec_bytes().len())) && frame.spec_frame_type()
                == frame_type@ && frame_type@.len() <= frame.spec_bytes().len() <= bytes@.len()
                && frame.spec_bytes() == bytes@.subrange(0, frame.spec_bytes().len() as int)
                && suffix@ == bytes@.subrange(frame.spec_bytes().len() as int, bytes@.len() as int),
            Err(e) => spec_frame_body(bytes@, frame_type@, offset as int) == Err::<
                (QuicFrameFields, nat),
                QuicFrameParseError,
            >(e),
        },
{
    let v = frame_type.value();
    if v == 0 {
        let n = frame_type.byte_len();
        Ok((QuicFrame::Padding(QuicPaddingFrame { bytes: slice_range(bytes, 0, n), frame_type }), slice_from(bytes, n)))
    } else if v == 1 {
        let n = frame_type.byte_len();
        Ok((QuicFrame::Ping(QuicPingFrame { bytes: slice_range(bytes, 0, n), frame_type }), slice_from(bytes, n)))
    } else if v == 2 || v == 3 {
        match parse_ack(bytes, frame_type, offset) {
            Ok((frame, suffix)) => Ok((QuicFrame::Ack(frame), suffix)),
            Err(e) => Err(e),
        }
    } else if v == 4 {
        match parse_reset_stream(bytes, frame_type, offset) {
            Ok((frame, suffix)) => Ok((QuicFrame::ResetStream(frame), suffix)),
            Err(e) => Err(e),
        }
    } else if v == 5 {
        match parse_stop_sending(bytes, frame_type, offset) {
            Ok((frame, suffix)) => Ok((QuicFrame::StopSending(frame), suffix)),
            Err(e) => Err(e),
        }
    } else if v == 6 {
        match parse_crypto(bytes, frame_type, offset) {
            Ok((frame, suffix)) => Ok((QuicFrame::Crypto(frame), suffix)),
            Err(e) => Err(e),
        }
    } else {
        match parse_new_token(bytes, frame_type, offset) {
            Ok((frame, suffix)) => Ok((QuicFrame::NewToken(frame), suffix)),
            Err(e) => Err(e),
        }
    }
}

fn parse_body_mid<'a>(bytes: &'a [u8], frame_type: QuicVarInt<'a>, offset: usize) -> (r: Result<
    (QuicFrame<'a>, &'a [u8]),
    QuicFrameParseError,
>)
    requires
        spec_frame_type_prefix(bytes@, frame_type@),
        offset + bytes@.len() <= usize::MAX,
        7 < spec_decode_value(frame_type@) <= 0x17,
    ensures
        match r {
            Ok((frame, suffix)) => spec_frame_body(bytes@, frame_type@, offset as int) == Ok::<
                (QuicFrameFields, nat),
                QuicFrameParseError,
            >((frame.spec_fields(), frame.spec_bytes().len())) && frame.spec_frame_type()
                == frame_type@ && frame_type@.len() <= frame.spec_bytes().len() <= bytes@.len()
                && frame.spec_bytes() == bytes@.subrange(0, frame.spec_bytes().len() as int)
                && suffix@ == bytes@.subrange(frame.spec_bytes().len() as int, bytes@.len() as int),
            Err(e) => spec_frame_body(bytes@, frame_type@, offset as int) == Err::<
                (QuicFrameFields, nat),
                QuicFrameParseError,
            >(e),
        },
{
    let v = frame_type.value();
    if v <= 0x0f {
        match parse_stream(bytes, frame_type, offset) {
            Ok((frame, suffix)) => Ok((QuicFrame::Stream(frame), suffix)),
            Err(e) => Err(e),
        }
    } else if v == 0x10 {
        match parse_max_data(bytes, frame_type, offset) {
            Ok((frame, suffix)) => Ok((QuicFrame::MaxData(frame), suffix)),
            Err(e) => Err(e),
        }
    } else if v == 0x11 {
        match parse_max_stream_data(bytes, frame_type, offset) {
            Ok((frame, suffix)) => Ok((QuicFrame::MaxStreamData(frame), suffix)),
            Err(e) => Err(e),
        }
    } else if v == 0x12 {
        match parse_max_streams(bytes, frame_type, offset, QuicStreamDirection::Bidirectional) {
            Ok((frame, suffix)) => Ok((QuicFrame::MaxStreams(frame), suffix)),
            Err(e) => Err(e),
        }
    } else if v == 0x13 {
        match parse_max_streams(bytes, frame_type, offset, QuicStreamDirection::Unidirectional) {
            Ok((frame, suffix)) => Ok((QuicFrame::MaxStreams(frame), suffix)),
            Err(e) => Err(e),
        }
    } else if v == 0x14 {
        match parse_data_blocked(bytes, frame_type, offset) {
            Ok((frame, suffix)) => Ok((QuicFrame::DataBlocked(frame), suffix)),
            Err(e) => Err(e),
        }
    } else if v == 0x15 {
        match parse_stream_data_blocked(bytes, frame_type, offset) {
            Ok((frame, suffix)) => Ok((QuicFrame::StreamDataBlocked(frame), suffix)),
            Err(e) => Err(e),
        }
    } else if v == 0x16 {
        match parse_streams_blocked(bytes, frame_type, offset, QuicStreamDirection::Bidirectional) {
            Ok((frame, suffix)) => Ok((QuicFrame::StreamsBlocked(frame), suffix)),
            Err(e) => Err(e),
        }
    } else {
        match parse_streams_blocked(bytes, frame_type, offset, QuicStreamDirection::Unidirectional) {
            Ok((frame, suffix)) => Ok((QuicFrame::StreamsBlocked(frame), suffix)),
            Err(e) => Err(e),
        }
    }
}

fn parse_body_high<'a>(bytes: &'a [u8], frame_type: QuicVarInt<'a>, offset: usize) -> (r: Result<
    (QuicFrame<'a>, &'a [u8]),
    QuicFrameParseError,
>)
    requires
        spec_frame_type_prefix(bytes@, frame_type@),
        offset + bytes@.len() <= usize::MAX,
        0x17 < spec_decode_value(frame_type@),
    ensures
        match r {
            Ok((frame, suffix)) => spec_frame_body(bytes@, frame_type@, offset as int) == Ok::<
                (QuicFrameFields, nat),
                QuicFrameParseError,
            >((frame.spec_fields(), frame.spec_bytes().len())) && frame.spec_frame_type()
                == frame_type@ && frame_type@.len() <= frame.spec_bytes().len() <= bytes@.len()
                && frame.spec_bytes() == bytes@.subrange(0, frame.spec_bytes().len() as int)
                && suffix@ == bytes@.subrange(frame.spec_bytes().len() as int, bytes@.len() as int),
            Err(e) => spec_frame_body(bytes@, frame_type@, offset as int) == Err::<
                (QuicFrameFields, nat),
                QuicFrameParseError,
            >(e),
        },
{
    let v = frame_type.value();
    if v == 0x18 {
        match parse_new_connection_id(bytes, frame_type, offset) {
            Ok((frame, suffix)) => Ok((QuicFrame::NewConnectionId(frame), suffix)),
            Err(e) => Err(e),
        }
    } else if v == 0x19 {
        match parse_retire_connection_id(bytes, frame_type, offset) {
            Ok((frame, suffix)) => Ok((QuicFrame::RetireConnectionId(frame), suffix)),
            Err(e) => Err(e),
        }
    } else if v == 0x1a {
        match parse_path_challenge(bytes, frame_type, offset) {
            Ok((frame, suffix)) => Ok((QuicFrame::PathChallenge(frame), suffix)),
            Err(e) => Err(e),
        }
    } else if v == 0x1b {
        match parse_path_response(bytes, frame_type, offset) {
            Ok((frame, suffix)) => Ok((QuicFrame::PathResponse(frame), suffix)),
            Err(e) => Err(e),
        }
    } else if v == 0x1c || v == 0x1d {
        match parse_connection_close(bytes, frame_type, offset) {
            Ok((frame, suffix)) => Ok((QuicFrame::ConnectionClose(frame), suffix)),
            Err(e) => Err(e),
        }
    } else if v == 0x1e {
        let n = frame_type.byte_len();
        Ok((QuicFrame::HandshakeDone(QuicHandshakeDoneFrame { bytes: slice_range(bytes, 0, n), frame_type }), slice_from(bytes, n)))
    } else {
        Err(
            QuicFrameParseError::UnsupportedFrameType {
                value: v,
                length: frame_type.encoded_len(),
                offset,
            },
        )
    }
}

} // verus!
