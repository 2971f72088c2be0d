//! QUIC frame parsing diagnostics and the field reader every frame layout shares.

use crate::quic::varint::{
    QuicVarInt, QuicVarIntLen, QuicVarIntParseError, spec_required, spec_varint_complete,
    spec_varint_span,
};
use crate::wire::slice_from;
use vstd::prelude::*;

verus! {

/// Identifies a semantic field in a QUIC frame.
#[derive(Clone, Copy, Debug, PartialEq, Eq, Structural)]
#[non_exhaustive]
pub enum QuicFrameField {
    /// The CRYPTO frame's offset field.
    CryptoOffset,
    /// The CRYPTO frame's data-length field.
    CryptoLength,
    /// The CRYPTO frame's opaque data bytes.
    CryptoData,
    /// The frame's token-length field.
    TokenLength,
    /// The frame's opaque token bytes.
    Token,
    /// The frame's stream-ID field.
    StreamId,
    /// The STREAM frame's offset field.
    StreamOffset,
    /// The STREAM frame's data-length field.
    StreamLength,
    /// The STREAM frame's opaque data bytes.
    StreamData,
    /// The frame's maximum-data field.
    MaximumData,
    /// The frame's maximum-stream-data field.
    MaximumStreamData,
    /// The frame's maximum-streams field.
    MaximumStreams,
    /// The frame's application-error-code field.
    ApplicationErrorCode,
    /// The CONNECTION_CLOSE frame's error-code field.
    ConnectionCloseErrorCode,
    /// The transport CONNECTION_CLOSE frame's triggering-frame-type field.
    TriggeringFrameType,
    /// The CONNECTION_CLOSE frame's reason-phrase-length field.
    ReasonPhraseLength,
    /// The CONNECTION_CLOSE frame's opaque reason-phrase bytes.
    ReasonPhrase,
    /// The frame's final-size field.
    FinalSize,
    /// The frame's opaque path-validation data.
    PathData,
    /// The frame's connection-ID sequence-number field.
    SequenceNumber,
    /// The frame's retire-prior-to field.
    RetirePriorTo,
    /// The frame's connection-ID-length field.
    ConnectionIdLength,
    /// The frame's opaque connection-ID bytes.
    ConnectionId,
    /// The frame's stateless-reset-token bytes.
    StatelessResetToken,
    /// The ACK frame's largest-acknowledged field.
    LargestAcknowledged,
    /// The ACK frame's acknowledgment-delay field.
    AckDelay,
    /// The ACK frame's additional-range count field.
    AckRangeCount,
    /// The ACK frame's first acknowledgment-range field.
    FirstAckRange,
    /// An ACK frame's additional-range gap field.
    AckGap,
    /// An ACK frame's additional-range length field.
    AckRangeLength,
    /// The ACK_ECN frame's ECT(0) count field.
    Ect0Count,
    /// The ACK_ECN frame's ECT(1) count field.
    Ect1Count,
    /// The ACK_ECN frame's ECN-CE count field.
    EcnCeCount,
}

/// Failure to parse a QUIC plaintext frame sequence.
#[derive(Clone, Copy, Debug, PartialEq, Eq)]
pub enum QuicFrameParseError {
    /// The supplied plaintext frame sequence contains no frames.
    EmptySequence,
    /// The frame-type variable integer is incomplete at the indicated sequence offset.
    FrameType {
        /// Absolute byte offset of the frame type from the sequence start.
        offset: usize,
        /// Exact variable-integer parsing failure.
        error: QuicVarIntParseError,
    },
    /// A semantic frame field variable integer is incomplete at the indicated sequence offset.
    Field {
        /// Semantic field whose variable integer could not be parsed.
        field: QuicFrameField,
        /// Absolute byte offset of the field from the sequence start.
        offset: usize,
        /// Exact variable-integer parsing failure.
        error: QuicVarIntParseError,
    },
    /// A semantic frame field exceeds its RFC-defined maximum value.
    FieldValueOutOfRange {
        /// Semantic field whose decoded value exceeds its maximum.
        field: QuicFrameField,
        /// Absolute byte offset of the field from the sequence start.
        offset: usize,
        /// Decoded field value.
        value: u64,
        /// Greatest permitted field value.
        maximum: u64,
    },
    /// A semantic frame field exceeds the decoded value of another field.
    FieldValueExceedsField {
        /// Semantic field whose decoded value is too large.
        field: QuicFrameField,
        /// Absolute byte offset of the field from the sequence start.
        offset: usize,
        /// Decoded field value.
        value: u64,
        /// Semantic field supplying the maximum value.
        maximum_field: QuicFrameField,
        /// Decoded maximum-field value.
        maximum: u64,
    },
    /// A decoded frame byte range exceeds its RFC-defined maximum end offset.
    FieldRangeOutOfRange {
        /// Semantic field encoding the decoded range start.
        field: QuicFrameField,
        /// Absolute byte offset of the encoded range-start field from the sequence start.
        offset: usize,
        /// Decoded range start.
        start: u64,
        /// Decoded range length.
        length: u64,
        /// Greatest permitted decoded range end.
        maximum: u64,
    },
    /// A decoded bounded-byte field length cannot be represented as `usize` on this target.
    LengthNotRepresentable {
        /// Semantic field whose length cannot be represented.
        field: QuicFrameField,
        /// Absolute byte offset of the encoded length from the sequence start.
        offset: usize,
        /// Decoded wire length.
        value: u64,
    },
    /// An implicit bounded-byte field length cannot be represented as `u64`.
    ImplicitLengthNotRepresentable {
        /// Semantic field whose implicit length cannot be represented.
        field: QuicFrameField,
        /// Absolute byte offset of the bounded byte field from the sequence start.
        offset: usize,
        /// Native byte length derived from the supplied slice.
        length: usize,
    },
    /// Computing the end of a bounded-byte field overflows `usize`.
    LengthOverflow {
        /// Semantic bounded-byte field whose end cannot be represented.
        field: QuicFrameField,
        /// Absolute byte offset of the bounded byte field from the sequence start.
        offset: usize,
        /// Representable bounded byte-field length.
        length: usize,
    },
    /// A bounded-byte field is incomplete.
    IncompleteBytes {
        /// Semantic bounded-byte field that is incomplete.
        field: QuicFrameField,
        /// Absolute byte offset of the bounded byte field from the sequence start.
        offset: usize,
        /// Bytes required by the bounded byte field.
        required: usize,
        /// Bytes available for the bounded byte field.
        available: usize,
    },
    /// A semantically required nonempty field is empty.
    EmptyField {
        /// Semantic field that must not be empty.
        field: QuicFrameField,
        /// Absolute byte offset of the field from the sequence start.
        offset: usize,
    },
    /// Computing an ACK range packet number would be negative.
    AckRangeUnderflow {
        /// ACK field whose encoded value caused the underflow.
        field: QuicFrameField,
        /// Absolute byte offset of the encoded field from the sequence start.
        offset: usize,
        /// Packet number before subtracting this field.
        base: u64,
        /// Decoded field value being subtracted.
        value: u64,
        /// Additional fixed adjustment applied after `value`.
        adjustment: u64,
    },
    /// The frame type has no safe boundary without implementing its type-specific layout.
    UnsupportedFrameType {
        /// Decoded raw frame-type value.
        value: u64,
        /// Exact encoded frame-type width.
        length: QuicVarIntLen,
        /// Absolute byte offset of the frame type from the sequence start.
        offset: usize,
    },
}

/// A field read inside a frame is nonempty and ends within the frame's input.
pub(crate) proof fn lemma_field_span(b: Seq<u8>, start: int, offset: int, field: QuicFrameField)
    requires
        0 <= start <= b.len(),
    ensures
        spec_field_at(b, start, offset, field) matches Ok(v) ==> 0 < v.len() && start + v.len()
            <= b.len(),
{
}

/// The encoded variable integer of `field` at `start` of a frame that begins `offset` bytes
/// into its sequence, or the error reporting it incomplete.
pub open spec fn spec_field_at(b: Seq<u8>, start: int, offset: int, field: QuicFrameField) -> Result<
    Seq<u8>,
    QuicFrameParseError,
> {
    let rest = b.subrange(start, b.len() as int);
    if spec_varint_complete(rest) {
        Ok(spec_varint_span(rest))
    } else {
        Err(
            QuicFrameParseError::Field {
                field,
                offset: (offset + start) as usize,
                error: QuicVarIntParseError::Incomplete {
                    required: spec_required(rest) as usize,
                    available: rest.len() as usize,
                },
            },
        )
    }
}

/// Reads the variable integer of `field` at `start`.
pub(crate) fn field_at<'a>(bytes: &'a [u8], start: usize, offset: usize, field: QuicFrameField) -> (r: Result<
    QuicVarInt<'a>,
    QuicFrameParseError,
>)
    requires
        start <= bytes@.len(),
        offset + bytes@.len() <= usize::MAX,
    ensures
        match r {
            Ok(v) => spec_field_at(bytes@, start as int, offset as int, field) == Ok::<
                Seq<u8>,
                QuicFrameParseError,
            >(v@) && start + v@.len() <= bytes@.len(),
            Err(e) => spec_field_at(bytes@, start as int, offset as int, field) == Err::<
                Seq<u8>,
                QuicFrameParseError,
            >(e),
        },
{
    match QuicVarInt::parse(slice_from(bytes, start)) {
        Ok(v) => Ok(v),
        Err(error) => Err(QuicFrameParseError::Field { field, offset: offset + start, error }),
    }
}

/// Whether `frame_type` is the encoded frame type that `b` starts with.
pub open spec fn spec_frame_type_prefix(b: Seq<u8>, frame_type: Seq<u8>) -> bool {
    &&& 1 <= frame_type.len() <= b.len()
    &&& b.subrange(0, frame_type.len() as int) == frame_type
}

/// The largest end offset of CRYPTO or STREAM data (2^62 - 1).
pub open spec fn spec_max_range_end() -> int {
    0x3fff_ffff_ffff_ffff
}

} // verus!
