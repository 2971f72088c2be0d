//! RFC 9000 NEW_CONNECTION_ID and RETIRE_CONNECTION_ID frame parsing.

use super::parse::{
    QuicFrameField, QuicFrameParseError, field_at, spec_field_at, spec_frame_type_prefix,
};
use crate::quic::packet::header::QuicConnectionId;
use crate::quic::varint::{QuicVarInt, spec_decode_value};
use crate::wire::{array_ref, slice_from, slice_range};
use vstd::prelude::*;

verus! {

/// The length of a stateless reset token.
pub const STATELESS_RESET_TOKEN_LEN: usize = 16;

/// The largest connection-ID length a NEW_CONNECTION_ID frame may carry.
pub const MAX_CONNECTION_ID_LEN: u8 = 20;

/// The fields of a NEW_CONNECTION_ID frame.
pub struct QuicNewConnectionIdFields {
    /// The encoded frame type.
    pub frame_type: Seq<u8>,
    /// The encoded sequence number.
    pub sequence_number: Seq<u8>,
    /// The encoded retire-prior-to value.
    pub retire_prior_to: Seq<u8>,
    /// The connection-ID length byte.
    pub connection_id_length: u8,
    /// The connection ID.
    pub connection_id: Seq<u8>,
    /// The stateless reset token.
    pub stateless_reset_token: Seq<u8>,
    /// The frame's length.
    pub frame_len: nat,
}

/// The connection ID and reset token of a NEW_CONNECTION_ID frame whose connection-ID length
/// byte stands at `ls`, the fields before it already read.
pub open spec fn spec_new_connection_id_tail(
    b: Seq<u8>,
    frame_type: Seq<u8>,
    seq: Seq<u8>,
    rp: Seq<u8>,
    ls: int,
    offset: int,
) -> Result<QuicNewConnectionIdFields, QuicFrameParseError> {
    if ls >= b.len() {
        Err(
            QuicFrameParseError::IncompleteBytes {
                field: QuicFrameField::ConnectionIdLength,
                offset: (offset + ls) as usize,
                required: 1,
                available: 0,
            },
        )
    } else {
        let l = b[ls];
        let cs = ls + 1;
        if l > MAX_CONNECTION_ID_LEN {
            Err(
                QuicFrameParseError::FieldValueOutOfRange {
                    field: QuicFrameField::ConnectionIdLength,
                    offset: (offset + ls) as usize,
                    value: l as u64,
                    maximum: MAX_CONNECTION_ID_LEN as u64,
                },
            )
        } else if l == 0 {
            Err(
                QuicFrameParseError::EmptyField {
                    field: QuicFrameField::ConnectionId,
                    offset: (offset + cs) as usize,
                },
            )
        } else if cs + l > usize::MAX {
            Err(
                QuicFrameParseError::LengthOverflow {
                    field: QuicFrameField::ConnectionId,
                    offset: (offset + cs) as usize,
                    length: l as usize,
                },
            )
        } else if b.len() - cs < l {
            Err(
                QuicFrameParseError::IncompleteBytes {
                    field: QuicFrameField::ConnectionId,
                    offset: (offset + cs) as usize,
                    required: l as usize,
                    available: (b.len() - cs) as usize,
                },
            )
        } else if b.len() - (cs + l) < STATELESS_RESET_TOKEN_LEN {
            Err(
                QuicFrameParseError::IncompleteBytes {
                    field: QuicFrameField::StatelessResetToken,
                    offset: (offset + cs + l) as usize,
                    required: STATELESS_RESET_TOKEN_LEN,
                    available: (b.len() - (cs + l)) as usize,
                },
            )
        } else {
            Ok(
                QuicNewConnectionIdFields {
                    frame_type,
                    sequence_number: seq,
                    retire_prior_to: rp,
                    connection_id_length: l,
                    connection_id: b.subrange(cs, cs + l),
                    stateless_reset_token: b.subrange(cs + l, cs + l + 16),
                    frame_len: (cs + l + 16) as nat,
                },
            )
        }
    }
}

/// The NEW_CONNECTION_ID frame that `b` starts with, its type already read, or the first
/// error.
pub open spec fn spec_new_connection_id(b: Seq<u8>, frame_type: Seq<u8>, offset: int) -> Result<
    QuicNewConnectionIdFields,
    QuicFrameParseError,
> {
    let s0 = frame_type.len() as int;
    match spec_field_at(b, s0, offset, QuicFrameField::SequenceNumber) {
        Err(e) => Err(e),
        Ok(seq) => {
            let rs = s0 + seq.len();
            match spec_field_at(b, rs, offset, QuicFrameField::RetirePriorTo) {
                Err(e) => Err(e),
                Ok(rp) => if spec_decode_value(rp) > spec_decode_value(seq) {
                    Err(
                        QuicFrameParseError::FieldValueExceedsField {
                            field: QuicFrameField::RetirePriorTo,
                            offset: (offset + rs) as usize,
                            value: spec_decode_value(rp),
                            maximum_field: QuicFrameField::SequenceNumber,
                            maximum: spec_decode_value(seq),
                        },
                    )
                } else {
                    spec_new_connection_id_tail(b, frame_type, seq, rp, rs + rp.len(), offset)
                },
            }
        },
    }
}

/// The fields of a RETIRE_CONNECTION_ID frame: its encoded type and sequence number.
pub open spec fn spec_retire_connection_id(b: Seq<u8>, frame_type: Seq<u8>, offset: int) -> Result<
    (Seq<u8>, Seq<u8>),
    QuicFrameParseError,
> {
    match spec_field_at(b, frame_type.len() as int, offset, QuicFrameField::SequenceNumber) {
        Err(e) => Err(e),
        Ok(seq) => Ok((frame_type, seq)),
    }
}

/// A checked borrowed RFC 9000 NEW_CONNECTION_ID frame view.
#[derive(Clone, Copy, Debug, PartialEq, Eq)]
pub struct QuicNewConnectionIdFrame<'a> {
    bytes: &'a [u8],
    frame_type: QuicVarInt<'a>,
    sequence_number: QuicVarInt<'a>,
    retire_prior_to: QuicVarInt<'a>,
    connection_id_length: u8,
    connection_id: QuicConnectionId<'a>,
    stateless_reset_token: &'a [u8; 16],
}

impl<'a> View for QuicNewConnectionIdFrame<'a> {
    type V = Seq<u8>;

    closed spec fn view(&self) -> Seq<u8> {
        self.bytes@
    }
}

impl<'a> QuicNewConnectionIdFrame<'a> {
    /// The parsed fields.
    pub closed spec fn fields(&self) -> QuicNewConnectionIdFields {
        QuicNewConnectionIdFields {
            frame_type: self.frame_type@,
            sequence_number: self.sequence_number@,
            retire_prior_to: self.retire_prior_to@,
            connection_id_length: self.connection_id_length,
            connection_id: self.connection_id@,
            stateless_reset_token: self.stateless_reset_token@,
            frame_len: self.bytes@.len(),
        }
    }

    /// Returns the exact encoded frame bytes.
    pub fn as_bytes(self) -> (r: &'a [u8])
        ensures
            r@ == self@,
    {
        self.bytes
    }

    /// Returns the exact encoded frame-type variable integer.
    pub fn frame_type(self) -> (r: QuicVarInt<'a>)
        ensures
            r@ == self.fields().frame_type,
    {
        self.frame_type
    }

    /// Returns the exact encoded sequence-number variable integer.
    pub fn sequence_number(self) -> (r: QuicVarInt<'a>)
        ensures
            r@ == self.fields().sequence_number,
    {
        self.sequence_number
    }

    /// Returns the exact encoded retire-prior-to variable integer.
    pub fn retire_prior_to(self) -> (r: QuicVarInt<'a>)
        ensures
            r@ == self.fields().retire_prior_to,
    {
        self.retire_prior_to
    }

    /// Returns the decoded connection-ID length byte.
    pub fn connection_id_length(self) -> (r: u8)
        ensures
            r == self.fields().connection_id_length,
    {
        self.connection_id_length
    }

    /// Returns the nonempty opaque connection ID.
    pub fn connection_id(self) -> (r: QuicConnectionId<'a>)
        ensures
            r@ == self.fields().connection_id,
    {
        self.connection_id
    }

    /// Returns the stateless reset token.
    pub fn stateless_reset_token(self) -> (r: &'a [u8; 16])
        ensures
            r@ == self.fields().stateless_reset_token,
    {
        self.stateless_reset_token
    }
}

/// A checked borrowed RFC 9000 RETIRE_CONNECTION_ID frame view.
#[derive(Clone, Copy, Debug, PartialEq, Eq)]
pub struct QuicRetireConnectionIdFrame<'a> {
    bytes: &'a [u8],
    frame_type: QuicVarInt<'a>,
    sequence_number: QuicVarInt<'a>,
}

impl<'a> View for QuicRetireConnectionIdFrame<'a> {
    type V = Seq<u8>;

    closed spec fn view(&self) -> Seq<u8> {
        self.bytes@
    }
}

impl<'a> QuicRetireConnectionIdFrame<'a> {
    /// The encoded frame type and sequence number.
    pub closed spec fn fields(&self) -> (Seq<u8>, Seq<u8>) {
        (self.frame_type@, self.sequence_number@)
    }

    /// Returns the exact encoded frame bytes.
    pub fn as_bytes(self) -> (r: &'a [u8])
        ensures
            r@ == self@,
    {
        self.bytes
    }

    /// Returns the exact encoded frame-type variable integer.
    pub fn frame_type(self) -> (r: QuicVarInt<'a>)
        ensures
            r@ == self.fields().0,
    {
        self.frame_type
    }

    /// Returns the exact encoded sequence-number variable integer.
    pub fn sequence_number(self) -> (r: QuicVarInt<'a>)
        ensures
            r@ == self.fields().1,
    {
        self.sequence_number
    }
}

pub(crate) fn parse_new_connection_id<'a>(
    bytes: &'a [u8],
    frame_type: QuicVarInt<'a>,
    offset: usize,
) -> (r: Result<(QuicNewConnectionIdFrame<'a>, &'a [u8]), QuicFrameParseError>)
    requires
        spec_frame_type_prefix(bytes@, frame_type@),
        offset + bytes@.len() <= usize::MAX,
    ensures
        match r {
            Ok((frame, suffix)) => spec_new_connection_id(bytes@, frame_type@, offset as int)
                == Ok::<QuicNewConnectionIdFields, QuicFrameParseError>(frame.fields()) && frame@.len() == frame.fields().frame_len && frame.fields().frame_type == frame_type@ && frame_type@.len() <= frame@.len() <= bytes@.len() && frame@ == bytes@.subrange(0, frame@.len() as int) && suffix@ == bytes@.subrange(
                frame@.len() as int,
                bytes@.len() as int,
            ),
            Err(e) => spec_new_connection_id(bytes@, frame_type@, offset as int) == Err::<
                QuicNewConnectionIdFields,
                QuicFrameParseError,
            >(e),
        },
{
    let sequence_start = frame_type.byte_len();
    let sequence_number = match field_at(bytes, sequence_start, offset, QuicFrameField::SequenceNumber) {
        Ok(v) => v,
        Err(e) => return Err(e),
    };
    let retire_start = sequence_start + sequence_number.byte_len();
    let retire_offset = offset + retire_start;
    let retire_prior_to = match field_at(bytes, retire_start, offset, QuicFrameField::RetirePriorTo) {
        Ok(v) => v,
        Err(e) => return Err(e),
    };
    if retire_prior_to.value() > sequence_number.value() {
        return Err(
            QuicFrameParseError::FieldValueExceedsField {
                field: QuicFrameField::RetirePriorTo,
                offset: retire_offset,
                value: retire_prior_to.value(),
                maximum_field: QuicFrameField::SequenceNumber,
                maximum: sequence_number.value(),
            },
        );
    }
    let connection_id_length_start = retire_start + retire_prior_to.byte_len();
    let connection_id_length_offset = offset + connection_id_length_start;
    if connection_id_length_start >= bytes.len() {
        return Err(
            QuicFrameParseError::IncompleteBytes {
                field: QuicFrameField::ConnectionIdLength,
                offset: connection_id_length_offset,
                required: 1,
                available: 0,
            },
        );
    }
    let connection_id_length = bytes[connection_id_length_start];
    if connection_id_length > MAX_CONNECTION_ID_LEN {
        return Err(
            QuicFrameParseError::FieldValueOutOfRange {
                field: QuicFrameField::ConnectionIdLength,
                offset: connection_id_length_offset,
                value: connection_id_length as u64,
                maximum: MAX_CONNECTION_ID_LEN as u64,
            },
        );
    }
    let connection_id_start = connection_id_length_start + 1;
    let connection_id_offset = offset + connection_id_start;
    let connection_id_len = connection_id_length as usize;
    if connection_id_len == 0 {
        return Err(
            QuicFrameParseError::EmptyField {
                field: QuicFrameField::ConnectionId,
                offset: connection_id_offset,
            },
        );
    }
    let connection_id_end = match connection_id_start.checked_add(connection_id_len) {
        Some(end) => end,
        None => return Err(
            QuicFrameParseError::LengthOverflow {
                field: QuicFrameField::ConnectionId,
                offset: connection_id_offset,
                length: connection_id_len,
            },
        ),
    };
    let connection_id_available = bytes.len() - connection_id_start;
    if connection_id_available < connection_id_len {
        return Err(
            QuicFrameParseError::IncompleteBytes {
                field: QuicFrameField::ConnectionId,
                offset: connection_id_offset,
                required: connection_id_len,
                available: connection_id_available,
            },
        );
    }
    let token_available = bytes.len() - connection_id_end;
    if token_available < STATELESS_RESET_TOKEN_LEN {
        return Err(
            QuicFrameParseError::IncompleteBytes {
                field: QuicFrameField::StatelessResetToken,
                offset: offset + connection_id_end,
                required: STATELESS_RESET_TOKEN_LEN,
                available: token_available,
            },
        );
    }
    let frame_len = connection_id_end + STATELESS_RESET_TOKEN_LEN;
    let stateless_reset_token = array_ref::<16>(slice_range(bytes, connection_id_end, frame_len));
    Ok(
        (
            QuicNewConnectionIdFrame {
                bytes: slice_range(bytes, 0, frame_len),
                frame_type,
                sequence_number,
                retire_prior_to,
                connection_id_length,
                connection_id: QuicConnectionId::new(
                    slice_range(bytes, connection_id_start, connection_id_end),
                ),
                stateless_reset_token,
            },
            slice_from(bytes, frame_len),
        ),
    )
}

pub(crate) fn parse_retire_connection_id<'a>(
    bytes: &'a [u8],
    frame_type: QuicVarInt<'a>,
    offset: usize,
) -> (r: Result<(QuicRetireConnectionIdFrame<'a>, &'a [u8]), QuicFrameParseError>)
    requires
        spec_frame_type_prefix(bytes@, frame_type@),
        offset + bytes@.len() <= usize::MAX,
    ensures
        match r {
            Ok((frame, suffix)) => spec_retire_connection_id(bytes@, frame_type@, offset as int)
                == Ok::<(Seq<u8>, Seq<u8>), QuicFrameParseError>(frame.fields()) && frame@ == bytes@.subrange(0, frame@.len() as int) && suffix@ == bytes@.subrange(
                frame@.len() as int,
                bytes@.len() as int,
            ) && frame@.len() == frame_type@.len() + frame.fields().1.len(),
            Err(e) => spec_retire_connection_id(bytes@, frame_type@, offset as int) == Err::<
                (Seq<u8>, Seq<u8>),
                QuicFrameParseError,
            >(e),
        },
{
    let sequence_start = frame_type.byte_len();
    let sequence_number = match field_at(bytes, sequence_start, offset, QuicFrameField::SequenceNumber) {
        Ok(v) => v,
        Err(e) => return Err(e),
    };
    let frame_len = sequence_start + sequence_number.byte_len();
    Ok(
        (
            QuicRetireConnectionIdFrame {
                bytes: slice_range(bytes, 0, frame_len),
                frame_type,
                sequence_number,
            },
            slice_from(bytes, frame_len),
        ),
    )
}

} // verus!
