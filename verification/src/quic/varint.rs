//! RFC 9000 section 16 variable-length integer parsing and construction.

use crate::wire::slice_range;
use vstd::prelude::*;

pub use super::varint_codec::{
    QuicVarIntCodec, QuicVarIntCodecValue, QuicVarIntEncodePlan, canonical_len, spec_canonical_len,
    spec_decode_value, spec_encode, spec_fold, spec_len_from_first, spec_prefix_len,
};

verus! {

/// The greatest value representable by a QUIC variable-length integer (2^62 - 1).
pub const MAX_VALUE: u64 = 0x3fff_ffff_ffff_ffff;

/// Failure to parse a QUIC variable-length integer.
#[derive(Clone, Copy, Debug, PartialEq, Eq)]
pub enum QuicVarIntParseError {
    /// The input does not contain the complete encoded integer.
    Incomplete {
        /// Bytes required by the encoded width.
        required: usize,
        /// Bytes available in the input.
        available: usize,
    },
}

/// A QUIC variable-integer encoded width.
#[derive(Clone, Copy, Debug, PartialEq, Eq, Structural, Hash, PartialOrd, Ord)]
pub enum QuicVarIntLen {
    /// One encoded byte, carrying up to 6 value bits.
    One,
    /// Two encoded bytes, carrying up to 14 value bits.
    Two,
    /// Four encoded bytes, carrying up to 30 value bits.
    Four,
    /// Eight encoded bytes, carrying up to 62 value bits.
    Eight,
}

/// The encoded width of `length` in bytes.
pub open spec fn spec_byte_len(length: QuicVarIntLen) -> nat {
    match length {
        QuicVarIntLen::One => 1,
        QuicVarIntLen::Two => 2,
        QuicVarIntLen::Four => 4,
        QuicVarIntLen::Eight => 8,
    }
}

/// The greatest value representable at encoded width `length`.
pub open spec fn spec_max_value(length: QuicVarIntLen) -> u64 {
    match length {
        QuicVarIntLen::One => 63,
        QuicVarIntLen::Two => 16_383,
        QuicVarIntLen::Four => 1_073_741_823,
        QuicVarIntLen::Eight => MAX_VALUE,
    }
}

impl QuicVarIntLen {
    /// Returns the encoded width in bytes.
    pub fn byte_len(self) -> (r: usize)
        ensures
            r == spec_byte_len(self),
    {
        match self {
            Self::One => 1,
            Self::Two => 2,
            Self::Four => 4,
            Self::Eight => 8,
        }
    }

    /// Returns the greatest value representable at this encoded width.
    pub fn max_value(self) -> (r: u64)
        ensures
            r == spec_max_value(self),
    {
        match self {
            Self::One => 63,
            Self::Two => 16_383,
            Self::Four => 1_073_741_823,
            Self::Eight => MAX_VALUE,
        }
    }
}

/// Failure to build a QUIC variable-length integer.
#[derive(Clone, Copy, Debug, PartialEq, Eq)]
pub enum QuicVarIntBuildError {
    /// The value exceeds QUIC's 62-bit maximum.
    ValueTooLarge {
        /// Supplied value.
        value: u64,
    },
    /// The requested encoded width cannot represent the value.
    WidthTooSmall {
        /// Requested encoded width.
        length: QuicVarIntLen,
        /// Supplied value.
        value: u64,
    },
    /// The caller buffer cannot contain the requested encoding.
    BufferTooShort {
        /// Required bytes.
        required: usize,
        /// Available bytes.
        available: usize,
    },
}

/// The number of bytes a variable integer starting `s` occupies (one for empty input).
pub open spec fn spec_required(s: Seq<u8>) -> nat {
    if s.len() == 0 {
        1
    } else {
        spec_byte_len(spec_len_from_first(s[0]))
    }
}

/// Whether `s` begins with a complete variable integer.
pub open spec fn spec_varint_complete(s: Seq<u8>) -> bool {
    s.len() > 0 && s.len() >= spec_required(s)
}

/// The exact encoded bytes of the variable integer that begins `s`.
pub open spec fn spec_varint_span(s: Seq<u8>) -> Seq<u8> {
    s.subrange(0, spec_required(s) as int)
}

/// An exact borrowed RFC 9000 section 16 variable-integer representation.
#[derive(Clone, Copy, Debug, PartialEq, Eq)]
pub struct QuicVarInt<'a> {
    bytes: &'a [u8],
    value: u64,
    length: QuicVarIntLen,
}

impl<'a> View for QuicVarInt<'a> {
    type V = Seq<u8>;

    closed spec fn view(&self) -> Seq<u8> {
        self.bytes@
    }
}

/// Whether `s` is exactly one complete variable-integer encoding.
pub open spec fn spec_is_varint(s: Seq<u8>) -> bool {
    s.len() > 0 && s.len() == spec_byte_len(spec_len_from_first(s[0]))
}

impl<'a> QuicVarInt<'a> {
    #[verifier::type_invariant]
    closed spec fn inv(self) -> bool {
        &&& spec_is_varint(self.bytes@)
        &&& self.length == spec_len_from_first(self.bytes@[0])
        &&& self.value == spec_decode_value(self.bytes@)
    }

    /// The decoded value of this representation.
    pub open spec fn spec_value(self) -> u64 {
        spec_decode_value(self@)
    }

    /// The encoded width of this representation.
    pub open spec fn spec_length(self) -> QuicVarIntLen {
        spec_len_from_first(self@[0])
    }

    /// Assembles a variable-integer view from exact encoded bytes.
    pub(crate) fn from_validated(bytes: &'a [u8], value: u64, length: QuicVarIntLen) -> (r: Self)
        requires
            spec_is_varint(bytes@),
            length == spec_len_from_first(bytes@[0]),
            value == spec_decode_value(bytes@),
        ensures
            r@ == bytes@,
    {
        QuicVarInt { bytes, value, length }
    }

    /// Parses one variable-length integer and excludes all following input bytes.
    pub fn parse(bytes: &'a [u8]) -> (r: Result<Self, QuicVarIntParseError>)
        ensures
            r is Ok <==> spec_varint_complete(bytes@),
            r matches Ok(v) ==> v@ == spec_varint_span(bytes@),
            r matches Err(e) ==> e == (QuicVarIntParseError::Incomplete {
                required: spec_required(bytes@) as usize,
                available: bytes@.len() as usize,
            }),
    {
        let required = match QuicVarIntCodec::prefix_len(bytes) {
            Ok(required) => required,
            Err(e) => return Err(e),
        };
        let exact = slice_range(bytes, 0, required);
        let decoded = QuicVarIntCodec::decode(exact);
        Ok(QuicVarInt { bytes: exact, value: decoded.value(), length: decoded.length() })
    }

    /// Returns the decoded integer value.
    pub fn value(self) -> (r: u64)
        ensures
            r == self.spec_value(),
    {
        proof {
            use_type_invariant(&self);
        }
        self.value
    }

    /// Returns the exact encoded bytes, excluding any following input bytes.
    pub fn as_bytes(self) -> (r: &'a [u8])
        ensures
            r@ == self@,
    {
        self.bytes
    }

    /// Returns the encoded width.
    pub fn encoded_len(self) -> (r: QuicVarIntLen)
        ensures
            r == self.spec_length(),
    {
        proof {
            use_type_invariant(&self);
        }
        self.length
    }

    /// Returns the encoded length in bytes.
    pub fn byte_len(self) -> (r: usize)
        ensures
            r == self@.len(),
            r == spec_byte_len(self.spec_length()),
            1 <= r <= 8,
    {
        proof {
            use_type_invariant(&self);
        }
        self.length.byte_len()
    }

    /// Returns whether this uses the canonical shortest width for its value.
    pub fn is_canonical(self) -> (r: bool)
        ensures
            r == (self.spec_length() == spec_canonical_len(self.spec_value())),
    {
        proof {
            use_type_invariant(&self);
        }
        self.length == canonical_len(self.value)
    }
}

/// Builds a QUIC variable-length integer in caller-owned storage.
pub struct QuicVarIntBuilder<'a> {
    destination: &'a mut [u8],
    value: u64,
    length: Option<QuicVarIntLen>,
}

impl<'a> QuicVarIntBuilder<'a> {
    /// The caller storage the integer will be written into.
    pub closed spec fn spec_destination(&self) -> Seq<u8> {
        self.destination@
    }

    /// The value to encode.
    pub closed spec fn spec_value(&self) -> u64 {
        self.value
    }

    /// The explicitly requested width, if any.
    pub closed spec fn spec_requested(&self) -> Option<QuicVarIntLen> {
        self.length
    }

    /// The width the builder will use: the requested one, else the canonical one.
    pub open spec fn spec_width(&self) -> QuicVarIntLen {
        match self.spec_requested() {
            Some(length) => length,
            None => spec_canonical_len(self.spec_value()),
        }
    }

    /// Creates a builder that emits the value with its canonical shortest width.
    pub fn new(destination: &'a mut [u8], value: u64) -> (r: Self)
        ensures
            r.spec_destination() == old(destination)@,
            r.spec_value() == value,
            r.spec_requested() == None::<QuicVarIntLen>,
    {
        QuicVarIntBuilder { destination, value, length: None }
    }

    /// Requests an explicit legal encoded width, including a non-canonical width.
    pub fn with_len(self, length: QuicVarIntLen) -> (r: Self)
        ensures
            r.spec_destination() == self.spec_destination(),
            r.spec_value() == self.spec_value(),
            r.spec_requested() == Some(length),
    {
        QuicVarIntBuilder { destination: self.destination, value: self.value, length: Some(length) }
    }

    /// Validates the value, requested width, and capacity before mutating the destination.
    pub fn build(self) -> (r: Result<QuicVarInt<'a>, QuicVarIntBuildError>)
        ensures
            r is Ok <==> (self.spec_value() <= MAX_VALUE && self.spec_value() <= spec_max_value(
                self.spec_width(),
            ) && spec_byte_len(self.spec_width()) <= self.spec_destination().len()),
            r matches Ok(v) ==> v@ == spec_encode(self.spec_value(), self.spec_width())
                && v.spec_value() == self.spec_value() && v.spec_length() == self.spec_width(),
            r matches Err(e) ==> e == (if self.spec_value() > MAX_VALUE {
                QuicVarIntBuildError::ValueTooLarge { value: self.spec_value() }
            } else if self.spec_value() > spec_max_value(self.spec_width()) {
                QuicVarIntBuildError::WidthTooSmall {
                    length: self.spec_width(),
                    value: self.spec_value(),
                }
            } else {
                QuicVarIntBuildError::BufferTooShort {
                    required: spec_byte_len(self.spec_width()) as usize,
                    available: self.spec_destination().len() as usize,
                }
            }),
    {
        let value = self.value;
        let plan = match QuicVarIntCodec::plan(QuicVarIntCodecValue::encoding(value, self.length)) {
            Ok(plan) => plan,
            Err(e) => return Err(e),
        };
        let required = plan.encoded_len();
        let destination = self.destination;
        if destination.len() < required {
            return Err(QuicVarIntBuildError::BufferTooShort {
                required,
                available: destination.len(),
            });
        }
        let (exact, _) = destination.split_at_mut(required);
        plan.write_into(exact);
        let exact: &'a [u8] = exact;
        proof {
            QuicVarIntCodec::lemma_encode_decode(value, plan.spec_length());
        }
        Ok(QuicVarInt { bytes: exact, value, length: plan.length() })
    }
}

} // verus!
