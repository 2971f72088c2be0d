//! Physical RFC 9000 variable-integer prefix codec.

use super::varint::{
    MAX_VALUE, QuicVarIntBuildError, QuicVarIntLen, QuicVarIntParseError, spec_byte_len,
    spec_max_value, spec_required,
};
use vstd::prelude::*;
use wire_repr::PrefixExtent;

verus! {

#[verifier::external_type_specification]
#[verifier::external_body]
pub struct ExPrefixExtent(PrefixExtent);

/// The encoded length carried by a prefix extent.
pub uninterp spec fn prefix_extent_len(extent: PrefixExtent) -> nat;

/// `wire_repr::PrefixExtent::new`: an extent of exactly `encoded_len` bytes.
///
/// The contract claims that the extent reports the nonzero length it was made from.
#[verifier::external_body]
fn new_prefix_extent(encoded_len: usize) -> (r: PrefixExtent)
    requires
        encoded_len > 0,
    ensures
        prefix_extent_len(r) == encoded_len,
{
    PrefixExtent::new(core::num::NonZeroUsize::new(encoded_len).unwrap())
}

/// The width announced by the two high bits of a first byte.
pub open spec fn spec_len_from_first(first: u8) -> QuicVarIntLen {
    if first < 0x40 {
        QuicVarIntLen::One
    } else if first < 0x80 {
        QuicVarIntLen::Two
    } else if first < 0xc0 {
        QuicVarIntLen::Four
    } else {
        QuicVarIntLen::Eight
    }
}

/// The shortest width that can carry `value`.
pub open spec fn spec_canonical_len(value: u64) -> QuicVarIntLen {
    if value <= 63 {
        QuicVarIntLen::One
    } else if value <= 16_383 {
        QuicVarIntLen::Two
    } else if value <= 1_073_741_823 {
        QuicVarIntLen::Four
    } else {
        QuicVarIntLen::Eight
    }
}

/// RFC 9000 section 16: encodings of 1, 2, 4 and 8 bytes carry values up to 2^6 - 1, 2^14 - 1,
/// 2^30 - 1 and 2^62 - 1; the canonical width of a value up to 2^62 - 1 carries it, and no
/// shorter width does.
pub proof fn lemma_canonical_len_shortest(value: u64, width: QuicVarIntLen)
    ensures
        spec_byte_len(QuicVarIntLen::One) == 1 && spec_max_value(QuicVarIntLen::One) == 0x3f,
        spec_byte_len(QuicVarIntLen::Two) == 2 && spec_max_value(QuicVarIntLen::Two) == 0x3fff,
        spec_byte_len(QuicVarIntLen::Four) == 4 && spec_max_value(QuicVarIntLen::Four)
            == 0x3fff_ffff,
        spec_byte_len(QuicVarIntLen::Eight) == 8 && spec_max_value(QuicVarIntLen::Eight)
            == 0x3fff_ffff_ffff_ffff,
        value <= 0x3fff_ffff_ffff_ffff ==> value <= spec_max_value(spec_canonical_len(value)),
        spec_byte_len(width) < spec_byte_len(spec_canonical_len(value)) ==> value > spec_max_value(
            width,
        ),
        value <= spec_max_value(width) ==> spec_byte_len(spec_canonical_len(value)) <= spec_byte_len(
            width,
        ),
{
}

/// RFC 9000 section 16: the two most significant bits of a variable integer's first byte give
/// its width, 00 for 1 byte, 01 for 2, 10 for 4 and 11 for 8; and an encoding writes those bits
/// for its width.
pub proof fn lemma_varint_width_bits(first: u8, value: u64, length: QuicVarIntLen)
    ensures
        spec_len_from_first(first) == QuicVarIntLen::One <==> first >> 6u8 == 0,
        spec_len_from_first(first) == QuicVarIntLen::Two <==> first >> 6u8 == 1,
        spec_len_from_first(first) == QuicVarIntLen::Four <==> first >> 6u8 == 2,
        spec_len_from_first(first) == QuicVarIntLen::Eight <==> first >> 6u8 == 3,
        value <= spec_max_value(length) ==> spec_encode(value, length)[0] >> 6u8 == match length {
            QuicVarIntLen::One => 0u8,
            QuicVarIntLen::Two => 1u8,
            QuicVarIntLen::Four => 2u8,
            QuicVarIntLen::Eight => 3u8,
        },
{
    assert(first < 0x40 <==> first >> 6u8 == 0) by (bit_vector);
    assert(0x40 <= first < 0x80 <==> first >> 6u8 == 1) by (bit_vector);
    assert(0x80 <= first < 0xc0 <==> first >> 6u8 == 2) by (bit_vector);
    assert(0xc0 <= first <==> first >> 6u8 == 3) by (bit_vector);
    if value <= spec_max_value(length) {
        match length {
            QuicVarIntLen::One => {
                assert(value <= 63 ==> ((value | 0u64) >> 0u64) as u8 >> 6u8 == 0u8) by (bit_vector);
            },
            QuicVarIntLen::Two => {
                assert(value <= 16383 ==> ((value | 0x4000u64) >> 8u64) as u8 >> 6u8 == 1u8)
                    by (bit_vector);
            },
            QuicVarIntLen::Four => {
                assert(value <= 0x3fff_ffff ==> ((value | 0x8000_0000u64) >> 24u64) as u8 >> 6u8
                    == 2u8) by (bit_vector);
            },
            QuicVarIntLen::Eight => {
                assert(value <= 0x3fff_ffff_ffff_ffff ==> ((value | 0xc000_0000_0000_0000u64)
                    >> 56u64) as u8 >> 6u8 == 3u8) by (bit_vector);
            },
        }
    }
}

/// The two-bit width prefix of `length`, already shifted into its top position.
pub open spec fn spec_prefix_len(length: QuicVarIntLen) -> u64 {
    match length {
        QuicVarIntLen::One => 0,
        QuicVarIntLen::Two => 0x4000,
        QuicVarIntLen::Four => 0x8000_0000,
        QuicVarIntLen::Eight => 0xc000_0000_0000_0000,
    }
}

/// Big-endian accumulation of `s` after `acc`: each byte shifts the accumulator left by
/// eight bits and fills the low byte.
pub open spec fn spec_fold(acc: u64, s: Seq<u8>) -> u64
    decreases s.len(),
{
    if s.len() == 0 {
        acc
    } else {
        spec_fold(((acc << 8u64) | (s[0] as u64)) as u64, s.drop_first())
    }
}

/// The value carried by an encoded variable integer: the first byte without its two width
/// bits, followed by the remaining bytes in big-endian order.
pub open spec fn spec_decode_value(s: Seq<u8>) -> u64 {
    if s.len() == 0 {
        0
    } else {
        spec_fold((s[0] & 0x3f) as u64, s.drop_first())
    }
}

/// The exact encoding of `value` at width `length`: the value with the width prefix set,
/// written big-endian over `length`'s byte count.
pub open spec fn spec_encode(value: u64, length: QuicVarIntLen) -> Seq<u8> {
    let n = spec_byte_len(length);
    let encoded = value | spec_prefix_len(length);
    Seq::new(n, |i: int| (encoded >> ((8 * (n - 1 - i)) as u64)) as u8)
}

/// Returns the shortest width that can carry `value`.
pub fn canonical_len(value: u64) -> (r: QuicVarIntLen)
    ensures
        r == spec_canonical_len(value),
{
    if value <= 63 {
        QuicVarIntLen::One
    } else if value <= 16_383 {
        QuicVarIntLen::Two
    } else if value <= 1_073_741_823 {
        QuicVarIntLen::Four
    } else {
        QuicVarIntLen::Eight
    }
}

fn length_from_first_byte(first: u8) -> (r: QuicVarIntLen)
    ensures
        r == spec_len_from_first(first),
{
    if first < 0x40 {
        QuicVarIntLen::One
    } else if first < 0x80 {
        QuicVarIntLen::Two
    } else if first < 0xc0 {
        QuicVarIntLen::Four
    } else {
        QuicVarIntLen::Eight
    }
}

fn prefix_value(length: QuicVarIntLen) -> (r: u64)
    ensures
        r == spec_prefix_len(length),
{
    match length {
        QuicVarIntLen::One => 0,
        QuicVarIntLen::Two => 0x4000,
        QuicVarIntLen::Four => 0x8000_0000,
        QuicVarIntLen::Eight => 0xc000_0000_0000_0000,
    }
}

/// Scalar value shared by decoded and requested encodings.
#[derive(Clone, Copy, Debug, PartialEq, Eq)]
pub struct QuicVarIntCodecValue {
    value: u64,
    length: QuicVarIntLen,
    requested_length: bool,
}

impl QuicVarIntCodecValue {
    /// The carried value.
    pub closed spec fn spec_value(self) -> u64 {
        self.value
    }

    /// The carried width.
    pub closed spec fn spec_length(self) -> QuicVarIntLen {
        self.length
    }

    /// Whether the width was explicitly requested rather than derived.
    pub closed spec fn spec_requested(self) -> bool {
        self.requested_length
    }

    /// Requests canonical encoding unless an explicit width is supplied.
    pub fn encoding(value: u64, requested: Option<QuicVarIntLen>) -> (r: Self)
        ensures
            r.spec_value() == value,
            r.spec_length() == match requested {
                Some(length) => length,
                None => spec_canonical_len(value),
            },
            r.spec_requested() == requested is Some,
    {
        QuicVarIntCodecValue {
            value,
            length: match requested {
                Some(length) => length,
                None => canonical_len(value),
            },
            requested_length: requested.is_some(),
        }
    }

    /// Returns the carried value.
    pub fn value(self) -> (r: u64)
        ensures
            r == self.spec_value(),
    {
        self.value
    }

    /// Returns the carried width.
    pub fn length(self) -> (r: QuicVarIntLen)
        ensures
            r == self.spec_length(),
    {
        self.length
    }

    /// Returns whether the width was explicitly requested rather than derived.
    pub fn requested_length(self) -> (r: bool)
        ensures
            r == self.spec_requested(),
    {
        self.requested_length
    }
}

/// Infallible prepared RFC 9000 variable-integer encoding.
#[derive(Clone, Copy, Debug, PartialEq, Eq)]
pub struct QuicVarIntEncodePlan {
    encoded: u64,
    length: QuicVarIntLen,
}

impl QuicVarIntEncodePlan {
    /// The value being encoded.
    pub closed spec fn spec_value(self) -> u64 {
        self.encoded & spec_max_value(self.length)
    }

    /// The width being encoded.
    pub closed spec fn spec_length(self) -> QuicVarIntLen {
        self.length
    }

    /// The exact bytes this plan writes.
    pub closed spec fn spec_bytes(self) -> Seq<u8> {
        spec_encode(self.encoded & spec_max_value(self.length), self.length)
    }

    /// Returns the planned width.
    pub fn length(self) -> (r: QuicVarIntLen)
        ensures
            r == self.spec_length(),
    {
        self.length
    }

    /// Returns the exact number of bytes written by [`Self::write_into`].
    pub fn encoded_len(&self) -> (r: usize)
        ensures
            r == spec_byte_len(self.spec_length()),
            r == self.spec_bytes().len(),
    {
        self.length.byte_len()
    }

    /// Writes this plan into `output` when it has exactly the planned length; otherwise
    /// leaves `output` unchanged.
    pub fn write_into(&self, output: &mut [u8])
        ensures
            old(output)@.len() == spec_byte_len(self.spec_length()) ==> final(output)@
                == self.spec_bytes(),
            old(output)@.len() != spec_byte_len(self.spec_length()) ==> final(output)@ == old(
                output,
            )@,
    {
        let n = self.length.byte_len();
        if output.len() != n {
            return;
        }
        let ghost target = self.spec_bytes();
        let ghost e = self.encoded;
        proof {
            use_type_invariant(self);
            self.lemma_encoded();
        }
        let mut i: usize = 0;
        while i < n
            invariant
                n == spec_byte_len(self.spec_length()),
                output@.len() == n,
                i <= n,
                target == spec_encode(self.encoded & spec_max_value(self.length), self.length),
                target.len() == n,
                forall|j: int|
                    0 <= j < n ==> #[trigger] target[j] == (e >> ((8 * (n - 1 - j)) as u64)) as u8,
                e == self.encoded,
                forall|j: int| 0 <= j < i ==> output@[j] == target[j],
            decreases n - i,
        {
            let shift = (8 * (n - 1 - i)) as u64;
            output[i] = (self.encoded >> shift) as u8;
            i = i + 1;
        }
        assert(output@ =~= target);
    }

    proof fn lemma_encoded(self)
        requires
            self.wf(),
        ensures
            (self.encoded & spec_max_value(self.length)) | spec_prefix_len(self.length)
                == self.encoded,
    {
        let e = self.encoded;
        match self.length {
            QuicVarIntLen::One => {
                assert(e <= 63 ==> (e & 63) | 0 == e) by (bit_vector);
            },
            QuicVarIntLen::Two => {
                assert(e & 0xffff_ffff_ffff_c000 == 0x4000 ==> (e & 16383) | 0x4000 == e)
                    by (bit_vector);
            },
            QuicVarIntLen::Four => {
                assert(e & 0xffff_ffff_c000_0000 == 0x8000_0000 ==> (e & 1073741823)
                    | 0x8000_0000 == e) by (bit_vector);
            },
            QuicVarIntLen::Eight => {
                assert(e & 0xc000_0000_0000_0000 == 0xc000_0000_0000_0000 ==> (e
                    & 0x3fff_ffff_ffff_ffff) | 0xc000_0000_0000_0000 == e) by (bit_vector);
            },
        }
    }

    /// The plan's encoded word holds its width prefix above a value that fits the width.
    #[verifier::type_invariant]
    closed spec fn wf(self) -> bool {
        match self.length {
            QuicVarIntLen::One => self.encoded <= 63,
            QuicVarIntLen::Two => self.encoded & 0xffff_ffff_ffff_c000 == 0x4000,
            QuicVarIntLen::Four => self.encoded & 0xffff_ffff_c000_0000 == 0x8000_0000,
            QuicVarIntLen::Eight => self.encoded & 0xc000_0000_0000_0000 == 0xc000_0000_0000_0000,
        }
    }
}

/// RFC 9000 variable-integer physical representation owner.
pub struct QuicVarIntCodec;

impl QuicVarIntCodec {
    /// Reports how many bytes the variable integer at the start of `bytes` occupies.
    pub fn prefix_len(bytes: &[u8]) -> (r: Result<usize, QuicVarIntParseError>)
        ensures
            r is Ok <==> bytes@.len() > 0 && bytes@.len() >= spec_required(bytes@),
            r matches Ok(n) ==> n == spec_required(bytes@) && 1 <= n <= 8,
            r matches Err(e) ==> e == (QuicVarIntParseError::Incomplete {
                required: spec_required(bytes@) as usize,
                available: bytes@.len() as usize,
            }),
    {
        if bytes.len() == 0 {
            return Err(QuicVarIntParseError::Incomplete { required: 1, available: 0 });
        }
        let length = length_from_first_byte(bytes[0]);
        let required = length.byte_len();
        if bytes.len() < required {
            return Err(QuicVarIntParseError::Incomplete { required, available: bytes.len() });
        }
        Ok(required)
    }

    /// Structurally validates a prefix and reports its exact encoded extent.
    pub fn validate_prefix(bytes: &[u8]) -> (r: Result<PrefixExtent, QuicVarIntParseError>)
        ensures
            r is Ok <==> bytes@.len() > 0 && bytes@.len() >= spec_required(bytes@),
            r matches Ok(extent) ==> prefix_extent_len(extent) == spec_required(bytes@),
            r matches Err(e) ==> e == (QuicVarIntParseError::Incomplete {
                required: spec_required(bytes@) as usize,
                available: bytes@.len() as usize,
            }),
    {
        match Self::prefix_len(bytes) {
            Ok(required) => Ok(new_prefix_extent(required)),
            Err(e) => Err(e),
        }
    }

    /// Decodes exact bytes which have already been successfully prefix-validated.
    ///
    /// Empty input decodes to zero at width one.
    pub fn decode(bytes: &[u8]) -> (r: QuicVarIntCodecValue)
        ensures
            r.spec_value() == spec_decode_value(bytes@),
            r.spec_length() == if bytes@.len() == 0 {
                QuicVarIntLen::One
            } else {
                spec_len_from_first(bytes@[0])
            },
            !r.spec_requested(),
    {
        if bytes.len() == 0 {
            return QuicVarIntCodecValue {
                value: 0,
                length: QuicVarIntLen::One,
                requested_length: false,
            };
        }
        let first = bytes[0];
        let length = length_from_first_byte(first);
        let mut value: u64 = (first & 0x3f) as u64;
        let ghost init = value;
        let mut i: usize = 1;
        while i < bytes.len()
            invariant
                1 <= i <= bytes@.len(),
                init == (bytes@[0] & 0x3f) as u64,
                spec_fold(value, bytes@.subrange(i as int, bytes@.len() as int)) == spec_fold(
                    init,
                    bytes@.drop_first(),
                ),
            decreases bytes@.len() - i,
        {
            let ghost rest = bytes@.subrange(i as int, bytes@.len() as int);
            assert(rest.drop_first() =~= bytes@.subrange(i + 1, bytes@.len() as int));
            value = (value << 8u64) | (bytes[i] as u64);
            i = i + 1;
        }
        assert(bytes@.subrange(1, bytes@.len() as int) =~= bytes@.drop_first());
        assert(bytes@.subrange(i as int, bytes@.len() as int) =~= Seq::<u8>::empty());
        QuicVarIntCodecValue { value, length, requested_length: false }
    }

    /// Prepares the complete encoding without mutating a caller buffer: the requested width
    /// when one was requested, else the canonical one.
    pub fn plan(value: QuicVarIntCodecValue) -> (r: Result<
        QuicVarIntEncodePlan,
        QuicVarIntBuildError,
    >)
        ensures
            ({
                let length = if value.spec_requested() {
                    value.spec_length()
                } else {
                    spec_canonical_len(value.spec_value())
                };
                let v = value.spec_value();
                &&& r is Ok <==> (v <= MAX_VALUE && v <= spec_max_value(length))
                &&& r matches Ok(plan) ==> plan.spec_length() == length && plan.spec_value() == v
                    && plan.spec_bytes() == spec_encode(v, length)
                &&& r matches Err(e) ==> e == (if v > MAX_VALUE {
                    QuicVarIntBuildError::ValueTooLarge { value: v }
                } else {
                    QuicVarIntBuildError::WidthTooSmall { length, value: v }
                })
            }),
            !value.spec_requested() && value.spec_value() <= 0x3fff_ffff_ffff_ffff ==> r is Ok,
    {
        proof {
            lemma_canonical_len_shortest(value.spec_value(), QuicVarIntLen::Eight);
        }
        let length = if value.requested_length {
            value.length
        } else {
            canonical_len(value.value)
        };
        let v = value.value;
        if v > MAX_VALUE {
            return Err(QuicVarIntBuildError::ValueTooLarge { value: v });
        }
        if v > length.max_value() {
            return Err(QuicVarIntBuildError::WidthTooSmall { length, value: v });
        }
        let encoded = v | prefix_value(length);
        proof {
            Self::lemma_plan_word(v, length);
        }
        Ok(QuicVarIntEncodePlan { encoded, length })
    }

    proof fn lemma_plan_word(v: u64, length: QuicVarIntLen)
        requires
            v <= spec_max_value(length),
        ensures
            (v | spec_prefix_len(length)) & spec_max_value(length) == v,
            (QuicVarIntEncodePlan { encoded: v | spec_prefix_len(length), length }).wf(),
    {
        match length {
            QuicVarIntLen::One => {
                assert(v <= 63 ==> (v | 0) & 63 == v && (v | 0) <= 63)
                    by (bit_vector);
            },
            QuicVarIntLen::Two => {
                assert(v <= 16383 ==> (v | 0x4000) & 16383 == v && (v | 0x4000)
                    & 0xffff_ffff_ffff_c000 == 0x4000) by (bit_vector);
            },
            QuicVarIntLen::Four => {
                assert(v <= 1073741823 ==> (v | 0x8000_0000) & 1073741823 == v && (v
                    | 0x8000_0000) & 0xffff_ffff_c000_0000 == 0x8000_0000) by (bit_vector);
            },
            QuicVarIntLen::Eight => {
                assert(v <= 0x3fff_ffff_ffff_ffff ==> (v | 0xc000_0000_0000_0000)
                    & 0x3fff_ffff_ffff_ffff == v && (v | 0xc000_0000_0000_0000)
                    & 0xc000_0000_0000_0000 == 0xc000_0000_0000_0000) by (bit_vector);
            },
        }
    }

    /// Encoding a value that fits a width, then decoding those bytes, gives back the value and
    /// the width.
    pub proof fn lemma_encode_decode(v: u64, length: QuicVarIntLen)
        requires
            v <= spec_max_value(length),
        ensures
            spec_encode(v, length).len() == spec_byte_len(length),
            spec_len_from_first(spec_encode(v, length)[0]) == length,
            spec_decode_value(spec_encode(v, length)) == v,
    {
        let s = spec_encode(v, length);
        reveal_with_fuel(spec_fold, 9);
        match length {
            QuicVarIntLen::One => {
                let b0 = s[0];
                assert(b0 == ((v | 0) >> 0u64) as u8);
                assert(b0 < 0x40 && ((b0 & 0x3f) as u64) == v) by (bit_vector)
                    requires
                        b0 == ((v | 0) >> 0u64) as u8,
                        v <= 63,
                ;
                assert(s.drop_first().len() == 0);
            },
            QuicVarIntLen::Two => {
                let e = v | 0x4000;
                assert(s[0] == (e >> 8u64) as u8);
                assert(s[1] == (e >> 0u64) as u8);
                assert(s.drop_first().drop_first().len() == 0);
                assert(s.drop_first()[0] == s[1]);
                assert(v <= 16383 ==> ({
                    let e = v | 0x4000;
                    let b0 = (e >> 8u64) as u8;
                    let b1 = (e >> 0u64) as u8;
                    &&& 0x40 <= b0 < 0x80
                    &&& (((((b0 & 0x3f) as u64) << 8u64) | (b1 as u64)) as u64) == v
                })) by (bit_vector);
            },
            QuicVarIntLen::Four => {
                let e = v | 0x8000_0000;
                let t1 = s.drop_first();
                let t2 = t1.drop_first();
                let t3 = t2.drop_first();
                assert(s[0] == (e >> 24u64) as u8);
                assert(t1[0] == (e >> 16u64) as u8);
                assert(t2[0] == (e >> 8u64) as u8);
                assert(t3[0] == (e >> 0u64) as u8);
                assert(t3.drop_first().len() == 0);
                assert(v <= 1073741823 ==> ({
                    let e = v | 0x8000_0000;
                    let b0 = (e >> 24u64) as u8;
                    let b1 = (e >> 16u64) as u8;
                    let b2 = (e >> 8u64) as u8;
                    let b3 = (e >> 0u64) as u8;
                    let a0 = (b0 & 0x3f) as u64;
                    let a1 = ((a0 << 8u64) | (b1 as u64)) as u64;
                    let a2 = ((a1 << 8u64) | (b2 as u64)) as u64;
                    let a3 = ((a2 << 8u64) | (b3 as u64)) as u64;
                    &&& 0x80 <= b0 < 0xc0
                    &&& a3 == v
                })) by (bit_vector);
            },
            QuicVarIntLen::Eight => {
                let e = v | 0xc000_0000_0000_0000;
                let t1 = s.drop_first();
                let t2 = t1.drop_first();
                let t3 = t2.drop_first();
                let t4 = t3.drop_first();
                let t5 = t4.drop_first();
                let t6 = t5.drop_first();
                let t7 = t6.drop_first();
                assert(s[0] == (e >> 56u64) as u8);
                assert(t1[0] == (e >> 48u64) as u8);
                assert(t2[0] == (e >> 40u64) as u8);
                assert(t3[0] == (e >> 32u64) as u8);
                assert(t4[0] == (e >> 24u64) as u8);
                assert(t5[0] == (e >> 16u64) as u8);
                assert(t6[0] == (e >> 8u64) as u8);
                assert(t7[0] == (e >> 0u64) as u8);
                assert(t7.drop_first().len() == 0);
                assert(v <= 0x3fff_ffff_ffff_ffff ==> ({
                    let e = v | 0xc000_0000_0000_0000;
                    let b0 = (e >> 56u64) as u8;
                    let b1 = (e >> 48u64) as u8;
                    let b2 = (e >> 40u64) as u8;
                    let b3 = (e >> 32u64) as u8;
                    let b4 = (e >> 24u64) as u8;
                    let b5 = (e >> 16u64) as u8;
                    let b6 = (e >> 8u64) as u8;
                    let b7 = (e >> 0u64) as u8;
                    let a0 = (b0 & 0x3f) as u64;
                    let a1 = ((a0 << 8u64) | (b1 as u64)) as u64;
                    let a2 = ((a1 << 8u64) | (b2 as u64)) as u64;
                    let a3 = ((a2 << 8u64) | (b3 as u64)) as u64;
                    let a4 = ((a3 << 8u64) | (b4 as u64)) as u64;
                    let a5 = ((a4 << 8u64) | (b5 as u64)) as u64;
                    let a6 = ((a5 << 8u64) | (b6 as u64)) as u64;
                    let a7 = ((a6 << 8u64) | (b7 as u64)) as u64;
                    &&& 0xc0 <= b0
                    &&& a7 == v
                })) by (bit_vector);
            },
        }
    }
}

} // verus!
