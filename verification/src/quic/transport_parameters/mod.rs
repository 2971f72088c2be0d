//! RFC 9000 section 18 QUIC transport-parameter sequence parsing.

pub(crate) mod semantic;
pub(crate) mod value;

use crate::quic::varint::{
    QuicVarInt, QuicVarIntParseError, spec_decode_value, spec_required, spec_varint_complete,
    spec_varint_span,
};
use crate::tls::extensions::extension::TlsExtension;
use crate::tls::TlsExtensionType;
use crate::wire::{slice_from, slice_range};
use vstd::prelude::*;

verus! {

/// A raw QUIC transport-parameter identifier, preserving unknown and reserved values.
#[derive(Clone, Copy, Debug, PartialEq, Eq, Structural, Hash)]
pub struct QuicTransportParameterId(u64);

impl QuicTransportParameterId {
    /// The decoded wire value.
    pub closed spec fn spec_raw(self) -> u64 {
        self.0
    }

    /// The identifier with the given wire value.
    pub closed spec fn spec_from(raw: u64) -> Self {
        Self(raw)
    }

    /// An identifier is determined by its wire value.
    pub broadcast proof fn lemma_raw(raw: u64)
        ensures
            #[trigger] Self::spec_from(raw).spec_raw() == raw,
    {
    }

    /// Identifiers with the same wire value are the same identifier.
    pub broadcast proof fn lemma_from_raw(id: Self)
        ensures
            #[trigger] Self::spec_from(id.spec_raw()) == id,
    {
    }

    /// The original-destination-connection-ID parameter (`0x00`).
    #[allow(non_snake_case)]
    pub fn ORIGINAL_DESTINATION_CONNECTION_ID() -> (r: Self)
        ensures
            r.spec_raw() == 0x00,
    {
        Self(0x00)
    }

    /// The maximum-idle-timeout parameter (`0x01`).
    #[allow(non_snake_case)]
    pub fn MAX_IDLE_TIMEOUT() -> (r: Self)
        ensures
            r.spec_raw() == 0x01,
    {
        Self(0x01)
    }

    /// The stateless-reset-token parameter (`0x02`).
    #[allow(non_snake_case)]
    pub fn STATELESS_RESET_TOKEN() -> (r: Self)
        ensures
            r.spec_raw() == 0x02,
    {
        Self(0x02)
    }

    /// The maximum-UDP-payload-size parameter (`0x03`).
    #[allow(non_snake_case)]
    pub fn MAX_UDP_PAYLOAD_SIZE() -> (r: Self)
        ensures
            r.spec_raw() == 0x03,
    {
        Self(0x03)
    }

    /// The initial-maximum-data parameter (`0x04`).
    #[allow(non_snake_case)]
    pub fn INITIAL_MAX_DATA() -> (r: Self)
        ensures
            r.spec_raw() == 0x04,
    {
        Self(0x04)
    }

    /// The initial-maximum-stream-data-bidi-local parameter (`0x05`).
    #[allow(non_snake_case)]
    pub fn INITIAL_MAX_STREAM_DATA_BIDI_LOCAL() -> (r: Self)
        ensures
            r.spec_raw() == 0x05,
    {
        Self(0x05)
    }

    /// The initial-maximum-stream-data-bidi-remote parameter (`0x06`).
    #[allow(non_snake_case)]
    pub fn INITIAL_MAX_STREAM_DATA_BIDI_REMOTE() -> (r: Self)
        ensures
            r.spec_raw() == 0x06,
    {
        Self(0x06)
    }

    /// The initial-maximum-stream-data-uni parameter (`0x07`).
    #[allow(non_snake_case)]
    pub fn INITIAL_MAX_STREAM_DATA_UNI() -> (r: Self)
        ensures
            r.spec_raw() == 0x07,
    {
        Self(0x07)
    }

    /// The initial-maximum-streams-bidi parameter (`0x08`).
    #[allow(non_snake_case)]
    pub fn INITIAL_MAX_STREAMS_BIDI() -> (r: Self)
        ensures
            r.spec_raw() == 0x08,
    {
        Self(0x08)
    }

    /// The initial-maximum-streams-uni parameter (`0x09`).
    #[allow(non_snake_case)]
    pub fn INITIAL_MAX_STREAMS_UNI() -> (r: Self)
        ensures
            r.spec_raw() == 0x09,
    {
        Self(0x09)
    }

    /// The acknowledgment-delay-exponent parameter (`0x0a`).
    #[allow(non_snake_case)]
    pub fn ACK_DELAY_EXPONENT() -> (r: Self)
        ensures
            r.spec_raw() == 0x0a,
    {
        Self(0x0a)
    }

    /// The maximum-acknowledgment-delay parameter (`0x0b`).
    #[allow(non_snake_case)]
    pub fn MAX_ACK_DELAY() -> (r: Self)
        ensures
            r.spec_raw() == 0x0b,
    {
        Self(0x0b)
    }

    /// The disable-active-migration parameter (`0x0c`).
    #[allow(non_snake_case)]
    pub fn DISABLE_ACTIVE_MIGRATION() -> (r: Self)
        ensures
            r.spec_raw() == 0x0c,
    {
        Self(0x0c)
    }

    /// The preferred-address parameter (`0x0d`).
    #[allow(non_snake_case)]
    pub fn PREFERRED_ADDRESS() -> (r: Self)
        ensures
            r.spec_raw() == 0x0d,
    {
        Self(0x0d)
    }

    /// The active-connection-ID-limit parameter (`0x0e`).
    #[allow(non_snake_case)]
    pub fn ACTIVE_CONNECTION_ID_LIMIT() -> (r: Self)
        ensures
            r.spec_raw() == 0x0e,
    {
        Self(0x0e)
    }

    /// The initial-source-connection-ID parameter (`0x0f`).
    #[allow(non_snake_case)]
    pub fn INITIAL_SOURCE_CONNECTION_ID() -> (r: Self)
        ensures
            r.spec_raw() == 0x0f,
    {
        Self(0x0f)
    }

    /// The retry-source-connection-ID parameter (`0x10`).
    #[allow(non_snake_case)]
    pub fn RETRY_SOURCE_CONNECTION_ID() -> (r: Self)
        ensures
            r.spec_raw() == 0x10,
    {
        Self(0x10)
    }

    /// Creates an identifier from its decoded wire value.
    pub fn new(raw: u64) -> (r: Self)
        ensures
            r == Self::spec_from(raw),
    {
        Self(raw)
    }

    /// Returns the decoded wire value.
    pub fn raw(self) -> (r: u64)
        ensures
            r == self.spec_raw(),
    {
        self.0
    }

    /// Returns whether this identifier has RFC 9000's reserved `31 * N + 27` form.
    pub fn is_reserved(self) -> (r: bool)
        ensures
            r == (self.spec_raw() % 31 == 27),
    {
        self.0 % 31 == 27
    }
}

/// Identifies a transport-parameter tuple field.
#[derive(Clone, Copy, Debug, PartialEq, Eq, Structural)]
pub enum QuicTransportParameterField {
    /// The tuple's parameter-ID variable integer.
    Id,
    /// The tuple's parameter-length variable integer.
    Length,
    /// The tuple's opaque parameter-value bytes.
    Value,
}

/// Failure to parse a QUIC transport-parameter extension payload.
#[derive(Clone, Copy, Debug, PartialEq, Eq)]
pub enum QuicTransportParameterParseError {
    /// A tuple variable integer is incomplete.
    IncompleteVarInt {
        /// Tuple field whose variable integer is incomplete.
        field: QuicTransportParameterField,
        /// Absolute field offset from the extension-payload start.
        offset: usize,
        /// Exact variable-integer parsing failure.
        error: QuicVarIntParseError,
    },
    /// A decoded parameter length cannot be represented as `usize` on this target.
    LengthNotRepresentable {
        /// Absolute length-field offset from the extension-payload start.
        offset: usize,
        /// Decoded wire length.
        value: u64,
    },
    /// Computing a parameter-value end offset overflows `usize`.
    LengthOverflow {
        /// Absolute value offset from the extension-payload start.
        offset: usize,
        /// Representable decoded parameter length.
        length: usize,
    },
    /// A parameter value is incomplete.
    IncompleteValue {
        /// Absolute value offset from the extension-payload start.
        offset: usize,
        /// Bytes required by the value.
        required: usize,
        /// Bytes available for the value.
        available: usize,
    },
    /// A parameter identifier occurs more than once.
    DuplicateId {
        /// Repeated decoded parameter identifier.
        id: QuicTransportParameterId,
        /// Absolute tuple offset of the first occurrence.
        first_offset: usize,
        /// Absolute tuple offset of the duplicate occurrence.
        duplicate_offset: usize,
    },
}

/// Failure to interpret a TLS extension as RFC 9001 QUIC transport parameters.
#[derive(Clone, Copy, Debug, PartialEq, Eq)]
pub enum QuicTransportParametersTlsExtensionError {
    /// The TLS extension has a type other than `quic_transport_parameters`.
    WrongExtensionType {
        /// Exact type carried by the TLS extension.
        actual: TlsExtensionType,
    },
    /// The extension payload is not a valid QUIC transport-parameter sequence.
    Parse(QuicTransportParameterParseError),
}

/// The fields of one transport-parameter tuple.
pub struct QuicTransportParameterFields {
    /// The encoded parameter ID.
    pub id: Seq<u8>,
    /// The encoded value length.
    pub length: Seq<u8>,
    /// The value.
    pub value: Seq<u8>,
    /// The tuple's length.
    pub tuple_len: nat,
}

/// The error for an incomplete variable integer in `field` at `offset`, read from `rest`.
pub open spec fn spec_tp_varint_error(
    field: QuicTransportParameterField,
    offset: int,
    rest: Seq<u8>,
) -> QuicTransportParameterParseError {
    QuicTransportParameterParseError::IncompleteVarInt {
        field,
        offset: offset as usize,
        error: QuicVarIntParseError::Incomplete {
            required: spec_required(rest) as usize,
            available: rest.len() as usize,
        },
    }
}

/// The transport-parameter tuple that `b` starts with, `offset` bytes into its payload, or the
/// first error.
pub open spec fn spec_tp_at(b: Seq<u8>, offset: int) -> Result<
    QuicTransportParameterFields,
    QuicTransportParameterParseError,
> {
    if !spec_varint_complete(b) {
        Err(spec_tp_varint_error(QuicTransportParameterField::Id, offset, b))
    } else {
        let id = spec_varint_span(b);
        let ls = id.len() as int;
        let rest = b.subrange(ls, b.len() as int);
        if !spec_varint_complete(rest) {
            Err(spec_tp_varint_error(QuicTransportParameterField::Length, offset + ls, rest))
        } else {
            let length = spec_varint_span(rest);
            let vs = ls + length.len();
            let len = spec_decode_value(length);
            if len > usize::MAX {
                Err(
                    QuicTransportParameterParseError::LengthNotRepresentable {
                        offset: (offset + ls) as usize,
                        value: len,
                    },
                )
            } else if vs + len > usize::MAX {
                Err(
                    QuicTransportParameterParseError::LengthOverflow {
                        offset: (offset + vs) as usize,
                        length: len as usize,
                    },
                )
            } else if b.len() - vs < len {
                Err(
                    QuicTransportParameterParseError::IncompleteValue {
                        offset: (offset + vs) as usize,
                        required: len as usize,
                        available: (b.len() - vs) as usize,
                    },
                )
            } else {
                Ok(
                    QuicTransportParameterFields {
                        id,
                        length,
                        value: b.subrange(vs, vs + len),
                        tuple_len: (vs + len) as nat,
                    },
                )
            }
        }
    }
}

/// Whether every tuple of `p`, which starts `offset` bytes into its payload, parses.
pub open spec fn spec_tps_from(p: Seq<u8>, offset: int) -> Result<(), QuicTransportParameterParseError>
    decreases p.len(),
{
    if p.len() == 0 {
        Ok(())
    } else {
        match spec_tp_at(p, offset) {
            Err(e) => Err(e),
            Ok(t) => if 0 < t.tuple_len <= p.len() {
                spec_tps_from(p.subrange(t.tuple_len as int, p.len() as int), offset + t.tuple_len)
            } else {
                Ok(())
            },
        }
    }
}

/// The offset of the first tuple of `p` (starting `offset` bytes into its payload) whose
/// identifier is `id`, or `None` when no tuple before the first malformed one has it.
pub open spec fn spec_first_id(p: Seq<u8>, offset: int, id: u64) -> Option<int>
    decreases p.len(),
{
    if p.len() == 0 {
        None
    } else {
        match spec_tp_at(p, offset) {
            Err(_) => None,
            Ok(t) => if spec_decode_value(t.id) == id {
                Some(offset)
            } else if 0 < t.tuple_len <= p.len() {
                spec_first_id(p.subrange(t.tuple_len as int, p.len() as int), offset + t.tuple_len, id)
            } else {
                None
            },
        }
    }
}

/// Whether the payload `b` from `start` on parses with no identifier occurring twice: the
/// first structural error, or the first repeated identifier with the offset of its first
/// occurrence.
pub open spec fn spec_tp_check(b: Seq<u8>, start: int) -> Result<(), QuicTransportParameterParseError>
    decreases b.len() - start,
{
    if start < 0 || start >= b.len() {
        Ok(())
    } else {
        match spec_tp_at(b.subrange(start, b.len() as int), start) {
            Err(e) => Err(e),
            Ok(t) => {
                let id = spec_decode_value(t.id);
                match spec_first_id(b.subrange(0, start), 0, id) {
                    Some(first) => Err(
                        QuicTransportParameterParseError::DuplicateId {
                            id: QuicTransportParameterId::spec_from(id),
                            first_offset: first as usize,
                            duplicate_offset: start as usize,
                        },
                    ),
                    None => if t.tuple_len > 0 {
                        spec_tp_check(b, start + t.tuple_len)
                    } else {
                        Ok(())
                    },
                }
            },
        }
    }
}

/// A checked borrowed QUIC transport-parameter tuple.
#[derive(Clone, Copy, Debug, PartialEq, Eq)]
pub struct QuicTransportParameter<'a> {
    bytes: &'a [u8],
    id: QuicVarInt<'a>,
    length: QuicVarInt<'a>,
    value: &'a [u8],
}

impl<'a> View for QuicTransportParameter<'a> {
    type V = Seq<u8>;

    closed spec fn view(&self) -> Seq<u8> {
        self.bytes@
    }
}

impl<'a> QuicTransportParameter<'a> {
    /// The parsed fields.
    pub closed spec fn fields(&self) -> QuicTransportParameterFields {
        QuicTransportParameterFields {
            id: self.id@,
            length: self.length@,
            value: self.value@,
            tuple_len: self.bytes@.len(),
        }
    }

    /// The decoded parameter identifier.
    pub open spec fn spec_id(&self) -> u64 {
        spec_decode_value(self.fields().id)
    }

    /// Returns the exact encoded tuple bytes.
    pub fn as_bytes(self) -> (r: &'a [u8])
        ensures
            r@ == self@,
            r@.len() == self.fields().tuple_len,
    {
        self.bytes
    }

    /// Returns the exact encoded parameter-ID variable integer.
    pub fn id(self) -> (r: QuicVarInt<'a>)
        ensures
            r@ == self.fields().id,
    {
        self.id
    }

    /// Returns the decoded parameter identifier.
    pub fn parameter_id(self) -> (r: QuicTransportParameterId)
        ensures
            r.spec_raw() == self.spec_id(),
    {
        QuicTransportParameterId::new(self.id.value())
    }

    /// Returns the exact encoded parameter-length variable integer.
    pub fn length(self) -> (r: QuicVarInt<'a>)
        ensures
            r@ == self.fields().length,
    {
        self.length
    }

    /// Returns the exact opaque parameter-value bytes, which may be empty.
    pub fn value(self) -> (r: &'a [u8])
        ensures
            r@ == self.fields().value,
    {
        self.value
    }
}

/// A complete validated borrowed QUIC transport-parameter extension payload.
#[derive(Clone, Copy, Debug, PartialEq, Eq)]
pub struct QuicTransportParameters<'a> {
    bytes: &'a [u8],
}

impl<'a> View for QuicTransportParameters<'a> {
    type V = Seq<u8>;

    closed spec fn view(&self) -> Seq<u8> {
        self.bytes@
    }
}

impl<'a> QuicTransportParameters<'a> {
    #[verifier::type_invariant]
    closed spec fn inv(self) -> bool {
        spec_tp_check(self.bytes@, 0) is Ok
    }

    /// Parses and validates a complete transport-parameter extension payload.
    pub fn parse(bytes: &'a [u8]) -> (r: Result<Self, QuicTransportParameterParseError>)
        ensures
            match r {
                Ok(p) => p@ == bytes@ && spec_tp_check(bytes@, 0) is Ok,
                Err(e) => spec_tp_check(bytes@, 0) == Err::<(), QuicTransportParameterParseError>(e),
            },
    {
        proof {
            assert(bytes.len() == bytes@.len());
        }
        let mut remaining = bytes;
        let mut offset: usize = 0;
        while remaining.len() != 0
            invariant
                offset + remaining@.len() == bytes@.len(),
                bytes@.len() <= usize::MAX,
                remaining@ == bytes@.subrange(offset as int, bytes@.len() as int),
                spec_tp_check(bytes@, 0) == spec_tp_check(bytes@, offset as int),
            decreases remaining@.len(),
        {
            let (parameter, suffix) = match parse_at(remaining, offset) {
                Ok(p) => p,
                Err(e) => return Err(e),
            };
            match first_id_offset(bytes, offset, parameter.parameter_id()) {
                Some(first_offset) => {
                    return Err(
                        QuicTransportParameterParseError::DuplicateId {
                            id: parameter.parameter_id(),
                            first_offset,
                            duplicate_offset: offset,
                        },
                    );
                },
                None => {},
            }
            let consumed = parameter.as_bytes().len();
            remaining = suffix;
            offset = offset + consumed;
            proof {
                assert(remaining@ =~= bytes@.subrange(offset as int, bytes@.len() as int));
            }
        }
        Ok(Self { bytes })
    }

    /// Returns the exact complete extension-payload bytes.
    pub fn as_bytes(self) -> (r: &'a [u8])
        ensures
            r@ == self@,
    {
        self.bytes
    }

    /// Returns a fresh iterator over this already validated extension payload.
    pub fn iter(self) -> (r: QuicTransportParameterIter<'a>)
        ensures
            r.spec_remaining() == self@,
            r.spec_offset() == 0,
            !r.spec_failed(),
            r.spec_rest() is Ok,
    {
        proof {
            use_type_invariant(&self);
            lemma_check_structural(self.bytes@, 0);
            assert(self.bytes@.subrange(0, self.bytes@.len() as int) =~= self.bytes@);
        }
        QuicTransportParameterIter::new(self.bytes)
    }
}

/// A payload with no structural error and no repeated identifier from `start` on also parses
/// structurally from `start` on.
pub proof fn lemma_check_structural(b: Seq<u8>, start: int)
    requires
        0 <= start <= b.len(),
        spec_tp_check(b, start) is Ok,
    ensures
        spec_tps_from(b.subrange(start, b.len() as int), start) is Ok,
    decreases b.len() - start,
{
    let p = b.subrange(start, b.len() as int);
    if start < b.len() {
        let t = spec_tp_at(p, start)->Ok_0;
        if 0 < t.tuple_len <= p.len() {
            lemma_check_structural(b, start + t.tuple_len);
            assert(p.subrange(t.tuple_len as int, p.len() as int) =~= b.subrange(
                start + t.tuple_len,
                b.len() as int,
            ));
        }
    }
}

impl<'a> TlsExtension<'a> {
    /// Parses this RFC 9001 QUIC transport-parameters extension payload.
    ///
    /// RFC 9001 permits this extension in ClientHello and EncryptedExtensions and requires it
    /// in both. Callers that own the parent handshake-message context enforce its placement and
    /// presence; this accessor parses only the extension payload.
    pub fn quic_transport_parameters(&self) -> (r: Result<
        QuicTransportParameters<'a>,
        QuicTransportParametersTlsExtensionError,
    >)
        ensures
            self@.0 != 57 ==> (r matches Err(
                QuicTransportParametersTlsExtensionError::WrongExtensionType { actual },
            ) && actual.spec_raw() == self@.0),
            self@.0 == 57 ==> match r {
                Ok(p) => p@ == self@.1 && spec_tp_check(self@.1, 0) is Ok,
                Err(e) => spec_tp_check(self@.1, 0) matches Err(pe) && e
                    == QuicTransportParametersTlsExtensionError::Parse(pe),
            },
    {
        let extension_type = self.extension_type();
        if extension_type.raw() != TlsExtensionType::QUIC_TRANSPORT_PARAMETERS().raw() {
            return Err(
                QuicTransportParametersTlsExtensionError::WrongExtensionType {
                    actual: extension_type,
                },
            );
        }
        match QuicTransportParameters::parse(self.data()) {
            Ok(p) => Ok(p),
            Err(e) => Err(QuicTransportParametersTlsExtensionError::Parse(e)),
        }
    }
}

/// A fallible fused iterator over a QUIC transport-parameter extension payload.
#[derive(Clone, Copy, Debug)]
pub struct QuicTransportParameterIter<'a> {
    remaining: &'a [u8],
    offset: usize,
    failed: bool,
}

impl<'a> QuicTransportParameterIter<'a> {
    #[verifier::type_invariant]
    closed spec fn inv(self) -> bool {
        self.offset + self.remaining@.len() <= usize::MAX
    }

    /// The bytes not yet parsed.
    pub closed spec fn spec_remaining(&self) -> Seq<u8> {
        self.remaining@
    }

    /// The payload offset of the remaining bytes.
    pub closed spec fn spec_offset(&self) -> int {
        self.offset as int
    }

    /// Whether a tuple failed to parse.
    pub closed spec fn spec_failed(&self) -> bool {
        self.failed
    }

    /// Whether parsing what is left succeeds.
    pub open spec fn spec_rest(&self) -> Result<(), QuicTransportParameterParseError> {
        if self.spec_failed() {
            Ok(())
        } else {
            spec_tps_from(self.spec_remaining(), self.spec_offset())
        }
    }

    pub(crate) fn new(bytes: &'a [u8]) -> (r: Self)
        ensures
            r.spec_remaining() == bytes@,
            r.spec_offset() == 0,
            !r.spec_failed(),
    {
        proof {
            assert(bytes.len() == bytes@.len());
        }
        Self { remaining: bytes, offset: 0, failed: false }
    }

    /// Returns the next tuple, or the error that ends iteration.
    pub fn next(&mut self) -> (r: Option<
        Result<QuicTransportParameter<'a>, QuicTransportParameterParseError>,
    >)
        ensures
            old(self).spec_failed() || old(self).spec_remaining().len() == 0 ==> r is None
                && *final(self) == *old(self),
            !old(self).spec_failed() && old(self).spec_remaining().len() > 0 ==> match spec_tp_at(
                old(self).spec_remaining(),
                old(self).spec_offset(),
            ) {
                Ok(t) => r matches Some(Ok(p)) && p.fields() == t && p@
                    == old(self).spec_remaining().subrange(0, t.tuple_len as int) && 0
                    < t.tuple_len <= old(self).spec_remaining().len()
                    && final(self).spec_remaining() == old(self).spec_remaining().subrange(
                    t.tuple_len as int,
                    old(self).spec_remaining().len() as int,
                ) && final(self).spec_offset() == old(self).spec_offset() + t.tuple_len
                    && !final(self).spec_failed(),
                Err(e) => r == Some(
                    Err::<QuicTransportParameter<'a>, QuicTransportParameterParseError>(e),
                ) && final(self).spec_failed() && final(self).spec_remaining().len() == 0,
            },
            old(self).spec_rest() is Ok ==> final(self).spec_rest() is Ok && !(r matches Some(
                Err(_),
            )),
    {
        proof {
            use_type_invariant(&*self);
        }
        if self.failed || self.remaining.len() == 0 {
            return None;
        }
        match parse_at(self.remaining, self.offset) {
            Ok((parameter, suffix)) => {
                let consumed = parameter.as_bytes().len();
                self.remaining = suffix;
                self.offset = self.offset + consumed;
                Some(Ok(parameter))
            },
            Err(error) => {
                self.failed = true;
                self.remaining = slice_from(self.remaining, self.remaining.len());
                Some(Err(error))
            },
        }
    }
}

pub(crate) fn parse_at<'a>(bytes: &'a [u8], offset: usize) -> (r: Result<
    (QuicTransportParameter<'a>, &'a [u8]),
    QuicTransportParameterParseError,
>)
    requires
        offset + bytes@.len() <= usize::MAX,
    ensures
        match r {
            Ok((parameter, suffix)) => spec_tp_at(bytes@, offset as int) == Ok::<
                QuicTransportParameterFields,
                QuicTransportParameterParseError,
            >(parameter.fields()) && 0 < parameter@.len() <= bytes@.len() && parameter@
                == bytes@.subrange(0, parameter@.len() as int) && suffix@ == bytes@.subrange(
                parameter@.len() as int,
                bytes@.len() as int,
            ),
            Err(e) => spec_tp_at(bytes@, offset as int) == Err::<
                QuicTransportParameterFields,
                QuicTransportParameterParseError,
            >(e),
        },
{
    let id = match QuicVarInt::parse(bytes) {
        Ok(v) => v,
        Err(error) => return Err(
            QuicTransportParameterParseError::IncompleteVarInt {
                field: QuicTransportParameterField::Id,
                offset,
                error,
            },
        ),
    };
    let length_start = id.byte_len();
    let length_offset = offset + length_start;
    let length = match QuicVarInt::parse(slice_from(bytes, length_start)) {
        Ok(v) => v,
        Err(error) => return Err(
            QuicTransportParameterParseError::IncompleteVarInt {
                field: QuicTransportParameterField::Length,
                offset: length_offset,
                error,
            },
        ),
    };
    let value_start = length_start + length.byte_len();
    let value_offset = offset + value_start;
    if length.value() > usize::MAX as u64 {
        return Err(
            QuicTransportParameterParseError::LengthNotRepresentable {
                offset: length_offset,
                value: length.value(),
            },
        );
    }
    let value_length = length.value() as usize;
    let value_end = match value_start.checked_add(value_length) {
        Some(end) => end,
        None => return Err(
            QuicTransportParameterParseError::LengthOverflow { offset: value_offset, length: value_length },
        ),
    };
    let available = bytes.len() - value_start;
    if available < value_length {
        return Err(
            QuicTransportParameterParseError::IncompleteValue {
                offset: value_offset,
                required: value_length,
                available,
            },
        );
    }
    Ok(
        (
            QuicTransportParameter {
                bytes: slice_range(bytes, 0, value_end),
                id,
                length,
                value: slice_range(bytes, value_start, value_end),
            },
            slice_from(bytes, value_end),
        ),
    )
}

fn first_id_offset(bytes: &[u8], end: usize, id: QuicTransportParameterId) -> (r: Option<usize>)
    requires
        end <= bytes@.len(),
    ensures
        match spec_first_id(bytes@.subrange(0, end as int), 0, id.spec_raw()) {
            Some(o) => r == Some(o as usize),
            None => r is None,
        },
{
    let mut remaining = slice_range(bytes, 0, end);
    let mut offset: usize = 0;
    proof {
        assert(bytes.len() == bytes@.len());
    }
    while remaining.len() != 0
        invariant
            offset + remaining@.len() == end,
            end <= bytes@.len(),
            bytes@.len() <= usize::MAX,
            spec_first_id(bytes@.subrange(0, end as int), 0, id.spec_raw()) == spec_first_id(
                remaining@,
                offset as int,
                id.spec_raw(),
            ),
        decreases remaining@.len(),
    {
        let (parameter, suffix) = match parse_at(remaining, offset) {
            Ok(parsed) => parsed,
            Err(_) => return None,
        };
        if parameter.parameter_id().raw() == id.raw() {
            return Some(offset);
        }
        offset = offset + parameter.as_bytes().len();
        remaining = suffix;
    }
    None
}


/// The identifiers of the tuples that start at `start` and before `end` in the payload `b`, in
/// wire order, up to the first malformed tuple.
pub open spec fn spec_tp_ids(b: Seq<u8>, start: int, end: int) -> Seq<u64>
    decreases end - start,
{
    if start < 0 || start >= end || end > b.len() {
        Seq::empty()
    } else {
        match spec_tp_at(b.subrange(start, b.len() as int), start) {
            Err(_) => Seq::empty(),
            Ok(t) => if t.tuple_len > 0 && start + t.tuple_len <= end {
                seq![spec_decode_value(t.id)] + spec_tp_ids(b, start + t.tuple_len, end)
            } else if t.tuple_len > 0 {
                seq![spec_decode_value(t.id)]
            } else {
                Seq::empty()
            },
        }
    }
}

/// Whether walking whole tuples of `b` from `start` lands exactly on `end`.
pub open spec fn spec_tp_reaches(b: Seq<u8>, start: int, end: int) -> bool
    decreases end - start,
{
    if start == end {
        true
    } else if start < 0 || start > end || end > b.len() {
        false
    } else {
        match spec_tp_at(b.subrange(start, b.len() as int), start) {
            Err(_) => false,
            Ok(t) => t.tuple_len > 0 && start + t.tuple_len <= end && spec_tp_reaches(
                b,
                start + t.tuple_len,
                end,
            ),
        }
    }
}

/// A variable integer that `s` starts with reads the same from any prefix of `s` that holds it.
proof fn lemma_varint_prefix(s: Seq<u8>, k: int)
    requires
        spec_varint_complete(s),
        spec_required(s) <= k <= s.len(),
    ensures
        spec_varint_complete(s.subrange(0, k)),
        spec_varint_span(s.subrange(0, k)) == spec_varint_span(s),
{
    let w = s.subrange(0, k);
    assert(w[0] == s[0]);
    assert(spec_required(w) == spec_required(s));
    assert(w.subrange(0, spec_required(w) as int) =~= s.subrange(0, spec_required(s) as int));
}

/// A tuple read from `p` reads the same from any prefix of `p` that holds it.
proof fn lemma_tp_at_prefix(p: Seq<u8>, k: int, offset: int)
    requires
        spec_tp_at(p, offset) matches Ok(t) && t.tuple_len <= k <= p.len(),
    ensures
        spec_tp_at(p.subrange(0, k), offset) == spec_tp_at(p, offset),
{
    let w = p.subrange(0, k);
    lemma_varint_prefix(p, k);
    let ls = spec_varint_span(p).len() as int;
    let rest = p.subrange(ls, p.len() as int);
    let wrest = w.subrange(ls, w.len() as int);
    assert(wrest =~= rest.subrange(0, k - ls));
    lemma_varint_prefix(rest, k - ls);
    let t = spec_tp_at(p, offset)->Ok_0;
    let vs = ls + spec_varint_span(rest).len();
    assert(w.subrange(vs, t.tuple_len as int) =~= p.subrange(vs, t.tuple_len as int));
}

/// Walking whole tuples from `start` to `end` and one more tuple lands after that tuple, and
/// the identifiers up to there gain that tuple's identifier.
proof fn lemma_tp_walk_step(b: Seq<u8>, start: int, end: int)
    requires
        spec_tp_reaches(b, start, end),
        0 <= end < b.len(),
        spec_tp_at(b.subrange(end, b.len() as int), end) matches Ok(t) && t.tuple_len > 0
            && end + t.tuple_len <= b.len(),
    ensures
        ({
            let t = spec_tp_at(b.subrange(end, b.len() as int), end)->Ok_0;
            &&& spec_tp_reaches(b, start, end + t.tuple_len)
            &&& spec_tp_ids(b, start, end + t.tuple_len) == spec_tp_ids(b, start, end).push(
                spec_decode_value(t.id),
            )
        }),
    decreases end - start,
{
    let t = spec_tp_at(b.subrange(end, b.len() as int), end)->Ok_0;
    if start == end {
        assert(spec_tp_reaches(b, end + t.tuple_len, end + t.tuple_len));
        assert(spec_tp_ids(b, end + t.tuple_len, end + t.tuple_len) =~= Seq::<u64>::empty());
        assert(spec_tp_ids(b, start, end) =~= Seq::<u64>::empty());
        assert(spec_tp_ids(b, start, end + t.tuple_len) =~= seq![spec_decode_value(t.id)]);
    } else {
        let t0 = spec_tp_at(b.subrange(start, b.len() as int), start)->Ok_0;
        lemma_tp_walk_step(b, start + t0.tuple_len, end);
        assert(spec_tp_ids(b, start, end + t.tuple_len) =~= spec_tp_ids(b, start, end).push(
            spec_decode_value(t.id),
        ));
    }
}

/// Searching the tuples of `b` that start at `start` and end by `end` (a walk from `start`
/// lands on `end`) for `id` finds nothing exactly when `id` is not among their identifiers.
proof fn lemma_first_id_window(b: Seq<u8>, start: int, end: int, id: u64)
    requires
        0 <= start <= end <= b.len(),
        spec_tp_reaches(b, start, end),
    ensures
        spec_first_id(b.subrange(start, end), start, id) is None <==> !spec_tp_ids(
            b,
            start,
            end,
        ).contains(id),
    decreases end - start,
{
    let w = b.subrange(start, end);
    if start < end {
        let p = b.subrange(start, b.len() as int);
        let t = spec_tp_at(p, start)->Ok_0;
        assert(w =~= p.subrange(0, end - start));
        lemma_tp_at_prefix(p, end - start, start);
        lemma_first_id_window(b, start + t.tuple_len, end, id);
        assert(w.subrange(t.tuple_len as int, w.len() as int) =~= b.subrange(
            start + t.tuple_len,
            end,
        ));
        let rest = spec_tp_ids(b, start + t.tuple_len, end);
        assert(spec_tp_ids(b, start, end) == seq![spec_decode_value(t.id)] + rest);
        if spec_decode_value(t.id) != id {
            assert(spec_tp_ids(b, start, end).contains(id) <==> rest.contains(id)) by {
                if rest.contains(id) {
                    let i = choose|i: int| 0 <= i < rest.len() && rest[i] == id;
                    assert(spec_tp_ids(b, start, end)[i + 1] == id);
                }
            }
        } else {
            assert(spec_tp_ids(b, start, end)[0] == id);
        }
    } else {
        assert(spec_tp_ids(b, start, end) =~= Seq::<u64>::empty());
    }
}

/// The identifiers before `start` and from `start` on, for a payload with no structural error
/// and no repeated identifier from `start` on, together hold no identifier twice.
proof fn lemma_check_distinct(b: Seq<u8>, start: int)
    requires
        0 <= start <= b.len(),
        spec_tp_reaches(b, 0, start),
        spec_tp_check(b, start) is Ok,
        spec_tp_ids(b, 0, start).no_duplicates(),
    ensures
        spec_tp_ids(b, 0, b.len() as int).no_duplicates(),
    decreases b.len() - start,
{
    if start == b.len() {
    } else {
        let p = b.subrange(start, b.len() as int);
        let t = spec_tp_at(p, start)->Ok_0;
        let id = spec_decode_value(t.id);
        assert(b.subrange(0, start).subrange(0, start) =~= b.subrange(0, start));
        lemma_first_id_window(b, 0, start, id);
        lemma_tp_walk_step(b, 0, start);
        lemma_check_distinct(b, start + t.tuple_len);
    }
}

/// A payload that `QuicTransportParameters::parse` accepts carries each parameter identifier at
/// most once.
pub proof fn lemma_parsed_ids_distinct(b: Seq<u8>)
    requires
        spec_tp_check(b, 0) is Ok,
    ensures
        spec_tp_ids(b, 0, b.len() as int).no_duplicates(),
{
    assert(spec_tp_ids(b, 0, 0) =~= Seq::<u64>::empty());
    lemma_check_distinct(b, 0);
}

} // verus!
