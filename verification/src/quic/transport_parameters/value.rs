//! Typed RFC 9000 transport-parameter payload views.

use super::{QuicTransportParameter, QuicTransportParameterId};
use crate::quic::packet::header::QuicConnectionId;
use crate::quic::varint::{
    QuicVarInt, QuicVarIntParseError, spec_required, spec_varint_complete, spec_varint_span,
};
use crate::wire::{array_ref, be16, read_be16, slice_range};
use vstd::prelude::*;

verus! {

broadcast use QuicTransportParameterId::lemma_raw, QuicTransportParameterId::lemma_from_raw;

/// Identifies an RFC 9000 transport-parameter payload layout.
#[derive(Clone, Copy, Debug, PartialEq, Eq, Structural)]
pub enum QuicTransportParameterValueKind {
    /// A payload containing exactly one QUIC variable integer.
    Integer,
    /// A payload containing an opaque connection ID.
    ConnectionId,
    /// A payload containing a 16-byte stateless reset token.
    StatelessResetToken,
    /// The empty disable-active-migration payload.
    DisableActiveMigration,
    /// The preferred-address payload.
    PreferredAddress,
}

/// Failure to interpret one raw transport-parameter value as an RFC 9000 payload layout.
///
/// Offsets in preferred-address errors are relative to the parameter value, not to an
/// enclosing extension payload.
#[derive(Clone, Copy, Debug, PartialEq, Eq)]
pub enum QuicTransportParameterValueError {
    /// The accessor does not apply to this parameter ID.
    WrongId {
        /// Requested payload layout.
        kind: QuicTransportParameterValueKind,
        /// Actual decoded parameter ID.
        actual: QuicTransportParameterId,
    },
    /// The integer payload is empty or ends before its encoded width.
    MalformedInteger {
        /// Exact variable-integer parsing failure.
        error: QuicVarIntParseError,
    },
    /// Bytes follow an otherwise complete integer payload.
    TrailingIntegerBytes {
        /// Encoded integer length.
        parsed: usize,
        /// Complete payload length.
        available: usize,
    },
    /// A fixed-size payload has the wrong length.
    WrongLength {
        /// Requested payload layout.
        kind: QuicTransportParameterValueKind,
        /// Required exact length.
        expected: usize,
        /// Actual payload length.
        actual: usize,
    },
    /// A connection-ID payload exceeds RFC 9000's version-1 bound.
    ConnectionIdTooLong {
        /// Maximum permitted length.
        maximum: usize,
        /// Actual payload length.
        actual: usize,
    },
    /// The preferred-address connection-ID length is outside `1..=20`.
    PreferredAddressConnectionIdLength {
        /// Encoded connection-ID length.
        actual: u8,
    },
    /// A preferred-address field is incomplete.
    PreferredAddressIncomplete {
        /// Value-relative start offset of the incomplete field.
        offset: usize,
        /// Total value bytes required through this field.
        required: usize,
        /// Available value bytes.
        available: usize,
    },
    /// Bytes follow the complete preferred-address payload.
    PreferredAddressTrailingBytes {
        /// Value-relative offset of the first extra byte.
        offset: usize,
        /// Number of extra bytes.
        available: usize,
    },
}

/// Whether `id` names a parameter whose value is one variable integer.
pub open spec fn spec_is_integer_id(id: u64) -> bool {
    id == 0x01 || (0x03 <= id <= 0x0b) || id == 0x0e
}

/// Whether `id` names a parameter whose value is a connection ID.
pub open spec fn spec_is_connection_id_id(id: u64) -> bool {
    id == 0x00 || id == 0x0f || id == 0x10
}

/// The error for an accessor of layout `kind` on a parameter with identifier `id`.
pub open spec fn spec_wrong_id(kind: QuicTransportParameterValueKind, id: u64) -> QuicTransportParameterValueError {
    QuicTransportParameterValueError::WrongId { kind, actual: QuicTransportParameterId::spec_from(id) }
}

/// The integer that a parameter with identifier `id` and value `v` carries (its exact
/// encoding), or the error.
pub open spec fn spec_integer_value(id: u64, v: Seq<u8>) -> Result<Seq<u8>, QuicTransportParameterValueError> {
    if !spec_is_integer_id(id) {
        Err(spec_wrong_id(QuicTransportParameterValueKind::Integer, id))
    } else if !spec_varint_complete(v) {
        Err(
            QuicTransportParameterValueError::MalformedInteger {
                error: QuicVarIntParseError::Incomplete {
                    required: spec_required(v) as usize,
                    available: v.len() as usize,
                },
            },
        )
    } else if spec_varint_span(v).len() != v.len() {
        Err(
            QuicTransportParameterValueError::TrailingIntegerBytes {
                parsed: spec_varint_span(v).len() as usize,
                available: v.len() as usize,
            },
        )
    } else {
        Ok(v)
    }
}

/// The connection ID that a parameter with identifier `id` and value `v` carries, or the error.
pub open spec fn spec_connection_id_value(id: u64, v: Seq<u8>) -> Result<Seq<u8>, QuicTransportParameterValueError> {
    if !spec_is_connection_id_id(id) {
        Err(spec_wrong_id(QuicTransportParameterValueKind::ConnectionId, id))
    } else if v.len() > 20 {
        Err(QuicTransportParameterValueError::ConnectionIdTooLong { maximum: 20, actual: v.len() as usize })
    } else {
        Ok(v)
    }
}

/// The stateless reset token that a parameter with identifier `id` and value `v` carries, or
/// the error.
pub open spec fn spec_token_value(id: u64, v: Seq<u8>) -> Result<Seq<u8>, QuicTransportParameterValueError> {
    if id != 0x02 {
        Err(spec_wrong_id(QuicTransportParameterValueKind::StatelessResetToken, id))
    } else if v.len() != 16 {
        Err(
            QuicTransportParameterValueError::WrongLength {
                kind: QuicTransportParameterValueKind::StatelessResetToken,
                expected: 16,
                actual: v.len() as usize,
            },
        )
    } else {
        Ok(v)
    }
}

/// Whether a parameter with identifier `id` and value `v` is a well-formed
/// disable-active-migration parameter, or the error.
pub open spec fn spec_disable_migration_value(id: u64, v: Seq<u8>) -> Result<(), QuicTransportParameterValueError> {
    if id != 0x0c {
        Err(spec_wrong_id(QuicTransportParameterValueKind::DisableActiveMigration, id))
    } else if v.len() != 0 {
        Err(
            QuicTransportParameterValueError::WrongLength {
                kind: QuicTransportParameterValueKind::DisableActiveMigration,
                expected: 0,
                actual: v.len() as usize,
            },
        )
    } else {
        Ok(())
    }
}

/// The fields of a preferred-address payload.
pub struct QuicPreferredAddressFields {
    /// The IPv4 address.
    pub ipv4_address: Seq<u8>,
    /// The IPv4 port.
    pub ipv4_port: u16,
    /// The IPv6 address.
    pub ipv6_address: Seq<u8>,
    /// The IPv6 port.
    pub ipv6_port: u16,
    /// The connection ID.
    pub connection_id: Seq<u8>,
    /// The stateless reset token.
    pub stateless_reset_token: Seq<u8>,
}

/// The error for a preferred-address field at `offset` that needs `required` bytes of `available`.
pub open spec fn spec_preferred_incomplete(offset: int, required: int, available: int) -> QuicTransportParameterValueError {
    QuicTransportParameterValueError::PreferredAddressIncomplete {
        offset: offset as usize,
        required: required as usize,
        available: available as usize,
    }
}

/// The preferred address that the value `b` holds, or the first error.
pub open spec fn spec_preferred_address(b: Seq<u8>) -> Result<
    QuicPreferredAddressFields,
    QuicTransportParameterValueError,
> {
    let a = b.len() as int;
    if a < 4 {
        Err(spec_preferred_incomplete(0, 4, a))
    } else if a < 6 {
        Err(spec_preferred_incomplete(4, 6, a))
    } else if a < 22 {
        Err(spec_preferred_incomplete(6, 22, a))
    } else if a < 24 {
        Err(spec_preferred_incomplete(22, 24, a))
    } else if a < 25 {
        Err(spec_preferred_incomplete(24, 25, a))
    } else {
        let l = b[24] as int;
        let ce = 25 + l;
        let te = ce + 16;
        if l == 0 || l > 20 {
            Err(QuicTransportParameterValueError::PreferredAddressConnectionIdLength { actual: b[24] })
        } else if a < ce {
            Err(spec_preferred_incomplete(25, ce, a))
        } else if a < te {
            Err(spec_preferred_incomplete(ce, te, a))
        } else if a > te {
            Err(
                QuicTransportParameterValueError::PreferredAddressTrailingBytes {
                    offset: te as usize,
                    available: (a - te) as usize,
                },
            )
        } else {
            Ok(
                QuicPreferredAddressFields {
                    ipv4_address: b.subrange(0, 4),
                    ipv4_port: be16(b, 4) as u16,
                    ipv6_address: b.subrange(6, 22),
                    ipv6_port: be16(b, 22) as u16,
                    connection_id: b.subrange(25, ce),
                    stateless_reset_token: b.subrange(ce, te),
                },
            )
        }
    }
}

/// A checked borrowed RFC 9000 preferred-address payload.
#[derive(Clone, Copy, Debug, PartialEq, Eq)]
pub struct QuicPreferredAddress<'a> {
    bytes: &'a [u8],
    ipv4_address: &'a [u8; 4],
    ipv4_port: u16,
    ipv6_address: &'a [u8; 16],
    ipv6_port: u16,
    connection_id: QuicConnectionId<'a>,
    stateless_reset_token: &'a [u8; 16],
}

impl<'a> View for QuicPreferredAddress<'a> {
    type V = Seq<u8>;

    closed spec fn view(&self) -> Seq<u8> {
        self.bytes@
    }
}

impl<'a> QuicPreferredAddress<'a> {
    /// The parsed fields.
    pub closed spec fn fields(&self) -> QuicPreferredAddressFields {
        QuicPreferredAddressFields {
            ipv4_address: self.ipv4_address@,
            ipv4_port: self.ipv4_port,
            ipv6_address: self.ipv6_address@,
            ipv6_port: self.ipv6_port,
            connection_id: self.connection_id@,
            stateless_reset_token: self.stateless_reset_token@,
        }
    }

    /// Returns the exact complete preferred-address value bytes.
    pub fn as_bytes(self) -> (r: &'a [u8])
        ensures
            r@ == self@,
    {
        self.bytes
    }

    /// Returns the four raw IPv4 address bytes.
    pub fn ipv4_address(self) -> (r: &'a [u8; 4])
        ensures
            r@ == self.fields().ipv4_address,
    {
        self.ipv4_address
    }

    /// Returns the IPv4 port decoded in network byte order.
    pub fn ipv4_port(self) -> (r: u16)
        ensures
            r == self.fields().ipv4_port,
    {
        self.ipv4_port
    }

    /// Returns the sixteen raw IPv6 address bytes.
    pub fn ipv6_address(self) -> (r: &'a [u8; 16])
        ensures
            r@ == self.fields().ipv6_address,
    {
        self.ipv6_address
    }

    /// Returns the IPv6 port decoded in network byte order.
    pub fn ipv6_port(self) -> (r: u16)
        ensures
            r == self.fields().ipv6_port,
    {
        self.ipv6_port
    }

    /// Returns the exact preferred-address connection ID.
    pub fn connection_id(self) -> (r: QuicConnectionId<'a>)
        ensures
            r@ == self.fields().connection_id,
    {
        self.connection_id
    }

    /// Returns the exact 16-byte stateless reset token.
    pub fn stateless_reset_token(self) -> (r: &'a [u8; 16])
        ensures
            r@ == self.fields().stateless_reset_token,
    {
        self.stateless_reset_token
    }
}

impl<'a> QuicTransportParameter<'a> {
    /// Interprets an RFC 9000 integer-valued parameter while preserving its exact width.
    pub fn integer(self) -> (r: Result<QuicVarInt<'a>, QuicTransportParameterValueError>)
        ensures
            match r {
                Ok(v) => spec_integer_value(self.spec_id(), self.fields().value) == Ok::<
                    Seq<u8>,
                    QuicTransportParameterValueError,
                >(v@),
                Err(e) => spec_integer_value(self.spec_id(), self.fields().value) == Err::<
                    Seq<u8>,
                    QuicTransportParameterValueError,
                >(e),
            },
    {
        let id = self.parameter_id();
        if !is_integer_id(id) {
            return Err(wrong_id(QuicTransportParameterValueKind::Integer, id));
        }
        let value_bytes = self.value();
        let value = match QuicVarInt::parse(value_bytes) {
            Ok(v) => v,
            Err(error) => return Err(QuicTransportParameterValueError::MalformedInteger { error }),
        };
        if value.byte_len() != value_bytes.len() {
            return Err(
                QuicTransportParameterValueError::TrailingIntegerBytes {
                    parsed: value.byte_len(),
                    available: value_bytes.len(),
                },
            );
        }
        proof {
            assert(value_bytes@.subrange(0, value_bytes@.len() as int) =~= value_bytes@);
        }
        Ok(value)
    }

    /// Interprets an RFC 9000 connection-ID parameter with its version-1 length bound.
    pub fn connection_id(self) -> (r: Result<QuicConnectionId<'a>, QuicTransportParameterValueError>)
        ensures
            match r {
                Ok(c) => spec_connection_id_value(self.spec_id(), self.fields().value) == Ok::<
                    Seq<u8>,
                    QuicTransportParameterValueError,
                >(c@),
                Err(e) => spec_connection_id_value(self.spec_id(), self.fields().value) == Err::<
                    Seq<u8>,
                    QuicTransportParameterValueError,
                >(e),
            },
    {
        let id = self.parameter_id();
        if !is_connection_id_id(id) {
            return Err(wrong_id(QuicTransportParameterValueKind::ConnectionId, id));
        }
        let value = self.value();
        if value.len() > 20 {
            return Err(QuicTransportParameterValueError::ConnectionIdTooLong { maximum: 20, actual: value.len() });
        }
        Ok(QuicConnectionId::new(value))
    }

    /// Interprets the stateless-reset-token parameter's exact 16-byte payload.
    pub fn stateless_reset_token(self) -> (r: Result<&'a [u8; 16], QuicTransportParameterValueError>)
        ensures
            match r {
                Ok(t) => spec_token_value(self.spec_id(), self.fields().value) == Ok::<
                    Seq<u8>,
                    QuicTransportParameterValueError,
                >(t@),
                Err(e) => spec_token_value(self.spec_id(), self.fields().value) == Err::<
                    Seq<u8>,
                    QuicTransportParameterValueError,
                >(e),
            },
    {
        let id = self.parameter_id();
        if id.raw() != QuicTransportParameterId::STATELESS_RESET_TOKEN().raw() {
            return Err(wrong_id(QuicTransportParameterValueKind::StatelessResetToken, id));
        }
        let value = self.value();
        if value.len() != 16 {
            return Err(
                QuicTransportParameterValueError::WrongLength {
                    kind: QuicTransportParameterValueKind::StatelessResetToken,
                    expected: 16,
                    actual: value.len(),
                },
            );
        }
        Ok(array_ref::<16>(value))
    }

    /// Validates the empty disable-active-migration parameter payload.
    pub fn disable_active_migration(self) -> (r: Result<(), QuicTransportParameterValueError>)
        ensures
            r == spec_disable_migration_value(self.spec_id(), self.fields().value),
    {
        let id = self.parameter_id();
        if id.raw() != QuicTransportParameterId::DISABLE_ACTIVE_MIGRATION().raw() {
            return Err(wrong_id(QuicTransportParameterValueKind::DisableActiveMigration, id));
        }
        let value = self.value();
        if value.len() != 0 {
            return Err(
                QuicTransportParameterValueError::WrongLength {
                    kind: QuicTransportParameterValueKind::DisableActiveMigration,
                    expected: 0,
                    actual: value.len(),
                },
            );
        }
        Ok(())
    }

    /// Interprets the RFC 9000 preferred-address payload without endpoint policy.
    pub fn preferred_address(self) -> (r: Result<QuicPreferredAddress<'a>, QuicTransportParameterValueError>)
        ensures
            self.spec_id() != 0x0d ==> r == Err::<QuicPreferredAddress<'a>, QuicTransportParameterValueError>(
                spec_wrong_id(QuicTransportParameterValueKind::PreferredAddress, self.spec_id()),
            ),
            self.spec_id() == 0x0d ==> match r {
                Ok(p) => p@ == self.fields().value && spec_preferred_address(self.fields().value)
                    == Ok::<QuicPreferredAddressFields, QuicTransportParameterValueError>(p.fields()),
                Err(e) => spec_preferred_address(self.fields().value) == Err::<
                    QuicPreferredAddressFields,
                    QuicTransportParameterValueError,
                >(e),
            },
    {
        let id = self.parameter_id();
        if id.raw() != QuicTransportParameterId::PREFERRED_ADDRESS().raw() {
            return Err(wrong_id(QuicTransportParameterValueKind::PreferredAddress, id));
        }
        parse_preferred_address(self.value())
    }
}

fn wrong_id(kind: QuicTransportParameterValueKind, actual: QuicTransportParameterId) -> (r: QuicTransportParameterValueError)
    ensures
        r == spec_wrong_id(kind, actual.spec_raw()),
{
    QuicTransportParameterValueError::WrongId { kind, actual }
}

fn is_integer_id(id: QuicTransportParameterId) -> (r: bool)
    ensures
        r == spec_is_integer_id(id.spec_raw()),
{
    let raw = id.raw();
    raw == 0x01 || (0x03 <= raw && raw <= 0x0b) || raw == 0x0e
}

fn is_connection_id_id(id: QuicTransportParameterId) -> (r: bool)
    ensures
        r == spec_is_connection_id_id(id.spec_raw()),
{
    let raw = id.raw();
    raw == 0x00 || raw == 0x0f || raw == 0x10
}

fn preferred_incomplete(offset: usize, required: usize, available: usize) -> (r: QuicTransportParameterValueError)
    ensures
        r == spec_preferred_incomplete(offset as int, required as int, available as int),
{
    QuicTransportParameterValueError::PreferredAddressIncomplete { offset, required, available }
}

/// Parses a preferred-address parameter value.
pub fn parse_preferred_address<'a>(bytes: &'a [u8]) -> (r: Result<QuicPreferredAddress<'a>, QuicTransportParameterValueError>)
    ensures
        match r {
            Ok(p) => p@ == bytes@ && spec_preferred_address(bytes@) == Ok::<
                QuicPreferredAddressFields,
                QuicTransportParameterValueError,
            >(p.fields()),
            Err(e) => spec_preferred_address(bytes@) == Err::<
                QuicPreferredAddressFields,
                QuicTransportParameterValueError,
            >(e),
        },
{
    let available = bytes.len();
    if available < 4 {
        return Err(preferred_incomplete(0, 4, available));
    }
    if available < 6 {
        return Err(preferred_incomplete(4, 6, available));
    }
    if available < 22 {
        return Err(preferred_incomplete(6, 22, available));
    }
    if available < 24 {
        return Err(preferred_incomplete(22, 24, available));
    }
    if available < 25 {
        return Err(preferred_incomplete(24, 25, available));
    }
    let connection_id_len = bytes[24] as usize;
    if connection_id_len == 0 || connection_id_len > 20 {
        return Err(
            QuicTransportParameterValueError::PreferredAddressConnectionIdLength { actual: bytes[24] },
        );
    }
    let connection_id_end = 25 + connection_id_len;
    if available < connection_id_end {
        return Err(preferred_incomplete(25, connection_id_end, available));
    }
    let token_end = connection_id_end + 16;
    if available < token_end {
        return Err(preferred_incomplete(connection_id_end, token_end, available));
    }
    if available > token_end {
        return Err(
            QuicTransportParameterValueError::PreferredAddressTrailingBytes {
                offset: token_end,
                available: available - token_end,
            },
        );
    }
    let ipv4_address = array_ref::<4>(slice_range(bytes, 0, 4));
    let ipv6_address = array_ref::<16>(slice_range(bytes, 6, 22));
    let stateless_reset_token = array_ref::<16>(slice_range(bytes, connection_id_end, token_end));
    Ok(
        QuicPreferredAddress {
            bytes,
            ipv4_address,
            ipv4_port: read_be16(bytes, 4),
            ipv6_address,
            ipv6_port: read_be16(bytes, 22),
            connection_id: QuicConnectionId::new(slice_range(bytes, 25, connection_id_end)),
            stateless_reset_token,
        },
    )
}

} // verus!
