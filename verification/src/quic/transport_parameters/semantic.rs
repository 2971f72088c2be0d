//! RFC 9000 version-1 present-value transport-parameter validation.

use super::value::{
    spec_connection_id_value, spec_disable_migration_value, spec_integer_value,
    spec_preferred_address, spec_token_value, QuicTransportParameterValueError,
};
use super::{
    QuicTransportParameter, QuicTransportParameterFields, QuicTransportParameterId,
    QuicTransportParameterIter, QuicTransportParameterParseError, QuicTransportParameters,
    spec_tp_at, spec_tps_from,
};
use crate::quic::varint::spec_decode_value;
use crate::wire::bytes_equal;
use vstd::prelude::*;

verus! {

broadcast use QuicTransportParameterId::lemma_raw, QuicTransportParameterId::lemma_from_raw;

/// The endpoint that sent a QUIC transport-parameter extension.
#[derive(Clone, Copy, Debug, PartialEq, Eq, Structural)]
pub enum QuicTransportParameterSender {
    /// Parameters sent by a client.
    Client,
    /// Parameters sent by a server.
    Server,
}

/// Packet-derived connection IDs used to validate an RFC 9000 handshake transport-parameter set.
///
/// Each ID is from the first Initial packet in the direction named by RFC 9000 section 7.3.
/// For [`Self::Server`], `Some(retry_source_connection_id)` means the client received a Retry;
/// its value is that Retry packet's source connection ID.
#[derive(Clone, Copy, Debug, PartialEq, Eq)]
pub enum QuicTransportParameterHandshakeContext<'a> {
    /// Context for transport parameters sent by a client.
    Client {
        /// Source connection ID of the first Initial packet sent by the client.
        initial_source_connection_id: &'a [u8],
    },
    /// Context for transport parameters sent by a server.
    Server {
        /// Source connection ID of the first Initial packet sent by the server.
        initial_source_connection_id: &'a [u8],
        /// Destination connection ID of the first Initial packet received by the server before Retry.
        original_destination_connection_id: &'a [u8],
        /// Source connection ID of the Retry packet received by the client, when one was received.
        retry_source_connection_id: Option<&'a [u8]>,
    },
}

/// Failure to validate RFC 9000 section 7.3 handshake connection-ID consistency.
///
/// Tuple offsets are absolute offsets from the start of the transport-parameter extension payload.
#[derive(Clone, Copy, Debug, PartialEq, Eq)]
pub enum QuicTransportParameterHandshakeError {
    /// The packet-derived context does not describe the validated parameter sender.
    SenderContextMismatch {
        /// Sender validated for the transport parameters.
        sender: QuicTransportParameterSender,
        /// Sender required by the supplied context.
        context_sender: QuicTransportParameterSender,
    },
    /// A structurally validated parameter no longer parses during handshake validation.
    Parse {
        /// Exact structural parsing failure.
        error: QuicTransportParameterParseError,
    },
    /// A required connection-ID parameter was absent.
    Missing {
        /// Required parameter identifier.
        id: QuicTransportParameterId,
    },
    /// A connection-ID parameter was present when the packet context prohibits it.
    Unexpected {
        /// Unexpected parameter identifier.
        id: QuicTransportParameterId,
        /// Absolute tuple offset from the extension-payload start.
        offset: usize,
    },
    /// A connection-ID parameter differs from its corresponding packet connection ID.
    ConnectionIdMismatch {
        /// Mismatched parameter identifier.
        id: QuicTransportParameterId,
        /// Absolute tuple offset from the extension-payload start.
        offset: usize,
    },
}

/// Failure to validate present RFC 9000 version-1 transport parameters.
///
/// Tuple offsets are absolute offsets from the start of the transport-parameter
/// extension payload.
#[derive(Clone, Copy, Debug, PartialEq, Eq)]
pub enum QuicTransportParameterSemanticError {
    /// A structurally validated parameter no longer parses during validation.
    Parse {
        /// Exact structural parsing failure.
        error: QuicTransportParameterParseError,
    },
    /// A known parameter has an invalid RFC 9000 payload layout.
    Value {
        /// Decoded parameter identifier.
        id: QuicTransportParameterId,
        /// Absolute tuple offset from the extension-payload start.
        offset: usize,
        /// Exact typed payload failure.
        error: QuicTransportParameterValueError,
    },
    /// A client sent a parameter reserved for servers.
    ForbiddenSender {
        /// Decoded parameter identifier.
        id: QuicTransportParameterId,
        /// Absolute tuple offset from the extension-payload start.
        offset: usize,
    },
    /// An integer parameter is below its RFC 9000 minimum.
    BelowMinimum {
        /// Decoded parameter identifier.
        id: QuicTransportParameterId,
        /// Absolute tuple offset from the extension-payload start.
        offset: usize,
        /// Decoded integer value.
        value: u64,
        /// Required inclusive minimum.
        minimum: u64,
    },
    /// An integer parameter exceeds its RFC 9000 maximum.
    AboveMaximum {
        /// Decoded parameter identifier.
        id: QuicTransportParameterId,
        /// Absolute tuple offset from the extension-payload start.
        offset: usize,
        /// Decoded integer value.
        value: u64,
        /// Required inclusive maximum.
        maximum: u64,
    },
}

/// Whether only a server may send the parameter `id`.
pub open spec fn spec_is_server_only(id: u64) -> bool {
    id == 0x00 || id == 0x02 || id == 0x0d || id == 0x10
}

/// The semantic error wrapping a value error of parameter `id` at `offset`.
pub open spec fn spec_value_error(id: u64, offset: int, error: QuicTransportParameterValueError) -> QuicTransportParameterSemanticError {
    QuicTransportParameterSemanticError::Value {
        id: QuicTransportParameterId::spec_from(id),
        offset: offset as usize,
        error,
    }
}

/// Whether a value-layout check succeeded, its error moved to parameter `id` at `offset`.
pub open spec fn spec_lift<T>(id: u64, offset: int, r: Result<T, QuicTransportParameterValueError>) -> Result<
    (),
    QuicTransportParameterSemanticError,
> {
    match r {
        Ok(_) => Ok(()),
        Err(e) => Err(spec_value_error(id, offset, e)),
    }
}

/// Whether the integer parameter `id` with value `v` at `offset` lies within `minimum..=maximum`.
pub open spec fn spec_bounds(id: u64, v: Seq<u8>, offset: int, minimum: u64, maximum: u64) -> Result<
    (),
    QuicTransportParameterSemanticError,
> {
    match spec_integer_value(id, v) {
        Err(e) => Err(spec_value_error(id, offset, e)),
        Ok(enc) => {
            let value = spec_decode_value(enc);
            if value < minimum {
                Err(
                    QuicTransportParameterSemanticError::BelowMinimum {
                        id: QuicTransportParameterId::spec_from(id),
                        offset: offset as usize,
                        value,
                        minimum,
                    },
                )
            } else if value > maximum {
                Err(
                    QuicTransportParameterSemanticError::AboveMaximum {
                        id: QuicTransportParameterId::spec_from(id),
                        offset: offset as usize,
                        value,
                        maximum,
                    },
                )
            } else {
                Ok(())
            }
        },
    }
}

/// Whether the tuple `t` at `offset`, sent by `sender`, meets RFC 9000's version-1 role and
/// value rules, or the error.
pub open spec fn spec_validate_parameter(
    t: QuicTransportParameterFields,
    sender: QuicTransportParameterSender,
    offset: int,
) -> Result<(), QuicTransportParameterSemanticError> {
    let id = spec_decode_value(t.id);
    let v = t.value;
    if sender == QuicTransportParameterSender::Client && spec_is_server_only(id) {
        Err(
            QuicTransportParameterSemanticError::ForbiddenSender {
                id: QuicTransportParameterId::spec_from(id),
                offset: offset as usize,
            },
        )
    } else if id == 0x00 || id == 0x0f || id == 0x10 {
        spec_lift(id, offset, spec_connection_id_value(id, v))
    } else if id == 0x01 || (0x04 <= id <= 0x07) {
        spec_lift(id, offset, spec_integer_value(id, v))
    } else if id == 0x02 {
        spec_lift(id, offset, spec_token_value(id, v))
    } else if id == 0x03 {
        spec_bounds(id, v, offset, 1200, u64::MAX)
    } else if id == 0x08 || id == 0x09 {
        spec_bounds(id, v, offset, 0, 0x1000_0000_0000_0000)
    } else if id == 0x0a {
        spec_bounds(id, v, offset, 0, 20)
    } else if id == 0x0b {
        spec_bounds(id, v, offset, 0, 16383)
    } else if id == 0x0c {
        spec_lift(id, offset, spec_disable_migration_value(id, v))
    } else if id == 0x0d {
        spec_lift(id, offset, spec_preferred_address(v))
    } else if id == 0x0e {
        spec_bounds(id, v, offset, 2, u64::MAX)
    } else {
        Ok(())
    }
}

/// RFC 9000 section 18.2: a client may not send original_destination_connection_id (0x00),
/// stateless_reset_token (0x02), preferred_address (0x0d) or retry_source_connection_id (0x10);
/// and an integer parameter that reads as a variable integer is valid exactly when its value
/// is in range: max_udp_payload_size (0x03) at least 1200, initial_max_streams_bidi and _uni
/// (0x08, 0x09) at most 2^60, ack_delay_exponent (0x0a) at most 20, max_ack_delay (0x0b) below
/// 2^14, active_connection_id_limit (0x0e) at least 2, and max_idle_timeout (0x01) and the
/// initial_max_data family (0x04 to 0x07) any value.
pub proof fn lemma_v1_parameter_rules(
    t: QuicTransportParameterFields,
    sender: QuicTransportParameterSender,
    offset: int,
)
    ensures
        ({
            let id = spec_decode_value(t.id);
            let r = spec_validate_parameter(t, sender, offset);
            &&& sender == QuicTransportParameterSender::Client && (id == 0x00 || id == 0x02
                || id == 0x0d || id == 0x10) ==> r == Err::<(), QuicTransportParameterSemanticError>(
                QuicTransportParameterSemanticError::ForbiddenSender {
                    id: QuicTransportParameterId::spec_from(id),
                    offset: offset as usize,
                },
            )
            &&& r matches Err(QuicTransportParameterSemanticError::ForbiddenSender { .. })
                ==> sender == QuicTransportParameterSender::Client && (id == 0x00 || id == 0x02
                || id == 0x0d || id == 0x10)
            &&& (sender == QuicTransportParameterSender::Server || !(id == 0x00 || id == 0x02
                || id == 0x0d || id == 0x10)) ==> match spec_integer_value(id, t.value) {
                Err(_) => true,
                Ok(enc) => {
                    let x = spec_decode_value(enc);
                    &&& id == 0x01 ==> r is Ok
                    &&& 0x04 <= id <= 0x07 ==> r is Ok
                    &&& id == 0x03 ==> (r is Ok <==> x >= 1200)
                    &&& (id == 0x08 || id == 0x09) ==> (r is Ok <==> x <= 0x1000_0000_0000_0000)
                    &&& id == 0x0a ==> (r is Ok <==> x <= 20)
                    &&& id == 0x0b ==> (r is Ok <==> x < 0x4000)
                    &&& id == 0x0e ==> (r is Ok <==> x >= 2)
                },
            }
        }),
{
}

/// Whether every tuple of `p` (starting `offset` bytes into its payload), sent by `sender`,
/// parses and meets the version-1 rules, or the first error.
pub open spec fn spec_v1_check(p: Seq<u8>, offset: int, sender: QuicTransportParameterSender) -> Result<
    (),
    QuicTransportParameterSemanticError,
>
    decreases p.len(),
{
    if p.len() == 0 {
        Ok(())
    } else {
        match spec_tp_at(p, offset) {
            Err(e) => Err(QuicTransportParameterSemanticError::Parse { error: e }),
            Ok(t) => match spec_validate_parameter(t, sender, offset) {
                Err(e) => Err(e),
                Ok(_) => if 0 < t.tuple_len <= p.len() {
                    spec_v1_check(p.subrange(t.tuple_len as int, p.len() as int), offset + t.tuple_len, sender)
                } else {
                    Ok(())
                },
            },
        }
    }
}

/// A payload that meets the version-1 rules parses structurally.
pub proof fn lemma_v1_structural(p: Seq<u8>, offset: int, sender: QuicTransportParameterSender)
    requires
        spec_v1_check(p, offset, sender) is Ok,
    ensures
        spec_tps_from(p, offset) is Ok,
    decreases p.len(),
{
    if p.len() > 0 {
        let t = spec_tp_at(p, offset)->Ok_0;
        if 0 < t.tuple_len <= p.len() {
            lemma_v1_structural(p.subrange(t.tuple_len as int, p.len() as int), offset + t.tuple_len, sender);
        }
    }
}

/// The handshake error for a parameter `id` at `offset` whose value differs from its packet ID.
pub open spec fn spec_mismatch(id: u64, offset: int) -> QuicTransportParameterHandshakeError {
    QuicTransportParameterHandshakeError::ConnectionIdMismatch {
        id: QuicTransportParameterId::spec_from(id),
        offset: offset as usize,
    }
}

/// The handshake error for a required parameter `id` that is absent.
pub open spec fn spec_missing(id: u64) -> QuicTransportParameterHandshakeError {
    QuicTransportParameterHandshakeError::Missing { id: QuicTransportParameterId::spec_from(id) }
}

/// Whether the client-sent tuples of `p` (starting at `offset`) carry exactly `initial` as
/// initial-source connection ID; `present` records whether an earlier tuple carried it.
pub open spec fn spec_client_handshake(p: Seq<u8>, offset: int, initial: Seq<u8>, present: bool) -> Result<
    (),
    QuicTransportParameterHandshakeError,
>
    decreases p.len(),
{
    if p.len() == 0 {
        if present {
            Ok(())
        } else {
            Err(spec_missing(0x0f))
        }
    } else {
        match spec_tp_at(p, offset) {
            Err(e) => Err(QuicTransportParameterHandshakeError::Parse { error: e }),
            Ok(t) => {
                let id = spec_decode_value(t.id);
                if id == 0x0f && t.value != initial {
                    Err(spec_mismatch(id, offset))
                } else if 0 < t.tuple_len <= p.len() {
                    spec_client_handshake(
                        p.subrange(t.tuple_len as int, p.len() as int),
                        offset + t.tuple_len,
                        initial,
                        present || id == 0x0f,
                    )
                } else {
                    Ok(())
                }
            },
        }
    }
}

/// The server-sent tuples' handshake check: what the tuples of `p` (starting at `offset`)
/// must carry, and which of the three connection-ID parameters earlier tuples carried.
pub open spec fn spec_server_handshake(
    p: Seq<u8>,
    offset: int,
    initial: Seq<u8>,
    original: Seq<u8>,
    retry: Option<Seq<u8>>,
    flags: (bool, bool, bool),
) -> Result<(), QuicTransportParameterHandshakeError>
    decreases p.len(),
{
    let (ip, op, rp) = flags;
    if p.len() == 0 {
        if !ip {
            Err(spec_missing(0x0f))
        } else if !op {
            Err(spec_missing(0x00))
        } else if retry is Some && !rp {
            Err(spec_missing(0x10))
        } else {
            Ok(())
        }
    } else {
        match spec_tp_at(p, offset) {
            Err(e) => Err(QuicTransportParameterHandshakeError::Parse { error: e }),
            Ok(t) => {
                let id = spec_decode_value(t.id);
                if id == 0x0f && t.value != initial {
                    Err(spec_mismatch(id, offset))
                } else if id == 0x00 && t.value != original {
                    Err(spec_mismatch(id, offset))
                } else if id == 0x10 && retry is None {
                    Err(
                        QuicTransportParameterHandshakeError::Unexpected {
                            id: QuicTransportParameterId::spec_from(id),
                            offset: offset as usize,
                        },
                    )
                } else if id == 0x10 && t.value != retry->Some_0 {
                    Err(spec_mismatch(id, offset))
                } else if 0 < t.tuple_len <= p.len() {
                    spec_server_handshake(
                        p.subrange(t.tuple_len as int, p.len() as int),
                        offset + t.tuple_len,
                        initial,
                        original,
                        retry,
                        (ip || id == 0x0f, op || id == 0x00, rp || id == 0x10),
                    )
                } else {
                    Ok(())
                }
            },
        }
    }
}

/// The sender that a handshake context describes.
pub open spec fn spec_context_sender(context: QuicTransportParameterHandshakeContext<'_>) -> QuicTransportParameterSender {
    match context {
        QuicTransportParameterHandshakeContext::Client { .. } => QuicTransportParameterSender::Client,
        QuicTransportParameterHandshakeContext::Server { .. } => QuicTransportParameterSender::Server,
    }
}

/// The view of an optional slice.
pub open spec fn spec_opt_bytes(v: Option<&[u8]>) -> Option<Seq<u8>> {
    match v {
        Some(s) => Some(s@),
        None => None,
    }
}

/// Whether the payload `b`, validated for `sender`, is consistent with the packet-derived
/// `context`, or the first inconsistency.
pub open spec fn spec_handshake(
    b: Seq<u8>,
    sender: QuicTransportParameterSender,
    context: QuicTransportParameterHandshakeContext<'_>,
) -> Result<(), QuicTransportParameterHandshakeError> {
    if sender != spec_context_sender(context) {
        Err(
            QuicTransportParameterHandshakeError::SenderContextMismatch {
                sender,
                context_sender: spec_context_sender(context),
            },
        )
    } else {
        match context {
            QuicTransportParameterHandshakeContext::Client { initial_source_connection_id } => spec_client_handshake(
                b,
                0,
                initial_source_connection_id@,
                false,
            ),
            QuicTransportParameterHandshakeContext::Server {
                initial_source_connection_id,
                original_destination_connection_id,
                retry_source_connection_id,
            } => spec_server_handshake(
                b,
                0,
                initial_source_connection_id@,
                original_destination_connection_id@,
                spec_opt_bytes(retry_source_connection_id),
                (false, false, false),
            ),
        }
    }
}

/// A checked borrowed view of present RFC 9000 version-1 transport parameters.
#[derive(Clone, Copy, Debug, PartialEq, Eq)]
pub struct QuicTransportParametersV1<'a> {
    bytes: &'a [u8],
    sender: QuicTransportParameterSender,
}

impl<'a> View for QuicTransportParametersV1<'a> {
    type V = Seq<u8>;

    closed spec fn view(&self) -> Seq<u8> {
        self.bytes@
    }
}

impl<'a> QuicTransportParametersV1<'a> {
    #[verifier::type_invariant]
    closed spec fn inv(self) -> bool {
        spec_v1_check(self.bytes@, 0, self.sender) is Ok
    }

    /// The endpoint role used for validation.
    pub closed spec fn spec_sender(&self) -> QuicTransportParameterSender {
        self.sender
    }

    /// Returns the exact complete extension-payload bytes.
    pub fn as_bytes(self) -> (r: &'a [u8])
        ensures
            r@ == self@,
    {
        self.bytes
    }

    /// Returns the endpoint role used for validation.
    pub fn sender(self) -> (r: QuicTransportParameterSender)
        ensures
            r == self.spec_sender(),
    {
        self.sender
    }

    /// Returns a fresh iterator over the original raw parameter tuples.
    pub fn iter(self) -> (r: QuicTransportParameterIter<'a>)
        ensures
            r.spec_remaining() == self@,
            r.spec_offset() == 0,
            !r.spec_failed(),
            r.spec_rest() is Ok,
    {
        proof {
            use_type_invariant(&self);
            lemma_v1_structural(self.bytes@, 0, self.sender);
        }
        QuicTransportParameterIter::new(self.bytes)
    }

    /// Validates RFC 9000 section 7.3 connection-ID parameters against packet-derived context.
    ///
    /// This checks only the packet consistency rules that require handshake context; construction
    /// of this type has already validated sender role and present parameter value layouts.
    pub fn validate_handshake(self, context: QuicTransportParameterHandshakeContext<'_>) -> (r: Result<
        (),
        QuicTransportParameterHandshakeError,
    >)
        ensures
            r == spec_handshake(self@, self.spec_sender(), context),
            !(r matches Err(QuicTransportParameterHandshakeError::Parse { .. })),
    {
        let context_sender = match context {
            QuicTransportParameterHandshakeContext::Client { .. } => QuicTransportParameterSender::Client,
            QuicTransportParameterHandshakeContext::Server { .. } => QuicTransportParameterSender::Server,
        };
        if self.sender != context_sender {
            return Err(
                QuicTransportParameterHandshakeError::SenderContextMismatch {
                    sender: self.sender,
                    context_sender,
                },
            );
        }
        match context {
            QuicTransportParameterHandshakeContext::Client { initial_source_connection_id } => {
                validate_client_handshake(self, initial_source_connection_id)
            },
            QuicTransportParameterHandshakeContext::Server {
                initial_source_connection_id,
                original_destination_connection_id,
                retry_source_connection_id,
            } => validate_server_handshake(
                self,
                initial_source_connection_id,
                original_destination_connection_id,
                retry_source_connection_id,
            ),
        }
    }
}

impl<'a> QuicTransportParameters<'a> {
    /// Validates all present known parameters against RFC 9000 version-1 role and value rules.
    pub fn validate_v1(self, sender: QuicTransportParameterSender) -> (r: Result<
        QuicTransportParametersV1<'a>,
        QuicTransportParameterSemanticError,
    >)
        ensures
            match r {
                Ok(v) => v@ == self@ && v.spec_sender() == sender && spec_v1_check(self@, 0, sender)
                    is Ok,
                Err(e) => spec_v1_check(self@, 0, sender) == Err::<
                    (),
                    QuicTransportParameterSemanticError,
                >(e),
            },
    {
        validate(self.as_bytes(), sender)
    }
}

/// A structural error that a parsed payload cannot hold.
fn structural_handshake_error(error: QuicTransportParameterParseError) -> (r: QuicTransportParameterHandshakeError)
    ensures
        r == (QuicTransportParameterHandshakeError::Parse { error }),
{
    QuicTransportParameterHandshakeError::Parse { error }
}

fn validate_client_handshake(
    parameters: QuicTransportParametersV1<'_>,
    initial_source_connection_id: &[u8],
) -> (r: Result<(), QuicTransportParameterHandshakeError>)
    ensures
        r == spec_client_handshake(parameters@, 0, initial_source_connection_id@, false),
        !(r matches Err(QuicTransportParameterHandshakeError::Parse { .. })),
{
    let mut initial_present = false;
    let mut offset: usize = 0;
    let mut it = parameters.iter();
    loop
        invariant
            !it.spec_failed(),
            it.spec_offset() == offset,
            it.spec_rest() is Ok,
            spec_client_handshake(parameters@, 0, initial_source_connection_id@, false)
                == spec_client_handshake(
                it.spec_remaining(),
                it.spec_offset(),
                initial_source_connection_id@,
                initial_present,
            ),
        ensures
            it.spec_remaining().len() == 0,
        decreases it.spec_remaining().len(),
    {
        proof {
            use_type_invariant(&it);
        }
        let parameter = match it.next() {
            None => break,
            Some(Ok(p)) => p,
            Some(Err(error)) => return Err(structural_handshake_error(error)),
        };
        let id = parameter.parameter_id();
        if id.raw() == QuicTransportParameterId::INITIAL_SOURCE_CONNECTION_ID().raw() {
            initial_present = true;
            if !bytes_equal(parameter.value(), initial_source_connection_id) {
                return Err(QuicTransportParameterHandshakeError::ConnectionIdMismatch { id, offset });
            }
        }
        offset = offset + parameter.as_bytes().len();
    }
    if !initial_present {
        return Err(
            QuicTransportParameterHandshakeError::Missing {
                id: QuicTransportParameterId::INITIAL_SOURCE_CONNECTION_ID(),
            },
        );
    }
    Ok(())
}

fn validate_server_handshake(
    parameters: QuicTransportParametersV1<'_>,
    initial_source_connection_id: &[u8],
    original_destination_connection_id: &[u8],
    retry_source_connection_id: Option<&[u8]>,
) -> (r: Result<(), QuicTransportParameterHandshakeError>)
    ensures
        r == spec_server_handshake(
            parameters@,
            0,
            initial_source_connection_id@,
            original_destination_connection_id@,
            spec_opt_bytes(retry_source_connection_id),
            (false, false, false),
        ),
        !(r matches Err(QuicTransportParameterHandshakeError::Parse { .. })),
{
    let mut initial_present = false;
    let mut original_present = false;
    let mut retry_present = false;
    let mut offset: usize = 0;
    let mut it = parameters.iter();
    loop
        invariant
            !it.spec_failed(),
            it.spec_offset() == offset,
            it.spec_rest() is Ok,
            spec_server_handshake(
                parameters@,
                0,
                initial_source_connection_id@,
                original_destination_connection_id@,
                spec_opt_bytes(retry_source_connection_id),
                (false, false, false),
            ) == spec_server_handshake(
                it.spec_remaining(),
                it.spec_offset(),
                initial_source_connection_id@,
                original_destination_connection_id@,
                spec_opt_bytes(retry_source_connection_id),
                (initial_present, original_present, retry_present),
            ),
        ensures
            it.spec_remaining().len() == 0,
        decreases it.spec_remaining().len(),
    {
        proof {
            use_type_invariant(&it);
        }
        let parameter = match it.next() {
            None => break,
            Some(Ok(p)) => p,
            Some(Err(error)) => return Err(structural_handshake_error(error)),
        };
        let id = parameter.parameter_id();
        let raw = id.raw();
        if raw == QuicTransportParameterId::INITIAL_SOURCE_CONNECTION_ID().raw() {
            initial_present = true;
            if !bytes_equal(parameter.value(), initial_source_connection_id) {
                return Err(QuicTransportParameterHandshakeError::ConnectionIdMismatch { id, offset });
            }
        } else if raw == QuicTransportParameterId::ORIGINAL_DESTINATION_CONNECTION_ID().raw() {
            original_present = true;
            if !bytes_equal(parameter.value(), original_destination_connection_id) {
                return Err(QuicTransportParameterHandshakeError::ConnectionIdMismatch { id, offset });
            }
        } else if raw == QuicTransportParameterId::RETRY_SOURCE_CONNECTION_ID().raw() {
            let expected = match retry_source_connection_id {
                Some(expected) => expected,
                None => return Err(QuicTransportParameterHandshakeError::Unexpected { id, offset }),
            };
            retry_present = true;
            if !bytes_equal(parameter.value(), expected) {
                return Err(QuicTransportParameterHandshakeError::ConnectionIdMismatch { id, offset });
            }
        }
        offset = offset + parameter.as_bytes().len();
    }
    if !initial_present {
        return Err(
            QuicTransportParameterHandshakeError::Missing {
                id: QuicTransportParameterId::INITIAL_SOURCE_CONNECTION_ID(),
            },
        );
    }
    if !original_present {
        return Err(
            QuicTransportParameterHandshakeError::Missing {
                id: QuicTransportParameterId::ORIGINAL_DESTINATION_CONNECTION_ID(),
            },
        );
    }
    if retry_source_connection_id.is_some() && !retry_present {
        return Err(
            QuicTransportParameterHandshakeError::Missing {
                id: QuicTransportParameterId::RETRY_SOURCE_CONNECTION_ID(),
            },
        );
    }
    Ok(())
}

pub(crate) fn validate<'a>(bytes: &'a [u8], sender: QuicTransportParameterSender) -> (r: Result<
    QuicTransportParametersV1<'a>,
    QuicTransportParameterSemanticError,
>)
    ensures
        match r {
            Ok(v) => v@ == bytes@ && v.spec_sender() == sender && spec_v1_check(bytes@, 0, sender) is Ok,
            Err(e) => spec_v1_check(bytes@, 0, sender) == Err::<(), QuicTransportParameterSemanticError>(e),
        },
{
    let mut offset: usize = 0;
    let mut parameters = QuicTransportParameterIter::new(bytes);
    loop
        invariant
            !parameters.spec_failed(),
            parameters.spec_offset() == offset,
            spec_v1_check(bytes@, 0, sender) == spec_v1_check(
                parameters.spec_remaining(),
                parameters.spec_offset(),
                sender,
            ),
        ensures
            parameters.spec_remaining().len() == 0,
        decreases parameters.spec_remaining().len(),
    {
        proof {
            use_type_invariant(&parameters);
        }
        let parameter = match parameters.next() {
            None => break,
            Some(Ok(p)) => p,
            Some(Err(error)) => return Err(QuicTransportParameterSemanticError::Parse { error }),
        };
        match validate_parameter(parameter, sender, offset) {
            Ok(()) => {},
            Err(e) => return Err(e),
        }
        offset = offset + parameter.as_bytes().len();
    }
    Ok(QuicTransportParametersV1 { bytes, sender })
}

fn validate_parameter(
    parameter: QuicTransportParameter<'_>,
    sender: QuicTransportParameterSender,
    offset: usize,
) -> (r: Result<(), QuicTransportParameterSemanticError>)
    ensures
        r == spec_validate_parameter(parameter.fields(), sender, offset as int),
{
    let id = parameter.parameter_id();
    let raw = id.raw();
    if sender == QuicTransportParameterSender::Client && is_server_only(id) {
        return Err(QuicTransportParameterSemanticError::ForbiddenSender { id, offset });
    }
    if raw == 0x00 || raw == 0x0f || raw == 0x10 {
        match parameter.connection_id() {
            Ok(_) => Ok(()),
            Err(error) => Err(value_error(id, offset, error)),
        }
    } else if raw == 0x01 || (0x04 <= raw && raw <= 0x07) {
        match parameter.integer() {
            Ok(_) => Ok(()),
            Err(error) => Err(value_error(id, offset, error)),
        }
    } else if raw == 0x02 {
        match parameter.stateless_reset_token() {
            Ok(_) => Ok(()),
            Err(error) => Err(value_error(id, offset, error)),
        }
    } else if raw == 0x03 {
        validate_minimum(parameter, offset, 1200)
    } else if raw == 0x08 || raw == 0x09 {
        validate_maximum(parameter, offset, 0x1000_0000_0000_0000)
    } else if raw == 0x0a {
        validate_maximum(parameter, offset, 20)
    } else if raw == 0x0b {
        validate_maximum(parameter, offset, 16383)
    } else if raw == 0x0c {
        match parameter.disable_active_migration() {
            Ok(()) => Ok(()),
            Err(error) => Err(value_error(id, offset, error)),
        }
    } else if raw == 0x0d {
        match parameter.preferred_address() {
            Ok(_) => Ok(()),
            Err(error) => Err(value_error(id, offset, error)),
        }
    } else if raw == 0x0e {
        validate_minimum(parameter, offset, 2)
    } else {
        Ok(())
    }
}

fn validate_minimum(parameter: QuicTransportParameter<'_>, offset: usize, minimum: u64) -> (r: Result<
    (),
    QuicTransportParameterSemanticError,
>)
    ensures
        r == spec_bounds(parameter.spec_id(), parameter.fields().value, offset as int, minimum, u64::MAX),
{
    let id = parameter.parameter_id();
    let value = match parameter.integer() {
        Ok(v) => v.value(),
        Err(error) => return Err(value_error(id, offset, error)),
    };
    if value < minimum {
        return Err(QuicTransportParameterSemanticError::BelowMinimum { id, offset, value, minimum });
    }
    Ok(())
}

fn validate_maximum(parameter: QuicTransportParameter<'_>, offset: usize, maximum: u64) -> (r: Result<
    (),
    QuicTransportParameterSemanticError,
>)
    ensures
        r == spec_bounds(parameter.spec_id(), parameter.fields().value, offset as int, 0, maximum),
{
    let id = parameter.parameter_id();
    let value = match parameter.integer() {
        Ok(v) => v.value(),
        Err(error) => return Err(value_error(id, offset, error)),
    };
    if value > maximum {
        return Err(QuicTransportParameterSemanticError::AboveMaximum { id, offset, value, maximum });
    }
    Ok(())
}

fn value_error(id: QuicTransportParameterId, offset: usize, error: QuicTransportParameterValueError) -> (r: QuicTransportParameterSemanticError)
    ensures
        r == spec_value_error(id.spec_raw(), offset as int, error),
{
    QuicTransportParameterSemanticError::Value { id, offset, error }
}

fn is_server_only(id: QuicTransportParameterId) -> (r: bool)
    ensures
        r == spec_is_server_only(id.spec_raw()),
{
    let raw = id.raw();
    raw == 0x00 || raw == 0x02 || raw == 0x0d || raw == 0x10
}

} // verus!
