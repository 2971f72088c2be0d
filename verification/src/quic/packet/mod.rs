//! QUIC packet borrowed views.

pub(crate) mod datagram;
pub(crate) mod header;
pub(crate) mod long;
pub(crate) mod parse;
pub(crate) mod terminal;
pub(crate) mod unprotected;

pub use header::{
    QuicConnectionId, QuicConnectionIdField, QuicLongHeader, QuicLongHeaderFields,
    QuicLongPacketType, QuicShortHeader, QuicShortHeaderContext, QuicShortHeaderFields,
    QuicVersion, lemma_long_packet_type_inverse, lemma_long_packet_type_values, spec_fixed_bit, spec_long_header,
    spec_long_packet_type, spec_raw_type, spec_short_header, spec_type_bits, spec_v2,
};
pub use parse::QuicPacketParseError;
pub use long::{
    QuicProtectedLongFields, QuicProtectedLongPacket, spec_checked_end, spec_connection_id_error,
    spec_initial_token, spec_opt_slice, spec_opt_varint, spec_protected_long_packet,
    spec_supported_long_type, spec_to_usize, spec_varint_at,
};
pub use terminal::{
    QuicRetryFields, QuicRetryPacket, QuicVersionIter, QuicVersionNegotiationPacket,
    spec_be32_list, spec_retry_packet, spec_version_negotiation,
};
pub use datagram::{
    QuicDatagram, QuicPacket, QuicPacketKind, QuicPackets, QuicUnknownLongPacket,
    lemma_protected_long_end, spec_context_len, spec_packet_step, spec_partition,
};
pub use unprotected::{
    QuicPacketNumberLen, QuicTruncatedPacketNumber, QuicUnprotectedHeaderError,
    QuicUnprotectedLongHeader, QuicUnprotectedShortHeader, pow256, spec_be_value,
    lemma_pn_len_bits, spec_pn_byte_len, spec_pn_len_from_first, spec_unprotected_error,
};
