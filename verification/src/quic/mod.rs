//! Standalone QUIC primitive values and borrowed packet-header views.

pub(crate) mod builder;
pub(crate) mod frame;
pub(crate) mod packet;
pub(crate) mod transport_parameters;
pub(crate) mod varint;
mod varint_codec;

pub use varint::{
    QuicVarInt, QuicVarIntBuildError, QuicVarIntBuilder, QuicVarIntLen, QuicVarIntParseError,
};
pub use varint_codec::{
    QuicVarIntCodec, QuicVarIntCodecValue, QuicVarIntEncodePlan, lemma_canonical_len_shortest,
    lemma_varint_width_bits,
    prefix_extent_len,
};
pub use packet::{
    QuicConnectionId, QuicConnectionIdField, QuicLongHeader, QuicLongHeaderFields,
    QuicLongPacketType, QuicPacketParseError, QuicShortHeader, QuicShortHeaderContext,
    QuicShortHeaderFields, QuicVersion, lemma_long_packet_type_inverse,
    lemma_long_packet_type_values, spec_fixed_bit,
    spec_long_header, spec_long_packet_type, spec_raw_type, spec_short_header, spec_type_bits,
    spec_v2,
};
pub use builder::{QuicPacketBuildError, QuicPacketBuildField};
pub use builder::short::{
    QuicShortPacketBuilder, QuicShortPacketBuilderFields, lemma_short_packet_roundtrip,
    spec_short_build_error,
    spec_short_first_byte,
};
pub use builder::terminal::{
    QuicRetryBuilderFields, QuicRetryPacketBuilder, QuicVersionNegotiationBuilderFields,
    QuicVersionNegotiationPacketBuilder, lemma_retry_roundtrip, lemma_version_negotiation_roundtrip,
    spec_retry_build_error,
    spec_version_negotiation_build_error, spec_version_list_bytes,
};
pub use builder::{
    lemma_long_first_byte, lemma_long_prefix_roundtrip, spec_long_first_byte,
    spec_long_prefix_bytes,
};
pub use builder::long::{
    QuicHandshakePacketBuilder, QuicInitialPacketBuilder, QuicLongBuildFields, QuicLongLayout,
    QuicZeroRttPacketBuilder, lemma_long_build_fields, lemma_long_packet_roundtrip,
    spec_field_width, spec_long_build,
    spec_long_packet_bytes, spec_long_packet_fields, spec_token_part,
};
pub use packet::{
    QuicDatagram, QuicPacket, QuicPacketKind, QuicPackets, QuicPacketNumberLen,
    QuicProtectedLongPacket, QuicRetryPacket, QuicTruncatedPacketNumber, QuicUnknownLongPacket,
    QuicUnprotectedHeaderError, QuicUnprotectedLongHeader, QuicUnprotectedShortHeader,
    QuicVersionIter, QuicVersionNegotiationPacket,
};
pub use frame::{
    QuicFrame, QuicFrameFields, QuicFrameIter, QuicFrames, QuicHandshakeDoneFrame,
    QuicPaddingFrame, QuicPingFrame, lemma_frame_items, lemma_frame_items_step,
    lemma_frame_kind_by_type,
    lemma_frames_from_error, lemma_parse_frame_error, lemma_parse_frame_span, spec_frame_body,
    spec_frame_item, spec_frame_items,
    spec_frame_items_bytes, spec_frames_from, spec_parse_frame,
};
pub use frame::ack::{
    QuicAckFields, QuicAckFrame, QuicAckRange, QuicAckRangeFields, QuicAckRanges, QuicEcnCounts,
    lemma_ack_range_items, spec_ack_range_items, spec_ack_range_previous, spec_ack_ranges_descend,
};
pub use packet::datagram::{
    lemma_packet_items, lemma_packet_items_step, lemma_packet_step_shape, spec_packet_item,
    spec_packet_items, spec_packet_items_bytes, spec_partition,
};
pub use frame::connection_close::{QuicConnectionCloseFields, QuicConnectionCloseFrame};
pub use frame::connection_id::{
    QuicNewConnectionIdFields, QuicNewConnectionIdFrame, QuicRetireConnectionIdFrame,
};
pub use frame::control::{
    QuicDataBlockedFrame, QuicMaxDataFrame, QuicMaxStreamDataFrame, QuicMaxStreamsFrame,
    QuicResetStreamFrame, QuicStopSendingFrame, QuicStreamDataBlockedFrame, QuicStreamDirection,
    QuicStreamsBlockedFrame,
};
pub use frame::crypto::{QuicCryptoFields, QuicCryptoFrame};
pub use frame::parse::{QuicFrameField, QuicFrameParseError};
pub use frame::path::{QuicPathChallengeFrame, QuicPathResponseFrame};
pub use frame::stream::{QuicStreamFields, QuicStreamFrame, lemma_stream_fields_by_type};
pub use frame::token::{QuicNewTokenFields, QuicNewTokenFrame};
pub use transport_parameters::{
    QuicTransportParameter, QuicTransportParameterField, QuicTransportParameterFields,
    QuicTransportParameterId, QuicTransportParameterIter, QuicTransportParameterParseError,
    QuicTransportParameters, QuicTransportParametersTlsExtensionError, lemma_check_structural,
    lemma_parsed_ids_distinct, spec_tp_ids, spec_tp_reaches,
    spec_first_id, spec_tp_at, spec_tp_check, spec_tps_from,
};
pub use transport_parameters::semantic::{
    QuicTransportParameterHandshakeContext, QuicTransportParameterHandshakeError,
    QuicTransportParameterSemanticError, QuicTransportParameterSender, QuicTransportParametersV1,
    lemma_v1_parameter_rules, lemma_v1_structural, spec_handshake, spec_v1_check, spec_validate_parameter,
};
pub use transport_parameters::value::{
    QuicPreferredAddress, QuicPreferredAddressFields, QuicTransportParameterValueError,
    QuicTransportParameterValueKind, spec_preferred_address,
};
