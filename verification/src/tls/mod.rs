//! Allocation-free TLS record, handshake, hello and extension wire views.

mod builder;
mod error;
pub(crate) mod extensions;
mod handshake;
mod hello;
mod record;
mod types;

pub use error::{TlsBuildError, TlsParseError};
pub use record::{
    TlsRecord, TlsRecordBuilder, TlsRecordMut, lemma_record_roundtrip, spec_is_record,
    spec_record_bytes, spec_record_length,
};
pub use types::{
    TlsCertificateCompressionAlgorithm, TlsCipherSuite, TlsCompressionMethod, TlsContentType,
    TlsExtensionType, TlsHandshakeType, TlsNamedGroup, TlsProtocolVersion, TlsPskKeyExchangeMode,
    TlsServerNameType, TlsSignatureScheme, lemma_grease_u16_values, spec_grease_u16, spec_grease_u8,
};
pub use extensions::{
    AlpnProtocol, AlpnProtocolIter, AlpnProtocolList, CertificateCompressionAlgorithms, ClientKeyShare, ClientPreSharedKey, ClientServerNameList, ClientSupportedVersions, Cookie, EcPointFormats, HrrKeyShare, KeyShareEntry, KeyShareIter, PskBinderIter, PskIdentity, PskIdentityIter, PskKeyExchangeModes, ServerKeyShare, ServerName, ServerNameIter, ServerPreSharedKey, ServerSelectedAlpn, ServerSupportedVersion, SignatureAlgorithms, SupportedGroups, SupportedVersions, TlsExtension, TlsExtensions, spec_alpn_is_grease, spec_alpn_protocol_list, spec_alpn_protocols_ok, spec_alpn_step, spec_certificate_compression_algorithms, spec_client_key_share, spec_client_pre_shared_key, spec_client_server_name_list, spec_client_supported_versions, spec_cookie, spec_count_more, spec_early_data_max_size, spec_ec_point_formats, spec_extension_step, lemma_highest_version_is_max, spec_highest_version, spec_hrr_key_share, spec_key_share_entry, spec_key_share_step, spec_key_shares_ok, spec_psk_binder_count, spec_psk_binder_step, spec_psk_identity_count, spec_psk_identity_entry, spec_psk_identity_step, spec_psk_key_exchange_modes, spec_server_key_share, spec_server_name_entry, spec_server_name_step, spec_server_names_ok, spec_server_pre_shared_key, spec_server_selected_alpn, spec_server_supported_version, spec_signature_algorithms, spec_supported_groups, spec_typed,
};
pub use hello::{
    ClientHello, ClientHelloFields, HELLO_RETRY_REQUEST_RANDOM, ServerHello, ServerHelloFields,
    lemma_offers_tls13_any_position, spec_client_hello, spec_extension_list, spec_lists_tls13, spec_hello_retry_request_random, spec_need, spec_offers_tls13,
    spec_selected_version, spec_server_hello, spec_take, spec_take_extensions,
    spec_take_u16_vector, spec_take_u8_vector, spec_versions_offer_tls13,
};
pub use handshake::{
    TlsHandshake, TlsHandshakeBuilder, lemma_handshake_roundtrip, spec_handshake_bytes,
    spec_handshake_length, spec_is_handshake,
};
pub use builder::{
    ClientHelloBuilder, ClientHelloBuilderFields, ServerHelloBuilder, ServerHelloBuilderFields,
    TlsExtensionBuilder, lemma_client_hello_roundtrip, lemma_server_hello_roundtrip,
    spec_client_hello_build_error, spec_client_hello_bytes, spec_extension_block_bytes,
    spec_extension_block_ok, spec_extensions_error, spec_opt_bytes, spec_server_hello_build_error,
    spec_server_hello_bytes, spec_u16_vector_error, spec_u8_vector_error, spec_written_extensions,
};
