//! Typed, ordered TLS extension views.

pub(crate) mod alpn;
pub(crate) mod extension;
pub(crate) mod key_share;
pub(crate) mod layout;
pub(crate) mod psk;
pub(crate) mod scalar_lists;
pub(crate) mod server_name;
pub(crate) mod versions;

pub use versions::{
    ClientSupportedVersions, ServerSupportedVersion, SupportedVersions,
    lemma_highest_version_is_max, spec_client_supported_versions, spec_highest_version,
    spec_server_supported_version,
};
pub use scalar_lists::{
    CertificateCompressionAlgorithms, EcPointFormats, SignatureAlgorithms, SupportedGroups,
    spec_certificate_compression_algorithms, spec_ec_point_formats, spec_signature_algorithms,
    spec_supported_groups,
};
pub use server_name::{
    ClientServerNameList, ServerName, ServerNameIter, spec_client_server_name_list,
    spec_server_name_entry, spec_server_name_step, spec_server_names_ok,
};
pub use alpn::{
    AlpnProtocol, AlpnProtocolIter, AlpnProtocolList, ServerSelectedAlpn, spec_alpn_is_grease,
    spec_alpn_protocol_list, spec_alpn_protocols_ok, spec_alpn_step, spec_server_selected_alpn,
};
pub use key_share::{
    ClientKeyShare, HrrKeyShare, KeyShareEntry, KeyShareIter, ServerKeyShare,
    spec_client_key_share, spec_hrr_key_share, spec_key_share_entry, spec_key_share_step,
    spec_key_shares_ok, spec_server_key_share,
};
pub use psk::{
    ClientPreSharedKey, PskBinderIter, PskIdentity, PskIdentityIter, PskKeyExchangeModes,
    ServerPreSharedKey, spec_client_pre_shared_key, spec_count_more, spec_psk_binder_count,
    spec_psk_binder_step, spec_psk_identity_count, spec_psk_identity_entry, spec_psk_identity_step,
    spec_psk_key_exchange_modes, spec_server_pre_shared_key,
};
pub use extension::{
    Cookie, TlsExtension, TlsExtensions, spec_cookie, spec_early_data_max_size, spec_extension_step,
    spec_typed,
};
