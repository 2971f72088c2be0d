//! Raw TLS extension TLVs, their typed payload accessors, and iteration over a block.

use super::alpn::{AlpnProtocolList, ServerSelectedAlpn, spec_alpn_protocol_list, spec_server_selected_alpn};
use super::key_share::{
    ClientKeyShare, HrrKeyShare, ServerKeyShare, spec_client_key_share, spec_hrr_key_share,
    spec_server_key_share,
};
use super::layout::{empty, len, spec_empty, spec_len_error, spec_v16, v16};
use super::psk::{
    ClientPreSharedKey, PskKeyExchangeModes, ServerPreSharedKey, spec_client_pre_shared_key,
    spec_psk_key_exchange_modes, spec_server_pre_shared_key,
};
use super::scalar_lists::{
    CertificateCompressionAlgorithms, EcPointFormats, SignatureAlgorithms, SupportedGroups,
    spec_certificate_compression_algorithms, spec_ec_point_formats, spec_signature_algorithms,
    spec_supported_groups,
};
use super::server_name::{ClientServerNameList, spec_client_server_name_list};
use super::versions::{
    ClientSupportedVersions, ServerSupportedVersion, spec_client_supported_versions,
    spec_server_supported_version,
};
use crate::tls::error::TlsParseError;
use crate::tls::types::{TlsExtensionType, TlsProtocolVersion};
use crate::wire::{be16, be32, read_be16, read_be32, slice_from, slice_range};
use vstd::prelude::*;

verus! {

/// A payload parse that applies only to extensions of the `expected` type.
pub open spec fn spec_typed<T>(t: u16, expected: u16, parsed: Result<T, TlsParseError>) -> Result<
    T,
    TlsParseError,
> {
    if t == expected {
        parsed
    } else {
        Err(TlsParseError::InvalidValue)
    }
}

/// The bytes of a cookie payload.
pub open spec fn spec_cookie(b: Seq<u8>) -> Result<Seq<u8>, TlsParseError> {
    spec_v16(b, 1, false)
}

/// The maximum early-data size of a NewSessionTicket early_data payload.
pub open spec fn spec_early_data_max_size(b: Seq<u8>) -> Result<u32, TlsParseError> {
    if b.len() != 4 {
        Err(spec_len_error(4, b.len() as int))
    } else {
        Ok(be32(b, 0) as u32)
    }
}

/// One step of iteration over an extension block `b`: the type and payload of its first
/// TLV, and the bytes left.
pub open spec fn spec_extension_step(b: Seq<u8>) -> (
    Option<Result<(u16, Seq<u8>), TlsParseError>>,
    Seq<u8>,
) {
    if b.len() == 0 {
        (None, b)
    } else if b.len() < 4 {
        (Some(Err(TlsParseError::Incomplete { required: 4, available: b.len() as usize })), Seq::empty())
    } else if b.len() < 4 + be16(b, 2) {
        (
            Some(
                Err(
                    TlsParseError::Incomplete {
                        required: (4 + be16(b, 2)) as usize,
                        available: b.len() as usize,
                    },
                ),
            ),
            Seq::empty(),
        )
    } else {
        (
            Some(Ok((be16(b, 0) as u16, b.subrange(4, 4 + be16(b, 2))))),
            b.subrange(4 + be16(b, 2), b.len() as int),
        )
    }
}

/// A raw TLS extension preserving its type and opaque payload.
#[derive(Clone, Copy, Debug, PartialEq, Eq)]
pub struct TlsExtension<'a> {
    extension_type: TlsExtensionType,
    data: &'a [u8],
}

impl<'a> View for TlsExtension<'a> {
    type V = (u16, Seq<u8>);

    closed spec fn view(&self) -> (u16, Seq<u8>) {
        (self.extension_type.spec_raw(), self.data@)
    }
}

impl<'a> TlsExtension<'a> {
    /// Returns the raw extension type.
    pub fn extension_type(&self) -> (r: TlsExtensionType)
        ensures
            r.spec_raw() == self@.0,
    {
        self.extension_type
    }

    /// Returns the exact extension payload.
    pub fn data(&self) -> (r: &'a [u8])
        ensures
            r@ == self@.1,
    {
        self.data
    }

    fn ty(&self, t: TlsExtensionType) -> (r: Result<(), TlsParseError>)
        ensures
            r == spec_typed(self@.0, t.spec_raw(), Ok::<(), TlsParseError>(())),
    {
        if self.extension_type.raw() == t.raw() {
            Ok(())
        } else {
            Err(TlsParseError::InvalidValue)
        }
    }

    /// Validates the empty ServerHello server_name acknowledgement.
    pub fn server_name_acknowledgement(&self) -> (r: Result<(), TlsParseError>)
        ensures
            r == spec_typed(self@.0, 0, spec_empty(self@.1)),
    {
        match self.ty(TlsExtensionType::SERVER_NAME()) {
            Ok(()) => {},
            Err(e) => return Err(e),
        }
        empty(self.data)
    }

    /// Returns the selected server or HelloRetryRequest protocol version.
    pub fn server_supported_version(&self) -> (r: Result<TlsProtocolVersion, TlsParseError>)
        ensures
            match r {
                Ok(x) => spec_typed(self@.0, 43, spec_server_supported_version(self@.1)) == Ok::<
                    u16,
                    TlsParseError,
                >(x.spec_raw()),
                Err(e) => spec_typed(self@.0, 43, spec_server_supported_version(self@.1)) == Err::<
                    u16,
                    TlsParseError,
                >(e),
            },
    {
        match self.server_supported_version_view() {
            Ok(view) => Ok(view.version()),
            Err(e) => Err(e),
        }
    }

    /// Validates an empty ClientHello or EncryptedExtensions early_data marker.
    pub fn early_data_marker(&self) -> (r: Result<(), TlsParseError>)
        ensures
            r == spec_typed(self@.0, 42, spec_empty(self@.1)),
    {
        match self.ty(TlsExtensionType::EARLY_DATA()) {
            Ok(()) => {},
            Err(e) => return Err(e),
        }
        empty(self.data)
    }

    /// Parses a NewSessionTicket maximum early-data size.
    pub fn early_data_max_size(&self) -> (r: Result<u32, TlsParseError>)
        ensures
            r == spec_typed(self@.0, 42, spec_early_data_max_size(self@.1)),
    {
        match self.ty(TlsExtensionType::EARLY_DATA()) {
            Ok(()) => {},
            Err(e) => return Err(e),
        }
        if self.data.len() != 4 {
            return Err(len(4, self.data.len()));
        }
        Ok(read_be32(self.data, 0))
    }

    /// Parses the ClientHello server_name list layout.
    pub fn client_server_name_list(&self) -> (r: Result<ClientServerNameList<'a>, TlsParseError>)
        ensures
            match r {
                Ok(x) => spec_typed(self@.0, 0, spec_client_server_name_list(self@.1)) == Ok::<Seq<u8>, TlsParseError>(x@),
                Err(e) => spec_typed(self@.0, 0, spec_client_server_name_list(self@.1)) == Err::<Seq<u8>, TlsParseError>(e),
            },
    {
        match self.ty(TlsExtensionType::SERVER_NAME()) {
            Ok(()) => {},
            Err(e) => return Err(e),
        }
        ClientServerNameList::parse(self.data)
    }

    /// Parses an ordered ALPN protocol-name list.
    pub fn alpn_protocol_list(&self) -> (r: Result<AlpnProtocolList<'a>, TlsParseError>)
        ensures
            match r {
                Ok(x) => spec_typed(self@.0, 16, spec_alpn_protocol_list(self@.1)) == Ok::<Seq<u8>, TlsParseError>(x@),
                Err(e) => spec_typed(self@.0, 16, spec_alpn_protocol_list(self@.1)) == Err::<Seq<u8>, TlsParseError>(e),
            },
    {
        match self.ty(TlsExtensionType::APPLICATION_LAYER_PROTOCOL_NEGOTIATION()) {
            Ok(()) => {},
            Err(e) => return Err(e),
        }
        AlpnProtocolList::parse(self.data)
    }

    /// Parses the single protocol selected by a server ALPN extension.
    pub fn server_selected_alpn(&self) -> (r: Result<ServerSelectedAlpn<'a>, TlsParseError>)
        ensures
            match r {
                Ok(x) => spec_typed(self@.0, 16, spec_server_selected_alpn(self@.1)) == Ok::<Seq<u8>, TlsParseError>(x@),
                Err(e) => spec_typed(self@.0, 16, spec_server_selected_alpn(self@.1)) == Err::<Seq<u8>, TlsParseError>(e),
            },
    {
        match self.ty(TlsExtensionType::APPLICATION_LAYER_PROTOCOL_NEGOTIATION()) {
            Ok(()) => {},
            Err(e) => return Err(e),
        }
        ServerSelectedAlpn::parse(self.data)
    }

    /// Parses the ClientHello supported_versions vector.
    pub fn client_supported_versions(&self) -> (r: Result<ClientSupportedVersions<'a>, TlsParseError>)
        ensures
            match r {
                Ok(x) => spec_typed(self@.0, 43, spec_client_supported_versions(self@.1)) == Ok::<Seq<u8>, TlsParseError>(x@),
                Err(e) => spec_typed(self@.0, 43, spec_client_supported_versions(self@.1)) == Err::<Seq<u8>, TlsParseError>(e),
            },
    {
        match self.ty(TlsExtensionType::SUPPORTED_VERSIONS()) {
            Ok(()) => {},
            Err(e) => return Err(e),
        }
        ClientSupportedVersions::parse(self.data)
    }

    /// Parses the server or HelloRetryRequest supported_versions layout.
    pub fn server_supported_version_view(&self) -> (r: Result<ServerSupportedVersion, TlsParseError>)
        ensures
            match r {
                Ok(x) => spec_typed(self@.0, 43, spec_server_supported_version(self@.1)) == Ok::<u16, TlsParseError>(x@),
                Err(e) => spec_typed(self@.0, 43, spec_server_supported_version(self@.1)) == Err::<u16, TlsParseError>(e),
            },
    {
        match self.ty(TlsExtensionType::SUPPORTED_VERSIONS()) {
            Ok(()) => {},
            Err(e) => return Err(e),
        }
        ServerSupportedVersion::parse(self.data)
    }

    /// Parses the ordered supported named groups.
    pub fn supported_groups(&self) -> (r: Result<SupportedGroups<'a>, TlsParseError>)
        ensures
            match r {
                Ok(x) => spec_typed(self@.0, 10, spec_supported_groups(self@.1)) == Ok::<Seq<u8>, TlsParseError>(x@),
                Err(e) => spec_typed(self@.0, 10, spec_supported_groups(self@.1)) == Err::<Seq<u8>, TlsParseError>(e),
            },
    {
        match self.ty(TlsExtensionType::SUPPORTED_GROUPS()) {
            Ok(()) => {},
            Err(e) => return Err(e),
        }
        SupportedGroups::parse(self.data)
    }

    /// Parses the signature_algorithms scheme list.
    pub fn signature_algorithms(&self) -> (r: Result<SignatureAlgorithms<'a>, TlsParseError>)
        ensures
            match r {
                Ok(x) => spec_typed(self@.0, 13, spec_signature_algorithms(self@.1)) == Ok::<Seq<u8>, TlsParseError>(x@),
                Err(e) => spec_typed(self@.0, 13, spec_signature_algorithms(self@.1)) == Err::<Seq<u8>, TlsParseError>(e),
            },
    {
        match self.ty(TlsExtensionType::SIGNATURE_ALGORITHMS()) {
            Ok(()) => {},
            Err(e) => return Err(e),
        }
        SignatureAlgorithms::parse(self.data)
    }

    /// Parses the signature_algorithms_cert scheme list.
    pub fn signature_algorithms_cert(&self) -> (r: Result<SignatureAlgorithms<'a>, TlsParseError>)
        ensures
            match r {
                Ok(x) => spec_typed(self@.0, 50, spec_signature_algorithms(self@.1)) == Ok::<Seq<u8>, TlsParseError>(x@),
                Err(e) => spec_typed(self@.0, 50, spec_signature_algorithms(self@.1)) == Err::<Seq<u8>, TlsParseError>(e),
            },
    {
        match self.ty(TlsExtensionType::SIGNATURE_ALGORITHMS_CERT()) {
            Ok(()) => {},
            Err(e) => return Err(e),
        }
        SignatureAlgorithms::parse(self.data)
    }

    /// Parses the legacy EC point-format list.
    pub fn ec_point_formats(&self) -> (r: Result<EcPointFormats<'a>, TlsParseError>)
        ensures
            match r {
                Ok(x) => spec_typed(self@.0, 11, spec_ec_point_formats(self@.1)) == Ok::<Seq<u8>, TlsParseError>(x@),
                Err(e) => spec_typed(self@.0, 11, spec_ec_point_formats(self@.1)) == Err::<Seq<u8>, TlsParseError>(e),
            },
    {
        match self.ty(TlsExtensionType::EC_POINT_FORMATS()) {
            Ok(()) => {},
            Err(e) => return Err(e),
        }
        EcPointFormats::parse(self.data)
    }

    /// Parses the ClientHello key-share entry vector.
    pub fn client_key_share(&self) -> (r: Result<ClientKeyShare<'a>, TlsParseError>)
        ensures
            match r {
                Ok(x) => spec_typed(self@.0, 51, spec_client_key_share(self@.1)) == Ok::<Seq<u8>, TlsParseError>(x@),
                Err(e) => spec_typed(self@.0, 51, spec_client_key_share(self@.1)) == Err::<Seq<u8>, TlsParseError>(e),
            },
    {
        match self.ty(TlsExtensionType::KEY_SHARE()) {
            Ok(()) => {},
            Err(e) => return Err(e),
        }
        ClientKeyShare::parse(self.data)
    }

    /// Parses the single ServerHello key-share entry.
    pub fn server_key_share(&self) -> (r: Result<ServerKeyShare<'a>, TlsParseError>)
        ensures
            match r {
                Ok(x) => spec_typed(self@.0, 51, spec_server_key_share(self@.1)) == Ok::<(u16, Seq<u8>), TlsParseError>(x@),
                Err(e) => spec_typed(self@.0, 51, spec_server_key_share(self@.1)) == Err::<(u16, Seq<u8>), TlsParseError>(e),
            },
    {
        match self.ty(TlsExtensionType::KEY_SHARE()) {
            Ok(()) => {},
            Err(e) => return Err(e),
        }
        ServerKeyShare::parse(self.data)
    }

    /// Parses the selected HelloRetryRequest key-share group.
    pub fn hrr_key_share(&self) -> (r: Result<HrrKeyShare, TlsParseError>)
        ensures
            match r {
                Ok(x) => spec_typed(self@.0, 51, spec_hrr_key_share(self@.1)) == Ok::<u16, TlsParseError>(x@),
                Err(e) => spec_typed(self@.0, 51, spec_hrr_key_share(self@.1)) == Err::<u16, TlsParseError>(e),
            },
    {
        match self.ty(TlsExtensionType::KEY_SHARE()) {
            Ok(()) => {},
            Err(e) => return Err(e),
        }
        HrrKeyShare::parse(self.data)
    }

    /// Parses the ordered PSK key-exchange modes.
    pub fn psk_key_exchange_modes(&self) -> (r: Result<PskKeyExchangeModes<'a>, TlsParseError>)
        ensures
            match r {
                Ok(x) => spec_typed(self@.0, 45, spec_psk_key_exchange_modes(self@.1)) == Ok::<Seq<u8>, TlsParseError>(x@),
                Err(e) => spec_typed(self@.0, 45, spec_psk_key_exchange_modes(self@.1)) == Err::<Seq<u8>, TlsParseError>(e),
            },
    {
        match self.ty(TlsExtensionType::PSK_KEY_EXCHANGE_MODES()) {
            Ok(()) => {},
            Err(e) => return Err(e),
        }
        PskKeyExchangeModes::parse(self.data)
    }

    /// Parses ClientHello PSK identities and binders.
    pub fn client_pre_shared_key(&self) -> (r: Result<ClientPreSharedKey<'a>, TlsParseError>)
        ensures
            match r {
                Ok(x) => spec_typed(self@.0, 41, spec_client_pre_shared_key(self@.1)) == Ok::<(Seq<u8>, Seq<u8>), TlsParseError>(x@),
                Err(e) => spec_typed(self@.0, 41, spec_client_pre_shared_key(self@.1)) == Err::<(Seq<u8>, Seq<u8>), TlsParseError>(e),
            },
    {
        match self.ty(TlsExtensionType::PRE_SHARED_KEY()) {
            Ok(()) => {},
            Err(e) => return Err(e),
        }
        ClientPreSharedKey::parse(self.data)
    }

    /// Parses the ServerHello selected PSK identity.
    pub fn server_pre_shared_key(&self) -> (r: Result<ServerPreSharedKey, TlsParseError>)
        ensures
            match r {
                Ok(x) => spec_typed(self@.0, 41, spec_server_pre_shared_key(self@.1)) == Ok::<u16, TlsParseError>(x@),
                Err(e) => spec_typed(self@.0, 41, spec_server_pre_shared_key(self@.1)) == Err::<u16, TlsParseError>(e),
            },
    {
        match self.ty(TlsExtensionType::PRE_SHARED_KEY()) {
            Ok(()) => {},
            Err(e) => return Err(e),
        }
        ServerPreSharedKey::parse(self.data)
    }

    /// Parses the offered certificate-compression algorithms.
    pub fn certificate_compression_algorithms(&self) -> (r: Result<CertificateCompressionAlgorithms<'a>, TlsParseError>)
        ensures
            match r {
                Ok(x) => spec_typed(self@.0, 27, spec_certificate_compression_algorithms(self@.1)) == Ok::<Seq<u8>, TlsParseError>(x@),
                Err(e) => spec_typed(self@.0, 27, spec_certificate_compression_algorithms(self@.1)) == Err::<Seq<u8>, TlsParseError>(e),
            },
    {
        match self.ty(TlsExtensionType::COMPRESS_CERTIFICATE()) {
            Ok(()) => {},
            Err(e) => return Err(e),
        }
        CertificateCompressionAlgorithms::parse(self.data)
    }

    /// Parses the nonempty cookie vector.
    pub fn cookie(&self) -> (r: Result<Cookie<'a>, TlsParseError>)
        ensures
            match r {
                Ok(x) => spec_typed(self@.0, 44, spec_cookie(self@.1)) == Ok::<Seq<u8>, TlsParseError>(x@),
                Err(e) => spec_typed(self@.0, 44, spec_cookie(self@.1)) == Err::<Seq<u8>, TlsParseError>(e),
            },
    {
        match self.ty(TlsExtensionType::COOKIE()) {
            Ok(()) => {},
            Err(e) => return Err(e),
        }
        Cookie::parse(self.data)
    }
}

/// A fallible iterator over ordered TLS extension TLVs.
#[derive(Clone, Debug)]
pub struct TlsExtensions<'a> {
    bytes: &'a [u8],
}

impl<'a> View for TlsExtensions<'a> {
    type V = Seq<u8>;

    closed spec fn view(&self) -> Seq<u8> {
        self.bytes@
    }
}

impl<'a> TlsExtensions<'a> {
    /// Creates an iterator over a caller-supplied extension block.
    ///
    /// Individual malformed or truncated TLVs are reported by iteration.
    pub fn new(bytes: &'a [u8]) -> (r: Self)
        ensures
            r@ == bytes@,
    {
        Self { bytes }
    }

    /// Returns the next extension; after an error the iterator is exhausted.
    pub fn next(&mut self) -> (r: Option<Result<TlsExtension<'a>, TlsParseError>>)
        ensures
            final(self)@ == spec_extension_step(old(self)@).1,
            match r {
                None => spec_extension_step(old(self)@).0 is None,
                Some(Ok(x)) => spec_extension_step(old(self)@).0 == Some(
                    Ok::<(u16, Seq<u8>), TlsParseError>(x@),
                ),
                Some(Err(e)) => spec_extension_step(old(self)@).0 == Some(
                    Err::<(u16, Seq<u8>), TlsParseError>(e),
                ),
            },
    {
        if self.bytes.len() == 0 {
            return None;
        }
        let a = self.bytes.len();
        if a < 4 {
            self.bytes = &[];
            proof {
                assert(self.bytes@ =~= Seq::<u8>::empty());
            }
            return Some(Err(TlsParseError::Incomplete { required: 4, available: a }));
        }
        let n = read_be16(self.bytes, 2) as usize;
        let total = 4 + n;
        if a < total {
            self.bytes = &[];
            proof {
                assert(self.bytes@ =~= Seq::<u8>::empty());
            }
            return Some(Err(TlsParseError::Incomplete { required: total, available: a }));
        }
        let x = TlsExtension {
            extension_type: TlsExtensionType::new(read_be16(self.bytes, 0)),
            data: slice_range(self.bytes, 4, total),
        };
        self.bytes = slice_from(self.bytes, total);
        Some(Ok(x))
    }
}

/// A nonempty opaque TLS cookie.
#[derive(Clone, Copy, Debug, PartialEq, Eq)]
pub struct Cookie<'a>(&'a [u8]);

impl<'a> View for Cookie<'a> {
    type V = Seq<u8>;

    closed spec fn view(&self) -> Seq<u8> {
        self.0@
    }
}

impl<'a> Cookie<'a> {
    pub(crate) fn parse(b: &'a [u8]) -> (r: Result<Self, TlsParseError>)
        ensures
            match r {
                Ok(x) => spec_cookie(b@) == Ok::<Seq<u8>, TlsParseError>(x@),
                Err(e) => spec_cookie(b@) == Err::<Seq<u8>, TlsParseError>(e),
            },
    {
        match v16(b, 1, false) {
            Ok(x) => Ok(Self(x)),
            Err(e) => Err(e),
        }
    }

    /// Returns the cookie bytes.
    pub fn as_bytes(self) -> (r: &'a [u8])
        ensures
            r@ == self@,
    {
        self.0
    }
}

} // verus!
