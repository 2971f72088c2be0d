//! TLS scalar wire values: raw-preserving newtypes over their encoded integers.

use vstd::prelude::*;

verus! {

/// Whether a sixteen-bit value is an RFC 8701 GREASE value: both octets equal, each of the
/// form `0x?a`.
pub open spec fn spec_grease_u16(value: u16) -> bool {
    value / 256 == value % 256 && (value / 256) % 16 == 10
}

/// RFC 8701 section 2: the GREASE values for versions, cipher suites, groups and extensions
/// are exactly the sixteen values 0x0a0a, 0x1a1a, ..., 0xfafa: both bytes equal, with low
/// nibble 0xa.
pub proof fn lemma_grease_u16_values(value: u16)
    ensures
        spec_grease_u16(value) <==> (value >> 8u16 == value & 0xffu16 && value & 0x0f0fu16
            == 0x0a0au16),
{
    assert((value / 256 == value % 256 && (value / 256) % 16 == 10) <==> (value >> 8u16 == value
        & 0xffu16 && value & 0x0f0fu16 == 0x0a0au16)) by (bit_vector);
}

/// Whether an eight-bit value is one of the RFC 8701 GREASE PSK key-exchange modes.
pub open spec fn spec_grease_u8(value: u8) -> bool {
    value == 0x0b || value == 0x2a || value == 0x49 || value == 0x68 || value == 0x87 || value
        == 0xa6 || value == 0xc5 || value == 0xe4
}

fn grease_u16(value: u16) -> (r: bool)
    ensures
        r == spec_grease_u16(value),
{
    let high = value / 256;
    let low = value % 256;
    high == low && high % 16 == 10
}

fn grease_u8(value: u8) -> (r: bool)
    ensures
        r == spec_grease_u8(value),
{
    value == 0x0b || value == 0x2a || value == 0x49 || value == 0x68 || value == 0x87 || value
        == 0xa6 || value == 0xc5 || value == 0xe4
}

fn never_u8(_value: u8) -> (r: bool)
    ensures
        !r,
{
    false
}

fn never_u16(_value: u16) -> (r: bool)
    ensures
        !r,
{
    false
}

/// A raw TLS content type value.
#[derive(Clone, Copy, Debug, PartialEq, Eq, Structural, PartialOrd, Ord, Hash)]
pub struct TlsContentType(u8);

impl TlsContentType {
    /// The encoded wire value.
    pub closed spec fn spec_raw(self) -> u8 {
        self.0
    }

    /// Values with the same wire value are the same value.
    pub proof fn lemma_raw_injective(a: Self, b: Self)
        requires
            a.spec_raw() == b.spec_raw(),
        ensures
            a == b,
    {
    }

    /// Creates a value without restricting private or unknown assignments.
    pub fn new(raw: u8) -> (r: Self)
        ensures
            r.spec_raw() == raw,
    {
        Self(raw)
    }

    /// Returns the encoded wire value.
    pub fn raw(self) -> (r: u8)
        ensures
            r == self.spec_raw(),
    {
        self.0
    }

    /// Returns whether this value is an RFC 8701 GREASE value.
    pub fn is_grease(self) -> (r: bool)
        ensures
            r == false,
    {
        never_u8(self.0)
    }

    /// The change_cipher_spec record content type.
    #[allow(non_snake_case)]
    pub fn CHANGE_CIPHER_SPEC() -> (r: Self)
        ensures
            r.spec_raw() == 20,
    {
        Self(20)
    }

    /// The alert record content type.
    #[allow(non_snake_case)]
    pub fn ALERT() -> (r: Self)
        ensures
            r.spec_raw() == 21,
    {
        Self(21)
    }

    /// The handshake record content type.
    #[allow(non_snake_case)]
    pub fn HANDSHAKE() -> (r: Self)
        ensures
            r.spec_raw() == 22,
    {
        Self(22)
    }

    /// The application_data record content type.
    #[allow(non_snake_case)]
    pub fn APPLICATION_DATA() -> (r: Self)
        ensures
            r.spec_raw() == 23,
    {
        Self(23)
    }
}

/// A raw TLS protocol version value.
#[derive(Clone, Copy, Debug, PartialEq, Eq, Structural, PartialOrd, Ord, Hash)]
pub struct TlsProtocolVersion(u16);

impl TlsProtocolVersion {
    /// The encoded wire value.
    pub closed spec fn spec_raw(self) -> u16 {
        self.0
    }

    /// Values with the same wire value are the same value.
    pub proof fn lemma_raw_injective(a: Self, b: Self)
        requires
            a.spec_raw() == b.spec_raw(),
        ensures
            a == b,
    {
    }

    /// Creates a value without restricting private or unknown assignments.
    pub fn new(raw: u16) -> (r: Self)
        ensures
            r.spec_raw() == raw,
    {
        Self(raw)
    }

    /// Returns the encoded wire value.
    pub fn raw(self) -> (r: u16)
        ensures
            r == self.spec_raw(),
    {
        self.0
    }

    /// Returns whether this value is an RFC 8701 GREASE value.
    pub fn is_grease(self) -> (r: bool)
        ensures
            r == spec_grease_u16(self.spec_raw()),
    {
        grease_u16(self.0)
    }

    /// TLS 1.2.
    #[allow(non_snake_case)]
    pub fn TLS12() -> (r: Self)
        ensures
            r.spec_raw() == 0x0303,
    {
        Self(0x0303)
    }

    /// TLS 1.3.
    #[allow(non_snake_case)]
    pub fn TLS13() -> (r: Self)
        ensures
            r.spec_raw() == 0x0304,
    {
        Self(0x0304)
    }
}

/// A raw TLS handshake type value.
#[derive(Clone, Copy, Debug, PartialEq, Eq, Structural, PartialOrd, Ord, Hash)]
pub struct TlsHandshakeType(u8);

impl TlsHandshakeType {
    /// The encoded wire value.
    pub closed spec fn spec_raw(self) -> u8 {
        self.0
    }

    /// Values with the same wire value are the same value.
    pub proof fn lemma_raw_injective(a: Self, b: Self)
        requires
            a.spec_raw() == b.spec_raw(),
        ensures
            a == b,
    {
    }

    /// Creates a value without restricting private or unknown assignments.
    pub fn new(raw: u8) -> (r: Self)
        ensures
            r.spec_raw() == raw,
    {
        Self(raw)
    }

    /// Returns the encoded wire value.
    pub fn raw(self) -> (r: u8)
        ensures
            r == self.spec_raw(),
    {
        self.0
    }

    /// Returns whether this value is an RFC 8701 GREASE value.
    pub fn is_grease(self) -> (r: bool)
        ensures
            r == false,
    {
        never_u8(self.0)
    }

    /// ClientHello.
    #[allow(non_snake_case)]
    pub fn CLIENT_HELLO() -> (r: Self)
        ensures
            r.spec_raw() == 1,
    {
        Self(1)
    }

    /// ServerHello.
    #[allow(non_snake_case)]
    pub fn SERVER_HELLO() -> (r: Self)
        ensures
            r.spec_raw() == 2,
    {
        Self(2)
    }
}

/// A raw TLS cipher suite value.
#[derive(Clone, Copy, Debug, PartialEq, Eq, Structural, PartialOrd, Ord, Hash)]
pub struct TlsCipherSuite(u16);

impl TlsCipherSuite {
    /// The encoded wire value.
    pub closed spec fn spec_raw(self) -> u16 {
        self.0
    }

    /// Values with the same wire value are the same value.
    pub proof fn lemma_raw_injective(a: Self, b: Self)
        requires
            a.spec_raw() == b.spec_raw(),
        ensures
            a == b,
    {
    }

    /// Creates a value without restricting private or unknown assignments.
    pub fn new(raw: u16) -> (r: Self)
        ensures
            r.spec_raw() == raw,
    {
        Self(raw)
    }

    /// Returns the encoded wire value.
    pub fn raw(self) -> (r: u16)
        ensures
            r == self.spec_raw(),
    {
        self.0
    }

    /// Returns whether this value is an RFC 8701 GREASE value.
    pub fn is_grease(self) -> (r: bool)
        ensures
            r == spec_grease_u16(self.spec_raw()),
    {
        grease_u16(self.0)
    }

    /// TLS_AES_128_GCM_SHA256.
    #[allow(non_snake_case)]
    pub fn TLS_AES_128_GCM_SHA256() -> (r: Self)
        ensures
            r.spec_raw() == 0x1301,
    {
        Self(0x1301)
    }

    /// TLS_AES_256_GCM_SHA384.
    #[allow(non_snake_case)]
    pub fn TLS_AES_256_GCM_SHA384() -> (r: Self)
        ensures
            r.spec_raw() == 0x1302,
    {
        Self(0x1302)
    }

    /// TLS_CHACHA20_POLY1305_SHA256.
    #[allow(non_snake_case)]
    pub fn TLS_CHACHA20_POLY1305_SHA256() -> (r: Self)
        ensures
            r.spec_raw() == 0x1303,
    {
        Self(0x1303)
    }
}

/// A raw TLS compression method value.
#[derive(Clone, Copy, Debug, PartialEq, Eq, Structural, PartialOrd, Ord, Hash)]
pub struct TlsCompressionMethod(u8);

impl TlsCompressionMethod {
    /// The encoded wire value.
    pub closed spec fn spec_raw(self) -> u8 {
        self.0
    }

    /// Values with the same wire value are the same value.
    pub proof fn lemma_raw_injective(a: Self, b: Self)
        requires
            a.spec_raw() == b.spec_raw(),
        ensures
            a == b,
    {
    }

    /// Creates a value without restricting private or unknown assignments.
    pub fn new(raw: u8) -> (r: Self)
        ensures
            r.spec_raw() == raw,
    {
        Self(raw)
    }

    /// Returns the encoded wire value.
    pub fn raw(self) -> (r: u8)
        ensures
            r == self.spec_raw(),
    {
        self.0
    }

    /// Returns whether this value is an RFC 8701 GREASE value.
    pub fn is_grease(self) -> (r: bool)
        ensures
            r == false,
    {
        never_u8(self.0)
    }

    /// The null legacy compression method.
    #[allow(non_snake_case)]
    pub fn NULL() -> (r: Self)
        ensures
            r.spec_raw() == 0,
    {
        Self(0)
    }
}

/// An raw TLS extension type value.
#[derive(Clone, Copy, Debug, PartialEq, Eq, Structural, PartialOrd, Ord, Hash)]
pub struct TlsExtensionType(u16);

impl TlsExtensionType {
    /// The encoded wire value.
    pub closed spec fn spec_raw(self) -> u16 {
        self.0
    }

    /// Values with the same wire value are the same value.
    pub proof fn lemma_raw_injective(a: Self, b: Self)
        requires
            a.spec_raw() == b.spec_raw(),
        ensures
            a == b,
    {
    }

    /// Creates a value without restricting private or unknown assignments.
    pub fn new(raw: u16) -> (r: Self)
        ensures
            r.spec_raw() == raw,
    {
        Self(raw)
    }

    /// Returns the encoded wire value.
    pub fn raw(self) -> (r: u16)
        ensures
            r == self.spec_raw(),
    {
        self.0
    }

    /// Returns whether this value is an RFC 8701 GREASE value.
    pub fn is_grease(self) -> (r: bool)
        ensures
            r == spec_grease_u16(self.spec_raw()),
    {
        grease_u16(self.0)
    }

    /// Server name indication.
    #[allow(non_snake_case)]
    pub fn SERVER_NAME() -> (r: Self)
        ensures
            r.spec_raw() == 0,
    {
        Self(0)
    }

    /// Supported groups.
    #[allow(non_snake_case)]
    pub fn SUPPORTED_GROUPS() -> (r: Self)
        ensures
            r.spec_raw() == 10,
    {
        Self(10)
    }

    /// EC point formats.
    #[allow(non_snake_case)]
    pub fn EC_POINT_FORMATS() -> (r: Self)
        ensures
            r.spec_raw() == 11,
    {
        Self(11)
    }

    /// Signature algorithms.
    #[allow(non_snake_case)]
    pub fn SIGNATURE_ALGORITHMS() -> (r: Self)
        ensures
            r.spec_raw() == 13,
    {
        Self(13)
    }

    /// ALPN.
    #[allow(non_snake_case)]
    pub fn APPLICATION_LAYER_PROTOCOL_NEGOTIATION() -> (r: Self)
        ensures
            r.spec_raw() == 16,
    {
        Self(16)
    }

    /// Certificate compression algorithms.
    #[allow(non_snake_case)]
    pub fn COMPRESS_CERTIFICATE() -> (r: Self)
        ensures
            r.spec_raw() == 27,
    {
        Self(27)
    }

    /// Pre-shared key extension.
    #[allow(non_snake_case)]
    pub fn PRE_SHARED_KEY() -> (r: Self)
        ensures
            r.spec_raw() == 41,
    {
        Self(41)
    }

    /// Early data.
    #[allow(non_snake_case)]
    pub fn EARLY_DATA() -> (r: Self)
        ensures
            r.spec_raw() == 42,
    {
        Self(42)
    }

    /// Cookie.
    #[allow(non_snake_case)]
    pub fn COOKIE() -> (r: Self)
        ensures
            r.spec_raw() == 44,
    {
        Self(44)
    }

    /// QUIC transport parameters.
    #[allow(non_snake_case)]
    pub fn QUIC_TRANSPORT_PARAMETERS() -> (r: Self)
        ensures
            r.spec_raw() == 57,
    {
        Self(57)
    }

    /// Certificate signature algorithms.
    #[allow(non_snake_case)]
    pub fn SIGNATURE_ALGORITHMS_CERT() -> (r: Self)
        ensures
            r.spec_raw() == 50,
    {
        Self(50)
    }

    /// Supported versions.
    #[allow(non_snake_case)]
    pub fn SUPPORTED_VERSIONS() -> (r: Self)
        ensures
            r.spec_raw() == 43,
    {
        Self(43)
    }

    /// PSK key exchange modes.
    #[allow(non_snake_case)]
    pub fn PSK_KEY_EXCHANGE_MODES() -> (r: Self)
        ensures
            r.spec_raw() == 45,
    {
        Self(45)
    }

    /// Key share.
    #[allow(non_snake_case)]
    pub fn KEY_SHARE() -> (r: Self)
        ensures
            r.spec_raw() == 51,
    {
        Self(51)
    }
}

/// A raw TLS named group value.
#[derive(Clone, Copy, Debug, PartialEq, Eq, Structural, PartialOrd, Ord, Hash)]
pub struct TlsNamedGroup(u16);

impl TlsNamedGroup {
    /// The encoded wire value.
    pub closed spec fn spec_raw(self) -> u16 {
        self.0
    }

    /// Values with the same wire value are the same value.
    pub proof fn lemma_raw_injective(a: Self, b: Self)
        requires
            a.spec_raw() == b.spec_raw(),
        ensures
            a == b,
    {
    }

    /// Creates a value without restricting private or unknown assignments.
    pub fn new(raw: u16) -> (r: Self)
        ensures
            r.spec_raw() == raw,
    {
        Self(raw)
    }

    /// Returns the encoded wire value.
    pub fn raw(self) -> (r: u16)
        ensures
            r == self.spec_raw(),
    {
        self.0
    }

    /// Returns whether this value is an RFC 8701 GREASE value.
    pub fn is_grease(self) -> (r: bool)
        ensures
            r == spec_grease_u16(self.spec_raw()),
    {
        grease_u16(self.0)
    }

    /// The secp256r1 named group.
    #[allow(non_snake_case)]
    pub fn SECP256R1() -> (r: Self)
        ensures
            r.spec_raw() == 23,
    {
        Self(23)
    }

    /// The secp384r1 named group.
    #[allow(non_snake_case)]
    pub fn SECP384R1() -> (r: Self)
        ensures
            r.spec_raw() == 24,
    {
        Self(24)
    }

    /// The X25519 named group.
    #[allow(non_snake_case)]
    pub fn X25519() -> (r: Self)
        ensures
            r.spec_raw() == 29,
    {
        Self(29)
    }
}

/// A raw TLS signature scheme value.
#[derive(Clone, Copy, Debug, PartialEq, Eq, Structural, PartialOrd, Ord, Hash)]
pub struct TlsSignatureScheme(u16);

impl TlsSignatureScheme {
    /// The encoded wire value.
    pub closed spec fn spec_raw(self) -> u16 {
        self.0
    }

    /// Values with the same wire value are the same value.
    pub proof fn lemma_raw_injective(a: Self, b: Self)
        requires
            a.spec_raw() == b.spec_raw(),
        ensures
            a == b,
    {
    }

    /// Creates a value without restricting private or unknown assignments.
    pub fn new(raw: u16) -> (r: Self)
        ensures
            r.spec_raw() == raw,
    {
        Self(raw)
    }

    /// Returns the encoded wire value.
    pub fn raw(self) -> (r: u16)
        ensures
            r == self.spec_raw(),
    {
        self.0
    }

    /// Returns whether this value is an RFC 8701 GREASE value.
    pub fn is_grease(self) -> (r: bool)
        ensures
            r == spec_grease_u16(self.spec_raw()),
    {
        grease_u16(self.0)
    }

    /// rsa_pss_rsae_sha256.
    #[allow(non_snake_case)]
    pub fn RSA_PSS_RSAE_SHA256() -> (r: Self)
        ensures
            r.spec_raw() == 0x0804,
    {
        Self(0x0804)
    }

    /// ecdsa_secp256r1_sha256.
    #[allow(non_snake_case)]
    pub fn ECDSA_SECP256R1_SHA256() -> (r: Self)
        ensures
            r.spec_raw() == 0x0403,
    {
        Self(0x0403)
    }

    /// ed25519.
    #[allow(non_snake_case)]
    pub fn ED25519() -> (r: Self)
        ensures
            r.spec_raw() == 0x0807,
    {
        Self(0x0807)
    }
}

/// A raw TLS PSK key-exchange mode value.
#[derive(Clone, Copy, Debug, PartialEq, Eq, Structural, PartialOrd, Ord, Hash)]
pub struct TlsPskKeyExchangeMode(u8);

impl TlsPskKeyExchangeMode {
    /// The encoded wire value.
    pub closed spec fn spec_raw(self) -> u8 {
        self.0
    }

    /// Values with the same wire value are the same value.
    pub proof fn lemma_raw_injective(a: Self, b: Self)
        requires
            a.spec_raw() == b.spec_raw(),
        ensures
            a == b,
    {
    }

    /// Creates a value without restricting private or unknown assignments.
    pub fn new(raw: u8) -> (r: Self)
        ensures
            r.spec_raw() == raw,
    {
        Self(raw)
    }

    /// Returns the encoded wire value.
    pub fn raw(self) -> (r: u8)
        ensures
            r == self.spec_raw(),
    {
        self.0
    }

    /// Returns whether this value is an RFC 8701 GREASE value.
    pub fn is_grease(self) -> (r: bool)
        ensures
            r == spec_grease_u8(self.spec_raw()),
    {
        grease_u8(self.0)
    }

    /// PSK-only key establishment.
    #[allow(non_snake_case)]
    pub fn PSK_KE() -> (r: Self)
        ensures
            r.spec_raw() == 0,
    {
        Self(0)
    }

    /// PSK with an ephemeral Diffie-Hellman key exchange.
    #[allow(non_snake_case)]
    pub fn PSK_DHE_KE() -> (r: Self)
        ensures
            r.spec_raw() == 1,
    {
        Self(1)
    }
}

/// A raw TLS server-name type value.
#[derive(Clone, Copy, Debug, PartialEq, Eq, Structural, PartialOrd, Ord, Hash)]
pub struct TlsServerNameType(u8);

impl TlsServerNameType {
    /// The encoded wire value.
    pub closed spec fn spec_raw(self) -> u8 {
        self.0
    }

    /// Values with the same wire value are the same value.
    pub proof fn lemma_raw_injective(a: Self, b: Self)
        requires
            a.spec_raw() == b.spec_raw(),
        ensures
            a == b,
    {
    }

    /// Creates a value without restricting private or unknown assignments.
    pub fn new(raw: u8) -> (r: Self)
        ensures
            r.spec_raw() == raw,
    {
        Self(raw)
    }

    /// Returns the encoded wire value.
    pub fn raw(self) -> (r: u8)
        ensures
            r == self.spec_raw(),
    {
        self.0
    }

    /// Returns whether this value is an RFC 8701 GREASE value.
    pub fn is_grease(self) -> (r: bool)
        ensures
            r == false,
    {
        never_u8(self.0)
    }

    /// A DNS hostname.
    #[allow(non_snake_case)]
    pub fn HOST_NAME() -> (r: Self)
        ensures
            r.spec_raw() == 0,
    {
        Self(0)
    }
}

/// A raw TLS certificate-compression algorithm value.
#[derive(Clone, Copy, Debug, PartialEq, Eq, Structural, PartialOrd, Ord, Hash)]
pub struct TlsCertificateCompressionAlgorithm(u16);

impl TlsCertificateCompressionAlgorithm {
    /// The encoded wire value.
    pub closed spec fn spec_raw(self) -> u16 {
        self.0
    }

    /// Values with the same wire value are the same value.
    pub proof fn lemma_raw_injective(a: Self, b: Self)
        requires
            a.spec_raw() == b.spec_raw(),
        ensures
            a == b,
    {
    }

    /// Creates a value without restricting private or unknown assignments.
    pub fn new(raw: u16) -> (r: Self)
        ensures
            r.spec_raw() == raw,
    {
        Self(raw)
    }

    /// Returns the encoded wire value.
    pub fn raw(self) -> (r: u16)
        ensures
            r == self.spec_raw(),
    {
        self.0
    }

    /// Returns whether this value is an RFC 8701 GREASE value.
    pub fn is_grease(self) -> (r: bool)
        ensures
            r == false,
    {
        never_u16(self.0)
    }

    /// The zlib certificate-compression algorithm.
    #[allow(non_snake_case)]
    pub fn ZLIB() -> (r: Self)
        ensures
            r.spec_raw() == 1,
    {
        Self(1)
    }

    /// The Brotli certificate-compression algorithm.
    #[allow(non_snake_case)]
    pub fn BROTLI() -> (r: Self)
        ensures
            r.spec_raw() == 2,
    {
        Self(2)
    }

    /// The Zstandard certificate-compression algorithm.
    #[allow(non_snake_case)]
    pub fn ZSTD() -> (r: Self)
        ensures
            r.spec_raw() == 3,
    {
        Self(3)
    }
}

} // verus!
