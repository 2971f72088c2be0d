//! ClientHello and ServerHello wire views.

use super::error::TlsParseError;
use super::extensions::extension::{TlsExtensions, spec_extension_step};
use super::extensions::layout::spec_be16_list;
use super::extensions::versions::{
    ClientSupportedVersions, spec_client_supported_versions, spec_server_supported_version,
};
use super::types::{TlsCipherSuite, TlsCompressionMethod, TlsExtensionType, TlsProtocolVersion};
use crate::wire::{array_ref, be16, bytes_equal, read_be16, slice_range};
use vstd::prelude::*;

verus! {

/// The HelloRetryRequest random value (RFC 8446, section 4.1.3).
pub open spec fn spec_hello_retry_request_random() -> Seq<u8> {
    seq![
        0xcfu8, 0x21, 0xad, 0x74, 0xe5, 0x9a, 0x61, 0x11, 0xbe, 0x1d, 0x8c, 0x02, 0x1e, 0x65, 0xb8,
        0x91, 0xc2, 0xa2, 0x11, 0x16, 0x7a, 0xbb, 0x8c, 0x5e, 0x07, 0x9e, 0x09, 0xe2, 0xc8, 0xa8,
        0x33, 0x9c,
    ]
}

/// TLS HelloRetryRequest random value.
#[allow(non_snake_case)]
pub fn HELLO_RETRY_REQUEST_RANDOM() -> (r: [u8; 32])
    ensures
        r@ == spec_hello_retry_request_random(),
{
    let r = [
        0xcfu8, 0x21, 0xad, 0x74, 0xe5, 0x9a, 0x61, 0x11, 0xbe, 0x1d, 0x8c, 0x02, 0x1e, 0x65, 0xb8,
        0x91, 0xc2, 0xa2, 0x11, 0x16, 0x7a, 0xbb, 0x8c, 0x5e, 0x07, 0x9e, 0x09, 0xe2, 0xc8, 0xa8,
        0x33, 0x9c,
    ];
    assert(r@ =~= spec_hello_retry_request_random());
    r
}

/// The error for `available` bytes where `required` were needed, if too few.
pub open spec fn spec_need(available: int, required: int) -> Result<(), TlsParseError> {
    if available < required {
        Err(TlsParseError::Incomplete { required: required as usize, available: available as usize })
    } else {
        Ok(())
    }
}

/// The end of `length` bytes taken at `offset` of a `total`-byte input.
pub open spec fn spec_take(total: int, offset: int, length: int) -> Result<int, TlsParseError> {
    if offset + length > usize::MAX {
        Err(TlsParseError::InvalidValue)
    } else if total - offset < length {
        Err(TlsParseError::Incomplete { required: length as usize, available: (total - offset) as usize })
    } else {
        Ok(offset + length)
    }
}

/// The bounds of the one-byte-length vector at `offset`.
pub open spec fn spec_take_u8_vector(b: Seq<u8>, offset: int) -> Result<(int, int), TlsParseError> {
    if b.len() - offset < 1 {
        Err(TlsParseError::Incomplete { required: 1, available: (b.len() - offset) as usize })
    } else {
        match spec_take(b.len() as int, offset + 1, b[offset] as int) {
            Err(e) => Err(e),
            Ok(end) => Ok((offset + 1, end)),
        }
    }
}

/// The bounds of the two-byte-length vector at `offset`.
pub open spec fn spec_take_u16_vector(b: Seq<u8>, offset: int) -> Result<(int, int), TlsParseError> {
    if b.len() - offset < 2 {
        Err(TlsParseError::Incomplete { required: 2, available: (b.len() - offset) as usize })
    } else {
        match spec_take(b.len() as int, offset + 2, be16(b, offset)) {
            Err(e) => Err(e),
            Ok(end) => Ok((offset + 2, end)),
        }
    }
}

/// The bounds of the optional extension block at `offset`, which must end the input.
pub open spec fn spec_take_extensions(b: Seq<u8>, offset: int) -> Result<(int, int), TlsParseError> {
    let ext = if offset == b.len() {
        Ok((offset, offset))
    } else {
        spec_take_u16_vector(b, offset)
    };
    match ext {
        Err(e) => Err(e),
        Ok((e0, e1)) => if e1 != b.len() {
            Err(TlsParseError::TrailingBytes)
        } else {
            Ok((e0, e1))
        },
    }
}

/// The variable-length fields of a ClientHello body.
pub struct ClientHelloFields {
    /// The legacy session identifier.
    pub session_id: Seq<u8>,
    /// The encoded cipher-suite list.
    pub cipher_suites: Seq<u8>,
    /// The legacy compression methods.
    pub compression_methods: Seq<u8>,
    /// The extension block, empty when absent.
    pub extensions: Seq<u8>,
}

/// The structural validation of an exact ClientHello body.
pub open spec fn spec_client_hello(b: Seq<u8>) -> Result<ClientHelloFields, TlsParseError> {
    if b.len() < 34 {
        Err(TlsParseError::Incomplete { required: 34, available: b.len() as usize })
    } else {
        match spec_take_u8_vector(b, 34) {
            Err(e) => Err(e),
            Ok((s0, s1)) => if s1 - s0 > 32 {
                Err(TlsParseError::InvalidValue)
            } else {
                match spec_take_u16_vector(b, s1) {
                    Err(e) => Err(e),
                    Ok((c0, c1)) => if c1 - c0 == 0 || (c1 - c0) % 2 != 0 {
                        Err(TlsParseError::InvalidValue)
                    } else {
                        match spec_take_u8_vector(b, c1) {
                            Err(e) => Err(e),
                            Ok((m0, m1)) => if m1 - m0 == 0 {
                                Err(TlsParseError::InvalidValue)
                            } else {
                                match spec_take_extensions(b, m1) {
                                    Err(e) => Err(e),
                                    Ok((e0, e1)) => Ok(
                                        ClientHelloFields {
                                            session_id: b.subrange(s0, s1),
                                            cipher_suites: b.subrange(c0, c1),
                                            compression_methods: b.subrange(m0, m1),
                                            extensions: b.subrange(e0, e1),
                                        },
                                    ),
                                }
                            },
                        }
                    },
                }
            },
        }
    }
}

/// Whether a supported_versions payload offers TLS 1.3.
pub open spec fn spec_versions_offer_tls13(d: Seq<u8>) -> bool {
    match spec_client_supported_versions(d) {
        Ok(v) => spec_be16_list(v).contains(0x0304u16),
        Err(_) => false,
    }
}

/// Whether an extension block, read up to its first malformed TLV, holds a valid
/// supported_versions extension that includes TLS 1.3.
pub open spec fn spec_offers_tls13(b: Seq<u8>) -> bool
    decreases b.len(),
{
    if b.len() < 4 || b.len() < 4 + be16(b, 2) {
        false
    } else {
        (be16(b, 0) == 43 && spec_versions_offer_tls13(b.subrange(4, 4 + be16(b, 2))))
            || spec_offers_tls13(b.subrange(4 + be16(b, 2), b.len() as int))
    }
}

/// The extensions, as type and payload, that iterating over the block `b` yields before its
/// end or its first malformed TLV.
pub open spec fn spec_extension_list(b: Seq<u8>) -> Seq<(u16, Seq<u8>)>
    decreases b.len(),
{
    match spec_extension_step(b).0 {
        Some(Ok(x)) => {
            proof {
                assert(be16(b, 2) >= 0);
            }
            seq![x] + spec_extension_list(spec_extension_step(b).1)
        },
        _ => Seq::empty(),
    }
}

/// Whether a supported_versions (type 43) extension with payload `d` lists TLS 1.3 (0x0304).
pub open spec fn spec_lists_tls13(extension: (u16, Seq<u8>)) -> bool {
    &&& extension.0 == 43
    &&& spec_client_supported_versions(extension.1) matches Ok(v) && spec_be16_list(v).contains(
        0x0304u16,
    )
}

/// RFC 8446 section 4.2.1: a ClientHello offers TLS 1.3 when any supported_versions extension
/// of its block, at any position, is well formed and lists 0x0304; extensions of other types
/// before or after it do not change the answer.
pub proof fn lemma_offers_tls13_any_position(b: Seq<u8>)
    ensures
        spec_offers_tls13(b) <==> exists|i: int|
            0 <= i < spec_extension_list(b).len() && #[trigger] spec_lists_tls13(
                spec_extension_list(b)[i],
            ),
    decreases b.len(),
{
    let list = spec_extension_list(b);
    if b.len() < 4 || b.len() < 4 + be16(b, 2) {
        assert(list =~= Seq::empty());
    } else {
        let rest = b.subrange(4 + be16(b, 2), b.len() as int);
        let x = (be16(b, 0) as u16, b.subrange(4, 4 + be16(b, 2)));
        lemma_offers_tls13_any_position(rest);
        let tail = spec_extension_list(rest);
        assert(list == seq![x] + tail);
        assert((be16(b, 0) as u16 == 43) == (be16(b, 0) == 43));
        if spec_offers_tls13(b) {
            if be16(b, 0) == 43 && spec_versions_offer_tls13(b.subrange(4, 4 + be16(b, 2))) {
                assert(spec_lists_tls13(list[0]));
            } else {
                let k = choose|k: int| 0 <= k < tail.len() && #[trigger] spec_lists_tls13(tail[k]);
                assert(list[k + 1] == tail[k]);
                assert(spec_lists_tls13(list[k + 1]));
            }
        } else {
            assert forall|i: int| 0 <= i < list.len() implies !#[trigger] spec_lists_tls13(list[i]) by {
                if i > 0 {
                    assert(list[i] == tail[i - 1]);
                }
            }
        }
    }
}

/// The selected version of the first supported_versions extension of a block, or the
/// first error before or in it.
pub open spec fn spec_selected_version(b: Seq<u8>) -> Result<Option<u16>, TlsParseError>
    decreases b.len(),
{
    if b.len() == 0 {
        Ok(None)
    } else if b.len() < 4 {
        Err(TlsParseError::Incomplete { required: 4, available: b.len() as usize })
    } else if b.len() < 4 + be16(b, 2) {
        Err(TlsParseError::Incomplete { required: (4 + be16(b, 2)) as usize, available: b.len() as usize })
    } else if be16(b, 0) == 43 {
        match spec_server_supported_version(b.subrange(4, 4 + be16(b, 2))) {
            Ok(v) => Ok(Some(v)),
            Err(e) => Err(e),
        }
    } else {
        spec_selected_version(b.subrange(4 + be16(b, 2), b.len() as int))
    }
}

fn need(bytes: &[u8], required: usize) -> (r: Result<(), TlsParseError>)
    ensures
        r == spec_need(bytes@.len() as int, required as int),
{
    if bytes.len() < required {
        Err(TlsParseError::Incomplete { required, available: bytes.len() })
    } else {
        Ok(())
    }
}

fn take<'a>(bytes: &'a [u8], offset: &mut usize, length: usize) -> (r: Result<&'a [u8], TlsParseError>)
    requires
        *old(offset) <= bytes@.len(),
    ensures
        match r {
            Ok(x) => spec_take(bytes@.len() as int, *old(offset) as int, length as int) == Ok::<
                int,
                TlsParseError,
            >(*final(offset) as int) && x@ == bytes@.subrange(
                *old(offset) as int,
                *final(offset) as int,
            ),
            Err(e) => spec_take(bytes@.len() as int, *old(offset) as int, length as int) == Err::<
                int,
                TlsParseError,
            >(e),
        },
{
    let end = match offset.checked_add(length) {
        Some(end) => end,
        None => return Err(TlsParseError::InvalidValue),
    };
    match need(slice_range(bytes, *offset, bytes.len()), length) {
        Ok(()) => {},
        Err(e) => return Err(e),
    }
    let result = slice_range(bytes, *offset, end);
    *offset = end;
    Ok(result)
}

fn take_u8_vector<'a>(bytes: &'a [u8], offset: &mut usize) -> (r: Result<&'a [u8], TlsParseError>)
    requires
        *old(offset) <= bytes@.len(),
    ensures
        match r {
            Ok(x) => spec_take_u8_vector(bytes@, *old(offset) as int) == Ok::<(int, int), TlsParseError>(
                (*old(offset) + 1, *final(offset) as int),
            ) && x@ == bytes@.subrange(*old(offset) + 1, *final(offset) as int),
            Err(e) => spec_take_u8_vector(bytes@, *old(offset) as int) == Err::<
                (int, int),
                TlsParseError,
            >(e),
        },
{
    match need(slice_range(bytes, *offset, bytes.len()), 1) {
        Ok(()) => {},
        Err(e) => return Err(e),
    }
    let length = bytes[*offset] as usize;
    *offset = *offset + 1;
    take(bytes, offset, length)
}

fn take_u16_vector<'a>(bytes: &'a [u8], offset: &mut usize) -> (r: Result<&'a [u8], TlsParseError>)
    requires
        *old(offset) <= bytes@.len(),
    ensures
        match r {
            Ok(x) => spec_take_u16_vector(bytes@, *old(offset) as int) == Ok::<(int, int), TlsParseError>(
                (*old(offset) + 2, *final(offset) as int),
            ) && x@ == bytes@.subrange(*old(offset) + 2, *final(offset) as int),
            Err(e) => spec_take_u16_vector(bytes@, *old(offset) as int) == Err::<
                (int, int),
                TlsParseError,
            >(e),
        },
{
    match need(slice_range(bytes, *offset, bytes.len()), 2) {
        Ok(()) => {},
        Err(e) => return Err(e),
    }
    let length = read_be16(bytes, *offset) as usize;
    *offset = *offset + 2;
    take(bytes, offset, length)
}

fn includes_tls13(versions: &ClientSupportedVersions<'_>) -> (r: bool)
    ensures
        r == spec_be16_list(versions@).contains(0x0304u16),
{
    let list = versions.iter();
    let mut k: usize = 0;
    while k < list.len()
        invariant
            k <= list@.len(),
            list@.len() == spec_be16_list(versions@).len(),
            forall|i: int|
                0 <= i < list@.len() ==> #[trigger] list@[i].spec_raw() == spec_be16_list(
                    versions@,
                )[i],
            forall|i: int| 0 <= i < k ==> spec_be16_list(versions@)[i] != 0x0304u16,
        decreases list@.len() - k,
    {
        if list[k].raw() == TlsProtocolVersion::TLS13().raw() {
            proof {
                assert(spec_be16_list(versions@)[k as int] == 0x0304u16);
            }
            return true;
        }
        k = k + 1;
    }
    false
}

/// A structurally validated ClientHello body.
#[derive(Clone, Copy, Debug, PartialEq, Eq)]
pub struct ClientHello<'a> {
    bytes: &'a [u8],
    session_id: &'a [u8],
    cipher_suites: &'a [u8],
    compression_methods: &'a [u8],
    extensions: &'a [u8],
}

impl<'a> View for ClientHello<'a> {
    type V = Seq<u8>;

    closed spec fn view(&self) -> Seq<u8> {
        self.bytes@
    }
}

impl<'a> ClientHello<'a> {
    /// The variable-length fields this view holds.
    pub closed spec fn fields(&self) -> ClientHelloFields {
        ClientHelloFields {
            session_id: self.session_id@,
            cipher_suites: self.cipher_suites@,
            compression_methods: self.compression_methods@,
            extensions: self.extensions@,
        }
    }

    #[verifier::type_invariant]
    closed spec fn inv(self) -> bool {
        spec_client_hello(self.bytes@) == Ok::<ClientHelloFields, TlsParseError>(self.fields())
    }

    /// Parses an exact ClientHello body.
    pub fn parse(bytes: &'a [u8]) -> (r: Result<Self, TlsParseError>)
        ensures
            match r {
                Ok(hello) => hello@ == bytes@ && spec_client_hello(bytes@) == Ok::<
                    ClientHelloFields,
                    TlsParseError,
                >(hello.fields()),
                Err(e) => spec_client_hello(bytes@) == Err::<ClientHelloFields, TlsParseError>(e),
            },
    {
        match need(bytes, 34) {
            Ok(()) => {},
            Err(e) => return Err(e),
        }
        let mut offset: usize = 34;
        let session_id = match take_u8_vector(bytes, &mut offset) {
            Ok(x) => x,
            Err(e) => return Err(e),
        };
        if session_id.len() > 32 {
            return Err(TlsParseError::InvalidValue);
        }
        let cipher_suites = match take_u16_vector(bytes, &mut offset) {
            Ok(x) => x,
            Err(e) => return Err(e),
        };
        if cipher_suites.len() == 0 || cipher_suites.len() % 2 != 0 {
            return Err(TlsParseError::InvalidValue);
        }
        let compression_methods = match take_u8_vector(bytes, &mut offset) {
            Ok(x) => x,
            Err(e) => return Err(e),
        };
        if compression_methods.len() == 0 {
            return Err(TlsParseError::InvalidValue);
        }
        let ghost before_extensions = offset;
        let extensions: &'a [u8] = if offset == bytes.len() {
            slice_range(bytes, offset, offset)
        } else {
            match take_u16_vector(bytes, &mut offset) {
                Ok(x) => x,
                Err(e) => return Err(e),
            }
        };
        if offset != bytes.len() {
            return Err(TlsParseError::TrailingBytes);
        }
        proof {
            assert(spec_take_extensions(bytes@, before_extensions as int) is Ok);
        }
        Ok(Self { bytes, session_id, cipher_suites, compression_methods, extensions })
    }

    /// Returns the legacy ClientHello version.
    pub fn legacy_version(&self) -> (r: TlsProtocolVersion)
        ensures
            r.spec_raw() == be16(self@, 0),
    {
        proof {
            use_type_invariant(self);
        }
        TlsProtocolVersion::new(read_be16(self.bytes, 0))
    }

    /// Returns the 32-byte client random.
    pub fn random(&self) -> (r: &'a [u8; 32])
        ensures
            r@ == self@.subrange(2, 34),
    {
        proof {
            use_type_invariant(self);
        }
        array_ref::<32>(slice_range(self.bytes, 2, 34))
    }

    /// Returns the legacy session identifier.
    pub fn session_id(&self) -> (r: &'a [u8])
        ensures
            r@ == self.fields().session_id,
    {
        self.session_id
    }

    /// Returns ordered offered cipher suites.
    pub fn cipher_suites(&self) -> (r: Vec<TlsCipherSuite>)
        ensures
            r@.len() == spec_be16_list(self.fields().cipher_suites).len(),
            forall|i: int|
                0 <= i < r@.len() ==> #[trigger] r@[i].spec_raw() == spec_be16_list(
                    self.fields().cipher_suites,
                )[i],
    {
        let bytes = self.cipher_suites;
        let mut out: Vec<TlsCipherSuite> = Vec::new();
        let n = bytes.len() / 2;
        let mut k: usize = 0;
        while k < n
            invariant
                n == bytes@.len() / 2,
                bytes@.len() <= usize::MAX,
                k <= n,
                out@.len() == k,
                forall|i: int| 0 <= i < k ==> #[trigger] out@[i].spec_raw() == be16(bytes@, 2 * i),
            decreases n - k,
        {
            out.push(TlsCipherSuite::new(read_be16(bytes, 2 * k)));
            k = k + 1;
        }
        out
    }

    /// Returns ordered legacy compression methods.
    pub fn compression_methods(&self) -> (r: Vec<TlsCompressionMethod>)
        ensures
            r@.len() == self.fields().compression_methods.len(),
            forall|i: int|
                0 <= i < r@.len() ==> #[trigger] r@[i].spec_raw()
                    == self.fields().compression_methods[i],
    {
        let bytes = self.compression_methods;
        let mut out: Vec<TlsCompressionMethod> = Vec::new();
        let n = bytes.len();
        let mut k: usize = 0;
        while k < n
            invariant
                n == bytes@.len(),
                k <= n,
                out@.len() == k,
                forall|i: int| 0 <= i < k ==> #[trigger] out@[i].spec_raw() == bytes@[i],
            decreases n - k,
        {
            out.push(TlsCompressionMethod::new(bytes[k]));
            k = k + 1;
        }
        out
    }

    /// Returns ordered extension TLVs.
    pub fn extensions(&self) -> (r: TlsExtensions<'a>)
        ensures
            r@ == self.fields().extensions,
    {
        TlsExtensions::new(self.extensions)
    }

    /// Returns whether a valid supported_versions extension includes TLS 1.3.
    pub fn offers_tls13(&self) -> (r: bool)
        ensures
            r == spec_offers_tls13(self.fields().extensions),
            r <==> exists|i: int|
                0 <= i < spec_extension_list(self.fields().extensions).len()
                    && #[trigger] spec_lists_tls13(spec_extension_list(self.fields().extensions)[i]),
    {
        proof {
            lemma_offers_tls13_any_position(self.fields().extensions);
        }
        let mut extensions = self.extensions();
        loop
            invariant
                spec_offers_tls13(self.fields().extensions) == spec_offers_tls13(extensions@),
                spec_offers_tls13(self.fields().extensions) <==> exists|i: int|
                    0 <= i < spec_extension_list(self.fields().extensions).len()
                        && #[trigger] spec_lists_tls13(spec_extension_list(self.fields().extensions)[i]),
            decreases extensions@.len(),
        {
            let ghost before = extensions@;
            match extensions.next() {
                None => return false,
                Some(Err(_)) => {
                    proof {
                        assert(!spec_offers_tls13(before));
                    }
                    return false;
                },
                Some(Ok(extension)) => {
                    if extension.extension_type().raw() == TlsExtensionType::SUPPORTED_VERSIONS().raw() {
                        match extension.client_supported_versions() {
                            Ok(versions) => {
                                if includes_tls13(&versions) {
                                    return true;
                                }
                            },
                            Err(_) => {},
                        }
                    }
                },
            }
        }
    }

    /// Returns the complete represented ClientHello body.
    pub fn as_bytes(&self) -> (r: &'a [u8])
        ensures
            r@ == self@,
    {
        self.bytes
    }
}

/// The fields of a ServerHello body.
pub struct ServerHelloFields {
    /// The echoed legacy session identifier.
    pub session_id: Seq<u8>,
    /// The selected cipher suite.
    pub cipher_suite: u16,
    /// The selected legacy compression method.
    pub compression_method: u8,
    /// The extension block, empty when absent.
    pub extensions: Seq<u8>,
}

/// The structural validation of an exact ServerHello body.
pub open spec fn spec_server_hello(b: Seq<u8>) -> Result<ServerHelloFields, TlsParseError> {
    if b.len() < 38 {
        Err(TlsParseError::Incomplete { required: 38, available: b.len() as usize })
    } else {
        match spec_take_u8_vector(b, 34) {
            Err(e) => Err(e),
            Ok((s0, s1)) => if s1 - s0 > 32 {
                Err(TlsParseError::InvalidValue)
            } else if b.len() - s1 < 3 {
                Err(TlsParseError::Incomplete { required: 3, available: (b.len() - s1) as usize })
            } else {
                match spec_take_extensions(b, s1 + 3) {
                    Err(e) => Err(e),
                    Ok((e0, e1)) => Ok(
                        ServerHelloFields {
                            session_id: b.subrange(s0, s1),
                            cipher_suite: be16(b, s1) as u16,
                            compression_method: b[s1 + 2],
                            extensions: b.subrange(e0, e1),
                        },
                    ),
                }
            },
        }
    }
}

/// A structurally validated ServerHello body.
#[derive(Clone, Copy, Debug, PartialEq, Eq)]
pub struct ServerHello<'a> {
    bytes: &'a [u8],
    session_id: &'a [u8],
    cipher_suite: TlsCipherSuite,
    compression_method: TlsCompressionMethod,
    extensions: &'a [u8],
}

impl<'a> View for ServerHello<'a> {
    type V = Seq<u8>;

    closed spec fn view(&self) -> Seq<u8> {
        self.bytes@
    }
}

impl<'a> ServerHello<'a> {
    /// The fields this view holds.
    pub closed spec fn fields(&self) -> ServerHelloFields {
        ServerHelloFields {
            session_id: self.session_id@,
            cipher_suite: self.cipher_suite.spec_raw(),
            compression_method: self.compression_method.spec_raw(),
            extensions: self.extensions@,
        }
    }

    #[verifier::type_invariant]
    closed spec fn inv(self) -> bool {
        spec_server_hello(self.bytes@) == Ok::<ServerHelloFields, TlsParseError>(self.fields())
    }

    /// Parses an exact ServerHello body.
    pub fn parse(bytes: &'a [u8]) -> (r: Result<Self, TlsParseError>)
        ensures
            match r {
                Ok(hello) => hello@ == bytes@ && spec_server_hello(bytes@) == Ok::<
                    ServerHelloFields,
                    TlsParseError,
                >(hello.fields()),
                Err(e) => spec_server_hello(bytes@) == Err::<ServerHelloFields, TlsParseError>(e),
            },
    {
        match need(bytes, 38) {
            Ok(()) => {},
            Err(e) => return Err(e),
        }
        let mut offset: usize = 34;
        let session_id = match take_u8_vector(bytes, &mut offset) {
            Ok(x) => x,
            Err(e) => return Err(e),
        };
        if session_id.len() > 32 {
            return Err(TlsParseError::InvalidValue);
        }
        match need(slice_range(bytes, offset, bytes.len()), 3) {
            Ok(()) => {},
            Err(e) => return Err(e),
        }
        let cipher_suite = TlsCipherSuite::new(read_be16(bytes, offset));
        let compression_method = TlsCompressionMethod::new(bytes[offset + 2]);
        offset = offset + 3;
        let ghost before_extensions = offset;
        let extensions: &'a [u8] = if offset == bytes.len() {
            slice_range(bytes, offset, offset)
        } else {
            match take_u16_vector(bytes, &mut offset) {
                Ok(x) => x,
                Err(e) => return Err(e),
            }
        };
        if offset != bytes.len() {
            return Err(TlsParseError::TrailingBytes);
        }
        proof {
            assert(spec_take_extensions(bytes@, before_extensions as int) is Ok);
        }
        Ok(Self { bytes, session_id, cipher_suite, compression_method, extensions })
    }

    /// Returns the legacy ServerHello version.
    pub fn legacy_version(&self) -> (r: TlsProtocolVersion)
        ensures
            r.spec_raw() == be16(self@, 0),
    {
        proof {
            use_type_invariant(self);
        }
        TlsProtocolVersion::new(read_be16(self.bytes, 0))
    }

    /// Returns the 32-byte server random.
    pub fn random(&self) -> (r: &'a [u8; 32])
        ensures
            r@ == self@.subrange(2, 34),
    {
        proof {
            use_type_invariant(self);
        }
        array_ref::<32>(slice_range(self.bytes, 2, 34))
    }

    /// Returns the echoed legacy session identifier.
    pub fn session_id(&self) -> (r: &'a [u8])
        ensures
            r@ == self.fields().session_id,
    {
        self.session_id
    }

    /// Returns the selected cipher suite as its raw-preserving value.
    pub fn cipher_suite(&self) -> (r: TlsCipherSuite)
        ensures
            r.spec_raw() == self.fields().cipher_suite,
    {
        self.cipher_suite
    }

    /// Returns the selected legacy compression method.
    pub fn compression_method(&self) -> (r: TlsCompressionMethod)
        ensures
            r.spec_raw() == self.fields().compression_method,
    {
        self.compression_method
    }

    /// Returns whether this ServerHello is a HelloRetryRequest.
    pub fn is_hello_retry_request(&self) -> (r: bool)
        ensures
            r == (self@.subrange(2, 34) == spec_hello_retry_request_random()),
    {
        let random = self.random();
        let expected = HELLO_RETRY_REQUEST_RANDOM();
        bytes_equal(random.as_slice(), expected.as_slice())
    }

    /// Returns ordered extension TLVs.
    pub fn extensions(&self) -> (r: TlsExtensions<'a>)
        ensures
            r@ == self.fields().extensions,
    {
        TlsExtensions::new(self.extensions)
    }

    /// Returns the selected supported version when a valid server extension is present.
    pub fn selected_version(&self) -> (r: Result<Option<TlsProtocolVersion>, TlsParseError>)
        ensures
            match r {
                Ok(None) => spec_selected_version(self.fields().extensions) == Ok::<
                    Option<u16>,
                    TlsParseError,
                >(None),
                Ok(Some(v)) => spec_selected_version(self.fields().extensions) == Ok::<
                    Option<u16>,
                    TlsParseError,
                >(Some(v.spec_raw())),
                Err(e) => spec_selected_version(self.fields().extensions) == Err::<
                    Option<u16>,
                    TlsParseError,
                >(e),
            },
    {
        let mut extensions = self.extensions();
        loop
            invariant
                spec_selected_version(self.fields().extensions) == spec_selected_version(extensions@),
            decreases extensions@.len(),
        {
            match extensions.next() {
                None => return Ok(None),
                Some(Err(e)) => return Err(e),
                Some(Ok(extension)) => {
                    if extension.extension_type().raw() == TlsExtensionType::SUPPORTED_VERSIONS().raw() {
                        return match extension.server_supported_version() {
                            Ok(v) => Ok(Some(v)),
                            Err(e) => Err(e),
                        };
                    }
                },
            }
        }
    }

    /// Returns the complete represented ServerHello body.
    pub fn as_bytes(&self) -> (r: &'a [u8])
        ensures
            r@ == self@,
    {
        self.bytes
    }
}

} // verus!
