//! Caller-buffer TLS extension and hello construction.

use super::error::{TlsBuildError, TlsParseError};
use super::extensions::extension::{TlsExtension, TlsExtensions, spec_extension_step};
use super::hello::{
    ClientHello, ClientHelloFields, ServerHello, ServerHelloFields, spec_client_hello,
    spec_server_hello,
};
use super::types::{TlsCipherSuite, TlsCompressionMethod, TlsExtensionType, TlsProtocolVersion};
use crate::wire::{
    be16, be16_bytes, copy_into, lemma_be16_roundtrip, lemma_spliced_prefix, spliced,
    split_at_mut_fixed, write_be16, write_u8,
};
use vstd::prelude::*;

verus! {

/// Whether every TLV of an extension block is complete.
pub open spec fn spec_extension_block_ok(b: Seq<u8>) -> bool
    decreases b.len(),
{
    if b.len() == 0 {
        true
    } else if b.len() < 4 || b.len() < 4 + be16(b, 2) {
        false
    } else {
        spec_extension_block_ok(b.subrange(4 + be16(b, 2), b.len() as int))
    }
}

/// An optional extension block as it is encoded after the fixed hello fields.
pub open spec fn spec_extension_block_bytes(extensions: Option<Seq<u8>>) -> Seq<u8> {
    match extensions {
        Some(e) => be16_bytes(e.len() as u16) + e,
        None => Seq::empty(),
    }
}

/// The encoded ClientHello body with the given fields.
pub open spec fn spec_client_hello_bytes(
    legacy_version: u16,
    random: Seq<u8>,
    session_id: Seq<u8>,
    cipher_suites: Seq<u8>,
    compression_methods: Seq<u8>,
    extensions: Option<Seq<u8>>,
) -> Seq<u8> {
    be16_bytes(legacy_version) + random + seq![session_id.len() as u8] + session_id + be16_bytes(
        cipher_suites.len() as u16,
    ) + cipher_suites + seq![compression_methods.len() as u8] + compression_methods
        + spec_extension_block_bytes(extensions)
}

/// The encoded ServerHello body with the given fields.
pub open spec fn spec_server_hello_bytes(
    legacy_version: u16,
    random: Seq<u8>,
    session_id: Seq<u8>,
    cipher_suite: u16,
    compression_method: u8,
    extensions: Option<Seq<u8>>,
) -> Seq<u8> {
    be16_bytes(legacy_version) + random + seq![session_id.len() as u8] + session_id + be16_bytes(
        cipher_suite,
    ) + seq![compression_method] + spec_extension_block_bytes(extensions)
}

/// The extension block a hello holds once written with `extensions`.
pub open spec fn spec_written_extensions(extensions: Option<Seq<u8>>) -> Seq<u8> {
    match extensions {
        Some(e) => e,
        None => Seq::empty(),
    }
}

/// A ClientHello body written from valid fields parses back to exactly those fields.
pub proof fn lemma_client_hello_roundtrip(
    legacy_version: u16,
    random: Seq<u8>,
    session_id: Seq<u8>,
    cipher_suites: Seq<u8>,
    compression_methods: Seq<u8>,
    extensions: Option<Seq<u8>>,
)
    requires
        random.len() == 32,
        session_id.len() <= 32,
        2 <= cipher_suites.len() <= 0xffff,
        cipher_suites.len() % 2 == 0,
        1 <= compression_methods.len() <= 0xff,
        extensions matches Some(e) ==> e.len() <= 0xffff,
    ensures
        spec_client_hello(
            spec_client_hello_bytes(
                legacy_version,
                random,
                session_id,
                cipher_suites,
                compression_methods,
                extensions,
            ),
        ) == Ok::<ClientHelloFields, TlsParseError>(
            ClientHelloFields {
                session_id,
                cipher_suites,
                compression_methods,
                extensions: spec_written_extensions(extensions),
            },
        ),
{
    let b = spec_client_hello_bytes(
        legacy_version,
        random,
        session_id,
        cipher_suites,
        compression_methods,
        extensions,
    );
    let l = session_id.len() as int;
    let c = cipher_suites.len() as int;
    let m = compression_methods.len() as int;
    let s1 = 35 + l;
    let c1 = s1 + 2 + c;
    let m1 = c1 + 1 + m;
    let head = be16_bytes(legacy_version) + random + seq![session_id.len() as u8] + session_id
        + be16_bytes(cipher_suites.len() as u16) + cipher_suites + seq![
        compression_methods.len() as u8,
    ] + compression_methods;
    assert(head.len() == m1);
    assert(b == head + spec_extension_block_bytes(extensions));
    lemma_be16_roundtrip(cipher_suites.len() as u16);
    assert(b[34] == session_id.len() as u8);
    assert(b.subrange(35, s1) =~= session_id);
    assert(b[s1] == be16_bytes(cipher_suites.len() as u16)[0]);
    assert(b[s1 + 1] == be16_bytes(cipher_suites.len() as u16)[1]);
    assert(be16(b, s1) == c);
    assert(b.subrange(s1 + 2, c1) =~= cipher_suites);
    assert(b[c1] == compression_methods.len() as u8);
    assert(b.subrange(c1 + 1, m1) =~= compression_methods);
    match extensions {
        Some(e) => {
            lemma_be16_roundtrip(e.len() as u16);
            assert(b[m1] == be16_bytes(e.len() as u16)[0]);
            assert(b[m1 + 1] == be16_bytes(e.len() as u16)[1]);
            assert(be16(b, m1) == e.len());
            assert(b.subrange(m1 + 2, b.len() as int) =~= e);
        },
        None => {
            assert(b.len() == m1);
            assert(b.subrange(m1, m1) =~= Seq::<u8>::empty());
        },
    }
}

/// A ServerHello body written from valid fields parses back to exactly those fields.
pub proof fn lemma_server_hello_roundtrip(
    legacy_version: u16,
    random: Seq<u8>,
    session_id: Seq<u8>,
    cipher_suite: u16,
    compression_method: u8,
    extensions: Option<Seq<u8>>,
)
    requires
        random.len() == 32,
        session_id.len() <= 32,
        extensions matches Some(e) ==> e.len() <= 0xffff,
    ensures
        spec_server_hello(
            spec_server_hello_bytes(
                legacy_version,
                random,
                session_id,
                cipher_suite,
                compression_method,
                extensions,
            ),
        ) == Ok::<ServerHelloFields, TlsParseError>(
            ServerHelloFields {
                session_id,
                cipher_suite,
                compression_method,
                extensions: spec_written_extensions(extensions),
            },
        ),
{
    let b = spec_server_hello_bytes(
        legacy_version,
        random,
        session_id,
        cipher_suite,
        compression_method,
        extensions,
    );
    let l = session_id.len() as int;
    let s1 = 35 + l;
    let o = s1 + 3;
    let head = be16_bytes(legacy_version) + random + seq![session_id.len() as u8] + session_id
        + be16_bytes(cipher_suite) + seq![compression_method];
    assert(head.len() == o);
    assert(b == head + spec_extension_block_bytes(extensions));
    lemma_be16_roundtrip(cipher_suite);
    assert(b[34] == session_id.len() as u8);
    assert(b.subrange(35, s1) =~= session_id);
    assert(b[s1] == be16_bytes(cipher_suite)[0]);
    assert(b[s1 + 1] == be16_bytes(cipher_suite)[1]);
    assert(be16(b, s1) == cipher_suite);
    assert(b[s1 + 2] == compression_method);
    match extensions {
        Some(e) => {
            lemma_be16_roundtrip(e.len() as u16);
            assert(b[o] == be16_bytes(e.len() as u16)[0]);
            assert(b[o + 1] == be16_bytes(e.len() as u16)[1]);
            assert(be16(b, o) == e.len());
            assert(b.subrange(o + 2, b.len() as int) =~= e);
        },
        None => {
            assert(b.len() == o);
            assert(b.subrange(o, o) =~= Seq::<u8>::empty());
        },
    }
}

/// Builds one TLS extension TLV in caller-owned storage.
pub struct TlsExtensionBuilder<'a, 'b> {
    buffer: &'a mut [u8],
    extension_type: TlsExtensionType,
    data: &'b [u8],
}

impl<'a, 'b> TlsExtensionBuilder<'a, 'b> {
    /// The caller storage the extension will be written into.
    pub closed spec fn spec_buffer(&self) -> Seq<u8> {
        self.buffer@
    }

    /// The extension type to write.
    pub closed spec fn spec_extension_type(&self) -> u16 {
        self.extension_type.spec_raw()
    }

    /// The payload to copy.
    pub closed spec fn spec_data(&self) -> Seq<u8> {
        self.data@
    }

    /// Creates a builder that copies the supplied extension payload.
    pub fn new(buffer: &'a mut [u8], extension_type: TlsExtensionType, data: &'b [u8]) -> (r: Self)
        ensures
            r.spec_buffer() == old(buffer)@,
            r.spec_extension_type() == extension_type.spec_raw(),
            r.spec_data() == data@,
    {
        Self { buffer, extension_type, data }
    }

    /// Validates all inputs before writing the extension.
    pub fn build(self) -> (r: Result<TlsExtension<'a>, TlsBuildError>)
        ensures
            ({
                let data = self.spec_data();
                let buffer = self.spec_buffer();
                &&& r is Ok <==> data.len() <= 0xffff && 4 + data.len() <= buffer.len()
                &&& data.len() > 0xffff ==> r == Err::<TlsExtension, TlsBuildError>(
                    TlsBuildError::LengthTooLarge,
                )
                &&& data.len() <= 0xffff && 4 + data.len() > buffer.len() ==> r == Err::<
                    TlsExtension,
                    TlsBuildError,
                >(
                    TlsBuildError::BufferTooShort {
                        required: (4 + data.len()) as usize,
                        available: buffer.len() as usize,
                    },
                )
                &&& r matches Ok(extension) ==> extension@ == (self.spec_extension_type(), data)
            }),
    {
        if self.data.len() > 0xffff {
            return Err(TlsBuildError::LengthTooLarge);
        }
        let data_length = self.data.len() as u16;
        let required = match 4usize.checked_add(self.data.len()) {
            Some(required) => required,
            None => return Err(TlsBuildError::LengthTooLarge),
        };
        let buffer = self.buffer;
        match ensure_capacity(buffer.len(), required) {
            Ok(()) => {},
            Err(e) => return Err(e),
        }
        let (bytes, _) = split_at_mut_fixed(buffer, required);
        write_be16(bytes, 0, self.extension_type.raw());
        write_be16(bytes, 2, data_length);
        copy_into(bytes, 4, self.data);
        let bytes: &'a [u8] = bytes;
        proof {
            lemma_be16_roundtrip(self.extension_type.spec_raw());
            lemma_be16_roundtrip(data_length);
            assert(be16(bytes@, 2) == data_length);
            assert(be16(bytes@, 0) == self.extension_type.spec_raw());
            assert(bytes@.subrange(4, 4 + be16(bytes@, 2)) =~= self.data@);
        }
        let mut extensions = TlsExtensions::new(bytes);
        match extensions.next() {
            Some(Ok(extension)) => Ok(extension),
            _ => {
                proof {
                    assert(false);
                }
                Err(TlsBuildError::InvalidValue)
            },
        }
    }
}

/// The values a ClientHello builder holds.
pub struct ClientHelloBuilderFields {
    /// The caller storage.
    pub buffer: Seq<u8>,
    /// The legacy version.
    pub legacy_version: u16,
    /// The client random.
    pub random: Seq<u8>,
    /// The legacy session identifier.
    pub session_id: Seq<u8>,
    /// The encoded cipher-suite list.
    pub cipher_suites: Seq<u8>,
    /// The legacy compression methods.
    pub compression_methods: Seq<u8>,
    /// The encoded extension block, if any.
    pub extensions: Option<Seq<u8>>,
}

/// The view of an optional borrowed byte string.
pub open spec fn spec_opt_bytes(b: Option<&[u8]>) -> Option<Seq<u8>> {
    match b {
        Some(x) => Some(x@),
        None => None,
    }
}

/// The error a one-byte-length vector of `length` bytes gets, if any.
pub open spec fn spec_u8_vector_error(length: int, minimum: int, maximum: int) -> Option<TlsBuildError> {
    if length > 0xff {
        Some(TlsBuildError::LengthTooLarge)
    } else if length < minimum || length > maximum {
        Some(TlsBuildError::InvalidValue)
    } else {
        None
    }
}

/// The error a two-byte-length vector of `length` bytes gets, if any.
pub open spec fn spec_u16_vector_error(length: int, minimum: int, even: bool) -> Option<TlsBuildError> {
    if length < minimum || (even && length % 2 != 0) {
        Some(TlsBuildError::InvalidValue)
    } else if length > 0xffff {
        Some(TlsBuildError::LengthTooLarge)
    } else {
        None
    }
}

/// The error an optional extension block gets, if any.
pub open spec fn spec_extensions_error(extensions: Option<Seq<u8>>) -> Option<TlsBuildError> {
    match extensions {
        None => None,
        Some(e) => if e.len() > 0xffff {
            Some(TlsBuildError::LengthTooLarge)
        } else if !spec_extension_block_ok(e) {
            Some(TlsBuildError::InvalidValue)
        } else {
            None
        },
    }
}

/// The first error a ClientHello builder reports, if any.
pub open spec fn spec_client_hello_build_error(f: ClientHelloBuilderFields) -> Option<TlsBuildError> {
    let required = spec_client_hello_bytes(
        f.legacy_version,
        f.random,
        f.session_id,
        f.cipher_suites,
        f.compression_methods,
        f.extensions,
    ).len();
    if spec_u8_vector_error(f.session_id.len() as int, 0, 32) is Some {
        spec_u8_vector_error(f.session_id.len() as int, 0, 32)
    } else if spec_u16_vector_error(f.cipher_suites.len() as int, 2, true) is Some {
        spec_u16_vector_error(f.cipher_suites.len() as int, 2, true)
    } else if spec_u8_vector_error(f.compression_methods.len() as int, 1, 0xff) is Some {
        spec_u8_vector_error(f.compression_methods.len() as int, 1, 0xff)
    } else if spec_extensions_error(f.extensions) is Some {
        spec_extensions_error(f.extensions)
    } else if f.buffer.len() < required {
        Some(
            TlsBuildError::BufferTooShort {
                required: required as usize,
                available: f.buffer.len() as usize,
            },
        )
    } else {
        None
    }
}

/// Builds a ClientHello body in caller-owned storage.
pub struct ClientHelloBuilder<'a, 'b> {
    buffer: &'a mut [u8],
    legacy_version: TlsProtocolVersion,
    random: &'b [u8; 32],
    session_id: &'b [u8],
    cipher_suites: &'b [u8],
    compression_methods: &'b [u8],
    extensions: Option<&'b [u8]>,
}

impl<'a, 'b> ClientHelloBuilder<'a, 'b> {
    /// The builder's values.
    pub closed spec fn fields(&self) -> ClientHelloBuilderFields {
        ClientHelloBuilderFields {
            buffer: self.buffer@,
            legacy_version: self.legacy_version.spec_raw(),
            random: self.random@,
            session_id: self.session_id@,
            cipher_suites: self.cipher_suites@,
            compression_methods: self.compression_methods@,
            extensions: spec_opt_bytes(self.extensions),
        }
    }

    /// Creates a builder from ordered, already encoded variable-length fields.
    pub fn new(
        buffer: &'a mut [u8],
        legacy_version: TlsProtocolVersion,
        random: &'b [u8; 32],
        session_id: &'b [u8],
        cipher_suites: &'b [u8],
        compression_methods: &'b [u8],
        extensions: Option<&'b [u8]>,
    ) -> (r: Self)
        ensures
            r.fields() == (ClientHelloBuilderFields {
                buffer: old(buffer)@,
                legacy_version: legacy_version.spec_raw(),
                random: random@,
                session_id: session_id@,
                cipher_suites: cipher_suites@,
                compression_methods: compression_methods@,
                extensions: spec_opt_bytes(extensions),
            }),
    {
        Self {
            buffer,
            legacy_version,
            random,
            session_id,
            cipher_suites,
            compression_methods,
            extensions,
        }
    }

    /// Validates all fields and capacity before writing the ClientHello body.
    #[verifier::rlimit(50)]
    pub fn build(self) -> (r: Result<ClientHello<'a>, TlsBuildError>)
        ensures
            ({
                let f = self.fields();
                match r {
                    Ok(hello) => spec_client_hello_build_error(f) is None && hello@
                        == spec_client_hello_bytes(
                        f.legacy_version,
                        f.random,
                        f.session_id,
                        f.cipher_suites,
                        f.compression_methods,
                        f.extensions,
                    ) && hello.fields() == (ClientHelloFields {
                        session_id: f.session_id,
                        cipher_suites: f.cipher_suites,
                        compression_methods: f.compression_methods,
                        extensions: spec_written_extensions(f.extensions),
                    }),
                    Err(e) => spec_client_hello_build_error(f) == Some(e),
                }
            }),
    {
        let ghost f = self.fields();
        let session_length = match validate_u8_vector(self.session_id, 0, 32) {
            Ok(length) => length,
            Err(e) => return Err(e),
        };
        let cipher_length = match validate_u16_vector(self.cipher_suites, 2, true) {
            Ok(length) => length,
            Err(e) => return Err(e),
        };
        let compression_length = match validate_u8_vector(self.compression_methods, 1, 0xff) {
            Ok(length) => length,
            Err(e) => return Err(e),
        };
        let extension_length = match validate_extensions(self.extensions) {
            Ok(length) => length,
            Err(e) => return Err(e),
        };
        let extension_bytes: usize = match self.extensions {
            Some(extensions) => 2 + extensions.len(),
            None => 0,
        };
        let required = 34 + (1 + self.session_id.len()) + (2 + self.cipher_suites.len()) + (1
            + self.compression_methods.len()) + extension_bytes;
        let ghost encoded = spec_client_hello_bytes(
            f.legacy_version,
            f.random,
            f.session_id,
            f.cipher_suites,
            f.compression_methods,
            f.extensions,
        );
        assert(encoded.len() == required);
        let buffer = self.buffer;
        match ensure_capacity(buffer.len(), required) {
            Ok(()) => {},
            Err(e) => return Err(e),
        }
        let (bytes, _) = split_at_mut_fixed(buffer, required);
        let ghost prefix = Seq::<u8>::empty();
        assert(bytes@.subrange(0, 0) =~= prefix);
        let ghost before = bytes@;
        write_be16(bytes, 0, self.legacy_version.raw());
        proof {
            lemma_spliced_prefix(before, 0, be16_bytes(f.legacy_version), prefix);
            prefix = prefix + be16_bytes(f.legacy_version);
        }
        let ghost before = bytes@;
        copy_into(bytes, 2, self.random.as_slice());
        proof {
            lemma_spliced_prefix(before, 2, f.random, prefix);
            prefix = prefix + f.random;
        }
        let mut offset: usize = 34;
        let ghost before = bytes@;
        write_u8(bytes, offset, session_length);
        proof {
            lemma_spliced_prefix(before, offset as int, seq![session_length], prefix);
            prefix = prefix + seq![session_length];
        }
        offset = offset + 1;
        let ghost before = bytes@;
        copy_into(bytes, offset, self.session_id);
        proof {
            lemma_spliced_prefix(before, offset as int, f.session_id, prefix);
            prefix = prefix + f.session_id;
        }
        offset = offset + self.session_id.len();
        let ghost before = bytes@;
        write_be16(bytes, offset, cipher_length);
        proof {
            lemma_spliced_prefix(before, offset as int, be16_bytes(cipher_length), prefix);
            prefix = prefix + be16_bytes(cipher_length);
        }
        offset = offset + 2;
        let ghost before = bytes@;
        copy_into(bytes, offset, self.cipher_suites);
        proof {
            lemma_spliced_prefix(before, offset as int, f.cipher_suites, prefix);
            prefix = prefix + f.cipher_suites;
        }
        offset = offset + self.cipher_suites.len();
        let ghost before = bytes@;
        write_u8(bytes, offset, compression_length);
        proof {
            lemma_spliced_prefix(before, offset as int, seq![compression_length], prefix);
            prefix = prefix + seq![compression_length];
        }
        offset = offset + 1;
        let ghost before = bytes@;
        copy_into(bytes, offset, self.compression_methods);
        proof {
            lemma_spliced_prefix(before, offset as int, f.compression_methods, prefix);
            prefix = prefix + f.compression_methods;
        }
        offset = offset + self.compression_methods.len();
        match (self.extensions, extension_length) {
            (Some(extensions), Some(length)) => {
                let ghost before = bytes@;
                write_be16(bytes, offset, length);
                proof {
                    lemma_spliced_prefix(before, offset as int, be16_bytes(length), prefix);
                    prefix = prefix + be16_bytes(length);
                }
                offset = offset + 2;
                let ghost before = bytes@;
                copy_into(bytes, offset, extensions);
                proof {
                    lemma_spliced_prefix(before, offset as int, extensions@, prefix);
                    prefix = prefix + extensions@;
                }
            },
            _ => {},
        }
        proof {
            assert(prefix =~= encoded);
            assert(bytes@ =~= bytes@.subrange(0, required as int));
            lemma_client_hello_roundtrip(
                f.legacy_version,
                f.random,
                f.session_id,
                f.cipher_suites,
                f.compression_methods,
                f.extensions,
            );
        }
        let bytes: &'a [u8] = bytes;
        match ClientHello::parse(bytes) {
            Ok(hello) => Ok(hello),
            Err(e) => {
                proof {
                    assert(false);
                }
                Err(TlsBuildError::InvalidValue)
            },
        }
    }
}

/// The values a ServerHello builder holds.
pub struct ServerHelloBuilderFields {
    /// The caller storage.
    pub buffer: Seq<u8>,
    /// The legacy version.
    pub legacy_version: u16,
    /// The server random.
    pub random: Seq<u8>,
    /// The echoed legacy session identifier.
    pub session_id: Seq<u8>,
    /// The selected cipher suite.
    pub cipher_suite: u16,
    /// The selected legacy compression method.
    pub compression_method: u8,
    /// The encoded extension block, if any.
    pub extensions: Option<Seq<u8>>,
}

/// The first error a ServerHello builder reports, if any.
pub open spec fn spec_server_hello_build_error(f: ServerHelloBuilderFields) -> Option<TlsBuildError> {
    let required = spec_server_hello_bytes(
        f.legacy_version,
        f.random,
        f.session_id,
        f.cipher_suite,
        f.compression_method,
        f.extensions,
    ).len();
    if spec_u8_vector_error(f.session_id.len() as int, 0, 32) is Some {
        spec_u8_vector_error(f.session_id.len() as int, 0, 32)
    } else if spec_extensions_error(f.extensions) is Some {
        spec_extensions_error(f.extensions)
    } else if f.buffer.len() < required {
        Some(
            TlsBuildError::BufferTooShort {
                required: required as usize,
                available: f.buffer.len() as usize,
            },
        )
    } else {
        None
    }
}

/// Builds a ServerHello body in caller-owned storage.
pub struct ServerHelloBuilder<'a, 'b> {
    buffer: &'a mut [u8],
    legacy_version: TlsProtocolVersion,
    random: &'b [u8; 32],
    session_id: &'b [u8],
    cipher_suite: TlsCipherSuite,
    compression_method: TlsCompressionMethod,
    extensions: Option<&'b [u8]>,
}

impl<'a, 'b> ServerHelloBuilder<'a, 'b> {
    /// The builder's values.
    pub closed spec fn fields(&self) -> ServerHelloBuilderFields {
        ServerHelloBuilderFields {
            buffer: self.buffer@,
            legacy_version: self.legacy_version.spec_raw(),
            random: self.random@,
            session_id: self.session_id@,
            cipher_suite: self.cipher_suite.spec_raw(),
            compression_method: self.compression_method.spec_raw(),
            extensions: spec_opt_bytes(self.extensions),
        }
    }

    /// Creates a builder from fixed fields and ordered encoded extension TLVs.
    pub fn new(
        buffer: &'a mut [u8],
        legacy_version: TlsProtocolVersion,
        random: &'b [u8; 32],
        session_id: &'b [u8],
        cipher_suite: TlsCipherSuite,
        compression_method: TlsCompressionMethod,
        extensions: Option<&'b [u8]>,
    ) -> (r: Self)
        ensures
            r.fields() == (ServerHelloBuilderFields {
                buffer: old(buffer)@,
                legacy_version: legacy_version.spec_raw(),
                random: random@,
                session_id: session_id@,
                cipher_suite: cipher_suite.spec_raw(),
                compression_method: compression_method.spec_raw(),
                extensions: spec_opt_bytes(extensions),
            }),
    {
        Self {
            buffer,
            legacy_version,
            random,
            session_id,
            cipher_suite,
            compression_method,
            extensions,
        }
    }

    /// Validates all fields and capacity before writing the ServerHello body.
    #[verifier::rlimit(50)]
    pub fn build(self) -> (r: Result<ServerHello<'a>, TlsBuildError>)
        ensures
            ({
                let f = self.fields();
                match r {
                    Ok(hello) => spec_server_hello_build_error(f) is None && hello@
                        == spec_server_hello_bytes(
                        f.legacy_version,
                        f.random,
                        f.session_id,
                        f.cipher_suite,
                        f.compression_method,
                        f.extensions,
                    ) && hello.fields() == (ServerHelloFields {
                        session_id: f.session_id,
                        cipher_suite: f.cipher_suite,
                        compression_method: f.compression_method,
                        extensions: spec_written_extensions(f.extensions),
                    }),
                    Err(e) => spec_server_hello_build_error(f) == Some(e),
                }
            }),
    {
        let ghost f = self.fields();
        let session_length = match validate_u8_vector(self.session_id, 0, 32) {
            Ok(length) => length,
            Err(e) => return Err(e),
        };
        let extension_length = match validate_extensions(self.extensions) {
            Ok(length) => length,
            Err(e) => return Err(e),
        };
        let extension_bytes: usize = match self.extensions {
            Some(extensions) => 2 + extensions.len(),
            None => 0,
        };
        let required = 38 + self.session_id.len() + extension_bytes;
        let ghost encoded = spec_server_hello_bytes(
            f.legacy_version,
            f.random,
            f.session_id,
            f.cipher_suite,
            f.compression_method,
            f.extensions,
        );
        assert(encoded.len() == required);
        let buffer = self.buffer;
        match ensure_capacity(buffer.len(), required) {
            Ok(()) => {},
            Err(e) => return Err(e),
        }
        let (bytes, _) = split_at_mut_fixed(buffer, required);
        let ghost prefix = Seq::<u8>::empty();
        assert(bytes@.subrange(0, 0) =~= prefix);
        let ghost before = bytes@;
        write_be16(bytes, 0, self.legacy_version.raw());
        proof {
            lemma_spliced_prefix(before, 0, be16_bytes(f.legacy_version), prefix);
            prefix = prefix + be16_bytes(f.legacy_version);
        }
        let ghost before = bytes@;
        copy_into(bytes, 2, self.random.as_slice());
        proof {
            lemma_spliced_prefix(before, 2, f.random, prefix);
            prefix = prefix + f.random;
        }
        let mut offset: usize = 34;
        let ghost before = bytes@;
        write_u8(bytes, offset, session_length);
        proof {
            lemma_spliced_prefix(before, offset as int, seq![session_length], prefix);
            prefix = prefix + seq![session_length];
        }
        offset = offset + 1;
        let ghost before = bytes@;
        copy_into(bytes, offset, self.session_id);
        proof {
            lemma_spliced_prefix(before, offset as int, f.session_id, prefix);
            prefix = prefix + f.session_id;
        }
        offset = offset + self.session_id.len();
        let ghost before = bytes@;
        write_be16(bytes, offset, self.cipher_suite.raw());
        proof {
            lemma_spliced_prefix(before, offset as int, be16_bytes(f.cipher_suite), prefix);
            prefix = prefix + be16_bytes(f.cipher_suite);
        }
        offset = offset + 2;
        let ghost before = bytes@;
        write_u8(bytes, offset, self.compression_method.raw());
        proof {
            lemma_spliced_prefix(before, offset as int, seq![f.compression_method], prefix);
            prefix = prefix + seq![f.compression_method];
        }
        offset = offset + 1;
        match (self.extensions, extension_length) {
            (Some(extensions), Some(length)) => {
                let ghost before = bytes@;
                write_be16(bytes, offset, length);
                proof {
                    lemma_spliced_prefix(before, offset as int, be16_bytes(length), prefix);
                    prefix = prefix + be16_bytes(length);
                }
                offset = offset + 2;
                let ghost before = bytes@;
                copy_into(bytes, offset, extensions);
                proof {
                    lemma_spliced_prefix(before, offset as int, extensions@, prefix);
                    prefix = prefix + extensions@;
                }
            },
            _ => {},
        }
        proof {
            assert(prefix =~= encoded);
            assert(bytes@ =~= bytes@.subrange(0, required as int));
            lemma_server_hello_roundtrip(
                f.legacy_version,
                f.random,
                f.session_id,
                f.cipher_suite,
                f.compression_method,
                f.extensions,
            );
        }
        let bytes: &'a [u8] = bytes;
        match ServerHello::parse(bytes) {
            Ok(hello) => Ok(hello),
            Err(e) => {
                proof {
                    assert(false);
                }
                Err(TlsBuildError::InvalidValue)
            },
        }
    }
}

fn validate_u8_vector(bytes: &[u8], minimum: usize, maximum: usize) -> (r: Result<u8, TlsBuildError>)
    ensures
        match r {
            Ok(length) => spec_u8_vector_error(bytes@.len() as int, minimum as int, maximum as int)
                is None && length == bytes@.len(),
            Err(e) => spec_u8_vector_error(bytes@.len() as int, minimum as int, maximum as int)
                == Some(e),
        },
{
    if bytes.len() > 0xff {
        return Err(TlsBuildError::LengthTooLarge);
    }
    if bytes.len() < minimum || bytes.len() > maximum {
        return Err(TlsBuildError::InvalidValue);
    }
    Ok(bytes.len() as u8)
}

fn validate_u16_vector(bytes: &[u8], minimum: usize, even: bool) -> (r: Result<u16, TlsBuildError>)
    ensures
        match r {
            Ok(length) => spec_u16_vector_error(bytes@.len() as int, minimum as int, even) is None
                && length == bytes@.len(),
            Err(e) => spec_u16_vector_error(bytes@.len() as int, minimum as int, even) == Some(e),
        },
{
    if bytes.len() < minimum || (even && bytes.len() % 2 != 0) {
        return Err(TlsBuildError::InvalidValue);
    }
    if bytes.len() > 0xffff {
        return Err(TlsBuildError::LengthTooLarge);
    }
    Ok(bytes.len() as u16)
}

fn validate_extensions(extensions: Option<&[u8]>) -> (r: Result<Option<u16>, TlsBuildError>)
    ensures
        match r {
            Ok(length) => spec_extensions_error(spec_opt_bytes(extensions)) is None && match extensions {
                Some(e) => length == Some(e@.len() as u16),
                None => length is None,
            },
            Err(e) => spec_extensions_error(spec_opt_bytes(extensions)) == Some(e),
        },
{
    let block = match extensions {
        Some(block) => block,
        None => return Ok(None),
    };
    if block.len() > 0xffff {
        return Err(TlsBuildError::LengthTooLarge);
    }
    let length = block.len() as u16;
    let mut iter = TlsExtensions::new(block);
    loop
        invariant
            spec_opt_bytes(extensions) == Some(block@),
            spec_extension_block_ok(block@) == spec_extension_block_ok(iter@),
            block@.len() <= 0xffff,
            length == block@.len(),
        decreases iter@.len(),
    {
        match iter.next() {
            None => return Ok(Some(length)),
            Some(Err(_)) => return Err(TlsBuildError::InvalidValue),
            Some(Ok(_)) => {},
        }
    }
}

fn ensure_capacity(available: usize, required: usize) -> (r: Result<(), TlsBuildError>)
    ensures
        available < required ==> r == Err::<(), TlsBuildError>(
            TlsBuildError::BufferTooShort { required, available },
        ),
        available >= required ==> r is Ok,
{
    if available < required {
        Err(TlsBuildError::BufferTooShort { required, available })
    } else {
        Ok(())
    }
}

} // verus!
