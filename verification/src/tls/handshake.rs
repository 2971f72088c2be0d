//! TLS handshake framing views.

use super::error::{TlsBuildError, TlsParseError};
use super::hello::{
    ClientHello, ClientHelloFields, ServerHello, ServerHelloFields, spec_client_hello,
    spec_server_hello,
};
use super::types::{TlsHandshakeType};
use crate::wire::{be24, be24_bytes, copy_into, lemma_be24_roundtrip, slice_from, slice_range, split_at_mut_fixed, write_be24};
use vstd::prelude::*;

verus! {

/// The length of the handshake message that a byte string starts with, header included, or
/// why it holds no complete message.
pub open spec fn spec_handshake_length(b: Seq<u8>) -> Result<usize, TlsParseError> {
    if b.len() < 4 {
        Err(TlsParseError::Incomplete { required: 4, available: b.len() as usize })
    } else if b.len() < 4 + be24(b, 1) {
        Err(TlsParseError::Incomplete { required: (4 + be24(b, 1)) as usize, available: b.len() as usize })
    } else {
        Ok((4 + be24(b, 1)) as usize)
    }
}

/// Whether `b` is exactly one complete handshake message.
pub open spec fn spec_is_handshake(b: Seq<u8>) -> bool {
    b.len() >= 4 && b.len() == 4 + be24(b, 1)
}

/// The handshake message with the given type and body.
pub open spec fn spec_handshake_bytes(handshake_type: u8, body: Seq<u8>) -> Seq<u8> {
    seq![handshake_type] + be24_bytes(body.len() as u32) + body
}

/// A written handshake message is read back as the first message of whatever follows it,
/// with the type and body written.
pub proof fn lemma_handshake_roundtrip(handshake_type: u8, body: Seq<u8>, suffix: Seq<u8>)
    requires
        body.len() <= 0xff_ffff,
    ensures
        ({
            let m = spec_handshake_bytes(handshake_type, body);
            let b = m + suffix;
            &&& spec_handshake_length(b) == Ok::<usize, TlsParseError>((4 + body.len()) as usize)
            &&& b.subrange(0, 4 + body.len() as int) == m
            &&& spec_is_handshake(m)
            &&& m[0] == handshake_type
            &&& m.subrange(4, m.len() as int) == body
        }),
{
    let m = spec_handshake_bytes(handshake_type, body);
    let b = m + suffix;
    lemma_be24_roundtrip(body.len() as u32);
    assert(be24(b, 1) == be24(be24_bytes(body.len() as u32), 0));
    assert(be24(m, 1) == be24(be24_bytes(body.len() as u32), 0));
    assert(b.subrange(0, 4 + body.len() as int) =~= m);
    assert(m.subrange(4, m.len() as int) =~= body);
}

fn declared(bytes: &[u8]) -> (r: Result<usize, TlsParseError>)
    ensures
        r == spec_handshake_length(bytes@),
{
    if bytes.len() < 4 {
        return Err(TlsParseError::Incomplete { required: 4, available: bytes.len() });
    }
    let body = (bytes[1] as usize) * 0x1_0000 + (bytes[2] as usize) * 256 + (bytes[3] as usize);
    let total = 4 + body;
    if bytes.len() < total {
        return Err(TlsParseError::Incomplete { required: total, available: bytes.len() });
    }
    Ok(total)
}

/// A single structurally bounded TLS handshake message.
#[derive(Clone, Copy, Debug, PartialEq, Eq)]
pub struct TlsHandshake<'a> {
    bytes: &'a [u8],
}

impl<'a> View for TlsHandshake<'a> {
    type V = Seq<u8>;

    closed spec fn view(&self) -> Seq<u8> {
        self.bytes@
    }
}

impl<'a> TlsHandshake<'a> {
    #[verifier::type_invariant]
    closed spec fn inv(self) -> bool {
        spec_is_handshake(self.bytes@)
    }

    /// Parses the first complete handshake and excludes any suffix.
    pub fn parse(bytes: &'a [u8]) -> (r: Result<Self, TlsParseError>)
        ensures
            match r {
                Ok(message) => spec_handshake_length(bytes@) == Ok::<usize, TlsParseError>(
                    message@.len() as usize,
                ) && message@ == bytes@.subrange(0, message@.len() as int) && spec_is_handshake(
                    message@,
                ),
                Err(e) => spec_handshake_length(bytes@) == Err::<usize, TlsParseError>(e),
            },
    {
        let total = match declared(bytes) {
            Ok(total) => total,
            Err(e) => return Err(e),
        };
        Ok(Self { bytes: slice_range(bytes, 0, total) })
    }

    /// Returns the handshake type.
    pub fn handshake_type(&self) -> (r: TlsHandshakeType)
        ensures
            r.spec_raw() == self@[0],
    {
        proof {
            use_type_invariant(self);
        }
        TlsHandshakeType::new(self.bytes[0])
    }

    /// Returns the handshake body.
    pub fn body(&self) -> (r: &'a [u8])
        ensures
            r@ == self@.subrange(4, self@.len() as int),
            r@.len() == be24(self@, 1),
    {
        proof {
            use_type_invariant(self);
        }
        slice_from(self.bytes, 4)
    }

    /// Returns the represented handshake bytes.
    pub fn as_bytes(&self) -> (r: &'a [u8])
        ensures
            r@ == self@,
    {
        self.bytes
    }

    /// Parses a ClientHello when this message has that type.
    pub fn client_hello(&self) -> (r: Result<Option<ClientHello<'a>>, TlsParseError>)
        ensures
            self@[0] != 1 ==> r matches Ok(None),
            self@[0] == 1 ==> match r {
                Ok(Some(hello)) => hello@ == self@.subrange(4, self@.len() as int)
                    && spec_client_hello(hello@) == Ok::<ClientHelloFields, TlsParseError>(
                    hello.fields(),
                ),
                Ok(None) => false,
                Err(e) => spec_client_hello(self@.subrange(4, self@.len() as int)) == Err::<
                    ClientHelloFields,
                    TlsParseError,
                >(e),
            },
    {
        if self.handshake_type().raw() == TlsHandshakeType::CLIENT_HELLO().raw() {
            match ClientHello::parse(self.body()) {
                Ok(hello) => Ok(Some(hello)),
                Err(e) => Err(e),
            }
        } else {
            Ok(None)
        }
    }

    /// Parses a ServerHello when this message has that type.
    pub fn server_hello(&self) -> (r: Result<Option<ServerHello<'a>>, TlsParseError>)
        ensures
            self@[0] != 2 ==> r matches Ok(None),
            self@[0] == 2 ==> match r {
                Ok(Some(hello)) => hello@ == self@.subrange(4, self@.len() as int)
                    && spec_server_hello(hello@) == Ok::<ServerHelloFields, TlsParseError>(
                    hello.fields(),
                ),
                Ok(None) => false,
                Err(e) => spec_server_hello(self@.subrange(4, self@.len() as int)) == Err::<
                    ServerHelloFields,
                    TlsParseError,
                >(e),
            },
    {
        if self.handshake_type().raw() == TlsHandshakeType::SERVER_HELLO().raw() {
            match ServerHello::parse(self.body()) {
                Ok(hello) => Ok(Some(hello)),
                Err(e) => Err(e),
            }
        } else {
            Ok(None)
        }
    }
}

/// Builds a TLS handshake frame in caller-owned storage.
pub struct TlsHandshakeBuilder<'a, 'b> {
    buffer: &'a mut [u8],
    handshake_type: TlsHandshakeType,
    body: &'b [u8],
}

impl<'a, 'b> TlsHandshakeBuilder<'a, 'b> {
    /// The caller storage the message will be written into.
    pub closed spec fn spec_buffer(&self) -> Seq<u8> {
        self.buffer@
    }

    /// The handshake type to write.
    pub closed spec fn spec_handshake_type(&self) -> u8 {
        self.handshake_type.spec_raw()
    }

    /// The body to copy.
    pub closed spec fn spec_body(&self) -> Seq<u8> {
        self.body@
    }

    /// Starts a handshake builder with a copied body input.
    pub fn new(buffer: &'a mut [u8], handshake_type: TlsHandshakeType, body: &'b [u8]) -> (r: Self)
        ensures
            r.spec_buffer() == old(buffer)@,
            r.spec_handshake_type() == handshake_type.spec_raw(),
            r.spec_body() == body@,
    {
        Self { buffer, handshake_type, body }
    }

    /// Validates all inputs before writing the handshake.
    pub fn build(self) -> (r: Result<&'a mut [u8], TlsBuildError>)
        ensures
            ({
                let body = self.spec_body();
                let buffer = self.spec_buffer();
                &&& r is Ok <==> body.len() <= 0xff_ffff && 4 + body.len() <= buffer.len()
                &&& body.len() > 0xff_ffff ==> r == Err::<&mut [u8], TlsBuildError>(
                    TlsBuildError::LengthTooLarge,
                )
                &&& body.len() <= 0xff_ffff && 4 + body.len() > buffer.len() ==> r == Err::<
                    &mut [u8],
                    TlsBuildError,
                >(
                    TlsBuildError::BufferTooShort {
                        required: (4 + body.len()) as usize,
                        available: buffer.len() as usize,
                    },
                )
                &&& r matches Ok(bytes) ==> bytes@ == spec_handshake_bytes(
                    self.spec_handshake_type(),
                    body,
                ) && spec_is_handshake(bytes@)
            }),
    {
        if self.body.len() > 0x00ff_ffff {
            return Err(TlsBuildError::LengthTooLarge);
        }
        let total = match 4usize.checked_add(self.body.len()) {
            Some(total) => total,
            None => return Err(TlsBuildError::LengthTooLarge),
        };
        let buffer = self.buffer;
        if buffer.len() < total {
            return Err(TlsBuildError::BufferTooShort { required: total, available: buffer.len() });
        }
        let (bytes, _) = split_at_mut_fixed(buffer, total);
        bytes[0] = self.handshake_type.raw();
        write_be24(bytes, 1, self.body.len() as u32);
        copy_into(bytes, 4, self.body);
        proof {
            assert(bytes@ =~= spec_handshake_bytes(self.handshake_type.spec_raw(), self.body@));
            lemma_handshake_roundtrip(self.handshake_type.spec_raw(), self.body@, Seq::empty());
            assert(spec_handshake_bytes(self.handshake_type.spec_raw(), self.body@) + Seq::<
                u8,
            >::empty() =~= spec_handshake_bytes(self.handshake_type.spec_raw(), self.body@));
        }
        Ok(bytes)
    }
}

} // verus!
