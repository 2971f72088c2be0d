//! Application-layer protocol negotiation payloads.

use super::layout::{spec_v16, v16};
use crate::tls::error::TlsParseError;
use vstd::prelude::*;
use crate::wire::{slice_from, slice_range};

verus! {

/// Whether every protocol name of an ALPN list body is well formed, or the first error.
pub open spec fn spec_alpn_protocols_ok(b: Seq<u8>) -> Result<(), TlsParseError>
    decreases b.len(),
{
    if b.len() == 0 {
        Ok(())
    } else if b[0] == 0 {
        Err(TlsParseError::InvalidValue)
    } else if b.len() < b[0] + 1 {
        Err(TlsParseError::Incomplete { required: (b[0] + 1) as usize, available: b.len() as usize })
    } else {
        spec_alpn_protocols_ok(b.subrange(b[0] + 1, b.len() as int))
    }
}

/// The name bytes of an ALPN payload.
pub open spec fn spec_alpn_protocol_list(b: Seq<u8>) -> Result<Seq<u8>, TlsParseError> {
    match spec_v16(b, 1, false) {
        Err(e) => Err(e),
        Ok(x) => match spec_alpn_protocols_ok(x) {
            Err(e) => Err(e),
            Ok(_) => Ok(x),
        },
    }
}

/// One step of ALPN iteration over the remaining bytes `b`. A zero-length name is reported
/// without consuming anything.
pub open spec fn spec_alpn_step(b: Seq<u8>) -> (Option<Result<Seq<u8>, TlsParseError>>, Seq<u8>) {
    if b.len() == 0 {
        (None, b)
    } else if b[0] == 0 {
        (Some(Err(TlsParseError::InvalidValue)), b)
    } else if b.len() < b[0] + 1 {
        (
            Some(
                Err(
                    TlsParseError::Incomplete {
                        required: (b[0] + 1) as usize,
                        available: b.len() as usize,
                    },
                ),
            ),
            Seq::empty(),
        )
    } else {
        (Some(Ok(b.subrange(1, b[0] + 1))), b.subrange(b[0] + 1, b.len() as int))
    }
}

/// The single protocol of a server ALPN payload.
pub open spec fn spec_server_selected_alpn(b: Seq<u8>) -> Result<Seq<u8>, TlsParseError> {
    match spec_alpn_protocol_list(b) {
        Err(e) => Err(e),
        Ok(x) => if x.len() > x[0] + 1 {
            Err(TlsParseError::TrailingBytes)
        } else {
            Ok(x.subrange(1, x.len() as int))
        },
    }
}

/// Whether a protocol name is the RFC 8701 two-byte GREASE ALPN value.
pub open spec fn spec_alpn_is_grease(name: Seq<u8>) -> bool {
    name.len() == 2 && name[0] == name[1] && name[0] % 16 == 10
}

/// One opaque ALPN protocol identification sequence.
#[derive(Clone, Copy, Debug, PartialEq, Eq)]
pub struct AlpnProtocol<'a>(&'a [u8]);

impl<'a> View for AlpnProtocol<'a> {
    type V = Seq<u8>;

    closed spec fn view(&self) -> Seq<u8> {
        self.0@
    }
}

impl<'a> AlpnProtocol<'a> {
    /// Returns the opaque protocol-name bytes.
    pub fn as_bytes(self) -> (r: &'a [u8])
        ensures
            r@ == self@,
    {
        self.0
    }

    /// Returns whether this is the RFC 8701 two-byte GREASE ALPN value.
    pub fn is_grease(self) -> (r: bool)
        ensures
            r == spec_alpn_is_grease(self@),
    {
        self.0.len() == 2 && self.0[0] == self.0[1] && self.0[0] % 16 == 10
    }
}

/// An ordered ALPN protocol-name list.
#[derive(Clone, Copy, Debug, PartialEq, Eq)]
pub struct AlpnProtocolList<'a> {
    bytes: &'a [u8],
}

impl<'a> View for AlpnProtocolList<'a> {
    type V = Seq<u8>;

    closed spec fn view(&self) -> Seq<u8> {
        self.bytes@
    }
}

impl<'a> AlpnProtocolList<'a> {
    pub(crate) fn parse(b: &'a [u8]) -> (r: Result<Self, TlsParseError>)
        ensures
            match r {
                Ok(x) => spec_alpn_protocol_list(b@) == Ok::<Seq<u8>, TlsParseError>(x@),
                Err(e) => spec_alpn_protocol_list(b@) == Err::<Seq<u8>, TlsParseError>(e),
            },
    {
        let x = match v16(b, 1, false) {
            Ok(x) => x,
            Err(e) => return Err(e),
        };
        match protocols_ok(x) {
            Ok(()) => {},
            Err(e) => return Err(e),
        }
        Ok(Self { bytes: x })
    }

    /// Returns ALPN protocols in their original wire order.
    pub fn iter(&self) -> (r: AlpnProtocolIter<'a>)
        ensures
            r@ == self@,
    {
        AlpnProtocolIter { bytes: self.bytes }
    }
}

/// A fallible iterator over ALPN protocol names.
#[derive(Clone, Debug)]
pub struct AlpnProtocolIter<'a> {
    bytes: &'a [u8],
}

impl<'a> View for AlpnProtocolIter<'a> {
    type V = Seq<u8>;

    closed spec fn view(&self) -> Seq<u8> {
        self.bytes@
    }
}

impl<'a> AlpnProtocolIter<'a> {
    /// Returns the next protocol name.
    pub fn next(&mut self) -> (r: Option<Result<AlpnProtocol<'a>, TlsParseError>>)
        ensures
            final(self)@ == spec_alpn_step(old(self)@).1,
            match r {
                None => spec_alpn_step(old(self)@).0 is None,
                Some(Ok(x)) => spec_alpn_step(old(self)@).0 == Some(Ok::<Seq<u8>, TlsParseError>(x@)),
                Some(Err(e)) => spec_alpn_step(old(self)@).0 == Some(Err::<Seq<u8>, TlsParseError>(e)),
            },
    {
        if self.bytes.len() == 0 {
            return None;
        }
        let n = self.bytes[0] as usize;
        if n == 0 {
            return Some(Err(TlsParseError::InvalidValue));
        }
        if self.bytes.len() < n + 1 {
            let a = self.bytes.len();
            self.bytes = &[];
            proof {
                assert(self.bytes@ =~= Seq::<u8>::empty());
            }
            return Some(Err(TlsParseError::Incomplete { required: n + 1, available: a }));
        }
        let x = AlpnProtocol(slice_range(self.bytes, 1, n + 1));
        self.bytes = slice_from(self.bytes, n + 1);
        Some(Ok(x))
    }
}

fn protocols_ok(b: &[u8]) -> (r: Result<(), TlsParseError>)
    ensures
        r == spec_alpn_protocols_ok(b@),
{
    let mut rest = b;
    while rest.len() != 0
        invariant
            spec_alpn_protocols_ok(b@) == spec_alpn_protocols_ok(rest@),
        decreases rest@.len(),
    {
        let n = rest[0] as usize;
        if n == 0 {
            return Err(TlsParseError::InvalidValue);
        }
        if rest.len() < n + 1 {
            return Err(TlsParseError::Incomplete { required: n + 1, available: rest.len() });
        }
        rest = slice_from(rest, n + 1);
    }
    Ok(())
}

/// The single ALPN protocol selected by a server.
#[derive(Clone, Copy, Debug, PartialEq, Eq)]
pub struct ServerSelectedAlpn<'a>(AlpnProtocol<'a>);

impl<'a> View for ServerSelectedAlpn<'a> {
    type V = Seq<u8>;

    closed spec fn view(&self) -> Seq<u8> {
        self.0@
    }
}

impl<'a> ServerSelectedAlpn<'a> {
    pub(crate) fn parse(b: &'a [u8]) -> (r: Result<Self, TlsParseError>)
        ensures
            match r {
                Ok(x) => spec_server_selected_alpn(b@) == Ok::<Seq<u8>, TlsParseError>(x@),
                Err(e) => spec_server_selected_alpn(b@) == Err::<Seq<u8>, TlsParseError>(e),
            },
    {
        let x = match AlpnProtocolList::parse(b) {
            Ok(x) => x,
            Err(e) => return Err(e),
        };
        let mut i = x.iter();
        let p = match i.next() {
            Some(Ok(p)) => p,
            Some(Err(e)) => {
                proof {
                    assert(false);
                }
                return Err(e);
            },
            None => {
                proof {
                    assert(false);
                }
                return Err(TlsParseError::InvalidValue);
            },
        };
        if i.next().is_some() {
            return Err(TlsParseError::TrailingBytes);
        }
        Ok(Self(p))
    }

    /// Returns the selected opaque protocol name.
    pub fn protocol(self) -> (r: AlpnProtocol<'a>)
        ensures
            r@ == self@,
    {
        self.0
    }
}

} // verus!
