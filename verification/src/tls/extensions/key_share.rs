//! Key-share extension payloads.

use super::layout::{len, spec_len_error, spec_v16, v16};
use crate::tls::error::TlsParseError;
use crate::tls::types::TlsNamedGroup;
use crate::wire::{be16, read_be16, slice_from, slice_range};
use vstd::prelude::*;

verus! {

/// The leading key-share entry of `b`: its group, its key exchange, and the bytes it takes.
pub open spec fn spec_key_share_entry(b: Seq<u8>) -> Result<(u16, Seq<u8>, nat), TlsParseError> {
    if b.len() < 4 {
        Err(TlsParseError::Incomplete { required: 4, available: b.len() as usize })
    } else if be16(b, 2) == 0 {
        Err(TlsParseError::InvalidValue)
    } else if b.len() < be16(b, 2) + 4 {
        Err(TlsParseError::Incomplete { required: (be16(b, 2) + 4) as usize, available: b.len() as usize })
    } else {
        Ok((be16(b, 0) as u16, b.subrange(4, be16(b, 2) + 4), (be16(b, 2) + 4) as nat))
    }
}

/// Whether every entry of a key-share vector body is well formed, or the first error.
pub open spec fn spec_key_shares_ok(b: Seq<u8>) -> Result<(), TlsParseError>
    decreases b.len(),
{
    if b.len() == 0 {
        Ok(())
    } else if b.len() < 4 {
        Err(TlsParseError::Incomplete { required: 4, available: b.len() as usize })
    } else if be16(b, 2) == 0 {
        Err(TlsParseError::InvalidValue)
    } else if b.len() < be16(b, 2) + 4 {
        Err(TlsParseError::Incomplete { required: (be16(b, 2) + 4) as usize, available: b.len() as usize })
    } else {
        spec_key_shares_ok(b.subrange(be16(b, 2) + 4, b.len() as int))
    }
}

/// The entry bytes of a ClientHello key_share payload.
pub open spec fn spec_client_key_share(b: Seq<u8>) -> Result<Seq<u8>, TlsParseError> {
    match spec_v16(b, 0, false) {
        Err(e) => Err(e),
        Ok(x) => match spec_key_shares_ok(x) {
            Err(e) => Err(e),
            Ok(_) => Ok(x),
        },
    }
}

/// One step of key-share iteration over the remaining bytes `b`.
pub open spec fn spec_key_share_step(b: Seq<u8>) -> (
    Option<Result<(u16, Seq<u8>), TlsParseError>>,
    Seq<u8>,
) {
    if b.len() == 0 {
        (None, b)
    } else {
        match spec_key_share_entry(b) {
            Ok((g, k, n)) => (Some(Ok((g, k))), b.subrange(n as int, b.len() as int)),
            Err(e) => (Some(Err(e)), Seq::empty()),
        }
    }
}

/// The single entry of a ServerHello key_share payload.
pub open spec fn spec_server_key_share(b: Seq<u8>) -> Result<(u16, Seq<u8>), TlsParseError> {
    match spec_key_share_entry(b) {
        Err(e) => Err(e),
        Ok((g, k, n)) => if n != b.len() {
            Err(TlsParseError::TrailingBytes)
        } else {
            Ok((g, k))
        },
    }
}

/// The group of a HelloRetryRequest key_share payload.
pub open spec fn spec_hrr_key_share(b: Seq<u8>) -> Result<u16, TlsParseError> {
    if b.len() != 2 {
        Err(spec_len_error(2, b.len() as int))
    } else {
        Ok(be16(b, 0) as u16)
    }
}

/// Ordered ClientHello key-share entries.
#[derive(Clone, Copy, Debug, PartialEq, Eq)]
pub struct ClientKeyShare<'a> {
    bytes: &'a [u8],
}

impl<'a> View for ClientKeyShare<'a> {
    type V = Seq<u8>;

    closed spec fn view(&self) -> Seq<u8> {
        self.bytes@
    }
}

impl<'a> ClientKeyShare<'a> {
    pub(crate) fn parse(b: &'a [u8]) -> (r: Result<Self, TlsParseError>)
        ensures
            match r {
                Ok(x) => spec_client_key_share(b@) == Ok::<Seq<u8>, TlsParseError>(x@),
                Err(e) => spec_client_key_share(b@) == Err::<Seq<u8>, TlsParseError>(e),
            },
    {
        let x = match v16(b, 0, false) {
            Ok(x) => x,
            Err(e) => return Err(e),
        };
        match shares_ok(x) {
            Ok(()) => {},
            Err(e) => return Err(e),
        }
        Ok(Self { bytes: x })
    }

    /// Returns key shares in their original wire order.
    pub fn iter(&self) -> (r: KeyShareIter<'a>)
        ensures
            r@ == self@,
    {
        KeyShareIter { bytes: self.bytes }
    }
}

/// One named-group key-share entry.
#[derive(Clone, Copy, Debug, PartialEq, Eq)]
pub struct KeyShareEntry<'a> {
    group: TlsNamedGroup,
    key_exchange: &'a [u8],
}

impl<'a> View for KeyShareEntry<'a> {
    type V = (u16, Seq<u8>);

    closed spec fn view(&self) -> (u16, Seq<u8>) {
        (self.group.spec_raw(), self.key_exchange@)
    }
}

impl<'a> KeyShareEntry<'a> {
    /// Returns the raw named group.
    pub fn group(self) -> (r: TlsNamedGroup)
        ensures
            r.spec_raw() == self@.0,
    {
        self.group
    }

    /// Returns the opaque key-exchange bytes.
    pub fn key_exchange(self) -> (r: &'a [u8])
        ensures
            r@ == self@.1,
    {
        self.key_exchange
    }
}

/// A fallible iterator over key-share entries.
#[derive(Clone, Debug)]
pub struct KeyShareIter<'a> {
    bytes: &'a [u8],
}

impl<'a> View for KeyShareIter<'a> {
    type V = Seq<u8>;

    closed spec fn view(&self) -> Seq<u8> {
        self.bytes@
    }
}

impl<'a> KeyShareIter<'a> {
    /// Returns the next entry; after an error the iterator is exhausted.
    pub fn next(&mut self) -> (r: Option<Result<KeyShareEntry<'a>, TlsParseError>>)
        ensures
            final(self)@ == spec_key_share_step(old(self)@).1,
            match r {
                None => spec_key_share_step(old(self)@).0 is None,
                Some(Ok(x)) => spec_key_share_step(old(self)@).0 == Some(
                    Ok::<(u16, Seq<u8>), TlsParseError>(x@),
                ),
                Some(Err(e)) => spec_key_share_step(old(self)@).0 == Some(
                    Err::<(u16, Seq<u8>), TlsParseError>(e),
                ),
            },
    {
        if self.bytes.len() == 0 {
            return None;
        }
        match share(self.bytes) {
            Ok((x, n)) => {
                self.bytes = slice_from(self.bytes, n);
                Some(Ok(x))
            },
            Err(e) => {
                self.bytes = &[];
                proof {
                    assert(self.bytes@ =~= Seq::<u8>::empty());
                }
                Some(Err(e))
            },
        }
    }
}

fn share(b: &[u8]) -> (r: Result<(KeyShareEntry<'_>, usize), TlsParseError>)
    ensures
        match r {
            Ok((x, n)) => spec_key_share_entry(b@) == Ok::<(u16, Seq<u8>, nat), TlsParseError>(
                (x@.0, x@.1, n as nat),
            ) && n <= b@.len(),
            Err(e) => spec_key_share_entry(b@) == Err::<(u16, Seq<u8>, nat), TlsParseError>(e),
        },
{
    if b.len() < 4 {
        return Err(TlsParseError::Incomplete { required: 4, available: b.len() });
    }
    let n = read_be16(b, 2) as usize;
    if n == 0 {
        return Err(TlsParseError::InvalidValue);
    }
    if b.len() < n + 4 {
        return Err(TlsParseError::Incomplete { required: n + 4, available: b.len() });
    }
    Ok(
        (
            KeyShareEntry {
                group: TlsNamedGroup::new(read_be16(b, 0)),
                key_exchange: slice_range(b, 4, n + 4),
            },
            n + 4,
        ),
    )
}

fn shares_ok(b: &[u8]) -> (r: Result<(), TlsParseError>)
    ensures
        r == spec_key_shares_ok(b@),
{
    let mut rest = b;
    while rest.len() != 0
        invariant
            spec_key_shares_ok(b@) == spec_key_shares_ok(rest@),
        decreases rest@.len(),
    {
        match share(rest) {
            Ok((_, n)) => {
                rest = slice_from(rest, n);
            },
            Err(e) => return Err(e),
        }
    }
    Ok(())
}

/// The single key share carried by a ServerHello.
#[derive(Clone, Copy, Debug, PartialEq, Eq)]
pub struct ServerKeyShare<'a>(KeyShareEntry<'a>);

impl<'a> View for ServerKeyShare<'a> {
    type V = (u16, Seq<u8>);

    closed spec fn view(&self) -> (u16, Seq<u8>) {
        self.0@
    }
}

impl<'a> ServerKeyShare<'a> {
    pub(crate) fn parse(b: &'a [u8]) -> (r: Result<Self, TlsParseError>)
        ensures
            match r {
                Ok(x) => spec_server_key_share(b@) == Ok::<(u16, Seq<u8>), TlsParseError>(x@),
                Err(e) => spec_server_key_share(b@) == Err::<(u16, Seq<u8>), TlsParseError>(e),
            },
    {
        let (x, n) = match share(b) {
            Ok(entry) => entry,
            Err(e) => return Err(e),
        };
        if n != b.len() {
            return Err(TlsParseError::TrailingBytes);
        }
        Ok(Self(x))
    }

    /// Returns the selected key-share entry.
    pub fn entry(self) -> (r: KeyShareEntry<'a>)
        ensures
            r@ == self@,
    {
        self.0
    }
}

/// The named group selected by a HelloRetryRequest.
#[derive(Clone, Copy, Debug, PartialEq, Eq)]
pub struct HrrKeyShare(TlsNamedGroup);

impl View for HrrKeyShare {
    type V = u16;

    closed spec fn view(&self) -> u16 {
        self.0.spec_raw()
    }
}

impl HrrKeyShare {
    pub(crate) fn parse(b: &[u8]) -> (r: Result<Self, TlsParseError>)
        ensures
            match r {
                Ok(x) => spec_hrr_key_share(b@) == Ok::<u16, TlsParseError>(x@),
                Err(e) => spec_hrr_key_share(b@) == Err::<u16, TlsParseError>(e),
            },
    {
        if b.len() != 2 {
            return Err(len(2, b.len()));
        }
        Ok(Self(TlsNamedGroup::new(read_be16(b, 0))))
    }

    /// Returns the selected named group.
    pub fn group(self) -> (r: TlsNamedGroup)
        ensures
            r.spec_raw() == self@,
    {
        self.0
    }
}

} // verus!
