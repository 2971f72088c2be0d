//! Pre-shared-key extension payloads.

use super::layout::{len, spec_len_error, spec_take_v16, spec_v8, take_v16, v8};
use crate::tls::error::TlsParseError;
use crate::tls::types::TlsPskKeyExchangeMode;
use crate::wire::{be16, be32, read_be16, read_be32, slice_from, slice_range};
use vstd::prelude::*;

verus! {

/// The mode bytes of a psk_key_exchange_modes payload.
pub open spec fn spec_psk_key_exchange_modes(b: Seq<u8>) -> Result<Seq<u8>, TlsParseError> {
    spec_v8(b, 1)
}

/// The leading PSK identity of `b`: its identity, its obfuscated age, and the bytes it
/// takes.
pub open spec fn spec_psk_identity_entry(b: Seq<u8>) -> Result<(Seq<u8>, u32, nat), TlsParseError> {
    if b.len() < 6 {
        Err(TlsParseError::Incomplete { required: 6, available: b.len() as usize })
    } else if be16(b, 0) == 0 {
        Err(TlsParseError::InvalidValue)
    } else if b.len() < be16(b, 0) + 6 {
        Err(TlsParseError::Incomplete { required: (be16(b, 0) + 6) as usize, available: b.len() as usize })
    } else {
        Ok((b.subrange(2, be16(b, 0) + 2), be32(b, be16(b, 0) + 2) as u32, (be16(b, 0) + 6) as nat))
    }
}

/// `r` with `k` more items counted.
pub open spec fn spec_count_more(r: Result<nat, TlsParseError>, k: nat) -> Result<nat, TlsParseError> {
    match r {
        Ok(c) => Ok(c + k),
        Err(e) => Err(e),
    }
}

/// The number of identities of a PSK identity vector body, or the first error.
pub open spec fn spec_psk_identity_count(b: Seq<u8>) -> Result<nat, TlsParseError>
    decreases b.len(),
{
    if b.len() == 0 {
        Ok(0)
    } else if b.len() < 6 {
        Err(TlsParseError::Incomplete { required: 6, available: b.len() as usize })
    } else if be16(b, 0) == 0 {
        Err(TlsParseError::InvalidValue)
    } else if b.len() < be16(b, 0) + 6 {
        Err(TlsParseError::Incomplete { required: (be16(b, 0) + 6) as usize, available: b.len() as usize })
    } else {
        spec_count_more(spec_psk_identity_count(b.subrange(be16(b, 0) + 6, b.len() as int)), 1)
    }
}

/// The number of binders of a PSK binder vector body, or the first error.
pub open spec fn spec_psk_binder_count(b: Seq<u8>) -> Result<nat, TlsParseError>
    decreases b.len(),
{
    if b.len() == 0 {
        Ok(0)
    } else if b[0] < 32 {
        Err(TlsParseError::InvalidValue)
    } else if b.len() < b[0] + 1 {
        Err(TlsParseError::Incomplete { required: (b[0] + 1) as usize, available: b.len() as usize })
    } else {
        spec_count_more(spec_psk_binder_count(b.subrange(b[0] + 1, b.len() as int)), 1)
    }
}

/// The identity and binder vector bodies of a ClientHello pre_shared_key payload: both
/// well formed, with as many binders as identities.
pub open spec fn spec_client_pre_shared_key(b: Seq<u8>) -> Result<(Seq<u8>, Seq<u8>), TlsParseError> {
    match spec_take_v16(b, 7) {
        Err(e) => Err(e),
        Ok((i, rest)) => match spec_take_v16(rest, 33) {
            Err(e) => Err(e),
            Ok((x, tail)) => if tail.len() != 0 {
                Err(TlsParseError::TrailingBytes)
            } else {
                match spec_psk_identity_count(i) {
                    Err(e) => Err(e),
                    Ok(ic) => match spec_psk_binder_count(x) {
                        Err(e) => Err(e),
                        Ok(bc) => if ic != bc {
                            Err(TlsParseError::InvalidValue)
                        } else {
                            Ok((i, x))
                        },
                    },
                }
            },
        },
    }
}

/// One step of PSK identity iteration over the remaining bytes `b`.
pub open spec fn spec_psk_identity_step(b: Seq<u8>) -> (
    Option<Result<(Seq<u8>, u32), TlsParseError>>,
    Seq<u8>,
) {
    if b.len() == 0 {
        (None, b)
    } else {
        match spec_psk_identity_entry(b) {
            Ok((id, age, n)) => (Some(Ok((id, age))), b.subrange(n as int, b.len() as int)),
            Err(e) => (Some(Err(e)), Seq::empty()),
        }
    }
}

/// One step of PSK binder iteration over the remaining bytes `b`.
pub open spec fn spec_psk_binder_step(b: Seq<u8>) -> (Option<Result<Seq<u8>, TlsParseError>>, Seq<u8>) {
    if b.len() == 0 {
        (None, b)
    } else if b[0] < 32 {
        (Some(Err(TlsParseError::InvalidValue)), Seq::empty())
    } else if b.len() < b[0] + 1 {
        (
            Some(
                Err(
                    TlsParseError::Incomplete {
                        required: (b[0] + 1) as usize,
                        available: b.len() as usize,
                    },
                ),
            ),
            Seq::empty(),
        )
    } else {
        (Some(Ok(b.subrange(1, b[0] + 1))), b.subrange(b[0] + 1, b.len() as int))
    }
}

/// The selected identity of a ServerHello pre_shared_key payload.
pub open spec fn spec_server_pre_shared_key(b: Seq<u8>) -> Result<u16, TlsParseError> {
    if b.len() != 2 {
        Err(spec_len_error(2, b.len() as int))
    } else {
        Ok(be16(b, 0) as u16)
    }
}

/// Ordered PSK key-exchange modes from a ClientHello.
#[derive(Clone, Copy, Debug, PartialEq, Eq)]
pub struct PskKeyExchangeModes<'a> {
    bytes: &'a [u8],
}

impl<'a> View for PskKeyExchangeModes<'a> {
    type V = Seq<u8>;

    closed spec fn view(&self) -> Seq<u8> {
        self.bytes@
    }
}

impl<'a> PskKeyExchangeModes<'a> {
    pub(crate) fn parse(b: &'a [u8]) -> (r: Result<Self, TlsParseError>)
        ensures
            match r {
                Ok(x) => spec_psk_key_exchange_modes(b@) == Ok::<Seq<u8>, TlsParseError>(x@),
                Err(e) => spec_psk_key_exchange_modes(b@) == Err::<Seq<u8>, TlsParseError>(e),
            },
    {
        let bytes = match v8(b, 1) {
            Ok(bytes) => bytes,
            Err(e) => return Err(e),
        };
        Ok(Self { bytes })
    }

    /// Returns modes in their original wire order.
    pub fn iter(&self) -> (r: Vec<TlsPskKeyExchangeMode>)
        ensures
            r@.len() == self@.len(),
            forall|i: int| 0 <= i < r@.len() ==> #[trigger] r@[i].spec_raw() == self@[i],
    {
        let mut out: Vec<TlsPskKeyExchangeMode> = Vec::new();
        let n = self.bytes.len();
        let mut k: usize = 0;
        while k < n
            invariant
                n == self.bytes@.len(),
                k <= n,
                out@.len() == k,
                forall|i: int| 0 <= i < k ==> #[trigger] out@[i].spec_raw() == self.bytes@[i],
            decreases n - k,
        {
            out.push(TlsPskKeyExchangeMode::new(self.bytes[k]));
            k = k + 1;
        }
        out
    }
}

/// Borrowed ClientHello PSK identities and binders.
#[derive(Clone, Copy, Debug, PartialEq, Eq)]
pub struct ClientPreSharedKey<'a> {
    identities: &'a [u8],
    binders: &'a [u8],
}

impl<'a> View for ClientPreSharedKey<'a> {
    type V = (Seq<u8>, Seq<u8>);

    closed spec fn view(&self) -> (Seq<u8>, Seq<u8>) {
        (self.identities@, self.binders@)
    }
}

impl<'a> ClientPreSharedKey<'a> {
    pub(crate) fn parse(b: &'a [u8]) -> (r: Result<Self, TlsParseError>)
        ensures
            match r {
                Ok(x) => spec_client_pre_shared_key(b@) == Ok::<(Seq<u8>, Seq<u8>), TlsParseError>(
                    x@,
                ),
                Err(e) => spec_client_pre_shared_key(b@) == Err::<(Seq<u8>, Seq<u8>), TlsParseError>(
                    e,
                ),
            },
    {
        let (i, rest) = match take_v16(b, 7) {
            Ok(parts) => parts,
            Err(e) => return Err(e),
        };
        let (x, rest) = match take_v16(rest, 33) {
            Ok(parts) => parts,
            Err(e) => return Err(e),
        };
        if rest.len() != 0 {
            return Err(TlsParseError::TrailingBytes);
        }
        let identity_count = match ids_ok(i) {
            Ok(count) => count,
            Err(e) => return Err(e),
        };
        let binder_count = match binders_ok(x) {
            Ok(count) => count,
            Err(e) => return Err(e),
        };
        if identity_count != binder_count {
            return Err(TlsParseError::InvalidValue);
        }
        Ok(Self { identities: i, binders: x })
    }

    /// Returns offered PSK identities in wire order.
    pub fn identities(&self) -> (r: PskIdentityIter<'a>)
        ensures
            r@ == self@.0,
    {
        PskIdentityIter { bytes: self.identities }
    }

    /// Returns PSK binders in wire order.
    pub fn binders(&self) -> (r: PskBinderIter<'a>)
        ensures
            r@ == self@.1,
    {
        PskBinderIter { bytes: self.binders }
    }
}

/// One PSK identity and its obfuscated ticket age.
#[derive(Clone, Copy, Debug, PartialEq, Eq)]
pub struct PskIdentity<'a> {
    identity: &'a [u8],
    age: u32,
}

impl<'a> View for PskIdentity<'a> {
    type V = (Seq<u8>, u32);

    closed spec fn view(&self) -> (Seq<u8>, u32) {
        (self.identity@, self.age)
    }
}

impl<'a> PskIdentity<'a> {
    /// Returns the opaque identity bytes.
    pub fn identity(self) -> (r: &'a [u8])
        ensures
            r@ == self@.0,
    {
        self.identity
    }

    /// Returns the obfuscated ticket age.
    pub fn obfuscated_ticket_age(self) -> (r: u32)
        ensures
            r == self@.1,
    {
        self.age
    }
}

/// A fallible iterator over PSK identities.
#[derive(Clone, Debug)]
pub struct PskIdentityIter<'a> {
    bytes: &'a [u8],
}

impl<'a> View for PskIdentityIter<'a> {
    type V = Seq<u8>;

    closed spec fn view(&self) -> Seq<u8> {
        self.bytes@
    }
}

impl<'a> PskIdentityIter<'a> {
    /// Returns the next identity; after an error the iterator is exhausted.
    pub fn next(&mut self) -> (r: Option<Result<PskIdentity<'a>, TlsParseError>>)
        ensures
            final(self)@ == spec_psk_identity_step(old(self)@).1,
            match r {
                None => spec_psk_identity_step(old(self)@).0 is None,
                Some(Ok(x)) => spec_psk_identity_step(old(self)@).0 == Some(
                    Ok::<(Seq<u8>, u32), TlsParseError>(x@),
                ),
                Some(Err(e)) => spec_psk_identity_step(old(self)@).0 == Some(
                    Err::<(Seq<u8>, u32), TlsParseError>(e),
                ),
            },
    {
        if self.bytes.len() == 0 {
            return None;
        }
        match id(self.bytes) {
            Ok((x, n)) => {
                self.bytes = slice_from(self.bytes, n);
                Some(Ok(x))
            },
            Err(e) => {
                self.bytes = &[];
                proof {
                    assert(self.bytes@ =~= Seq::<u8>::empty());
                }
                Some(Err(e))
            },
        }
    }
}

fn id(b: &[u8]) -> (r: Result<(PskIdentity<'_>, usize), TlsParseError>)
    ensures
        match r {
            Ok((x, n)) => spec_psk_identity_entry(b@) == Ok::<(Seq<u8>, u32, nat), TlsParseError>(
                (x@.0, x@.1, n as nat),
            ) && n <= b@.len(),
            Err(e) => spec_psk_identity_entry(b@) == Err::<(Seq<u8>, u32, nat), TlsParseError>(e),
        },
{
    if b.len() < 6 {
        return Err(TlsParseError::Incomplete { required: 6, available: b.len() });
    }
    let n = read_be16(b, 0) as usize;
    if n == 0 {
        return Err(TlsParseError::InvalidValue);
    }
    if b.len() < n + 6 {
        return Err(TlsParseError::Incomplete { required: n + 6, available: b.len() });
    }
    Ok((PskIdentity { identity: slice_range(b, 2, n + 2), age: read_be32(b, n + 2) }, n + 6))
}

fn ids_ok(b: &[u8]) -> (r: Result<usize, TlsParseError>)
    ensures
        match r {
            Ok(c) => spec_psk_identity_count(b@) == Ok::<nat, TlsParseError>(c as nat),
            Err(e) => spec_psk_identity_count(b@) == Err::<nat, TlsParseError>(e),
        },
{
    let mut rest = b;
    let mut count: usize = 0;
    proof {
        assert(b.len() == b@.len());
    }
    while rest.len() != 0
        invariant
            spec_psk_identity_count(b@) == spec_count_more(spec_psk_identity_count(rest@), count as nat),
            count + rest@.len() <= b@.len(),
            b@.len() <= usize::MAX,
        decreases rest@.len(),
    {
        match id(rest) {
            Ok((_, n)) => {
                rest = slice_from(rest, n);
                count = count + 1;
            },
            Err(e) => return Err(e),
        }
    }
    Ok(count)
}

/// A fallible iterator over PSK binder byte strings.
#[derive(Clone, Debug)]
pub struct PskBinderIter<'a> {
    bytes: &'a [u8],
}

impl<'a> View for PskBinderIter<'a> {
    type V = Seq<u8>;

    closed spec fn view(&self) -> Seq<u8> {
        self.bytes@
    }
}

impl<'a> PskBinderIter<'a> {
    /// Returns the next binder; after an error the iterator is exhausted.
    pub fn next(&mut self) -> (r: Option<Result<&'a [u8], TlsParseError>>)
        ensures
            final(self)@ == spec_psk_binder_step(old(self)@).1,
            match r {
                None => spec_psk_binder_step(old(self)@).0 is None,
                Some(Ok(x)) => spec_psk_binder_step(old(self)@).0 == Some(
                    Ok::<Seq<u8>, TlsParseError>(x@),
                ),
                Some(Err(e)) => spec_psk_binder_step(old(self)@).0 == Some(
                    Err::<Seq<u8>, TlsParseError>(e),
                ),
            },
    {
        if self.bytes.len() == 0 {
            return None;
        }
        let n = self.bytes[0] as usize;
        if n < 32 {
            self.bytes = &[];
            proof {
                assert(self.bytes@ =~= Seq::<u8>::empty());
            }
            return Some(Err(TlsParseError::InvalidValue));
        }
        if self.bytes.len() < n + 1 {
            let available = self.bytes.len();
            self.bytes = &[];
            proof {
                assert(self.bytes@ =~= Seq::<u8>::empty());
            }
            return Some(Err(TlsParseError::Incomplete { required: n + 1, available }));
        }
        let x = slice_range(self.bytes, 1, n + 1);
        self.bytes = slice_from(self.bytes, n + 1);
        Some(Ok(x))
    }
}

fn binders_ok(b: &[u8]) -> (r: Result<usize, TlsParseError>)
    ensures
        match r {
            Ok(c) => spec_psk_binder_count(b@) == Ok::<nat, TlsParseError>(c as nat),
            Err(e) => spec_psk_binder_count(b@) == Err::<nat, TlsParseError>(e),
        },
{
    let mut rest = b;
    let mut count: usize = 0;
    proof {
        assert(b.len() == b@.len());
    }
    while rest.len() != 0
        invariant
            spec_psk_binder_count(b@) == spec_count_more(spec_psk_binder_count(rest@), count as nat),
            count + rest@.len() <= b@.len(),
            b@.len() <= usize::MAX,
        decreases rest@.len(),
    {
        let n = rest[0] as usize;
        if n < 32 {
            return Err(TlsParseError::InvalidValue);
        }
        if rest.len() < n + 1 {
            return Err(TlsParseError::Incomplete { required: n + 1, available: rest.len() });
        }
        rest = slice_from(rest, n + 1);
        count = count + 1;
    }
    Ok(count)
}

/// The PSK identity index selected by a server.
#[derive(Clone, Copy, Debug, PartialEq, Eq)]
pub struct ServerPreSharedKey(u16);

impl View for ServerPreSharedKey {
    type V = u16;

    closed spec fn view(&self) -> u16 {
        self.0
    }
}

impl ServerPreSharedKey {
    pub(crate) fn parse(b: &[u8]) -> (r: Result<Self, TlsParseError>)
        ensures
            match r {
                Ok(x) => spec_server_pre_shared_key(b@) == Ok::<u16, TlsParseError>(x@),
                Err(e) => spec_server_pre_shared_key(b@) == Err::<u16, TlsParseError>(e),
            },
    {
        if b.len() != 2 {
            return Err(len(2, b.len()));
        }
        Ok(Self(read_be16(b, 0)))
    }

    /// Returns the selected client identity index.
    pub fn selected_identity(self) -> (r: u16)
        ensures
            r == self@,
    {
        self.0
    }
}

} // verus!
