//! ClientHello server_name payloads.

use super::layout::{spec_v16, v16};
use crate::tls::error::TlsParseError;
use crate::tls::types::TlsServerNameType;
use crate::wire::{be16, read_be16, slice_from, slice_range};
use vstd::prelude::*;

verus! {

/// The leading server-name entry of `b`: its type, its name, and the bytes it takes.
pub open spec fn spec_server_name_entry(b: Seq<u8>) -> Result<(u8, Seq<u8>, nat), TlsParseError> {
    if b.len() < 3 {
        Err(TlsParseError::Incomplete { required: 3, available: b.len() as usize })
    } else if be16(b, 1) == 0 {
        Err(TlsParseError::InvalidValue)
    } else if b.len() < 3 + be16(b, 1) {
        Err(TlsParseError::Incomplete { required: (3 + be16(b, 1)) as usize, available: b.len() as usize })
    } else {
        Ok((b[0], b.subrange(3, 3 + be16(b, 1)), (3 + be16(b, 1)) as nat))
    }
}

/// Whether every entry of a server-name list body is well formed, or the first error.
pub open spec fn spec_server_names_ok(b: Seq<u8>) -> Result<(), TlsParseError>
    decreases b.len(),
{
    if b.len() == 0 {
        Ok(())
    } else if b.len() < 3 {
        Err(TlsParseError::Incomplete { required: 3, available: b.len() as usize })
    } else if be16(b, 1) == 0 {
        Err(TlsParseError::InvalidValue)
    } else if b.len() < 3 + be16(b, 1) {
        Err(TlsParseError::Incomplete { required: (3 + be16(b, 1)) as usize, available: b.len() as usize })
    } else {
        spec_server_names_ok(b.subrange(3 + be16(b, 1), b.len() as int))
    }
}

/// The entry bytes of a ClientHello server_name payload.
pub open spec fn spec_client_server_name_list(b: Seq<u8>) -> Result<Seq<u8>, TlsParseError> {
    match spec_v16(b, 1, false) {
        Err(e) => Err(e),
        Ok(x) => match spec_server_names_ok(x) {
            Err(e) => Err(e),
            Ok(_) => Ok(x),
        },
    }
}

/// One step of server-name iteration over the remaining bytes `b`: the item produced, and
/// the bytes left.
pub open spec fn spec_server_name_step(b: Seq<u8>) -> (
    Option<Result<(u8, Seq<u8>), TlsParseError>>,
    Seq<u8>,
) {
    if b.len() == 0 {
        (None, b)
    } else {
        match spec_server_name_entry(b) {
            Ok((t, name, n)) => (Some(Ok((t, name))), b.subrange(n as int, b.len() as int)),
            Err(e) => (Some(Err(e)), Seq::empty()),
        }
    }
}

/// An ordered ClientHello server-name list.
#[derive(Clone, Copy, Debug, PartialEq, Eq)]
pub struct ClientServerNameList<'a> {
    bytes: &'a [u8],
}

impl<'a> View for ClientServerNameList<'a> {
    type V = Seq<u8>;

    closed spec fn view(&self) -> Seq<u8> {
        self.bytes@
    }
}

impl<'a> ClientServerNameList<'a> {
    pub(crate) fn parse(b: &'a [u8]) -> (r: Result<Self, TlsParseError>)
        ensures
            match r {
                Ok(x) => spec_client_server_name_list(b@) == Ok::<Seq<u8>, TlsParseError>(x@),
                Err(e) => spec_client_server_name_list(b@) == Err::<Seq<u8>, TlsParseError>(e),
            },
    {
        let x = match v16(b, 1, false) {
            Ok(x) => x,
            Err(e) => return Err(e),
        };
        match names_ok(x) {
            Ok(()) => {},
            Err(e) => return Err(e),
        }
        Ok(Self { bytes: x })
    }

    /// Returns server names in their original wire order.
    pub fn iter(&self) -> (r: ServerNameIter<'a>)
        ensures
            r@ == self@,
    {
        ServerNameIter { bytes: self.bytes }
    }
}

/// One raw-preserving server-name entry.
#[derive(Clone, Copy, Debug, PartialEq, Eq)]
pub struct ServerName<'a> {
    name_type: TlsServerNameType,
    name: &'a [u8],
}

impl<'a> View for ServerName<'a> {
    type V = (u8, Seq<u8>);

    closed spec fn view(&self) -> (u8, Seq<u8>) {
        (self.name_type.spec_raw(), self.name@)
    }
}

impl<'a> ServerName<'a> {
    /// Returns the raw server-name type.
    pub fn name_type(self) -> (r: TlsServerNameType)
        ensures
            r.spec_raw() == self@.0,
    {
        self.name_type
    }

    /// Returns the encoded name bytes.
    pub fn as_bytes(self) -> (r: &'a [u8])
        ensures
            r@ == self@.1,
    {
        self.name
    }
}

/// A fallible iterator over server-name entries.
#[derive(Clone, Debug)]
pub struct ServerNameIter<'a> {
    bytes: &'a [u8],
}

impl<'a> View for ServerNameIter<'a> {
    type V = Seq<u8>;

    closed spec fn view(&self) -> Seq<u8> {
        self.bytes@
    }
}

impl<'a> ServerNameIter<'a> {
    /// Returns the next entry; after an error the iterator is exhausted.
    pub fn next(&mut self) -> (r: Option<Result<ServerName<'a>, TlsParseError>>)
        ensures
            final(self)@ == spec_server_name_step(old(self)@).1,
            match r {
                None => spec_server_name_step(old(self)@).0 is None,
                Some(Ok(x)) => spec_server_name_step(old(self)@).0 == Some(
                    Ok::<(u8, Seq<u8>), TlsParseError>(x@),
                ),
                Some(Err(e)) => spec_server_name_step(old(self)@).0 == Some(
                    Err::<(u8, Seq<u8>), TlsParseError>(e),
                ),
            },
    {
        if self.bytes.len() == 0 {
            return None;
        }
        match name(self.bytes) {
            Ok((x, n)) => {
                self.bytes = slice_from(self.bytes, n);
                Some(Ok(x))
            },
            Err(e) => {
                self.bytes = &[];
                proof {
                    assert(self.bytes@ =~= Seq::<u8>::empty());
                }
                Some(Err(e))
            },
        }
    }
}

fn name(b: &[u8]) -> (r: Result<(ServerName<'_>, usize), TlsParseError>)
    ensures
        match r {
            Ok((x, n)) => spec_server_name_entry(b@) == Ok::<(u8, Seq<u8>, nat), TlsParseError>(
                (x@.0, x@.1, n as nat),
            ) && n <= b@.len(),
            Err(e) => spec_server_name_entry(b@) == Err::<(u8, Seq<u8>, nat), TlsParseError>(e),
        },
{
    if b.len() < 3 {
        return Err(TlsParseError::Incomplete { required: 3, available: b.len() });
    }
    let n = read_be16(b, 1) as usize;
    if n == 0 {
        return Err(TlsParseError::InvalidValue);
    }
    if b.len() < 3 + n {
        return Err(TlsParseError::Incomplete { required: 3 + n, available: b.len() });
    }
    Ok((ServerName { name_type: TlsServerNameType::new(b[0]), name: slice_range(b, 3, 3 + n) }, 3 + n))
}

fn names_ok(b: &[u8]) -> (r: Result<(), TlsParseError>)
    ensures
        r == spec_server_names_ok(b@),
{
    let mut rest = b;
    while rest.len() != 0
        invariant
            spec_server_names_ok(b@) == spec_server_names_ok(rest@),
        decreases rest@.len(),
    {
        match name(rest) {
            Ok((_, n)) => {
                rest = slice_from(rest, n);
            },
            Err(e) => return Err(e),
        }
    }
    Ok(())
}

} // verus!
