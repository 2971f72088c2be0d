//! Length-prefixed vector framing shared by the extension payload views.

use crate::tls::error::TlsParseError;
use crate::wire::{be16, read_be16, slice_from, slice_range};
use vstd::prelude::*;

verus! {

/// The error for a payload of `a` bytes where exactly `r` were required.
pub open spec fn spec_len_error(r: int, a: int) -> TlsParseError {
    if a < r {
        TlsParseError::Incomplete { required: r as usize, available: a as usize }
    } else {
        TlsParseError::TrailingBytes
    }
}

/// An empty payload, or the error for a nonempty one.
pub open spec fn spec_empty(b: Seq<u8>) -> Result<(), TlsParseError> {
    if b.len() == 0 {
        Ok(())
    } else {
        Err(TlsParseError::TrailingBytes)
    }
}

/// The body of a payload that is exactly one vector with a two-byte length of at least
/// `min` (and even, when asked).
pub open spec fn spec_v16(b: Seq<u8>, min: int, even: bool) -> Result<Seq<u8>, TlsParseError> {
    if b.len() < 2 {
        Err(TlsParseError::Incomplete { required: 2, available: b.len() as usize })
    } else if be16(b, 0) < min || (even && be16(b, 0) % 2 != 0) {
        Err(TlsParseError::InvalidValue)
    } else if b.len() != be16(b, 0) + 2 {
        Err(spec_len_error(be16(b, 0) + 2, b.len() as int))
    } else {
        Ok(b.subrange(2, b.len() as int))
    }
}

/// The body of a payload that is exactly one vector with a one-byte length of at least
/// `min`.
pub open spec fn spec_v8(b: Seq<u8>, min: int) -> Result<Seq<u8>, TlsParseError> {
    if b.len() == 0 {
        Err(TlsParseError::Incomplete { required: 1, available: 0 })
    } else if b[0] < min {
        Err(TlsParseError::InvalidValue)
    } else if b.len() != b[0] + 1 {
        Err(spec_len_error(b[0] + 1, b.len() as int))
    } else {
        Ok(b.subrange(1, b.len() as int))
    }
}

/// The body of a leading two-byte-length vector of at least `minimum` bytes, and what
/// follows it.
pub open spec fn spec_take_v16(b: Seq<u8>, minimum: int) -> Result<(Seq<u8>, Seq<u8>), TlsParseError> {
    if b.len() < 2 {
        Err(TlsParseError::Incomplete { required: 2, available: b.len() as usize })
    } else if be16(b, 0) < minimum {
        Err(TlsParseError::InvalidValue)
    } else if b.len() < 2 + be16(b, 0) {
        Err(TlsParseError::Incomplete { required: (2 + be16(b, 0)) as usize, available: b.len() as usize })
    } else {
        Ok((b.subrange(2, 2 + be16(b, 0)), b.subrange(2 + be16(b, 0), b.len() as int)))
    }
}

/// The big-endian two-byte values of a byte string, in order; a trailing odd byte is
/// ignored.
pub open spec fn spec_be16_list(s: Seq<u8>) -> Seq<u16> {
    Seq::new(s.len() / 2, |i: int| be16(s, 2 * i) as u16)
}

pub(crate) fn len(r: usize, a: usize) -> (e: TlsParseError)
    ensures
        e == spec_len_error(r as int, a as int),
{
    if a < r {
        TlsParseError::Incomplete { required: r, available: a }
    } else {
        TlsParseError::TrailingBytes
    }
}

pub(crate) fn empty(b: &[u8]) -> (r: Result<(), TlsParseError>)
    ensures
        r == spec_empty(b@),
{
    if b.len() == 0 {
        Ok(())
    } else {
        Err(TlsParseError::TrailingBytes)
    }
}

pub(crate) fn v16<'a>(b: &'a [u8], min: usize, even: bool) -> (r: Result<&'a [u8], TlsParseError>)
    ensures
        match r {
            Ok(x) => spec_v16(b@, min as int, even) == Ok::<Seq<u8>, TlsParseError>(x@),
            Err(e) => spec_v16(b@, min as int, even) == Err::<Seq<u8>, TlsParseError>(e),
        },
{
    if b.len() < 2 {
        return Err(TlsParseError::Incomplete { required: 2, available: b.len() });
    }
    let n = read_be16(b, 0) as usize;
    if n < min || (even && n % 2 != 0) {
        return Err(TlsParseError::InvalidValue);
    }
    if b.len() != n + 2 {
        return Err(len(n + 2, b.len()));
    }
    Ok(slice_from(b, 2))
}

pub(crate) fn v8<'a>(b: &'a [u8], min: usize) -> (r: Result<&'a [u8], TlsParseError>)
    ensures
        match r {
            Ok(x) => spec_v8(b@, min as int) == Ok::<Seq<u8>, TlsParseError>(x@),
            Err(e) => spec_v8(b@, min as int) == Err::<Seq<u8>, TlsParseError>(e),
        },
{
    if b.len() == 0 {
        return Err(TlsParseError::Incomplete { required: 1, available: 0 });
    }
    let n = b[0] as usize;
    if n < min {
        return Err(TlsParseError::InvalidValue);
    }
    if b.len() != n + 1 {
        return Err(len(n + 1, b.len()));
    }
    Ok(slice_from(b, 1))
}

pub(crate) fn take_v16<'a>(b: &'a [u8], minimum: usize) -> (r: Result<(&'a [u8], &'a [u8]), TlsParseError>)
    ensures
        match r {
            Ok((x, rest)) => spec_take_v16(b@, minimum as int) == Ok::<
                (Seq<u8>, Seq<u8>),
                TlsParseError,
            >((x@, rest@)),
            Err(e) => spec_take_v16(b@, minimum as int) == Err::<(Seq<u8>, Seq<u8>), TlsParseError>(e),
        },
{
    if b.len() < 2 {
        return Err(TlsParseError::Incomplete { required: 2, available: b.len() });
    }
    let length = read_be16(b, 0) as usize;
    if length < minimum {
        return Err(TlsParseError::InvalidValue);
    }
    let total = match 2usize.checked_add(length) {
        Some(total) => total,
        None => return Err(TlsParseError::InvalidValue),
    };
    if b.len() < total {
        return Err(TlsParseError::Incomplete { required: total, available: b.len() });
    }
    Ok((slice_range(b, 2, total), slice_from(b, total)))
}

} // verus!
