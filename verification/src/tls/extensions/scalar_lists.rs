//! Ordered scalar-list extension payloads.

use super::layout::{spec_be16_list, spec_v16, spec_v8, v16, v8};
use crate::tls::error::TlsParseError;
use crate::tls::types::{TlsCertificateCompressionAlgorithm, TlsNamedGroup, TlsSignatureScheme};
use crate::wire::{be16, read_be16};
use vstd::prelude::*;

verus! {

/// The group bytes of a supported_groups payload: a nonempty even two-byte-length vector.
pub open spec fn spec_supported_groups(b: Seq<u8>) -> Result<Seq<u8>, TlsParseError> {
    spec_v16(b, 2, true)
}

/// An ordered TLS supported-groups vector.
#[derive(Clone, Copy, Debug, PartialEq, Eq)]
pub struct SupportedGroups<'a> {
    bytes: &'a [u8],
}

impl<'a> View for SupportedGroups<'a> {
    type V = Seq<u8>;

    closed spec fn view(&self) -> Seq<u8> {
        self.bytes@
    }
}

impl<'a> SupportedGroups<'a> {
    pub(crate) fn parse(b: &'a [u8]) -> (r: Result<Self, TlsParseError>)
        ensures
            match r {
                Ok(x) => spec_supported_groups(b@) == Ok::<Seq<u8>, TlsParseError>(x@),
                Err(e) => spec_supported_groups(b@) == Err::<Seq<u8>, TlsParseError>(e),
            },
    {
        let bytes = match v16(b, 2, true) {
            Ok(bytes) => bytes,
            Err(e) => return Err(e),
        };
        Ok(Self { bytes })
    }

    /// Returns values in their original wire order.
    pub fn iter(&self) -> (r: Vec<TlsNamedGroup>)
        ensures
            r@.len() == spec_be16_list(self@).len(),
            forall|i: int| 0 <= i < r@.len() ==> #[trigger] r@[i].spec_raw() == spec_be16_list(self@)[i],
    {
        let mut out: Vec<TlsNamedGroup> = Vec::new();
        let n = self.bytes.len() / 2;
        let mut k: usize = 0;
        while k < n
            invariant
                n == self.bytes@.len() / 2,
                self.bytes@.len() <= usize::MAX,
                k <= n,
                out@.len() == k,
                forall|i: int| 0 <= i < k ==> #[trigger] out@[i].spec_raw() == be16(self.bytes@, 2 * i),
            decreases n - k,
        {
            out.push(TlsNamedGroup::new(read_be16(self.bytes, 2 * k)));
            k = k + 1;
        }
        out
    }
}

/// The scheme bytes of a signature_algorithms payload: a nonempty even two-byte-length vector.
pub open spec fn spec_signature_algorithms(b: Seq<u8>) -> Result<Seq<u8>, TlsParseError> {
    spec_v16(b, 2, true)
}

/// An ordered TLS signature-algorithms vector.
#[derive(Clone, Copy, Debug, PartialEq, Eq)]
pub struct SignatureAlgorithms<'a> {
    bytes: &'a [u8],
}

impl<'a> View for SignatureAlgorithms<'a> {
    type V = Seq<u8>;

    closed spec fn view(&self) -> Seq<u8> {
        self.bytes@
    }
}

impl<'a> SignatureAlgorithms<'a> {
    pub(crate) fn parse(b: &'a [u8]) -> (r: Result<Self, TlsParseError>)
        ensures
            match r {
                Ok(x) => spec_signature_algorithms(b@) == Ok::<Seq<u8>, TlsParseError>(x@),
                Err(e) => spec_signature_algorithms(b@) == Err::<Seq<u8>, TlsParseError>(e),
            },
    {
        let bytes = match v16(b, 2, true) {
            Ok(bytes) => bytes,
            Err(e) => return Err(e),
        };
        Ok(Self { bytes })
    }

    /// Returns values in their original wire order.
    pub fn iter(&self) -> (r: Vec<TlsSignatureScheme>)
        ensures
            r@.len() == spec_be16_list(self@).len(),
            forall|i: int| 0 <= i < r@.len() ==> #[trigger] r@[i].spec_raw() == spec_be16_list(self@)[i],
    {
        let mut out: Vec<TlsSignatureScheme> = Vec::new();
        let n = self.bytes.len() / 2;
        let mut k: usize = 0;
        while k < n
            invariant
                n == self.bytes@.len() / 2,
                self.bytes@.len() <= usize::MAX,
                k <= n,
                out@.len() == k,
                forall|i: int| 0 <= i < k ==> #[trigger] out@[i].spec_raw() == be16(self.bytes@, 2 * i),
            decreases n - k,
        {
            out.push(TlsSignatureScheme::new(read_be16(self.bytes, 2 * k)));
            k = k + 1;
        }
        out
    }
}

/// The algorithm bytes of a compress_certificate payload: a nonempty even one-byte-length vector.
pub open spec fn spec_certificate_compression_algorithms(b: Seq<u8>) -> Result<Seq<u8>, TlsParseError> {
    match spec_v8(b, 2) {
        Err(e) => Err(e),
        Ok(x) => if x.len() % 2 != 0 {
            Err(TlsParseError::InvalidValue)
        } else {
            Ok(x)
        },
    }
}

/// Ordered certificate-compression algorithm identifiers.
#[derive(Clone, Copy, Debug, PartialEq, Eq)]
pub struct CertificateCompressionAlgorithms<'a> {
    bytes: &'a [u8],
}

impl<'a> View for CertificateCompressionAlgorithms<'a> {
    type V = Seq<u8>;

    closed spec fn view(&self) -> Seq<u8> {
        self.bytes@
    }
}

impl<'a> CertificateCompressionAlgorithms<'a> {
    pub(crate) fn parse(b: &'a [u8]) -> (r: Result<Self, TlsParseError>)
        ensures
            match r {
                Ok(x) => spec_certificate_compression_algorithms(b@) == Ok::<Seq<u8>, TlsParseError>(x@),
                Err(e) => spec_certificate_compression_algorithms(b@) == Err::<Seq<u8>, TlsParseError>(e),
            },
    {
        let bytes = match v8(b, 2) {
            Ok(bytes) => bytes,
            Err(e) => return Err(e),
        };
        if bytes.len() % 2 != 0 {
            return Err(TlsParseError::InvalidValue);
        }
        Ok(Self { bytes })
    }

    /// Returns algorithms in their original wire order.
    pub fn iter(&self) -> (r: Vec<TlsCertificateCompressionAlgorithm>)
        ensures
            r@.len() == spec_be16_list(self@).len(),
            forall|i: int| 0 <= i < r@.len() ==> #[trigger] r@[i].spec_raw() == spec_be16_list(self@)[i],
    {
        let mut out: Vec<TlsCertificateCompressionAlgorithm> = Vec::new();
        let n = self.bytes.len() / 2;
        let mut k: usize = 0;
        while k < n
            invariant
                n == self.bytes@.len() / 2,
                self.bytes@.len() <= usize::MAX,
                k <= n,
                out@.len() == k,
                forall|i: int| 0 <= i < k ==> #[trigger] out@[i].spec_raw() == be16(self.bytes@, 2 * i),
            decreases n - k,
        {
            out.push(TlsCertificateCompressionAlgorithm::new(read_be16(self.bytes, 2 * k)));
            k = k + 1;
        }
        out
    }
}

/// The format bytes of an ec_point_formats payload: a nonempty one-byte-length vector.
pub open spec fn spec_ec_point_formats(b: Seq<u8>) -> Result<Seq<u8>, TlsParseError> {
    spec_v8(b, 1)
}

/// Ordered legacy EC point-format identifiers.
#[derive(Clone, Copy, Debug, PartialEq, Eq)]
pub struct EcPointFormats<'a> {
    bytes: &'a [u8],
}

impl<'a> View for EcPointFormats<'a> {
    type V = Seq<u8>;

    closed spec fn view(&self) -> Seq<u8> {
        self.bytes@
    }
}

impl<'a> EcPointFormats<'a> {
    pub(crate) fn parse(b: &'a [u8]) -> (r: Result<Self, TlsParseError>)
        ensures
            match r {
                Ok(x) => spec_ec_point_formats(b@) == Ok::<Seq<u8>, TlsParseError>(x@),
                Err(e) => spec_ec_point_formats(b@) == Err::<Seq<u8>, TlsParseError>(e),
            },
    {
        let bytes = match v8(b, 1) {
            Ok(bytes) => bytes,
            Err(e) => return Err(e),
        };
        Ok(Self { bytes })
    }

    /// Returns raw point-format values in wire order.
    pub fn iter(&self) -> (r: Vec<u8>)
        ensures
            r@ == self@,
    {
        let mut out: Vec<u8> = Vec::new();
        let n = self.bytes.len();
        let mut k: usize = 0;
        while k < n
            invariant
                n == self.bytes@.len(),
                k <= n,
                out@ == self.bytes@.subrange(0, k as int),
            decreases n - k,
        {
            out.push(self.bytes[k]);
            k = k + 1;
            proof {
                assert(out@ =~= self.bytes@.subrange(0, k as int));
            }
        }
        proof {
            assert(out@ =~= self.bytes@);
        }
        out
    }
}

} // verus!
