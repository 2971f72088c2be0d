//! Supported-versions extension payloads.

use super::layout::{len, spec_be16_list, spec_len_error, spec_v8, v8};
use crate::tls::error::TlsParseError;
use crate::tls::types::{TlsProtocolVersion, spec_grease_u16};
use crate::wire::{be16, read_be16};
use vstd::prelude::*;

verus! {

/// The version bytes of a ClientHello supported_versions payload.
pub open spec fn spec_client_supported_versions(b: Seq<u8>) -> Result<Seq<u8>, TlsParseError> {
    match spec_v8(b, 2) {
        Err(e) => Err(e),
        Ok(x) => if x.len() % 2 != 0 {
            Err(TlsParseError::InvalidValue)
        } else {
            Ok(x)
        },
    }
}

/// The numerically highest non-GREASE value of a list.
pub open spec fn spec_highest_version(vs: Seq<u16>) -> Option<u16>
    decreases vs.len(),
{
    if vs.len() == 0 {
        None
    } else {
        let prev = spec_highest_version(vs.drop_last());
        let v = vs.last();
        if spec_grease_u16(v) {
            prev
        } else {
            match prev {
                None => Some(v),
                Some(p) => if v >= p {
                    Some(v)
                } else {
                    Some(p)
                },
            }
        }
    }
}

/// The highest version of a list is its greatest non-GREASE member, and there is none exactly
/// when every member is GREASE.
pub proof fn lemma_highest_version_is_max(vs: Seq<u16>)
    ensures
        match spec_highest_version(vs) {
            None => forall|i: int| 0 <= i < vs.len() ==> spec_grease_u16(#[trigger] vs[i]),
            Some(h) => {
                &&& vs.contains(h)
                &&& !spec_grease_u16(h)
                &&& forall|i: int| 0 <= i < vs.len() && !spec_grease_u16(#[trigger] vs[i]) ==> vs[i] <= h
            },
        },
    decreases vs.len(),
{
    if vs.len() > 0 {
        let init = vs.drop_last();
        let n = vs.len() - 1;
        let v = vs.last();
        lemma_highest_version_is_max(init);
        assert forall|i: int| 0 <= i < n implies vs[i] == #[trigger] init[i] by {}
        assert(vs[n] == v);
        match spec_highest_version(vs) {
            None => {
                assert forall|i: int| 0 <= i < vs.len() implies spec_grease_u16(#[trigger] vs[i]) by {
                    if i < n {
                        assert(init[i] == vs[i]);
                    }
                }
            },
            Some(h) => {
                if h == v && !spec_grease_u16(v) {
                    assert(vs[n] == h);
                } else {
                    let j = choose|j: int| 0 <= j < init.len() && init[j] == h;
                    assert(vs[j] == h);
                }
                assert forall|i: int| 0 <= i < vs.len() && !spec_grease_u16(#[trigger] vs[i]) implies vs[i]
                    <= h by {
                    if i < n {
                        assert(init[i] == vs[i]);
                    }
                }
            },
        }
    }
}

/// Ordered protocol versions from a ClientHello supported_versions extension.
#[derive(Clone, Copy, Debug, PartialEq, Eq)]
pub struct ClientSupportedVersions<'a> {
    bytes: &'a [u8],
}

/// Backward-compatible name for client supported protocol versions.
pub type SupportedVersions<'a> = ClientSupportedVersions<'a>;

impl<'a> View for ClientSupportedVersions<'a> {
    type V = Seq<u8>;

    closed spec fn view(&self) -> Seq<u8> {
        self.bytes@
    }
}

impl<'a> ClientSupportedVersions<'a> {
    pub(crate) fn parse(b: &'a [u8]) -> (r: Result<Self, TlsParseError>)
        ensures
            match r {
                Ok(x) => spec_client_supported_versions(b@) == Ok::<Seq<u8>, TlsParseError>(x@),
                Err(e) => spec_client_supported_versions(b@) == Err::<Seq<u8>, TlsParseError>(e),
            },
    {
        let bytes = match v8(b, 2) {
            Ok(bytes) => bytes,
            Err(e) => return Err(e),
        };
        if bytes.len() % 2 != 0 {
            return Err(TlsParseError::InvalidValue);
        }
        Ok(Self { bytes })
    }

    /// Returns versions in their original wire order.
    pub fn iter(&self) -> (r: Vec<TlsProtocolVersion>)
        ensures
            r@.len() == spec_be16_list(self@).len(),
            forall|i: int| 0 <= i < r@.len() ==> #[trigger] r@[i].spec_raw() == spec_be16_list(self@)[i],
    {
        let mut out: Vec<TlsProtocolVersion> = Vec::new();
        let n = self.bytes.len() / 2;
        let mut k: usize = 0;
        while k < n
            invariant
                n == self.bytes@.len() / 2,
                self.bytes@.len() <= usize::MAX,
                k <= n,
                out@.len() == k,
                forall|i: int| 0 <= i < k ==> #[trigger] out@[i].spec_raw() == be16(self.bytes@, 2 * i),
            decreases n - k,
        {
            out.push(TlsProtocolVersion::new(read_be16(self.bytes, 2 * k)));
            k = k + 1;
        }
        out
    }

    /// Returns the numerically highest non-GREASE offered version.
    pub fn highest(&self) -> (r: Option<TlsProtocolVersion>)
        ensures
            match r {
                None => spec_highest_version(spec_be16_list(self@)) is None,
                Some(v) => spec_highest_version(spec_be16_list(self@)) == Some(v.spec_raw()),
            },
    {
        let versions = self.iter();
        let ghost list = spec_be16_list(self@);
        let mut best: Option<TlsProtocolVersion> = None;
        let mut k: usize = 0;
        while k < versions.len()
            invariant
                versions@.len() == list.len(),
                forall|i: int| 0 <= i < versions@.len() ==> #[trigger] versions@[i].spec_raw() == list[i],
                k <= versions@.len(),
                match best {
                    None => spec_highest_version(list.subrange(0, k as int)) is None,
                    Some(v) => spec_highest_version(list.subrange(0, k as int)) == Some(v.spec_raw()),
                },
            decreases versions@.len() - k,
        {
            let v = versions[k];
            proof {
                assert(list.subrange(0, k + 1).drop_last() =~= list.subrange(0, k as int));
            }
            if !v.is_grease() {
                best = match best {
                    None => Some(v),
                    Some(p) => if v.raw() >= p.raw() {
                        Some(v)
                    } else {
                        Some(p)
                    },
                };
            }
            k = k + 1;
        }
        proof {
            assert(list.subrange(0, k as int) =~= list);
        }
        best
    }
}

/// The version of a server supported_versions payload.
pub open spec fn spec_server_supported_version(b: Seq<u8>) -> Result<u16, TlsParseError> {
    if b.len() != 2 {
        Err(spec_len_error(2, b.len() as int))
    } else {
        Ok(be16(b, 0) as u16)
    }
}

/// A protocol version selected by a server or HelloRetryRequest.
#[derive(Clone, Copy, Debug, PartialEq, Eq)]
pub struct ServerSupportedVersion(TlsProtocolVersion);

impl View for ServerSupportedVersion {
    type V = u16;

    closed spec fn view(&self) -> u16 {
        self.0.spec_raw()
    }
}

impl ServerSupportedVersion {
    pub(crate) fn parse(b: &[u8]) -> (r: Result<Self, TlsParseError>)
        ensures
            match r {
                Ok(x) => spec_server_supported_version(b@) == Ok::<u16, TlsParseError>(x@),
                Err(e) => spec_server_supported_version(b@) == Err::<u16, TlsParseError>(e),
            },
    {
        if b.len() != 2 {
            return Err(len(2, b.len()));
        }
        Ok(Self(TlsProtocolVersion::new(read_be16(b, 0))))
    }

    /// Returns the selected raw-preserving version.
    pub fn version(self) -> (r: TlsProtocolVersion)
        ensures
            r.spec_raw() == self@,
    {
        self.0
    }
}

} // verus!
