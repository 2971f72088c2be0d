//! TLS record views and caller-buffer construction.

use super::error::{TlsBuildError, TlsParseError};
use super::types::{TlsContentType, TlsProtocolVersion};
use crate::wire::{be16, be16_bytes, copy_into, read_be16, slice_from, slice_range, split_at_mut_fixed, spliced, write_be16};
use vstd::prelude::*;

verus! {

/// The length of the record that a byte string starts with, header included, or why it
/// holds no complete record.
pub open spec fn spec_record_length(b: Seq<u8>) -> Result<usize, TlsParseError> {
    if b.len() < 5 {
        Err(TlsParseError::Incomplete { required: 5, available: b.len() as usize })
    } else if b.len() < 5 + be16(b, 3) {
        Err(TlsParseError::Incomplete { required: (5 + be16(b, 3)) as usize, available: b.len() as usize })
    } else {
        Ok((5 + be16(b, 3)) as usize)
    }
}

/// Whether `b` is exactly one complete record.
pub open spec fn spec_is_record(b: Seq<u8>) -> bool {
    b.len() >= 5 && b.len() == 5 + be16(b, 3)
}

/// The record with the given header fields and fragment.
pub open spec fn spec_record_bytes(content_type: u8, version: u16, fragment: Seq<u8>) -> Seq<u8> {
    seq![content_type] + be16_bytes(version) + be16_bytes(fragment.len() as u16) + fragment
}

/// A written record is read back as the first record of whatever follows it: its declared
/// length covers exactly the fragment, and its fields are the values written.
pub proof fn lemma_record_roundtrip(
    content_type: u8,
    version: u16,
    fragment: Seq<u8>,
    suffix: Seq<u8>,
)
    requires
        fragment.len() <= 0xffff,
    ensures
        ({
            let b = spec_record_bytes(content_type, version, fragment) + suffix;
            &&& spec_record_length(b) == Ok::<usize, TlsParseError>((5 + fragment.len()) as usize)
            &&& b.subrange(0, 5 + fragment.len() as int) == spec_record_bytes(content_type, version, fragment)
            &&& spec_is_record(spec_record_bytes(content_type, version, fragment))
            &&& b[0] == content_type
            &&& be16(b, 1) == version
            &&& b.subrange(5, 5 + fragment.len() as int) == fragment
        }),
{
    let r = spec_record_bytes(content_type, version, fragment);
    let b = r + suffix;
    assert(b.subrange(0, 5 + fragment.len() as int) =~= r);
    assert(b.subrange(5, 5 + fragment.len() as int) =~= fragment);
}

fn declared(bytes: &[u8], header: usize) -> (r: Result<usize, TlsParseError>)
    requires
        header == 5,
    ensures
        r == spec_record_length(bytes@),
{
    if bytes.len() < header {
        return Err(TlsParseError::Incomplete { required: header, available: bytes.len() });
    }
    let length = read_be16(bytes, 3) as usize;
    let total = header + length;
    if bytes.len() < total {
        return Err(TlsParseError::Incomplete { required: total, available: bytes.len() });
    }
    Ok(total)
}

/// A single structurally bounded TLS record.
#[derive(Clone, Copy, Debug, PartialEq, Eq)]
pub struct TlsRecord<'a> {
    bytes: &'a [u8],
}

impl<'a> View for TlsRecord<'a> {
    type V = Seq<u8>;

    closed spec fn view(&self) -> Seq<u8> {
        self.bytes@
    }
}

impl<'a> TlsRecord<'a> {
    #[verifier::type_invariant]
    closed spec fn inv(self) -> bool {
        spec_is_record(self.bytes@)
    }

    /// Parses the first complete record and excludes any coalesced suffix.
    pub fn parse(bytes: &'a [u8]) -> (r: Result<Self, TlsParseError>)
        ensures
            match r {
                Ok(record) => spec_record_length(bytes@) == Ok::<usize, TlsParseError>(
                    record@.len() as usize,
                ) && record@ == bytes@.subrange(0, record@.len() as int) && spec_is_record(record@),
                Err(e) => spec_record_length(bytes@) == Err::<usize, TlsParseError>(e),
            },
    {
        let length = match declared(bytes, 5) {
            Ok(length) => length,
            Err(e) => return Err(e),
        };
        let record = slice_range(bytes, 0, length);
        Ok(Self { bytes: record })
    }

    /// Returns the content type.
    pub fn content_type(&self) -> (r: TlsContentType)
        ensures
            r.spec_raw() == self@[0],
    {
        proof {
            use_type_invariant(self);
        }
        TlsContentType::new(self.bytes[0])
    }

    /// Returns the legacy record version.
    pub fn version(&self) -> (r: TlsProtocolVersion)
        ensures
            r.spec_raw() == be16(self@, 1),
    {
        proof {
            use_type_invariant(self);
        }
        TlsProtocolVersion::new(read_be16(self.bytes, 1))
    }

    /// Returns the fragment.
    pub fn fragment(&self) -> (r: &'a [u8])
        ensures
            r@ == self@.subrange(5, self@.len() as int),
            r@.len() == be16(self@, 3),
    {
        proof {
            use_type_invariant(self);
        }
        slice_from(self.bytes, 5)
    }

    /// Returns the represented record bytes.
    pub fn as_bytes(&self) -> (r: &'a [u8])
        ensures
            r@ == self@,
            spec_is_record(r@),
    {
        proof {
            use_type_invariant(self);
        }
        self.bytes
    }
}

/// A mutable structurally bounded TLS record.
#[derive(Debug)]
pub struct TlsRecordMut<'a> {
    bytes: &'a mut [u8],
}

impl<'a> View for TlsRecordMut<'a> {
    type V = Seq<u8>;

    closed spec fn view(&self) -> Seq<u8> {
        self.bytes@
    }
}

impl<'a> TlsRecordMut<'a> {
    /// The bytes are exactly one complete record.
    pub closed spec fn wf(&self) -> bool {
        spec_is_record(self.bytes@)
    }

    /// Parses the first complete record and excludes any coalesced suffix.
    pub fn parse(bytes: &'a mut [u8]) -> (r: Result<Self, TlsParseError>)
        ensures
            match r {
                Ok(record) => spec_record_length(old(bytes)@) == Ok::<usize, TlsParseError>(
                    record@.len() as usize,
                ) && record@ == old(bytes)@.subrange(0, record@.len() as int) && record.wf(),
                Err(e) => spec_record_length(old(bytes)@) == Err::<usize, TlsParseError>(e),
            },
    {
        let length = match declared(bytes, 5) {
            Ok(length) => length,
            Err(e) => return Err(e),
        };
        let (record, _) = split_at_mut_fixed(bytes, length);
        Ok(Self { bytes: record })
    }

    fn from_validated(bytes: &'a mut [u8]) -> (r: Self)
        requires
            spec_is_record(old(bytes)@),
        ensures
            r.wf(),
            r@ == old(bytes)@,
    {
        Self { bytes }
    }

    /// Returns the content type.
    pub fn content_type(&self) -> (r: TlsContentType)
        requires
            self.wf(),
        ensures
            r.spec_raw() == self@[0],
    {
        TlsContentType::new(self.bytes[0])
    }

    /// Replaces the content type.
    pub fn set_content_type(&mut self, value: TlsContentType)
        requires
            old(self).wf(),
        ensures
            final(self).wf(),
            final(self)@ == old(self)@.update(0, value.spec_raw()),
    {
        self.bytes[0] = value.raw();
    }

    /// Returns the legacy record version.
    pub fn version(&self) -> (r: TlsProtocolVersion)
        requires
            self.wf(),
        ensures
            r.spec_raw() == be16(self@, 1),
    {
        TlsProtocolVersion::new(read_be16(self.bytes, 1))
    }

    /// Replaces the legacy record version.
    pub fn set_version(&mut self, value: TlsProtocolVersion)
        requires
            old(self).wf(),
        ensures
            final(self).wf(),
            final(self)@ == spliced(old(self)@, 1, be16_bytes(value.spec_raw())),
    {
        write_be16(self.bytes, 1, value.raw());
    }

    /// Returns the fragment.
    pub fn fragment(&self) -> (r: &[u8])
        requires
            self.wf(),
        ensures
            r@ == self@.subrange(5, self@.len() as int),
    {
        slice_from(self.bytes, 5)
    }

    /// Returns the fragment mutably without changing its encoded length.
    pub fn fragment_mut(&mut self) -> (r: &mut [u8])
        requires
            old(self).wf(),
        ensures
            final(self).wf(),
            r@ == old(self)@.subrange(5, old(self)@.len() as int),
            final(r)@.len() == r@.len(),
            final(self)@ == old(self)@.subrange(0, 5) + final(r)@,
    {
        let (_, fragment) = split_at_mut_fixed(self.bytes, 5);
        fragment
    }

    /// Returns represented record bytes.
    pub fn as_bytes(&self) -> (r: &[u8])
        requires
            self.wf(),
        ensures
            r@ == self@,
            spec_is_record(r@),
    {
        self.bytes
    }
}

/// Builds a TLS record in caller-owned storage.
pub struct TlsRecordBuilder<'a, 'b> {
    buffer: &'a mut [u8],
    content_type: TlsContentType,
    version: TlsProtocolVersion,
    fragment: &'b [u8],
}

impl<'a, 'b> TlsRecordBuilder<'a, 'b> {
    /// The caller storage the record will be written into.
    pub closed spec fn spec_buffer(&self) -> Seq<u8> {
        self.buffer@
    }

    /// The content type to write.
    pub closed spec fn spec_content_type(&self) -> u8 {
        self.content_type.spec_raw()
    }

    /// The legacy version to write.
    pub closed spec fn spec_version(&self) -> u16 {
        self.version.spec_raw()
    }

    /// The fragment to copy.
    pub closed spec fn spec_fragment(&self) -> Seq<u8> {
        self.fragment@
    }

    /// Starts a record builder with a copied fragment input.
    pub fn new(
        buffer: &'a mut [u8],
        content_type: TlsContentType,
        version: TlsProtocolVersion,
        fragment: &'b [u8],
    ) -> (r: Self)
        ensures
            r.spec_buffer() == old(buffer)@,
            r.spec_content_type() == content_type.spec_raw(),
            r.spec_version() == version.spec_raw(),
            r.spec_fragment() == fragment@,
    {
        Self { buffer, content_type, version, fragment }
    }

    /// Validates all inputs before writing the record.
    pub fn build(self) -> (r: Result<TlsRecordMut<'a>, TlsBuildError>)
        ensures
            ({
                let fragment = self.spec_fragment();
                let buffer = self.spec_buffer();
                &&& r is Ok <==> fragment.len() <= 0xffff && 5 + fragment.len() <= buffer.len()
                &&& fragment.len() > 0xffff ==> r == Err::<TlsRecordMut, TlsBuildError>(
                    TlsBuildError::LengthTooLarge,
                )
                &&& fragment.len() <= 0xffff && 5 + fragment.len() > buffer.len() ==> r == Err::<
                    TlsRecordMut,
                    TlsBuildError,
                >(
                    TlsBuildError::BufferTooShort {
                        required: (5 + fragment.len()) as usize,
                        available: buffer.len() as usize,
                    },
                )
                &&& r matches Ok(record) ==> record.wf() && record@ == spec_record_bytes(
                    self.spec_content_type(),
                    self.spec_version(),
                    fragment,
                )
            }),
    {
        if self.fragment.len() > 0xffff {
            return Err(TlsBuildError::LengthTooLarge);
        }
        let length = match 5usize.checked_add(self.fragment.len()) {
            Some(length) => length,
            None => return Err(TlsBuildError::LengthTooLarge),
        };
        let buffer = self.buffer;
        if buffer.len() < length {
            return Err(TlsBuildError::BufferTooShort { required: length, available: buffer.len() });
        }
        let (bytes, _) = split_at_mut_fixed(buffer, length);
        bytes[0] = self.content_type.raw();
        write_be16(bytes, 1, self.version.raw());
        write_be16(bytes, 3, self.fragment.len() as u16);
        copy_into(bytes, 5, self.fragment);
        proof {
            let expected = spec_record_bytes(
                self.content_type.spec_raw(),
                self.version.spec_raw(),
                self.fragment@,
            );
            assert(bytes@ =~= expected);
            lemma_record_roundtrip(
                self.content_type.spec_raw(),
                self.version.spec_raw(),
                self.fragment@,
                Seq::empty(),
            );
            assert(expected + Seq::<u8>::empty() =~= expected);
        }
        Ok(TlsRecordMut::from_validated(bytes))
    }
}

} // verus!
