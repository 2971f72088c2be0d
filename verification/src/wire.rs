//! Byte-level building blocks shared by every wire layout: big-endian field reads and
//! writes, exact sub-slices, and bounded copies into caller storage.

use vstd::prelude::*;

verus! {

/// The big-endian value of the two bytes at `i`.
pub open spec fn be16(s: Seq<u8>, i: int) -> int {
    s[i] * 256 + s[i + 1]
}

/// The big-endian value of the three bytes at `i`.
pub open spec fn be24(s: Seq<u8>, i: int) -> int {
    (s[i] * 256 + s[i + 1]) * 256 + s[i + 2]
}

/// The big-endian value of the four bytes at `i`.
pub open spec fn be32(s: Seq<u8>, i: int) -> int {
    ((s[i] * 256 + s[i + 1]) * 256 + s[i + 2]) * 256 + s[i + 3]
}

/// The two big-endian bytes of `v`.
pub open spec fn be16_bytes(v: u16) -> Seq<u8> {
    seq![(v / 256) as u8, (v % 256) as u8]
}

/// The four big-endian bytes of `v`.
pub open spec fn be32_bytes(v: u32) -> Seq<u8> {
    seq![
        (v / 0x100_0000) as u8,
        ((v / 0x1_0000) % 256) as u8,
        ((v / 256) % 256) as u8,
        (v % 256) as u8,
    ]
}

/// Reads the big-endian 16-bit value at `i`.
pub fn read_be16(bytes: &[u8], i: usize) -> (r: u16)
    requires
        i + 2 <= bytes@.len(),
    ensures
        r == be16(bytes@, i as int),
{
    (bytes[i] as u16) * 256 + (bytes[i + 1] as u16)
}

/// Reads the big-endian 32-bit value at `i`.
pub fn read_be32(bytes: &[u8], i: usize) -> (r: u32)
    requires
        i + 4 <= bytes@.len(),
    ensures
        r == be32(bytes@, i as int),
{
    let a = bytes[i] as u32;
    let b = bytes[i + 1] as u32;
    let c = bytes[i + 2] as u32;
    let d = bytes[i + 3] as u32;
    ((a * 256 + b) * 256 + c) * 256 + d
}

/// Returns the exact sub-slice `bytes[start..end]`.
pub fn slice_range<'a>(bytes: &'a [u8], start: usize, end: usize) -> (r: &'a [u8])
    requires
        start <= end <= bytes@.len(),
    ensures
        r@ == bytes@.subrange(start as int, end as int),
{
    &bytes[start..end]
}

/// Returns `bytes[start..]`.
pub fn slice_from<'a>(bytes: &'a [u8], start: usize) -> (r: &'a [u8])
    requires
        start <= bytes@.len(),
    ensures
        r@ == bytes@.subrange(start as int, bytes@.len() as int),
{
    &bytes[start..bytes.len()]
}

/// Returns the empty slice.
pub fn empty_slice<'a>() -> (r: &'a [u8])
    ensures
        r@ == Seq::<u8>::empty(),
{
    let e: &'a [u8] = &[];
    assert(e@ =~= Seq::<u8>::empty());
    e
}

/// Whether two byte slices hold the same bytes.
pub fn bytes_equal(a: &[u8], b: &[u8]) -> (r: bool)
    ensures
        r == (a@ == b@),
{
    if a.len() != b.len() {
        return false;
    }
    let mut i: usize = 0;
    while i < a.len()
        invariant
            a@.len() == b@.len(),
            i <= a@.len(),
            forall|j: int| 0 <= j < i ==> a@[j] == b@[j],
        decreases a@.len() - i,
    {
        if a[i] != b[i] {
            return false;
        }
        i = i + 1;
    }
    assert(a@ =~= b@);
    true
}

/// `dst` after `src` has been copied over its bytes starting at `at`.
pub open spec fn spliced(dst: Seq<u8>, at: int, src: Seq<u8>) -> Seq<u8> {
    dst.subrange(0, at) + src + dst.subrange(at + src.len(), dst.len() as int)
}

/// Copies `src` into `dst` starting at `at`, leaving every other byte unchanged.
pub fn copy_into(dst: &mut [u8], at: usize, src: &[u8])
    requires
        at + src@.len() <= old(dst)@.len(),
    ensures
        final(dst)@ == spliced(old(dst)@, at as int, src@),
{
    let n = dst.len();
    let mut k: usize = 0;
    while k < src.len()
        invariant
            at + src@.len() <= old(dst)@.len(),
            n == old(dst)@.len(),
            k <= src@.len(),
            dst@.len() == old(dst)@.len(),
            forall|i: int|
                0 <= i < old(dst)@.len() ==> #[trigger] dst@[i] == if at <= i < at + k {
                    src@[i - at]
                } else {
                    old(dst)@[i]
                },
        decreases src@.len() - k,
    {
        dst[at + k] = src[k];
        k = k + 1;
    }
    assert(dst@ =~= spliced(old(dst)@, at as int, src@));
}

/// Writes the big-endian bytes of `v` at `at`.
pub fn write_be16(dst: &mut [u8], at: usize, v: u16)
    requires
        at + 2 <= old(dst)@.len(),
    ensures
        final(dst)@ == spliced(old(dst)@, at as int, be16_bytes(v)),
{
    dst[at] = (v / 256) as u8;
    dst[at + 1] = (v % 256) as u8;
    assert(dst@ =~= spliced(old(dst)@, at as int, be16_bytes(v)));
}

/// Writes the big-endian bytes of `v` at `at`.
pub fn write_be32(dst: &mut [u8], at: usize, v: u32)
    requires
        at + 4 <= old(dst)@.len(),
    ensures
        final(dst)@ == spliced(old(dst)@, at as int, be32_bytes(v)),
{
    dst[at] = (v / 0x100_0000) as u8;
    dst[at + 1] = ((v / 0x1_0000) % 256) as u8;
    dst[at + 2] = ((v / 256) % 256) as u8;
    dst[at + 3] = (v % 256) as u8;
    assert(dst@ =~= spliced(old(dst)@, at as int, be32_bytes(v)));
}

/// The three big-endian bytes of `v`.
pub open spec fn be24_bytes(v: u32) -> Seq<u8> {
    seq![(v / 0x1_0000) as u8, ((v / 256) % 256) as u8, (v % 256) as u8]
}

/// Writes the byte `v` at `at`.
pub fn write_u8(dst: &mut [u8], at: usize, v: u8)
    requires
        at < old(dst)@.len(),
    ensures
        final(dst)@ == spliced(old(dst)@, at as int, seq![v]),
{
    dst[at] = v;
    assert(dst@ =~= spliced(old(dst)@, at as int, seq![v]));
}

/// Writes the three big-endian bytes of `v` at `at`.
pub fn write_be24(dst: &mut [u8], at: usize, v: u32)
    requires
        at + 3 <= old(dst)@.len(),
        v < 0x100_0000,
    ensures
        final(dst)@ == spliced(old(dst)@, at as int, be24_bytes(v)),
{
    dst[at] = (v / 0x1_0000) as u8;
    dst[at + 1] = ((v / 256) % 256) as u8;
    dst[at + 2] = (v % 256) as u8;
    assert(dst@ =~= spliced(old(dst)@, at as int, be24_bytes(v)));
}

/// Writing a piece right after a known prefix extends the prefix by that piece.
pub proof fn lemma_spliced_prefix(dst: Seq<u8>, at: int, src: Seq<u8>, prefix: Seq<u8>)
    requires
        0 <= at,
        at + src.len() <= dst.len(),
        dst.subrange(0, at) == prefix,
    ensures
        spliced(dst, at, src).len() == dst.len(),
        spliced(dst, at, src).subrange(0, at + src.len()) == prefix + src,
{
    assert(spliced(dst, at, src).subrange(0, at + src.len()) =~= prefix + src);
}

/// The three big-endian bytes of a 24-bit value read back as that value.
pub proof fn lemma_be24_roundtrip(v: u32)
    requires
        v < 0x100_0000,
    ensures
        be24(be24_bytes(v), 0) == v,
{
    let x = v as int;
    assert(((x / 0x1_0000) * 256 + (x / 256) % 256) * 256 + x % 256 == x) by (nonlinear_arith)
        requires
            0 <= x < 0x100_0000,
    {
        assert(x == 256 * (x / 256) + x % 256);
        assert(x / 256 == 256 * ((x / 256) / 256) + (x / 256) % 256);
        assert((x / 256) / 256 == x / 0x1_0000);
    }
}

/// The big-endian bytes of a 16-bit value read back as that value.
pub proof fn lemma_be16_roundtrip(v: u16)
    ensures
        be16(be16_bytes(v), 0) == v,
{
}

/// The big-endian bytes of a 32-bit value read back as that value.
pub proof fn lemma_be32_roundtrip(v: u32)
    ensures
        be32(be32_bytes(v), 0) == v,
{
}

/// Two bytes read as a big-endian value and written back are the same bytes.
pub proof fn lemma_be16_bytes_of(s: Seq<u8>, i: int)
    requires
        0 <= i,
        i + 2 <= s.len(),
    ensures
        be16_bytes(be16(s, i) as u16) == s.subrange(i, i + 2),
{
    let v = be16(s, i);
    assert(v / 256 == s[i] && v % 256 == s[i + 1]) by (nonlinear_arith)
        requires
            v == s[i] * 256 + s[i + 1],
            0 <= s[i] < 256,
            0 <= s[i + 1] < 256,
    ;
    assert(be16_bytes(v as u16) =~= s.subrange(i, i + 2));
}

/// Four bytes read as a big-endian value and written back are the same bytes.
pub proof fn lemma_be32_bytes_of(s: Seq<u8>, i: int)
    requires
        0 <= i,
        i + 4 <= s.len(),
    ensures
        be32_bytes(be32(s, i) as u32) == s.subrange(i, i + 4),
{
    let a = s[i];
    let b = s[i + 1];
    let c = s[i + 2];
    let d = s[i + 3];
    let v = be32(s, i) as u32;
    assert(v / 0x100_0000 == a && (v / 0x1_0000) % 256 == b && (v / 256) % 256 == c && v % 256
        == d) by (bit_vector)
        requires
            v == ((a as u32 * 256 + b as u32) * 256 + c as u32) * 256 + d as u32,
    ;
    assert(be32_bytes(v) =~= s.subrange(i, i + 4));
}

} // verus!

verus! {

/// `<[u8]>::split_at_mut`: the two disjoint halves of `slice` around `mid`.
///
/// The contract claims what the standard documentation states: the halves are
/// `slice[..mid]` and `slice[mid..]`, and since a slice's length is fixed, each half keeps
/// its length for as long as it is borrowed, so the whole is their concatenation afterwards.
#[verifier::external_body]
pub(crate) fn split_at_mut_fixed<'b>(slice: &'b mut [u8], mid: usize) -> (ret: (&'b mut [u8], &'b mut [u8]))
    requires
        mid <= old(slice)@.len(),
    ensures
        ret.0@ == old(slice)@.subrange(0, mid as int),
        ret.1@ == old(slice)@.subrange(mid as int, old(slice)@.len() as int),
        final(ret.0)@.len() == mid,
        final(ret.1)@.len() == old(slice)@.len() - mid,
        final(slice)@ == final(ret.0)@ + final(ret.1)@,
{
    slice.split_at_mut(mid)
}


/// `<&[u8; N]>::try_from(&[u8])`: the slice viewed as an array reference.
///
/// The standard documentation states that the conversion succeeds exactly when the slice has
/// `N` elements, and then refers to the same elements; the contract claims the elements for
/// such a slice.
#[verifier::external_body]
pub(crate) fn array_ref<'a, const N: usize>(bytes: &'a [u8]) -> (r: &'a [u8; N])
    requires
        bytes@.len() == N,
    ensures
        r@ == bytes@,
{
    <&[u8; N]>::try_from(bytes).unwrap()
}

} // verus!
