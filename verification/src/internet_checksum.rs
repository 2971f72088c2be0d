//! The Internet checksum (RFC 1071): the ones'-complement sum of big-endian 16-bit words,
//! with IP pseudoheaders for transport checksums.

use vstd::prelude::*;

verus! {

/// The big-endian word starting at byte `i`; a trailing odd byte is padded with zero.
pub open spec fn word_at(s: Seq<u8>, i: int) -> nat {
    (s[i] as nat) * 256 + if i + 1 < s.len() {
        s[i + 1] as nat
    } else {
        0nat
    }
}

/// The plain sum of the first `k` words of `s`.
pub open spec fn word_prefix(s: Seq<u8>, k: nat) -> nat
    decreases k,
{
    if k == 0 {
        0
    } else {
        word_prefix(s, (k - 1) as nat) + word_at(s, 2 * (k - 1))
    }
}

/// The plain sum of every word of `s`.
pub open spec fn word_sum(s: Seq<u8>) -> nat {
    word_prefix(s, ((s.len() + 1) / 2) as nat)
}

/// The ones'-complement value of a plain sum: zero only for zero, otherwise the
/// representative in `1..=0xffff` of its class modulo `0xffff`.
pub open spec fn ones_fold(x: nat) -> nat {
    if x == 0 {
        0
    } else if x % 0xffff == 0 {
        0xffff
    } else {
        x % 0xffff
    }
}

/// Folding part of a sum early does not change the folded total.
pub proof fn lemma_fold_absorb(a: nat, b: nat)
    ensures
        ones_fold(ones_fold(a) + b) == ones_fold(a + b),
{
    if a != 0 {
        assert((ones_fold(a) + b) % 0xffff == (a + b) % 0xffff) by (nonlinear_arith)
            requires
                a > 0,
                ones_fold(a) % 0xffff == a % 0xffff,
        {
            vstd::arithmetic::div_mod::lemma_add_mod_noop(ones_fold(a) as int, b as int, 0xffff);
            vstd::arithmetic::div_mod::lemma_add_mod_noop(a as int, b as int, 0xffff);
        }
    }
}

/// A word of a sequence depends only on the bytes from its start.
proof fn lemma_word_at_append(x: Seq<u8>, y: Seq<u8>, i: int)
    requires
        x.len() % 2 == 0,
        0 <= i < y.len(),
    ensures
        word_at(x + y, x.len() + i) == word_at(y, i),
{
}

proof fn lemma_prefix_append_left(x: Seq<u8>, y: Seq<u8>, k: nat)
    requires
        x.len() % 2 == 0,
        2 * k <= x.len(),
    ensures
        word_prefix(x + y, k) == word_prefix(x, k),
    decreases k,
{
    if k > 0 {
        lemma_prefix_append_left(x, y, (k - 1) as nat);
    }
}

proof fn lemma_prefix_append_right(x: Seq<u8>, y: Seq<u8>, k: nat)
    requires
        x.len() % 2 == 0,
        2 * k <= y.len() + 1,
    ensures
        word_prefix(x + y, (x.len() / 2 + k) as nat) == word_sum(x) + word_prefix(y, k),
    decreases k,
{
    if k == 0 {
        lemma_prefix_append_left(x, y, (x.len() / 2) as nat);
        assert((x.len() + 1) / 2 == x.len() / 2);
    } else {
        lemma_prefix_append_right(x, y, (k - 1) as nat);
        lemma_word_at_append(x, y, 2 * (k - 1));
        assert(2 * ((x.len() / 2 + k) - 1) == x.len() + 2 * (k - 1));
    }
}

/// The words of a concatenation whose first part has even length are the words of the parts.
pub proof fn lemma_word_sum_append(x: Seq<u8>, y: Seq<u8>)
    requires
        x.len() % 2 == 0,
    ensures
        word_sum(x + y) == word_sum(x) + word_sum(y),
{
    lemma_prefix_append_right(x, y, ((y.len() + 1) / 2) as nat);
    assert((x + y).len() == x.len() + y.len());
    assert(((x.len() + y.len() + 1) / 2) as nat == (x.len() / 2 + (y.len() + 1) / 2) as nat);
}

/// Adding the words of one more piece to a folded running sum is folding the sum of the
/// pieces together, when the pieces before it have even length.
pub proof fn lemma_add_piece(initial: nat, before: Seq<u8>, piece: Seq<u8>)
    requires
        before.len() % 2 == 0,
    ensures
        ones_fold(ones_fold(initial + word_sum(before)) + word_sum(piece)) == ones_fold(
            initial + word_sum(before + piece),
        ),
{
    lemma_fold_absorb(initial + word_sum(before), word_sum(piece));
    lemma_word_sum_append(before, piece);
}

/// The word sum of two bytes is their big-endian value.
pub proof fn lemma_word_sum_pair(s: Seq<u8>)
    requires
        s.len() == 2,
    ensures
        word_sum(s) == s[0] * 256 + s[1],
{
    reveal_with_fuel(word_prefix, 2);
}

/// Adds `0xffff`-folded words without carrying past sixteen bits.
fn fold_add(acc: u32, word: u32) -> (r: u32)
    requires
        acc <= 0xffff,
        word <= 0xffff,
    ensures
        r == ones_fold(acc as nat + word as nat),
        r <= 0xffff,
{
    let s = acc + word;
    if s > 0xffff {
        s - 0xffff
    } else {
        s
    }
}

/// Adds the big-endian words of `bytes` to a running ones'-complement sum.
pub fn add_bytes(initial: u32, bytes: &[u8]) -> (r: u32)
    ensures
        r == ones_fold(initial as nat + word_sum(bytes@)),
        r <= 0xffff,
{
    let mut acc: u32 = fold(initial) as u32;
    proof {
        lemma_fold_absorb(initial as nat, 0);
    }
    let n = bytes.len();
    let mut i: usize = 0;
    while n - i >= 2
        invariant
            n == bytes@.len(),
            i <= n,
            i % 2 == 0,
            acc <= 0xffff,
            acc == ones_fold(initial as nat + word_prefix(bytes@, (i / 2) as nat)),
        decreases n - i,
    {
        let word = (bytes[i] as u32) * 256 + (bytes[i + 1] as u32);
        proof {
            lemma_fold_absorb(initial as nat + word_prefix(bytes@, (i / 2) as nat), word as nat);
            assert(word == word_at(bytes@, i as int));
            assert(((i + 2) / 2) as nat - 1 == (i / 2) as nat);
        }
        acc = fold_add(acc, word);
        i = i + 2;
    }
    if i < n {
        let word = (bytes[i] as u32) * 256;
        proof {
            lemma_fold_absorb(initial as nat + word_prefix(bytes@, (i / 2) as nat), word as nat);
            assert(word == word_at(bytes@, i as int));
            assert(((i + 2) / 2) as nat - 1 == (i / 2) as nat);
        }
        acc = fold_add(acc, word);
        assert(((n + 1) / 2) as nat == ((i + 2) / 2) as nat);
    } else {
        assert((i / 2) as nat == ((n + 1) / 2) as nat);
    }
    acc
}

/// Folds a running sum to its sixteen-bit ones'-complement value.
pub fn fold(sum: u32) -> (r: u16)
    ensures
        r == ones_fold(sum as nat),
{
    if sum == 0 {
        0
    } else {
        let rest = sum % 0xffff;
        if rest == 0 {
            0xffff
        } else {
            rest as u16
        }
    }
}

/// The checksum field for a running sum: the ones' complement of its folded value.
pub fn checksum(sum: u32) -> (r: u16)
    ensures
        r == 0xffff - ones_fold(sum as nat),
{
    0xffff - fold(sum)
}

/// The IPv4 pseudoheader of a transport message (RFC 9293, section 3.1).
pub open spec fn ipv4_pseudoheader(
    source: Seq<u8>,
    destination: Seq<u8>,
    protocol: u8,
    length: u16,
) -> Seq<u8> {
    source + destination + seq![0u8, protocol, (length / 256) as u8, (length % 256) as u8]
}

/// The IPv6 pseudoheader of a transport message (RFC 8200, section 8.1).
pub open spec fn ipv6_pseudoheader(
    source: Seq<u8>,
    destination: Seq<u8>,
    protocol: u8,
    length: u32,
) -> Seq<u8> {
    source + destination + seq![
        (length / 0x100_0000) as u8,
        ((length / 0x1_0000) % 256) as u8,
        ((length / 256) % 256) as u8,
        (length % 256) as u8,
        0u8,
        0u8,
        0u8,
        protocol,
    ]
}

/// Adds an IPv4 pseudoheader to a running sum.
pub fn add_ipv4_pseudoheader(
    initial: u32,
    source: [u8; 4],
    destination: [u8; 4],
    protocol: u8,
    length: u16,
) -> (r: u32)
    ensures
        r == ones_fold(initial as nat + word_sum(ipv4_pseudoheader(source@, destination@, protocol, length))),
        r <= 0xffff,
{
    let tail: [u8; 4] = [0u8, protocol, (length / 256) as u8, (length % 256) as u8];
    let sum = add_bytes(initial, source.as_slice());
    let sum = add_bytes(sum, destination.as_slice());
    let sum = add_bytes(sum, tail.as_slice());
    proof {
        let a = source@;
        let b = destination@;
        let t = tail@;
        lemma_fold_absorb(initial as nat + word_sum(a), word_sum(b));
        lemma_fold_absorb(initial as nat + word_sum(a) + word_sum(b), word_sum(t));
        lemma_word_sum_append(a, b);
        lemma_word_sum_append(a + b, t);
        assert(ipv4_pseudoheader(a, b, protocol, length) =~= a + b + t);
    }
    sum
}

/// Adds an IPv6 pseudoheader to a running sum.
pub fn add_ipv6_pseudoheader(
    initial: u32,
    source: [u8; 16],
    destination: [u8; 16],
    protocol: u8,
    length: u32,
) -> (r: u32)
    ensures
        r == ones_fold(initial as nat + word_sum(ipv6_pseudoheader(source@, destination@, protocol, length))),
        r <= 0xffff,
{
    let tail: [u8; 8] = [
        (length / 0x100_0000) as u8,
        ((length / 0x1_0000) % 256) as u8,
        ((length / 256) % 256) as u8,
        (length % 256) as u8,
        0u8,
        0u8,
        0u8,
        protocol,
    ];
    let sum = add_bytes(initial, source.as_slice());
    let sum = add_bytes(sum, destination.as_slice());
    let sum = add_bytes(sum, tail.as_slice());
    proof {
        let a = source@;
        let b = destination@;
        let t = tail@;
        lemma_fold_absorb(initial as nat + word_sum(a), word_sum(b));
        lemma_fold_absorb(initial as nat + word_sum(a) + word_sum(b), word_sum(t));
        lemma_word_sum_append(a, b);
        lemma_word_sum_append(a + b, t);
        assert(ipv6_pseudoheader(a, b, protocol, length) =~= a + b + t);
    }
    sum
}

} // verus!
