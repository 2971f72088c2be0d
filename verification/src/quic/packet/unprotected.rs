//! Checked overlays for caller-unprotected QUIC packet headers.
//!
//! These views only associate externally unmasked header material with accepted protected
//! packet structure. They do not apply header protection, authenticate packets, decrypt
//! payloads, or reconstruct full packet numbers.

use super::header::QuicShortHeader;
use super::long::QuicProtectedLongPacket;
use vstd::prelude::*;

verus! {

const LONG_PRESERVED_MASK: u8 = 0xf0;

const SHORT_PRESERVED_MASK: u8 = 0xe0;

/// Failure to associate caller-unprotected header material with a protected packet.
#[derive(Clone, Copy, Debug, PartialEq, Eq, Structural)]
pub enum QuicUnprotectedHeaderError {
    /// Bits that header protection leaves unchanged differ between the two first bytes.
    PreservedBitsMismatch {
        /// The first byte of the protected packet.
        protected_first_byte: u8,
        /// The caller-supplied unprotected first byte.
        unprotected_first_byte: u8,
        /// The bits that must agree.
        preserved_mask: u8,
    },
    /// The supplied packet-number bytes do not have the width the first byte encodes.
    PacketNumberLengthMismatch {
        /// The width the unprotected first byte encodes.
        expected: usize,
        /// The supplied width.
        supplied: usize,
    },
    /// The protected packet has no room for a packet number of that width.
    ProtectedRemainderTooShort {
        /// Required bytes.
        required: usize,
        /// Available bytes.
        available: usize,
    },
}

/// The encoded width of a QUIC truncated packet number.
#[derive(Clone, Copy, Debug, PartialEq, Eq, Structural, Hash)]
pub enum QuicPacketNumberLen {
    /// A one-byte truncated packet number.
    One,
    /// A two-byte truncated packet number.
    Two,
    /// A three-byte truncated packet number.
    Three,
    /// A four-byte truncated packet number.
    Four,
}

/// The width in bytes of a packet-number length.
pub open spec fn spec_pn_byte_len(length: QuicPacketNumberLen) -> nat {
    match length {
        QuicPacketNumberLen::One => 1,
        QuicPacketNumberLen::Two => 2,
        QuicPacketNumberLen::Three => 3,
        QuicPacketNumberLen::Four => 4,
    }
}

/// The packet-number length encoded by the low two bits of an unprotected first byte.
pub open spec fn spec_pn_len_from_first(first_byte: u8) -> QuicPacketNumberLen {
    if first_byte % 4 == 0 {
        QuicPacketNumberLen::One
    } else if first_byte % 4 == 1 {
        QuicPacketNumberLen::Two
    } else if first_byte % 4 == 2 {
        QuicPacketNumberLen::Three
    } else {
        QuicPacketNumberLen::Four
    }
}

/// RFC 9000 section 17.2: the two low bits of an unprotected first byte hold the packet-number
/// length minus one.
pub proof fn lemma_pn_len_bits(first_byte: u8)
    ensures
        spec_pn_byte_len(spec_pn_len_from_first(first_byte)) == (first_byte & 0x03) + 1,
{
    assert(first_byte & 0x03 == first_byte % 4) by (bit_vector);
}

/// The big-endian value of a byte string.
pub open spec fn spec_be_value(s: Seq<u8>) -> nat
    decreases s.len(),
{
    if s.len() == 0 {
        0
    } else {
        spec_be_value(s.drop_last()) * 256 + s.last() as nat
    }
}

/// The error, if any, of checking unprotected material against a protected packet.
pub open spec fn spec_unprotected_error(
    protected_first_byte: u8,
    unprotected_first_byte: u8,
    preserved_mask: u8,
    supplied: nat,
    protected_remainder_len: nat,
) -> Option<QuicUnprotectedHeaderError> {
    let expected = spec_pn_byte_len(spec_pn_len_from_first(unprotected_first_byte));
    if protected_first_byte & preserved_mask != unprotected_first_byte & preserved_mask {
        Some(
            QuicUnprotectedHeaderError::PreservedBitsMismatch {
                protected_first_byte,
                unprotected_first_byte,
                preserved_mask,
            },
        )
    } else if supplied != expected {
        Some(
            QuicUnprotectedHeaderError::PacketNumberLengthMismatch {
                expected: expected as usize,
                supplied: supplied as usize,
            },
        )
    } else if protected_remainder_len < expected {
        Some(
            QuicUnprotectedHeaderError::ProtectedRemainderTooShort {
                required: expected as usize,
                available: protected_remainder_len as usize,
            },
        )
    } else {
        None
    }
}

impl QuicPacketNumberLen {
    /// Returns the encoded packet-number width in bytes.
    pub fn byte_len(self) -> (r: usize)
        ensures
            r == spec_pn_byte_len(self),
    {
        match self {
            Self::One => 1,
            Self::Two => 2,
            Self::Three => 3,
            Self::Four => 4,
        }
    }

    fn from_first_byte(first_byte: u8) -> (r: Self)
        ensures
            r == spec_pn_len_from_first(first_byte),
    {
        match first_byte % 4 {
            0 => Self::One,
            1 => Self::Two,
            2 => Self::Three,
            _ => Self::Four,
        }
    }
}

/// Exact caller-supplied bytes of a truncated QUIC packet number.
///
/// This does not reconstruct a full packet number from an expected packet number.
#[derive(Clone, Copy, Debug, PartialEq, Eq)]
pub struct QuicTruncatedPacketNumber<'a> {
    bytes: &'a [u8],
    encoded_len: QuicPacketNumberLen,
}

impl<'a> View for QuicTruncatedPacketNumber<'a> {
    type V = Seq<u8>;

    closed spec fn view(&self) -> Seq<u8> {
        self.bytes@
    }
}

impl<'a> QuicTruncatedPacketNumber<'a> {
    /// The encoded width.
    pub closed spec fn spec_encoded_len(&self) -> QuicPacketNumberLen {
        self.encoded_len
    }

    #[verifier::type_invariant]
    closed spec fn inv(self) -> bool {
        self.bytes@.len() == spec_pn_byte_len(self.encoded_len)
    }

    fn new(bytes: &'a [u8], encoded_len: QuicPacketNumberLen) -> (r: Self)
        requires
            bytes@.len() == spec_pn_byte_len(encoded_len),
        ensures
            r@ == bytes@,
            r.spec_encoded_len() == encoded_len,
    {
        Self { bytes, encoded_len }
    }

    /// Returns the exact caller-supplied unprotected packet-number bytes.
    pub fn as_bytes(self) -> (r: &'a [u8])
        ensures
            r@ == self@,
            r@.len() == spec_pn_byte_len(self.spec_encoded_len()),
    {
        proof {
            use_type_invariant(&self);
        }
        self.bytes
    }

    /// Returns the packet number's encoded width.
    pub fn encoded_len(self) -> (r: QuicPacketNumberLen)
        ensures
            r == self.spec_encoded_len(),
    {
        self.encoded_len
    }

    /// Returns the big-endian truncated packet-number value.
    pub fn value(self) -> (r: u32)
        ensures
            r == spec_be_value(self@),
    {
        proof {
            use_type_invariant(&self);
        }
        let mut value: u32 = 0;
        let mut i: usize = 0;
        while i < self.bytes.len()
            invariant
                self.bytes@.len() <= 4,
                i <= self.bytes@.len(),
                value == spec_be_value(self.bytes@.subrange(0, i as int)),
                value < pow256(i as nat),
            decreases self.bytes@.len() - i,
        {
            proof {
                assert(self.bytes@.subrange(0, i + 1).drop_last() =~= self.bytes@.subrange(0, i as int));
                lemma_pow256_step(i as nat);
            }
            value = value * 256 + self.bytes[i] as u32;
            i = i + 1;
        }
        proof {
            assert(self.bytes@.subrange(0, i as int) =~= self.bytes@);
        }
        value
    }
}

/// `256` raised to `n`, for the first few powers.
pub open spec fn pow256(n: nat) -> nat {
    if n == 0 {
        1
    } else if n == 1 {
        0x100
    } else if n == 2 {
        0x1_0000
    } else if n == 3 {
        0x100_0000
    } else {
        0x1_0000_0000
    }
}

proof fn lemma_pow256_step(n: nat)
    requires
        n < 4,
    ensures
        pow256(n + 1) == pow256(n) * 256,
{
}

/// A checked caller-unprotected overlay of an accepted QUIC v1 or v2 protected long packet.
///
/// The supplied packet-number bytes may be external unmasking output in separate storage.
/// This view verifies only their width and physical capacity in the protected packet; it
/// neither authenticates the bytes nor requires them to alias the protected packet.
#[derive(Clone, Copy, Debug, PartialEq, Eq)]
pub struct QuicUnprotectedLongHeader<'packet, 'unprotected> {
    protected_packet: QuicProtectedLongPacket<'packet>,
    unprotected_first_byte: u8,
    packet_number: QuicTruncatedPacketNumber<'unprotected>,
}

impl<'packet, 'unprotected> QuicUnprotectedLongHeader<'packet, 'unprotected> {
    /// The caller-supplied unprotected first byte.
    pub closed spec fn spec_first_byte(&self) -> u8 {
        self.unprotected_first_byte
    }

    /// The caller-supplied packet-number bytes.
    pub closed spec fn spec_packet_number(&self) -> Seq<u8> {
        self.packet_number@
    }

    /// The protected packet's bytes.
    pub closed spec fn spec_packet(&self) -> Seq<u8> {
        self.protected_packet@
    }

    /// Associates externally unmasked long-header material with an accepted protected packet.
    ///
    /// This validates preserved first-byte bits, supplied packet-number width, and physical
    /// packet-number capacity in that order. It performs no cryptographic operation.
    pub fn new(
        protected_packet: QuicProtectedLongPacket<'packet>,
        unprotected_first_byte: u8,
        unprotected_packet_number: &'unprotected [u8],
    ) -> (r: Result<Self, QuicUnprotectedHeaderError>)
        ensures
            ({
                let error = spec_unprotected_error(
                    protected_packet.fields().header.first_byte,
                    unprotected_first_byte,
                    0xf0,
                    unprotected_packet_number@.len(),
                    (protected_packet@.len() - protected_packet.fields().packet_number_offset) as nat,
                );
                match r {
                    Ok(h) => error is None && h.spec_first_byte() == unprotected_first_byte
                        && h.spec_packet_number() == unprotected_packet_number@ && h.spec_packet()
                        == protected_packet@,
                    Err(e) => error == Some(e),
                }
            }),
    {
        let remainder = protected_packet.protected_remainder();
        match validate(
            protected_packet.header().first_byte(),
            unprotected_first_byte,
            LONG_PRESERVED_MASK,
            unprotected_packet_number,
            remainder.len(),
        ) {
            Ok(()) => {},
            Err(e) => return Err(e),
        }
        Ok(
            Self {
                protected_packet,
                unprotected_first_byte,
                packet_number: QuicTruncatedPacketNumber::new(
                    unprotected_packet_number,
                    QuicPacketNumberLen::from_first_byte(unprotected_first_byte),
                ),
            },
        )
    }

    /// Returns the accepted protected long packet.
    pub fn protected_packet(self) -> (r: QuicProtectedLongPacket<'packet>)
        ensures
            r@ == self.spec_packet(),
    {
        self.protected_packet
    }

    /// Returns the caller-supplied unprotected first byte.
    pub fn unprotected_first_byte(self) -> (r: u8)
        ensures
            r == self.spec_first_byte(),
    {
        self.unprotected_first_byte
    }

    /// Returns the exact caller-supplied truncated packet number.
    pub fn packet_number(self) -> (r: QuicTruncatedPacketNumber<'unprotected>)
        ensures
            r@ == self.spec_packet_number(),
    {
        self.packet_number
    }

    /// Returns the raw unprotected long-header reserved bits without validating them.
    pub fn raw_reserved_bits(self) -> (r: u8)
        ensures
            r == (self.spec_first_byte() >> 2u8) & 0x03,
    {
        (self.unprotected_first_byte >> 2u8) & 0x03
    }
}

/// A checked caller-unprotected overlay of an accepted QUIC short header.
///
/// This is caller-unprotected structure, not authentication or semantic validation. The
/// supplied packet-number bytes may be external unmasking output in separate storage and need
/// not alias the protected packet.
#[derive(Clone, Copy, Debug, PartialEq, Eq)]
pub struct QuicUnprotectedShortHeader<'packet, 'unprotected> {
    protected_packet: QuicShortHeader<'packet>,
    unprotected_first_byte: u8,
    packet_number: QuicTruncatedPacketNumber<'unprotected>,
}

impl<'packet, 'unprotected> QuicUnprotectedShortHeader<'packet, 'unprotected> {
    /// The caller-supplied unprotected first byte.
    pub closed spec fn spec_first_byte(&self) -> u8 {
        self.unprotected_first_byte
    }

    /// The caller-supplied packet-number bytes.
    pub closed spec fn spec_packet_number(&self) -> Seq<u8> {
        self.packet_number@
    }

    /// The protected packet's bytes.
    pub closed spec fn spec_packet(&self) -> Seq<u8> {
        self.protected_packet@
    }

    /// Associates externally unmasked short-header material with an accepted protected packet.
    ///
    /// This validates preserved first-byte bits, supplied packet-number width, and physical
    /// packet-number capacity in that order. It performs no cryptographic operation.
    pub fn new(
        protected_packet: QuicShortHeader<'packet>,
        unprotected_first_byte: u8,
        unprotected_packet_number: &'unprotected [u8],
    ) -> (r: Result<Self, QuicUnprotectedHeaderError>)
        ensures
            ({
                let error = spec_unprotected_error(
                    protected_packet.fields().first_byte,
                    unprotected_first_byte,
                    0xe0,
                    unprotected_packet_number@.len(),
                    protected_packet.fields().protected_remainder.len(),
                );
                match r {
                    Ok(h) => error is None && h.spec_first_byte() == unprotected_first_byte
                        && h.spec_packet_number() == unprotected_packet_number@ && h.spec_packet()
                        == protected_packet@,
                    Err(e) => error == Some(e),
                }
            }),
    {
        match validate(
            protected_packet.first_byte(),
            unprotected_first_byte,
            SHORT_PRESERVED_MASK,
            unprotected_packet_number,
            protected_packet.protected_remainder().len(),
        ) {
            Ok(()) => {},
            Err(e) => return Err(e),
        }
        Ok(
            Self {
                protected_packet,
                unprotected_first_byte,
                packet_number: QuicTruncatedPacketNumber::new(
                    unprotected_packet_number,
                    QuicPacketNumberLen::from_first_byte(unprotected_first_byte),
                ),
            },
        )
    }

    /// Returns the accepted protected short packet.
    pub fn protected_packet(self) -> (r: QuicShortHeader<'packet>)
        ensures
            r@ == self.spec_packet(),
    {
        self.protected_packet
    }

    /// Returns the caller-supplied unprotected first byte.
    pub fn unprotected_first_byte(self) -> (r: u8)
        ensures
            r == self.spec_first_byte(),
    {
        self.unprotected_first_byte
    }

    /// Returns the exact caller-supplied truncated packet number.
    pub fn packet_number(self) -> (r: QuicTruncatedPacketNumber<'unprotected>)
        ensures
            r@ == self.spec_packet_number(),
    {
        self.packet_number
    }

    /// Returns the raw unprotected short-header reserved bits without validating them.
    pub fn raw_reserved_bits(self) -> (r: u8)
        ensures
            r == (self.spec_first_byte() >> 3u8) & 0x03,
    {
        (self.unprotected_first_byte >> 3u8) & 0x03
    }

    /// Returns the raw unprotected short-header spin bit without validating it.
    pub fn spin_bit(self) -> (r: bool)
        ensures
            r == (self.spec_first_byte() & 0x20 != 0),
    {
        self.unprotected_first_byte & 0x20 != 0
    }

    /// Returns the raw unprotected short-header key phase bit without validating it.
    pub fn key_phase(self) -> (r: bool)
        ensures
            r == (self.spec_first_byte() & 0x04 != 0),
    {
        self.unprotected_first_byte & 0x04 != 0
    }
}

fn validate(
    protected_first_byte: u8,
    unprotected_first_byte: u8,
    preserved_mask: u8,
    unprotected_packet_number: &[u8],
    protected_remainder_len: usize,
) -> (r: Result<(), QuicUnprotectedHeaderError>)
    ensures
        match r {
            Ok(()) => spec_unprotected_error(
                protected_first_byte,
                unprotected_first_byte,
                preserved_mask,
                unprotected_packet_number@.len(),
                protected_remainder_len as nat,
            ) is None,
            Err(e) => spec_unprotected_error(
                protected_first_byte,
                unprotected_first_byte,
                preserved_mask,
                unprotected_packet_number@.len(),
                protected_remainder_len as nat,
            ) == Some(e),
        },
{
    if protected_first_byte & preserved_mask != unprotected_first_byte & preserved_mask {
        return Err(
            QuicUnprotectedHeaderError::PreservedBitsMismatch {
                protected_first_byte,
                unprotected_first_byte,
                preserved_mask,
            },
        );
    }
    let expected = QuicPacketNumberLen::from_first_byte(unprotected_first_byte).byte_len();
    let supplied = unprotected_packet_number.len();
    if supplied != expected {
        return Err(QuicUnprotectedHeaderError::PacketNumberLengthMismatch { expected, supplied });
    }
    if protected_remainder_len < expected {
        return Err(
            QuicUnprotectedHeaderError::ProtectedRemainderTooShort {
                required: expected,
                available: protected_remainder_len,
            },
        );
    }
    Ok(())
}

} // verus!
