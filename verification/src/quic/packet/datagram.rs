//! Allocation-free parsing and partitioning of complete QUIC UDP datagrams.

use super::header::{
    QuicLongHeader, QuicLongHeaderFields, QuicLongPacketType, QuicShortHeader,
    QuicShortHeaderContext, QuicShortHeaderFields, QuicVersion, spec_long_header,
    spec_long_packet_type, spec_short_header, spec_type_bits,
};
use super::long::{QuicProtectedLongFields, QuicProtectedLongPacket, spec_protected_long_packet};
use super::parse::QuicPacketParseError;
use super::terminal::{
    QuicRetryFields, QuicRetryPacket, QuicVersionNegotiationPacket, spec_retry_packet,
    spec_version_negotiation,
};
use vstd::prelude::*;

verus! {

broadcast use QuicVersion::lemma_raw, QuicVersion::lemma_from_raw;

/// The kinds of packet a datagram is partitioned into.
#[derive(Clone, Copy, Debug, PartialEq, Eq, Structural)]
pub enum QuicPacketKind {
    /// A length-delimited protected long packet.
    ProtectedLong,
    /// A Version Negotiation packet.
    VersionNegotiation,
    /// A Retry packet.
    Retry,
    /// A short-header packet.
    Short,
    /// An unknown-version long packet.
    UnknownLong,
}

/// The outcome of one partitioning step over the remaining datagram bytes: the packet kind and
/// bytes produced, or the error; then the bytes left and whether partitioning is over.
pub open spec fn spec_packet_step(remaining: Seq<u8>, context: Option<usize>) -> (
    Result<(QuicPacketKind, Seq<u8>), QuicPacketParseError>,
    Seq<u8>,
    bool,
) {
    if remaining[0] < 0x80 {
        match context {
            None => (Err(QuicPacketParseError::ShortHeaderContextRequired), Seq::empty(), true),
            Some(d) => match spec_short_header(remaining, d) {
                Err(e) => (Err(e), Seq::empty(), true),
                Ok(_) => (Ok((QuicPacketKind::Short, remaining)), Seq::empty(), true),
            },
        }
    } else {
        match spec_long_header(remaining) {
            Err(e) => (Err(e), Seq::empty(), true),
            Ok(h) => if h.version == 0 {
                match spec_version_negotiation(remaining) {
                    Err(e) => (Err(e), Seq::empty(), true),
                    Ok(_) => (Ok((QuicPacketKind::VersionNegotiation, remaining)), Seq::empty(), true),
                }
            } else {
                match spec_long_packet_type(h.version, spec_type_bits(h.first_byte)) {
                    Some(QuicLongPacketType::Retry) => match spec_retry_packet(remaining) {
                        Err(e) => (Err(e), Seq::empty(), true),
                        Ok(_) => (Ok((QuicPacketKind::Retry, remaining)), Seq::empty(), true),
                    },
                    Some(_) => match spec_protected_long_packet(remaining) {
                        Err(e) => (Err(e), Seq::empty(), true),
                        Ok(f) => (
                            Ok(
                                (
                                    QuicPacketKind::ProtectedLong,
                                    remaining.subrange(0, f.packet_end as int),
                                ),
                            ),
                            remaining.subrange(f.packet_end as int, remaining.len() as int),
                            false,
                        ),
                    },
                    None => (Ok((QuicPacketKind::UnknownLong, remaining)), Seq::empty(), true),
                }
            },
        }
    }
}

/// A protected long packet ends after its nonempty header and before the end of its input.
pub proof fn lemma_protected_long_end(b: Seq<u8>)
    requires
        spec_protected_long_packet(b) is Ok,
    ensures
        7 <= spec_protected_long_packet(b)->Ok_0.packet_end <= b.len(),
{
}

/// Whether partitioning the remaining bytes succeeds, or the first error it meets.
pub open spec fn spec_partition(remaining: Seq<u8>, context: Option<usize>) -> Result<
    (),
    QuicPacketParseError,
>
    decreases remaining.len(),
{
    if remaining.len() == 0 {
        Ok(())
    } else {
        let (item, rest, done) = spec_packet_step(remaining, context);
        match item {
            Err(e) => Err(e),
            Ok(_) => if done {
                Ok(())
            } else {
                proof {
                    lemma_protected_long_end(remaining);
                }
                spec_partition(rest, context)
            },
        }
    }
}

/// The shape of one partitioning step: an error or a packet that takes the rest of the bytes
/// ends partitioning; a length-delimited packet is a nonempty prefix, and the bytes after it
/// are left.
pub proof fn lemma_packet_step_shape(remaining: Seq<u8>, context: Option<usize>)
    requires
        remaining.len() > 0,
    ensures
        ({
            let (item, rest, done) = spec_packet_step(remaining, context);
            match item {
                Err(_) => done,
                Ok((_, packet)) => if done {
                    packet == remaining
                } else {
                    &&& 0 < packet.len() <= remaining.len()
                    &&& packet == remaining.subrange(0, packet.len() as int)
                    &&& rest == remaining.subrange(packet.len() as int, remaining.len() as int)
                },
            }
        }),
{
    if spec_protected_long_packet(remaining) is Ok {
        lemma_protected_long_end(remaining);
    }
}

/// The items that partitioning the remaining bytes yields: each packet's kind and bytes, up to
/// and including the first error or the packet that ends the datagram.
pub open spec fn spec_packet_items(remaining: Seq<u8>, context: Option<usize>) -> Seq<
    Result<(QuicPacketKind, Seq<u8>), QuicPacketParseError>,
>
    decreases remaining.len(),
{
    if remaining.len() == 0 {
        Seq::empty()
    } else {
        let (item, rest, done) = spec_packet_step(remaining, context);
        if done {
            seq![item]
        } else {
            proof {
                lemma_packet_step_shape(remaining, context);
            }
            seq![item] + spec_packet_items(rest, context)
        }
    }
}

/// The bytes of the packets among `items`, in order.
pub open spec fn spec_packet_items_bytes(
    items: Seq<Result<(QuicPacketKind, Seq<u8>), QuicPacketParseError>>,
) -> Seq<u8>
    decreases items.len(),
{
    if items.len() == 0 {
        Seq::empty()
    } else {
        let head = match items[0] {
            Ok((_, packet)) => packet,
            Err(_) => Seq::empty(),
        };
        head + spec_packet_items_bytes(items.drop_first())
    }
}

/// A packet, or the error, that a partitioning step returned, as an item.
pub open spec fn spec_packet_item(r: Result<QuicPacket<'_>, QuicPacketParseError>) -> Result<
    (QuicPacketKind, Seq<u8>),
    QuicPacketParseError,
> {
    match r {
        Ok(p) => Ok((p.spec_kind(), p.spec_bytes())),
        Err(e) => Err(e),
    }
}

/// One unfolding of the packet items: the first item, and the items after it.
pub proof fn lemma_packet_items_step(remaining: Seq<u8>, context: Option<usize>)
    requires
        remaining.len() > 0,
    ensures
        ({
            let (item, rest, done) = spec_packet_step(remaining, context);
            let items = spec_packet_items(remaining, context);
            &&& items.len() > 0
            &&& items[0] == item
            &&& done ==> items.drop_first() == Seq::<
                Result<(QuicPacketKind, Seq<u8>), QuicPacketParseError>,
            >::empty()
            &&& !done ==> items.drop_first() == spec_packet_items(rest, context)
        }),
{
    let (item, rest, done) = spec_packet_step(remaining, context);
    let items = spec_packet_items(remaining, context);
    lemma_packet_step_shape(remaining, context);
    if done {
        assert(items.drop_first() =~= Seq::empty());
    } else {
        assert(items.drop_first() =~= spec_packet_items(rest, context));
    }
}

/// Partitioning a datagram yields packets up to the first error, which is the last item; the
/// datagram validates exactly when no item is an error, and that first error is what
/// validation reports. The bytes of the packets yielded are a prefix of the datagram, and all
/// of it when it validates.
pub proof fn lemma_packet_items(remaining: Seq<u8>, context: Option<usize>)
    ensures
        (spec_partition(remaining, context) is Ok) <==> (forall|i: int|
            0 <= i < spec_packet_items(remaining, context).len()
                ==> #[trigger] spec_packet_items(remaining, context)[i] is Ok),
        forall|i: int|
            0 <= i < spec_packet_items(remaining, context).len() - 1
                ==> #[trigger] spec_packet_items(remaining, context)[i] is Ok,
        spec_partition(remaining, context) matches Err(e) ==> spec_packet_items(remaining, context).len()
            > 0 && spec_packet_items(remaining, context).last() == Err::<
            (QuicPacketKind, Seq<u8>),
            QuicPacketParseError,
        >(e),
        spec_packet_items_bytes(spec_packet_items(remaining, context)).len() <= remaining.len(),
        spec_packet_items_bytes(spec_packet_items(remaining, context)) == remaining.subrange(
            0,
            spec_packet_items_bytes(spec_packet_items(remaining, context)).len() as int,
        ),
        spec_partition(remaining, context) is Ok ==> spec_packet_items_bytes(
            spec_packet_items(remaining, context),
        ) == remaining,
    decreases remaining.len(),
{
    let items = spec_packet_items(remaining, context);
    if remaining.len() == 0 {
        assert(spec_packet_items_bytes(items) =~= remaining.subrange(0, 0));
        assert(remaining =~= Seq::<u8>::empty());
    } else {
        lemma_packet_items_step(remaining, context);
        lemma_packet_step_shape(remaining, context);
        let (item, rest, done) = spec_packet_step(remaining, context);
        if done {
            assert(items.drop_first() =~= Seq::empty());
            assert(spec_packet_items_bytes(items.drop_first()) =~= Seq::<u8>::empty());
            match item {
                Ok((_, packet)) => {
                    assert(spec_packet_items_bytes(items) =~= remaining);
                    assert(remaining.subrange(0, remaining.len() as int) =~= remaining);
                },
                Err(_) => {
                    assert(spec_packet_items_bytes(items) =~= remaining.subrange(0, 0));
                },
            }
        } else {
            let packet = item->Ok_0.1;
            let n = packet.len() as int;
            let rest_items = spec_packet_items(rest, context);
            lemma_packet_items(rest, context);
            assert forall|i: int| 0 < i < items.len() implies items[i] == rest_items[i - 1] by {
                assert(items.drop_first()[i - 1] == items[i]);
            }
            let rb = spec_packet_items_bytes(rest_items);
            assert(spec_packet_items_bytes(items) == packet + rb);
            assert(rb =~= rest.subrange(0, rb.len() as int));
            assert(spec_packet_items_bytes(items) =~= remaining.subrange(0, n + rb.len()));
            if spec_partition(remaining, context) is Ok {
                assert(packet + rest =~= remaining);
            }
            if forall|i: int| 0 <= i < items.len() ==> #[trigger] items[i] is Ok {
                assert forall|i: int| 0 <= i < rest_items.len() implies #[trigger] rest_items[i] is Ok by {
                    assert(items[i + 1] is Ok);
                }
            }
            if items.len() > 1 {
                assert(items.last() == rest_items.last());
            }
        }
    }
}

/// The destination connection-ID length of an optional short-header context.
pub open spec fn spec_context_len(context: Option<QuicShortHeaderContext>) -> Option<usize> {
    match context {
        Some(c) => Some(c.spec_destination_connection_id_len()),
        None => None,
    }
}

/// A borrowed unknown-version QUIC long packet occupying the complete datagram remainder.
///
/// QUIC does not define a version-specific packet boundary for an unknown version. This view
/// therefore owns the complete datagram remainder and makes no version-specific claims.
#[derive(Clone, Copy, Debug, PartialEq, Eq)]
pub struct QuicUnknownLongPacket<'a> {
    header: QuicLongHeader<'a>,
    bytes: &'a [u8],
}

impl<'a> View for QuicUnknownLongPacket<'a> {
    type V = Seq<u8>;

    closed spec fn view(&self) -> Seq<u8> {
        self.bytes@
    }
}

impl<'a> QuicUnknownLongPacket<'a> {
    /// The parsed invariant header.
    pub closed spec fn header_fields(&self) -> QuicLongHeaderFields {
        self.header.fields()
    }

    #[verifier::type_invariant]
    closed spec fn inv(self) -> bool {
        &&& spec_long_header(self.bytes@) == Ok::<QuicLongHeaderFields, QuicPacketParseError>(
            self.header.fields(),
        )
        &&& self.header.spec_input() == self.bytes@
    }

    /// Returns the exact parsed invariant long-header prefix.
    pub fn header(self) -> (r: QuicLongHeader<'a>)
        ensures
            r.fields() == self.header_fields(),
            r.spec_input() == self@,
    {
        proof {
            use_type_invariant(&self);
        }
        self.header
    }

    /// Returns the complete datagram remainder, including the invariant header.
    pub fn as_bytes(self) -> (r: &'a [u8])
        ensures
            r@ == self@,
            spec_long_header(self@) == Ok::<QuicLongHeaderFields, QuicPacketParseError>(
                self.header_fields(),
            ),
    {
        proof {
            use_type_invariant(&self);
        }
        self.bytes
    }
}

/// One borrowed QUIC packet partitioned from a supplied UDP datagram.
#[derive(Clone, Copy, Debug, PartialEq, Eq)]
pub enum QuicPacket<'a> {
    /// A length-delimited v1 or v2 protected Initial, 0-RTT, or Handshake packet.
    ProtectedLong(QuicProtectedLongPacket<'a>),
    /// A Version Negotiation packet, which consumes the datagram remainder.
    VersionNegotiation(QuicVersionNegotiationPacket<'a>),
    /// A Retry packet, which consumes the datagram remainder.
    Retry(QuicRetryPacket<'a>),
    /// A short-header packet, which consumes the datagram remainder.
    Short(QuicShortHeader<'a>),
    /// An unknown nonzero-version long packet occupying the complete datagram remainder.
    UnknownLong(QuicUnknownLongPacket<'a>),
}

impl<'a> QuicPacket<'a> {
    /// The kind of this packet.
    pub open spec fn spec_kind(self) -> QuicPacketKind {
        match self {
            QuicPacket::ProtectedLong(_) => QuicPacketKind::ProtectedLong,
            QuicPacket::VersionNegotiation(_) => QuicPacketKind::VersionNegotiation,
            QuicPacket::Retry(_) => QuicPacketKind::Retry,
            QuicPacket::Short(_) => QuicPacketKind::Short,
            QuicPacket::UnknownLong(_) => QuicPacketKind::UnknownLong,
        }
    }

    /// The bytes of this packet.
    pub open spec fn spec_bytes(self) -> Seq<u8> {
        match self {
            QuicPacket::ProtectedLong(p) => p@,
            QuicPacket::VersionNegotiation(p) => p@,
            QuicPacket::Retry(p) => p@,
            QuicPacket::Short(p) => p@,
            QuicPacket::UnknownLong(p) => p@,
        }
    }

    /// Returns the exact complete packet bytes represented by this variant.
    pub fn as_bytes(self) -> (r: &'a [u8])
        ensures
            r@ == self.spec_bytes(),
    {
        match self {
            Self::ProtectedLong(packet) => packet.as_bytes(),
            Self::VersionNegotiation(packet) => packet.as_bytes(),
            Self::Retry(packet) => packet.as_bytes(),
            Self::Short(packet) => packet.as_bytes(),
            Self::UnknownLong(packet) => packet.as_bytes(),
        }
    }

    /// Returns the raw first byte.
    pub fn first_byte(self) -> (r: u8)
        ensures
            self.spec_bytes().len() > 0,
            r == self.spec_bytes()[0],
    {
        match self {
            Self::ProtectedLong(packet) => {
                let bytes = packet.as_bytes();
                let header = packet.header();
                let prefix = header.as_bytes();
                proof {
                    lemma_protected_long_end(packet.spec_input());
                }
                header.first_byte()
            },
            Self::VersionNegotiation(packet) => {
                let header = packet.header();
                let prefix = header.as_bytes();
                header.first_byte()
            },
            Self::Retry(packet) => {
                let bytes = packet.as_bytes();
                let header = packet.header();
                let prefix = header.as_bytes();
                header.first_byte()
            },
            Self::Short(packet) => {
                let bytes = packet.as_bytes();
                packet.first_byte()
            },
            Self::UnknownLong(packet) => {
                let bytes = packet.as_bytes();
                let header = packet.header();
                let prefix = header.as_bytes();
                header.first_byte()
            },
        }
    }

    /// Returns whether this packet uses the long-header form.
    pub fn is_long_header(self) -> (r: bool)
        ensures
            r == (self.spec_kind() != QuicPacketKind::Short),
    {
        !matches!(self, Self::Short(_))
    }
}

/// A validated borrowed QUIC UDP datagram.
///
/// Construction performs a complete partitioning pass. Consequently, successful construction
/// means every byte belongs to a structurally recognized packet or to a terminal opaque
/// unknown-version long packet.
#[derive(Clone, Copy, Debug, PartialEq, Eq)]
pub struct QuicDatagram<'a> {
    bytes: &'a [u8],
    short_context: Option<QuicShortHeaderContext>,
}

impl<'a> View for QuicDatagram<'a> {
    type V = Seq<u8>;

    closed spec fn view(&self) -> Seq<u8> {
        self.bytes@
    }
}

impl<'a> QuicDatagram<'a> {
    /// The short-header destination connection-ID length this datagram is read with.
    pub closed spec fn spec_context(&self) -> Option<usize> {
        spec_context_len(self.short_context)
    }

    #[verifier::type_invariant]
    closed spec fn inv(self) -> bool {
        &&& self.bytes@.len() > 0
        &&& spec_partition(self.bytes@, spec_context_len(self.short_context)) is Ok
    }

    /// Validates and borrows one complete QUIC UDP datagram.
    pub fn parse(bytes: &'a [u8], short_context: Option<QuicShortHeaderContext>) -> (r: Result<
        Self,
        QuicPacketParseError,
    >)
        ensures
            bytes@.len() == 0 ==> r == Err::<QuicDatagram, QuicPacketParseError>(
                QuicPacketParseError::EmptyDatagram,
            ),
            bytes@.len() > 0 ==> match r {
                Ok(d) => d@ == bytes@ && d.spec_context() == spec_context_len(short_context)
                    && spec_partition(bytes@, spec_context_len(short_context)) is Ok,
                Err(e) => spec_partition(bytes@, spec_context_len(short_context)) == Err::<
                    (),
                    QuicPacketParseError,
                >(e),
            },
            r is Ok <==> bytes@.len() > 0 && forall|i: int|
                0 <= i < spec_packet_items(bytes@, spec_context_len(short_context)).len()
                    ==> #[trigger] spec_packet_items(bytes@, spec_context_len(short_context))[i] is Ok,
            r is Ok ==> spec_packet_items_bytes(spec_packet_items(bytes@, spec_context_len(short_context)))
                == bytes@,
            bytes@.len() > 0 ==> match r {
                Err(e) => spec_packet_items(bytes@, spec_context_len(short_context)).last() == Err::<
                    (QuicPacketKind, Seq<u8>),
                    QuicPacketParseError,
                >(e),
                Ok(_) => true,
            },
    {
        proof {
            lemma_packet_items(bytes@, spec_context_len(short_context));
        }
        if bytes.len() == 0 {
            return Err(QuicPacketParseError::EmptyDatagram);
        }
        let mut packets = QuicPackets::new(bytes, short_context);
        loop
            invariant
                bytes@.len() > 0,
                packets.spec_context() == spec_context_len(short_context),
                spec_partition(bytes@, spec_context_len(short_context)) == packets.spec_rest(),
            decreases packets.spec_measure(),
        {
            match packets.next() {
                None => {
                    proof {
                        lemma_packet_items(bytes@, spec_context_len(short_context));
                    }
                    return Ok(Self { bytes, short_context });
                },
                Some(Err(e)) => {
                    proof {
                        lemma_packet_items(bytes@, spec_context_len(short_context));
                    }
                    return Err(e);
                },
                Some(Ok(_)) => {},
            }
        }
    }

    /// Returns the exact supplied UDP datagram bytes.
    pub fn as_bytes(self) -> (r: &'a [u8])
        ensures
            r@ == self@,
    {
        self.bytes
    }

    /// Returns a new iterator over this datagram's validated packet partitions.
    pub fn packets(self) -> (r: QuicPackets<'a>)
        ensures
            r.spec_remaining() == self@,
            r.spec_context() == self.spec_context(),
            !r.spec_exhausted(),
            r.spec_rest() is Ok,
            r.spec_items() == spec_packet_items(self@, self.spec_context()),
            forall|i: int| 0 <= i < r.spec_items().len() ==> #[trigger] r.spec_items()[i] is Ok,
            spec_packet_items_bytes(r.spec_items()) == self@,
    {
        proof {
            use_type_invariant(&self);
            lemma_packet_items(self.bytes@, spec_context_len(self.short_context));
        }
        QuicPackets::new(self.bytes, self.short_context)
    }
}

/// A fallible, fused iterator that partitions one QUIC UDP datagram.
///
/// On an error, this iterator permanently exhausts itself to avoid resuming after an uncertain
/// packet boundary.
#[derive(Clone, Debug)]
pub struct QuicPackets<'a> {
    remaining: &'a [u8],
    short_context: Option<QuicShortHeaderContext>,
    exhausted: bool,
}

impl<'a> QuicPackets<'a> {
    /// The bytes not yet partitioned.
    pub closed spec fn spec_remaining(&self) -> Seq<u8> {
        self.remaining@
    }

    /// The short-header destination connection-ID length.
    pub closed spec fn spec_context(&self) -> Option<usize> {
        spec_context_len(self.short_context)
    }

    /// Whether iteration is over.
    pub closed spec fn spec_exhausted(&self) -> bool {
        self.exhausted
    }

    /// Whether partitioning what is left succeeds.
    pub open spec fn spec_rest(&self) -> Result<(), QuicPacketParseError> {
        if self.spec_exhausted() {
            Ok(())
        } else {
            spec_partition(self.spec_remaining(), self.spec_context())
        }
    }

    /// The items that the partitioning still yields.
    pub open spec fn spec_items(&self) -> Seq<
        Result<(QuicPacketKind, Seq<u8>), QuicPacketParseError>,
    > {
        if self.spec_exhausted() {
            Seq::empty()
        } else {
            spec_packet_items(self.spec_remaining(), self.spec_context())
        }
    }

    /// A measure that each step that yields a packet decreases.
    pub open spec fn spec_measure(&self) -> nat {
        if self.spec_exhausted() {
            0
        } else {
            self.spec_remaining().len() + 1
        }
    }

    /// Creates an iterator that partitions one supplied UDP datagram as it is consumed.
    ///
    /// Unlike `QuicDatagram::parse`, this constructor does not validate before iteration.
    pub fn new(bytes: &'a [u8], short_context: Option<QuicShortHeaderContext>) -> (r: Self)
        ensures
            r.spec_remaining() == bytes@,
            r.spec_context() == spec_context_len(short_context),
            !r.spec_exhausted(),
            r.spec_items() == spec_packet_items(bytes@, spec_context_len(short_context)),
    {
        Self { remaining: bytes, short_context, exhausted: false }
    }

    fn fail(&mut self, error: QuicPacketParseError) -> (r: Option<
        Result<QuicPacket<'a>, QuicPacketParseError>,
    >)
        ensures
            r == Some(Err::<QuicPacket<'a>, QuicPacketParseError>(error)),
            final(self).spec_exhausted(),
            final(self).spec_remaining() == Seq::<u8>::empty(),
            final(self).spec_context() == old(self).spec_context(),
    {
        self.remaining = &[];
        self.exhausted = true;
        proof {
            assert(self.remaining@ =~= Seq::<u8>::empty());
        }
        Some(Err(error))
    }

    /// Returns the next packet; after an error, a terminal packet or the end, iteration is over.
    #[verifier::rlimit(40)]
    pub fn next(&mut self) -> (r: Option<Result<QuicPacket<'a>, QuicPacketParseError>>)
        ensures
            final(self).spec_context() == old(self).spec_context(),
            old(self).spec_exhausted() || old(self).spec_remaining().len() == 0 ==> r is None
                && final(self).spec_exhausted(),
            !old(self).spec_exhausted() && old(self).spec_remaining().len() > 0 ==> {
                let (item, rest, done) = spec_packet_step(
                    old(self).spec_remaining(),
                    old(self).spec_context(),
                );
                &&& final(self).spec_exhausted() == done
                &&& done ==> final(self).spec_remaining().len() == 0
                &&& !done ==> final(self).spec_remaining() == rest
                &&& match r {
                    Some(Ok(p)) => item == Ok::<(QuicPacketKind, Seq<u8>), QuicPacketParseError>(
                        (p.spec_kind(), p.spec_bytes()),
                    ),
                    Some(Err(e)) => item == Err::<(QuicPacketKind, Seq<u8>), QuicPacketParseError>(e),
                    None => false,
                }
            },
            final(self).spec_measure() < old(self).spec_measure() || r is None,
            final(self).spec_rest() == if r matches Some(Err(e)) {
                Ok(())
            } else {
                old(self).spec_rest()
            },
            r matches Some(Err(e)) ==> old(self).spec_rest() == Err::<(), QuicPacketParseError>(e),
            match r {
                None => old(self).spec_items().len() == 0,
                Some(item) => old(self).spec_items().len() > 0 && spec_packet_item(item)
                    == old(self).spec_items()[0] && final(self).spec_items()
                    == old(self).spec_items().drop_first(),
            },
    {
        proof {
            if !self.exhausted && self.remaining@.len() > 0 {
                lemma_packet_items_step(self.remaining@, spec_context_len(self.short_context));
            }
        }
        if self.exhausted || self.remaining.len() == 0 {
            self.exhausted = true;
            return None;
        }
        let bytes = self.remaining;
        proof {
            reveal_with_fuel(spec_partition, 1);
        }
        let b0 = bytes[0];
        assert(b0 & 0x80 == 0 <==> b0 < 0x80) by (bit_vector);
        if b0 & 0x80 == 0 {
            let context = match self.short_context {
                Some(context) => context,
                None => return self.fail(QuicPacketParseError::ShortHeaderContextRequired),
            };
            return match QuicShortHeader::parse(bytes, context) {
                Ok(header) => {
                    self.remaining = &[];
                    self.exhausted = true;
                    Some(Ok(QuicPacket::Short(header)))
                },
                Err(e) => self.fail(e),
            };
        }
        let header = match QuicLongHeader::parse(bytes) {
            Ok(header) => header,
            Err(e) => return self.fail(e),
        };
        if header.version().raw() == 0 {
            return match QuicVersionNegotiationPacket::parse(bytes) {
                Ok(packet) => {
                    self.remaining = &[];
                    self.exhausted = true;
                    Some(Ok(QuicPacket::VersionNegotiation(packet)))
                },
                Err(e) => self.fail(e),
            };
        }
        match header.long_packet_type() {
            Some(QuicLongPacketType::Retry) => match QuicRetryPacket::parse(bytes) {
                Ok(packet) => {
                    self.remaining = &[];
                    self.exhausted = true;
                    Some(Ok(QuicPacket::Retry(packet)))
                },
                Err(e) => self.fail(e),
            },
            Some(_) => match QuicProtectedLongPacket::parse(bytes) {
                Ok((packet, suffix)) => {
                    proof {
                        lemma_protected_long_end(bytes@);
                    }
                    self.remaining = suffix;
                    Some(Ok(QuicPacket::ProtectedLong(packet)))
                },
                Err(e) => self.fail(e),
            },
            None => {
                self.remaining = &[];
                self.exhausted = true;
                let packet = QuicUnknownLongPacket { header, bytes };
                Some(Ok(QuicPacket::UnknownLong(packet)))
            },
        }
    }
}

} // verus!
