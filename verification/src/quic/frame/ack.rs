//! RFC 9000 ACK and ACK_ECN frame parsing.

use super::parse::{
    QuicFrameField, QuicFrameParseError, field_at, spec_field_at, spec_frame_type_prefix,
};
use crate::quic::varint::{QuicVarInt, spec_decode_value, spec_required};
use crate::wire::{slice_from, slice_range};
use vstd::prelude::*;

verus! {

/// `base - value - adjustment`, or `None` when that would be negative.
pub open spec fn spec_subtract(base: u64, value: u64, adjustment: u64) -> Option<u64> {
    if base >= value + adjustment {
        Some((base - value - adjustment) as u64)
    } else {
        None
    }
}

/// The fields of one additional ACK range.
pub struct QuicAckRangeFields {
    /// The encoded gap.
    pub gap: Seq<u8>,
    /// The encoded range length.
    pub ack_range_length: Seq<u8>,
    /// The largest packet number in the range.
    pub largest_acknowledged: u64,
    /// The smallest packet number in the range.
    pub smallest_acknowledged: u64,
}

impl QuicAckRangeFields {
    /// The range's encoded length.
    pub open spec fn len(self) -> int {
        (self.gap.len() + self.ack_range_length.len()) as int
    }
}

/// The additional ACK range that `b` starts with, following a range whose smallest packet
/// number is `prev`, or the first error.
pub open spec fn spec_ack_range(b: Seq<u8>, prev: u64, offset: int) -> Result<
    QuicAckRangeFields,
    QuicFrameParseError,
> {
    match spec_field_at(b, 0, offset, QuicFrameField::AckGap) {
        Err(e) => Err(e),
        Ok(gap) => match spec_field_at(b, gap.len() as int, offset, QuicFrameField::AckRangeLength) {
            Err(e) => Err(e),
            Ok(arl) => match spec_subtract(prev, spec_decode_value(gap), 2) {
                None => Err(
                    QuicFrameParseError::AckRangeUnderflow {
                        field: QuicFrameField::AckGap,
                        offset: offset as usize,
                        base: prev,
                        value: spec_decode_value(gap),
                        adjustment: 2,
                    },
                ),
                Some(largest) => match spec_subtract(largest, spec_decode_value(arl), 0) {
                    None => Err(
                        QuicFrameParseError::AckRangeUnderflow {
                            field: QuicFrameField::AckRangeLength,
                            offset: (offset + gap.len()) as usize,
                            base: largest,
                            value: spec_decode_value(arl),
                            adjustment: 0,
                        },
                    ),
                    Some(smallest) => Ok(
                        QuicAckRangeFields {
                            gap,
                            ack_range_length: arl,
                            largest_acknowledged: largest,
                            smallest_acknowledged: smallest,
                        },
                    ),
                },
            },
        },
    }
}

/// The end of `count` additional ACK ranges that start at `start` in `b` (a sequence that
/// begins `offset` bytes into its frame sequence), or the first error.
pub open spec fn spec_ack_ranges_end(b: Seq<u8>, start: int, prev: u64, offset: int, count: nat) -> Result<
    int,
    QuicFrameParseError,
>
    decreases count,
{
    if count == 0 {
        Ok(start)
    } else {
        match spec_ack_range(b.subrange(start, b.len() as int), prev, offset + start) {
            Err(e) => Err(e),
            Ok(r) => spec_ack_ranges_end(
                b,
                start + r.len(),
                r.smallest_acknowledged,
                offset,
                (count - 1) as nat,
            ),
        }
    }
}

/// The additional ranges that `count` ranges starting at `start` in `b` (a sequence that begins
/// `offset` bytes into its frame sequence) parse to, up to the first that fails.
pub open spec fn spec_ack_range_items(b: Seq<u8>, start: int, prev: u64, offset: int, count: nat) -> Seq<
    QuicAckRangeFields,
>
    decreases count,
{
    if count == 0 {
        Seq::empty()
    } else {
        match spec_ack_range(b.subrange(start, b.len() as int), prev, offset + start) {
            Err(_) => Seq::empty(),
            Ok(r) => seq![r] + spec_ack_range_items(
                b,
                start + r.len(),
                r.smallest_acknowledged,
                offset,
                (count - 1) as nat,
            ),
        }
    }
}

/// The smallest packet number of the range before the `i`th of `items`, that of the first ACK
/// range being `first`.
pub open spec fn spec_ack_range_previous(items: Seq<QuicAckRangeFields>, first: u64, i: int) -> u64 {
    if i == 0 {
        first
    } else {
        items[i - 1].smallest_acknowledged
    }
}

/// Whether each of `items` ends `gap + 2` below the smallest packet number of the range before
/// it, and starts `ack_range_length` below its own end, so that the ranges strictly descend.
pub open spec fn spec_ack_ranges_descend(items: Seq<QuicAckRangeFields>, first: u64) -> bool {
    forall|i: int|
        #![trigger items[i]]
        0 <= i < items.len() ==> {
            &&& items[i].largest_acknowledged + spec_decode_value(items[i].gap) + 2
                == spec_ack_range_previous(items, first, i)
            &&& items[i].smallest_acknowledged + spec_decode_value(items[i].ack_range_length)
                == items[i].largest_acknowledged
            &&& items[i].smallest_acknowledged < spec_ack_range_previous(items, first, i)
        }
}

/// Ranges that parse completely yield exactly `count` items, each `gap + 2` below the range
/// before it and `ack_range_length` long, strictly descending.
pub proof fn lemma_ack_range_items(b: Seq<u8>, start: int, prev: u64, offset: int, count: nat)
    requires
        0 <= start <= b.len(),
        spec_ack_ranges_end(b, start, prev, offset, count) is Ok,
    ensures
        spec_ack_range_items(b, start, prev, offset, count).len() == count,
        spec_ack_ranges_descend(spec_ack_range_items(b, start, prev, offset, count), prev),
    decreases count,
{
    if count > 0 {
        let sb = b.subrange(start, b.len() as int);
        let r = spec_ack_range(sb, prev, offset + start)->Ok_0;
        lemma_range_len(sb, prev, offset + start);
        let rest = spec_ack_range_items(b, start + r.len(), r.smallest_acknowledged, offset, (count - 1) as nat);
        lemma_ack_range_items(b, start + r.len(), r.smallest_acknowledged, offset, (count - 1) as nat);
        let items = spec_ack_range_items(b, start, prev, offset, count);
        assert(items == seq![r] + rest);
        assert forall|i: int| 0 <= i < items.len() implies {
            &&& items[i].largest_acknowledged + spec_decode_value(items[i].gap) + 2
                == spec_ack_range_previous(items, prev, i)
            &&& items[i].smallest_acknowledged + spec_decode_value(items[i].ack_range_length)
                == items[i].largest_acknowledged
            &&& items[i].smallest_acknowledged < spec_ack_range_previous(items, prev, i)
        } by {
            if i > 0 {
                assert(items[i] == rest[i - 1]);
                assert(rest[i - 1] == rest[i - 1]);
                if i > 1 {
                    assert(items[i - 1] == rest[i - 2]);
                }
                assert(spec_ack_range_previous(items, prev, i) == spec_ack_range_previous(
                    rest,
                    r.smallest_acknowledged,
                    i - 1,
                ));
            }
        }
    }
}

/// Ranges read from position `k + start` of `b` are those read from position `start` of the
/// bytes after `k`, with offsets moved by `k`.
proof fn lemma_ack_range_items_window(
    b: Seq<u8>,
    k: int,
    start: int,
    prev: u64,
    offset: int,
    count: nat,
)
    requires
        0 <= k,
        0 <= start,
        k + start <= b.len(),
    ensures
        spec_ack_range_items(b, k + start, prev, offset, count) == spec_ack_range_items(
            b.subrange(k, b.len() as int),
            start,
            prev,
            offset + k,
            count,
        ),
    decreases count,
{
    if count > 0 {
        let w = b.subrange(k, b.len() as int);
        let sb = b.subrange(k + start, b.len() as int);
        assert(w.subrange(start, w.len() as int) =~= sb);
        assert(offset + k + start == offset + (k + start));
        lemma_range_len(sb, prev, offset + k + start);
        if let Ok(r) = spec_ack_range(sb, prev, offset + k + start) {
            lemma_ack_range_items_window(
                b,
                k,
                start + r.len(),
                r.smallest_acknowledged,
                offset,
                (count - 1) as nat,
            );
            assert(k + start + r.len() == k + (start + r.len()));
        }
    }
}

/// The fields of an ACK or ACK_ECN frame.
pub struct QuicAckFields {
    /// The encoded frame type.
    pub frame_type: Seq<u8>,
    /// The encoded largest acknowledged packet number.
    pub largest_acknowledged: Seq<u8>,
    /// The encoded ACK delay.
    pub ack_delay: Seq<u8>,
    /// The encoded additional-range count.
    pub ack_range_count: Seq<u8>,
    /// The encoded first ACK range.
    pub first_ack_range: Seq<u8>,
    /// The smallest packet number in the first range.
    pub first_smallest_acknowledged: u64,
    /// The encoded additional ranges.
    pub ranges: Seq<u8>,
    /// The encoded ECN counts of an ACK_ECN frame.
    pub ecn_counts: Option<(Seq<u8>, Seq<u8>, Seq<u8>)>,
    /// The frame's length.
    pub frame_len: nat,
}

/// The ECN counts that start at `s` in the ACK_ECN frame `b` starts with.
pub open spec fn spec_ecn_counts(b: Seq<u8>, s: int, offset: int) -> Result<
    (Seq<u8>, Seq<u8>, Seq<u8>),
    QuicFrameParseError,
> {
    match spec_field_at(b, s, offset, QuicFrameField::Ect0Count) {
        Err(e) => Err(e),
        Ok(e0) => match spec_field_at(b, s + e0.len(), offset, QuicFrameField::Ect1Count) {
            Err(e) => Err(e),
            Ok(e1) => match spec_field_at(b, s + e0.len() + e1.len(), offset, QuicFrameField::EcnCeCount) {
                Err(e) => Err(e),
                Ok(ce) => Ok((e0, e1, ce)),
            },
        },
    }
}

/// The four fixed fields after the type of the ACK frame `b` starts with.
pub open spec fn spec_ack_head(b: Seq<u8>, frame_type: Seq<u8>, offset: int) -> Result<
    (Seq<u8>, Seq<u8>, Seq<u8>, Seq<u8>),
    QuicFrameParseError,
> {
    let s0 = frame_type.len() as int;
    match spec_field_at(b, s0, offset, QuicFrameField::LargestAcknowledged) {
        Err(e) => Err(e),
        Ok(la) => match spec_field_at(b, s0 + la.len(), offset, QuicFrameField::AckDelay) {
            Err(e) => Err(e),
            Ok(ad) => match spec_field_at(b, s0 + la.len() + ad.len(), offset, QuicFrameField::AckRangeCount) {
                Err(e) => Err(e),
                Ok(arc) => match spec_field_at(
                    b,
                    s0 + la.len() + ad.len() + arc.len(),
                    offset,
                    QuicFrameField::FirstAckRange,
                ) {
                    Err(e) => Err(e),
                    Ok(far) => Ok((la, ad, arc, far)),
                },
            },
        },
    }
}

/// The ACK or ACK_ECN frame that `b` starts with, its type already read, or the first error.
pub open spec fn spec_ack(b: Seq<u8>, frame_type: Seq<u8>, offset: int) -> Result<
    QuicAckFields,
    QuicFrameParseError,
> {
    match spec_ack_head(b, frame_type, offset) {
        Err(e) => Err(e),
        Ok((la, ad, arc, far)) => {
            let s3 = (frame_type.len() + la.len() + ad.len() + arc.len()) as int;
            let rs = s3 + far.len();
            match spec_subtract(spec_decode_value(la), spec_decode_value(far), 0) {
                None => Err(
                    QuicFrameParseError::AckRangeUnderflow {
                        field: QuicFrameField::FirstAckRange,
                        offset: (offset + s3) as usize,
                        base: spec_decode_value(la),
                        value: spec_decode_value(far),
                        adjustment: 0,
                    },
                ),
                Some(fs) => match spec_ack_ranges_end(
                    b,
                    rs,
                    fs,
                    offset,
                    spec_decode_value(arc) as nat,
                ) {
                    Err(e) => Err(e),
                    Ok(re) => {
                        let head = QuicAckFields {
                            frame_type,
                            largest_acknowledged: la,
                            ack_delay: ad,
                            ack_range_count: arc,
                            first_ack_range: far,
                            first_smallest_acknowledged: fs,
                            ranges: b.subrange(rs, re),
                            ecn_counts: None,
                            frame_len: re as nat,
                        };
                        if spec_decode_value(frame_type) == 3 {
                            match spec_ecn_counts(b, re, offset) {
                                Err(e) => Err(e),
                                Ok((e0, e1, ce)) => Ok(
                                    QuicAckFields {
                                        ecn_counts: Some((e0, e1, ce)),
                                        frame_len: (re + e0.len() + e1.len() + ce.len()) as nat,
                                        ..head
                                    },
                                ),
                            }
                        } else {
                            Ok(head)
                        }
                    },
                }
            }
        },
    }
}

/// A checked borrowed RFC 9000 ACK or ACK_ECN frame view.
#[derive(Clone, Copy, Debug, PartialEq, Eq)]
pub struct QuicAckFrame<'a> {
    bytes: &'a [u8],
    frame_type: QuicVarInt<'a>,
    largest_acknowledged: QuicVarInt<'a>,
    ack_delay: QuicVarInt<'a>,
    ack_range_count: QuicVarInt<'a>,
    first_ack_range: QuicVarInt<'a>,
    first_smallest_acknowledged: u64,
    ranges: &'a [u8],
    ranges_offset: usize,
    ecn_counts: Option<QuicEcnCounts<'a>>,
}

impl<'a> View for QuicAckFrame<'a> {
    type V = Seq<u8>;

    closed spec fn view(&self) -> Seq<u8> {
        self.bytes@
    }
}

impl<'a> QuicAckFrame<'a> {
    #[verifier::type_invariant]
    closed spec fn inv(self) -> bool {
        &&& self.first_smallest_acknowledged + self.first_ack_range.spec_value()
            == self.largest_acknowledged.spec_value()
        &&& self.ranges_offset + self.ranges@.len() <= usize::MAX
        &&& spec_ack_ranges_end(
            self.ranges@,
            0,
            self.first_smallest_acknowledged,
            self.ranges_offset as int,
            self.ack_range_count.spec_value() as nat,
        ) == Ok::<int, QuicFrameParseError>(self.ranges@.len() as int)
    }

    /// The parsed fields.
    pub closed spec fn fields(&self) -> QuicAckFields {
        QuicAckFields {
            frame_type: self.frame_type@,
            largest_acknowledged: self.largest_acknowledged@,
            ack_delay: self.ack_delay@,
            ack_range_count: self.ack_range_count@,
            first_ack_range: self.first_ack_range@,
            first_smallest_acknowledged: self.first_smallest_acknowledged,
            ranges: self.ranges@,
            ecn_counts: match self.ecn_counts {
                Some(c) => Some(c.fields()),
                None => None,
            },
            frame_len: self.bytes@.len(),
        }
    }

    /// The sequence offset at which the additional ranges start.
    pub closed spec fn spec_ranges_offset(&self) -> int {
        self.ranges_offset as int
    }

    /// Returns the exact encoded frame bytes.
    pub fn as_bytes(self) -> (r: &'a [u8])
        ensures
            r@ == self@,
    {
        self.bytes
    }

    /// Returns the exact encoded frame-type variable integer.
    pub fn frame_type(self) -> (r: QuicVarInt<'a>)
        ensures
            r@ == self.fields().frame_type,
    {
        self.frame_type
    }

    /// Returns the exact encoded largest-acknowledged variable integer.
    pub fn largest_acknowledged(self) -> (r: QuicVarInt<'a>)
        ensures
            r@ == self.fields().largest_acknowledged,
    {
        self.largest_acknowledged
    }

    /// Returns the exact encoded ACK-delay variable integer.
    pub fn ack_delay(self) -> (r: QuicVarInt<'a>)
        ensures
            r@ == self.fields().ack_delay,
    {
        self.ack_delay
    }

    /// Returns the exact encoded additional ACK-range count variable integer.
    pub fn ack_range_count(self) -> (r: QuicVarInt<'a>)
        ensures
            r@ == self.fields().ack_range_count,
    {
        self.ack_range_count
    }

    /// Returns the exact encoded first ACK-range variable integer.
    pub fn first_ack_range(self) -> (r: QuicVarInt<'a>)
        ensures
            r@ == self.fields().first_ack_range,
    {
        self.first_ack_range
    }

    /// Returns the decoded smallest packet number in the first ACK range.
    pub fn first_smallest_acknowledged(self) -> (r: u64)
        ensures
            r == self.fields().first_smallest_acknowledged,
            r + spec_decode_value(self.fields().first_ack_range) == spec_decode_value(
                self.fields().largest_acknowledged,
            ),
    {
        proof {
            use_type_invariant(&self);
        }
        self.first_smallest_acknowledged
    }

    /// Returns a fresh iterator over additional ACK ranges in wire order.
    pub fn ranges(self) -> (r: QuicAckRanges<'a>)
        ensures
            r.spec_remaining() == self.fields().ranges,
            r.spec_remaining_count() == spec_decode_value(self.fields().ack_range_count),
            r.spec_previous_smallest() == self.fields().first_smallest_acknowledged,
            r.spec_offset() == self.spec_ranges_offset(),
            !r.spec_failed(),
            r.spec_complete(),
            r.spec_items().len() == spec_decode_value(self.fields().ack_range_count),
            spec_ack_ranges_descend(r.spec_items(), self.fields().first_smallest_acknowledged),
    {
        proof {
            use_type_invariant(&self);
            lemma_ack_range_items(
                self.ranges@,
                0,
                self.first_smallest_acknowledged,
                self.ranges_offset as int,
                self.ack_range_count.spec_value() as nat,
            );
        }
        QuicAckRanges {
            remaining: self.ranges,
            remaining_count: self.ack_range_count.value(),
            previous_smallest: self.first_smallest_acknowledged,
            offset: self.ranges_offset,
            failed: false,
        }
    }

    /// Returns exact ECN count fields for an ACK_ECN frame.
    pub fn ecn_counts(self) -> (r: Option<QuicEcnCounts<'a>>)
        ensures
            match r {
                Some(c) => self.fields().ecn_counts == Some(c.fields()),
                None => self.fields().ecn_counts is None,
            },
    {
        self.ecn_counts
    }
}

/// One checked additional ACK range in an ACK or ACK_ECN frame.
#[derive(Clone, Copy, Debug, PartialEq, Eq)]
pub struct QuicAckRange<'a> {
    bytes: &'a [u8],
    gap: QuicVarInt<'a>,
    ack_range_length: QuicVarInt<'a>,
    largest_acknowledged: u64,
    smallest_acknowledged: u64,
}

impl<'a> View for QuicAckRange<'a> {
    type V = Seq<u8>;

    closed spec fn view(&self) -> Seq<u8> {
        self.bytes@
    }
}

impl<'a> QuicAckRange<'a> {
    /// The parsed fields.
    pub closed spec fn fields(&self) -> QuicAckRangeFields {
        QuicAckRangeFields {
            gap: self.gap@,
            ack_range_length: self.ack_range_length@,
            largest_acknowledged: self.largest_acknowledged,
            smallest_acknowledged: self.smallest_acknowledged,
        }
    }

    /// Returns the exact encoded Gap and ACK Range Length bytes.
    pub fn as_bytes(self) -> (r: &'a [u8])
        ensures
            r@ == self@,
    {
        self.bytes
    }

    /// Returns the exact encoded Gap variable integer.
    pub fn gap(self) -> (r: QuicVarInt<'a>)
        ensures
            r@ == self.fields().gap,
    {
        self.gap
    }

    /// Returns the exact encoded ACK Range Length variable integer.
    pub fn ack_range_length(self) -> (r: QuicVarInt<'a>)
        ensures
            r@ == self.fields().ack_range_length,
    {
        self.ack_range_length
    }

    /// Returns the decoded largest packet number in this ACK range.
    pub fn largest_acknowledged(self) -> (r: u64)
        ensures
            r == self.fields().largest_acknowledged,
    {
        self.largest_acknowledged
    }

    /// Returns the decoded smallest packet number in this ACK range.
    pub fn smallest_acknowledged(self) -> (r: u64)
        ensures
            r == self.fields().smallest_acknowledged,
    {
        self.smallest_acknowledged
    }
}

/// A fused iterator over checked additional ACK ranges.
#[derive(Clone, Copy, Debug)]
pub struct QuicAckRanges<'a> {
    remaining: &'a [u8],
    remaining_count: u64,
    previous_smallest: u64,
    offset: usize,
    failed: bool,
}

impl<'a> QuicAckRanges<'a> {
    #[verifier::type_invariant]
    closed spec fn inv(self) -> bool {
        self.offset + self.remaining@.len() <= usize::MAX
    }

    /// The encoded ranges not yet returned.
    pub closed spec fn spec_remaining(&self) -> Seq<u8> {
        self.remaining@
    }

    /// The number of ranges not yet returned.
    pub closed spec fn spec_remaining_count(&self) -> u64 {
        self.remaining_count
    }

    /// The smallest packet number of the range returned last.
    pub closed spec fn spec_previous_smallest(&self) -> u64 {
        self.previous_smallest
    }

    /// The sequence offset of the remaining ranges.
    pub closed spec fn spec_offset(&self) -> int {
        self.offset as int
    }

    /// Whether a range failed to parse.
    pub closed spec fn spec_failed(&self) -> bool {
        self.failed
    }

    /// The ranges that the iteration still yields.
    pub open spec fn spec_items(&self) -> Seq<QuicAckRangeFields> {
        if self.spec_failed() {
            Seq::empty()
        } else {
            spec_ack_range_items(
                self.spec_remaining(),
                0,
                self.spec_previous_smallest(),
                self.spec_offset(),
                self.spec_remaining_count() as nat,
            )
        }
    }

    /// Whether the remaining ranges all parse and use up exactly the remaining bytes.
    pub open spec fn spec_complete(&self) -> bool {
        &&& !self.spec_failed()
        &&& spec_ack_ranges_end(
            self.spec_remaining(),
            0,
            self.spec_previous_smallest(),
            self.spec_offset(),
            self.spec_remaining_count() as nat,
        ) == Ok::<int, QuicFrameParseError>(self.spec_remaining().len() as int)
    }

    /// Returns the next additional range, or `None` once all are returned or one fails.
    pub fn next(&mut self) -> (r: Option<QuicAckRange<'a>>)
        ensures
            old(self).spec_failed() || old(self).spec_remaining_count() == 0 ==> r is None
                && *final(self) == *old(self),
            !old(self).spec_failed() && old(self).spec_remaining_count() != 0 ==> match spec_ack_range(
                old(self).spec_remaining(),
                old(self).spec_previous_smallest(),
                old(self).spec_offset(),
            ) {
                Ok(f) => r matches Some(range) && range.fields() == f && range@
                    == old(self).spec_remaining().subrange(0, f.len()) && final(self).spec_remaining()
                    == old(self).spec_remaining().subrange(
                    f.len(),
                    old(self).spec_remaining().len() as int,
                ) && final(self).spec_remaining_count() == old(self).spec_remaining_count() - 1
                    && final(self).spec_previous_smallest() == f.smallest_acknowledged
                    && final(self).spec_offset() == old(self).spec_offset() + f.len()
                    && !final(self).spec_failed(),
                Err(_) => r is None && final(self).spec_failed() && final(self).spec_remaining_count()
                    == 0,
            },
            old(self).spec_complete() && old(self).spec_remaining_count() != 0 ==> r is Some
                && final(self).spec_complete(),
            match r {
                None => old(self).spec_items().len() == 0 && final(self).spec_items().len() == 0,
                Some(range) => old(self).spec_items().len() > 0 && range.fields()
                    == old(self).spec_items()[0] && final(self).spec_items()
                    == old(self).spec_items().drop_first(),
            },
    {
        proof {
            use_type_invariant(&*self);
        }
        if self.failed || self.remaining_count == 0 {
            return None;
        }
        let ghost old_self = *self;
        proof {
            assert(old_self.remaining@.subrange(0, old_self.remaining@.len() as int)
                =~= old_self.remaining@);
        }
        proof {
            let items = old_self.spec_items();
            assert(items.len() == 0 <==> spec_ack_range(
                old_self.remaining@,
                old_self.previous_smallest,
                old_self.offset as int,
            ) is Err);
        }
        let parsed = match parse_range(self.remaining, self.previous_smallest, self.offset) {
            Ok(range) => range,
            Err(_) => {
                self.failed = true;
                self.remaining_count = 0;
                return None;
            },
        };
        let n = parsed.bytes.len();
        self.remaining = slice_from(self.remaining, n);
        self.remaining_count = self.remaining_count - 1;
        self.previous_smallest = parsed.smallest_acknowledged;
        self.offset = self.offset + n;
        proof {
            let f = parsed.fields();
            let tail = spec_ack_range_items(
                old_self.remaining@,
                n as int,
                f.smallest_acknowledged,
                old_self.offset as int,
                self.remaining_count as nat,
            );
            assert(old_self.spec_items() == seq![f] + tail);
            assert(old_self.spec_items().drop_first() =~= tail);
            lemma_ack_range_items_window(
                old_self.remaining@,
                n as int,
                0,
                f.smallest_acknowledged,
                old_self.offset as int,
                self.remaining_count as nat,
            );
            if old_self.spec_complete() {
                assert(spec_ack_ranges_end(
                    old_self.remaining@,
                    n as int,
                    self.previous_smallest,
                    old_self.offset as int,
                    self.remaining_count as nat,
                ) == Ok::<int, QuicFrameParseError>(old_self.remaining@.len() as int));
                lemma_ranges_end_window(
                    old_self.remaining@,
                    n as int,
                    old_self.remaining@.len() as int,
                    n as int,
                    self.previous_smallest,
                    old_self.offset as int,
                    self.remaining_count as nat,
                );
                assert(old_self.remaining@.subrange(n as int, old_self.remaining@.len() as int)
                    =~= self.remaining@);
            }
        }
        Some(parsed)
    }
}

/// Exact ECN count fields carried by an RFC 9000 ACK_ECN frame.
#[derive(Clone, Copy, Debug, PartialEq, Eq)]
pub struct QuicEcnCounts<'a> {
    bytes: &'a [u8],
    ect0_count: QuicVarInt<'a>,
    ect1_count: QuicVarInt<'a>,
    ecn_ce_count: QuicVarInt<'a>,
}

impl<'a> View for QuicEcnCounts<'a> {
    type V = Seq<u8>;

    closed spec fn view(&self) -> Seq<u8> {
        self.bytes@
    }
}

impl<'a> QuicEcnCounts<'a> {
    /// The encoded ECT(0), ECT(1) and ECN-CE counts.
    pub closed spec fn fields(&self) -> (Seq<u8>, Seq<u8>, Seq<u8>) {
        (self.ect0_count@, self.ect1_count@, self.ecn_ce_count@)
    }

    /// Returns the exact encoded ECN count bytes.
    pub fn as_bytes(self) -> (r: &'a [u8])
        ensures
            r@ == self@,
    {
        self.bytes
    }

    /// Returns the exact encoded ECT(0) count variable integer.
    pub fn ect0_count(self) -> (r: QuicVarInt<'a>)
        ensures
            r@ == self.fields().0,
    {
        self.ect0_count
    }

    /// Returns the exact encoded ECT(1) count variable integer.
    pub fn ect1_count(self) -> (r: QuicVarInt<'a>)
        ensures
            r@ == self.fields().1,
    {
        self.ect1_count
    }

    /// Returns the exact encoded ECN-CE count variable integer.
    pub fn ecn_ce_count(self) -> (r: QuicVarInt<'a>)
        ensures
            r@ == self.fields().2,
    {
        self.ecn_ce_count
    }
}

/// A variable integer read from `s` reads the same from any longer sequence that `s` starts.
proof fn lemma_field_extends(b: Seq<u8>, w: Seq<u8>, st: int, offset: int, field: QuicFrameField)
    requires
        0 <= st <= w.len(),
        w.len() <= b.len(),
        w == b.subrange(0, w.len() as int),
        spec_field_at(b, st, offset, field) matches Ok(v) && st + v.len() <= w.len(),
    ensures
        spec_field_at(w, st, offset, field) == spec_field_at(b, st, offset, field),
{
    let rb = b.subrange(st, b.len() as int);
    let rw = w.subrange(st, w.len() as int);
    assert(rw =~= rb.subrange(0, rw.len() as int));
    assert(rw[0] == rb[0]);
    assert(spec_required(rw) == spec_required(rb));
    assert(rw.subrange(0, spec_required(rw) as int) =~= rb.subrange(0, spec_required(rb) as int));
}

/// An ACK range read from `b` reads the same from `b` cut off at or after its end.
proof fn lemma_range_truncate(b: Seq<u8>, j: int, prev: u64, offset: int)
    requires
        0 <= j <= b.len(),
        spec_ack_range(b, prev, offset) matches Ok(r) && r.len() <= j,
    ensures
        spec_ack_range(b.subrange(0, j), prev, offset) == spec_ack_range(b, prev, offset),
{
    let w = b.subrange(0, j);
    let r = spec_ack_range(b, prev, offset)->Ok_0;
    lemma_field_extends(b, w, 0, offset, QuicFrameField::AckGap);
    lemma_field_extends(b, w, r.gap.len() as int, offset, QuicFrameField::AckRangeLength);
}

/// Ranges that parse in `b` from `start` to `e` parse the same in the window `k..m` of `b`
/// that holds them, with positions and offsets moved by `k`.
proof fn lemma_ranges_end_window(
    b: Seq<u8>,
    k: int,
    m: int,
    start: int,
    prev: u64,
    offset: int,
    count: nat,
)
    requires
        0 <= k <= start <= m <= b.len(),
        spec_ack_ranges_end(b, start, prev, offset, count) matches Ok(e) && e <= m,
    ensures
        spec_ack_ranges_end(b.subrange(k, m), start - k, prev, offset + k, count) == Ok::<
            int,
            QuicFrameParseError,
        >(spec_ack_ranges_end(b, start, prev, offset, count)->Ok_0 - k),
    decreases count,
{
    if count > 0 {
        let w = b.subrange(k, m);
        let sb = b.subrange(start, b.len() as int);
        let sw = w.subrange(start - k, w.len() as int);
        let r = spec_ack_range(sb, prev, offset + start)->Ok_0;
        lemma_ranges_end_ge(b, start + r.len(), r.smallest_acknowledged, offset, (count - 1) as nat);
        assert(sw =~= sb.subrange(0, m - start));
        lemma_range_truncate(sb, m - start, prev, offset + start);
        assert(offset + k + (start - k) == offset + start);
        lemma_ranges_end_window(
            b,
            k,
            m,
            start + r.len(),
            r.smallest_acknowledged,
            offset,
            (count - 1) as nat,
        );
    }
}

/// Reading ACK ranges never reports an empty frame sequence.
pub(crate) proof fn lemma_ranges_end_error(b: Seq<u8>, start: int, prev: u64, offset: int, count: nat)
    ensures
        spec_ack_ranges_end(b, start, prev, offset, count) matches Err(e) ==> !(e is EmptySequence),
    decreases count,
{
    if count > 0 {
        if let Ok(r) = spec_ack_range(b.subrange(start, b.len() as int), prev, offset + start) {
            lemma_ranges_end_error(b, start + r.len(), r.smallest_acknowledged, offset, (count - 1) as nat);
        }
    }
}

/// The end of parsed ACK ranges is never before their start.
pub(crate) proof fn lemma_ranges_end_ge(b: Seq<u8>, start: int, prev: u64, offset: int, count: nat)
    requires
        0 <= start <= b.len(),
    ensures
        spec_ack_ranges_end(b, start, prev, offset, count) matches Ok(e) ==> start <= e <= b.len(),
    decreases count,
{
    if count > 0 {
        let sb = b.subrange(start, b.len() as int);
        match spec_ack_range(sb, prev, offset + start) {
            Ok(r) => {
                lemma_range_len(sb, prev, offset + start);
                lemma_ranges_end_ge(b, start + r.len(), r.smallest_acknowledged, offset, (count - 1) as nat);
            },
            Err(_) => {},
        }
    }
}

/// A parsed ACK range lies within the bytes it was read from.
proof fn lemma_range_len(b: Seq<u8>, prev: u64, offset: int)
    ensures
        spec_ack_range(b, prev, offset) matches Ok(r) ==> 0 < r.len() <= b.len(),
{
    match spec_field_at(b, 0, offset, QuicFrameField::AckGap) {
        Ok(gap) => {
            assert(b.subrange(0, b.len() as int) =~= b);
        },
        Err(_) => {},
    }
}

fn subtract(base: u64, value: u64, adjustment: u64, field: QuicFrameField, offset: usize) -> (r: Result<
    u64,
    QuicFrameParseError,
>)
    ensures
        match spec_subtract(base, value, adjustment) {
            Some(v) => r == Ok::<u64, QuicFrameParseError>(v),
            None => r == Err::<u64, QuicFrameParseError>(
                QuicFrameParseError::AckRangeUnderflow { field, offset, base, value, adjustment },
            ),
        },
{
    if base < value || base - value < adjustment {
        Err(QuicFrameParseError::AckRangeUnderflow { field, offset, base, value, adjustment })
    } else {
        Ok(base - value - adjustment)
    }
}

fn parse_range<'a>(bytes: &'a [u8], previous_smallest: u64, offset: usize) -> (r: Result<
    QuicAckRange<'a>,
    QuicFrameParseError,
>)
    requires
        offset + bytes@.len() <= usize::MAX,
    ensures
        match r {
            Ok(range) => spec_ack_range(bytes@, previous_smallest, offset as int) == Ok::<
                QuicAckRangeFields,
                QuicFrameParseError,
            >(range.fields()) && range@ == bytes@.subrange(0, range.fields().len()),
            Err(e) => spec_ack_range(bytes@, previous_smallest, offset as int) == Err::<
                QuicAckRangeFields,
                QuicFrameParseError,
            >(e),
        },
{
    let gap = match field_at(bytes, 0, offset, QuicFrameField::AckGap) {
        Ok(v) => v,
        Err(e) => return Err(e),
    };
    let length_start = gap.byte_len();
    let ack_range_length = match field_at(bytes, length_start, offset, QuicFrameField::AckRangeLength) {
        Ok(v) => v,
        Err(e) => return Err(e),
    };
    let largest_acknowledged = match subtract(
        previous_smallest,
        gap.value(),
        2,
        QuicFrameField::AckGap,
        offset,
    ) {
        Ok(v) => v,
        Err(e) => return Err(e),
    };
    let smallest_acknowledged = match subtract(
        largest_acknowledged,
        ack_range_length.value(),
        0,
        QuicFrameField::AckRangeLength,
        offset + length_start,
    ) {
        Ok(v) => v,
        Err(e) => return Err(e),
    };
    let end = length_start + ack_range_length.byte_len();
    Ok(
        QuicAckRange {
            bytes: slice_range(bytes, 0, end),
            gap,
            ack_range_length,
            largest_acknowledged,
            smallest_acknowledged,
        },
    )
}

struct AckHead<'a> {
    largest_acknowledged: QuicVarInt<'a>,
    ack_delay: QuicVarInt<'a>,
    ack_range_count: QuicVarInt<'a>,
    first_ack_range: QuicVarInt<'a>,
}

fn parse_ack_head<'a>(bytes: &'a [u8], frame_type: QuicVarInt<'a>, offset: usize) -> (r: Result<
    AckHead<'a>,
    QuicFrameParseError,
>)
    requires
        spec_frame_type_prefix(bytes@, frame_type@),
        offset + bytes@.len() <= usize::MAX,
    ensures
        match r {
            Ok(h) => spec_ack_head(bytes@, frame_type@, offset as int) == Ok::<
                (Seq<u8>, Seq<u8>, Seq<u8>, Seq<u8>),
                QuicFrameParseError,
            >(
                (
                    h.largest_acknowledged@,
                    h.ack_delay@,
                    h.ack_range_count@,
                    h.first_ack_range@,
                ),
            ) && frame_type@.len() + h.largest_acknowledged@.len() + h.ack_delay@.len()
                + h.ack_range_count@.len() + h.first_ack_range@.len() <= bytes@.len(),
            Err(e) => spec_ack_head(bytes@, frame_type@, offset as int) == Err::<
                (Seq<u8>, Seq<u8>, Seq<u8>, Seq<u8>),
                QuicFrameParseError,
            >(e),
        },
{
    let mut cursor = frame_type.byte_len();
    let largest_acknowledged = match field_at(bytes, cursor, offset, QuicFrameField::LargestAcknowledged) {
        Ok(v) => v,
        Err(e) => return Err(e),
    };
    cursor = cursor + largest_acknowledged.byte_len();
    let ack_delay = match field_at(bytes, cursor, offset, QuicFrameField::AckDelay) {
        Ok(v) => v,
        Err(e) => return Err(e),
    };
    cursor = cursor + ack_delay.byte_len();
    let ack_range_count = match field_at(bytes, cursor, offset, QuicFrameField::AckRangeCount) {
        Ok(v) => v,
        Err(e) => return Err(e),
    };
    cursor = cursor + ack_range_count.byte_len();
    let first_ack_range = match field_at(bytes, cursor, offset, QuicFrameField::FirstAckRange) {
        Ok(v) => v,
        Err(e) => return Err(e),
    };
    Ok(AckHead { largest_acknowledged, ack_delay, ack_range_count, first_ack_range })
}

fn parse_ecn_counts<'a>(bytes: &'a [u8], start: usize, offset: usize) -> (r: Result<
    QuicEcnCounts<'a>,
    QuicFrameParseError,
>)
    requires
        start <= bytes@.len(),
        offset + bytes@.len() <= usize::MAX,
    ensures
        match r {
            Ok(c) => spec_ecn_counts(bytes@, start as int, offset as int) == Ok::<
                (Seq<u8>, Seq<u8>, Seq<u8>),
                QuicFrameParseError,
            >(c.fields()) && start + c@.len() <= bytes@.len() && c@ == bytes@.subrange(
                start as int,
                start + c@.len(),
            ) && c@.len() == c.fields().0.len() + c.fields().1.len() + c.fields().2.len(),
            Err(e) => spec_ecn_counts(bytes@, start as int, offset as int) == Err::<
                (Seq<u8>, Seq<u8>, Seq<u8>),
                QuicFrameParseError,
            >(e),
        },
{
    let mut cursor = start;
    let ect0_count = match field_at(bytes, cursor, offset, QuicFrameField::Ect0Count) {
        Ok(v) => v,
        Err(e) => return Err(e),
    };
    cursor = cursor + ect0_count.byte_len();
    let ect1_count = match field_at(bytes, cursor, offset, QuicFrameField::Ect1Count) {
        Ok(v) => v,
        Err(e) => return Err(e),
    };
    cursor = cursor + ect1_count.byte_len();
    let ecn_ce_count = match field_at(bytes, cursor, offset, QuicFrameField::EcnCeCount) {
        Ok(v) => v,
        Err(e) => return Err(e),
    };
    cursor = cursor + ecn_ce_count.byte_len();
    Ok(QuicEcnCounts { bytes: slice_range(bytes, start, cursor), ect0_count, ect1_count, ecn_ce_count })
}

/// Walks `count` additional ACK ranges from `start`, returning their end and the smallest
/// packet number of the last one.
fn walk_ranges(bytes: &[u8], start: usize, first_smallest: u64, offset: usize, count: u64) -> (r: Result<
    (usize, u64),
    QuicFrameParseError,
>)
    requires
        start <= bytes@.len(),
        offset + bytes@.len() <= usize::MAX,
    ensures
        match r {
            Ok((end, _)) => spec_ack_ranges_end(bytes@, start as int, first_smallest, offset as int, count as nat)
                == Ok::<int, QuicFrameParseError>(end as int) && start <= end <= bytes@.len(),
            Err(e) => spec_ack_ranges_end(bytes@, start as int, first_smallest, offset as int, count as nat)
                == Err::<int, QuicFrameParseError>(e),
        },
{
    let mut cursor = start;
    let mut previous_smallest = first_smallest;
    let mut remaining_count = count;
    while remaining_count != 0
        invariant
            start <= cursor <= bytes@.len(),
            offset + bytes@.len() <= usize::MAX,
            spec_ack_ranges_end(bytes@, start as int, first_smallest, offset as int, count as nat)
                == spec_ack_ranges_end(
                bytes@,
                cursor as int,
                previous_smallest,
                offset as int,
                remaining_count as nat,
            ),
        decreases remaining_count,
    {
        let range = match parse_range(slice_from(bytes, cursor), previous_smallest, offset + cursor) {
            Ok(range) => range,
            Err(e) => return Err(e),
        };
        cursor = cursor + range.bytes.len();
        previous_smallest = range.smallest_acknowledged;
        remaining_count = remaining_count - 1;
    }
    Ok((cursor, previous_smallest))
}

pub(crate) fn parse_ack<'a>(bytes: &'a [u8], frame_type: QuicVarInt<'a>, offset: usize) -> (r: Result<
    (QuicAckFrame<'a>, &'a [u8]),
    QuicFrameParseError,
>)
    requires
        spec_frame_type_prefix(bytes@, frame_type@),
        offset + bytes@.len() <= usize::MAX,
    ensures
        match r {
            Ok((frame, suffix)) => spec_ack(bytes@, frame_type@, offset as int) == Ok::<
                QuicAckFields,
                QuicFrameParseError,
            >(frame.fields()) && frame@.len() == frame.fields().frame_len && frame.fields().frame_type == frame_type@ && frame_type@.len() <= frame@.len() <= bytes@.len() && frame@ == bytes@.subrange(0, frame@.len() as int) && suffix@
                == bytes@.subrange(frame@.len() as int, bytes@.len() as int),
            Err(e) => spec_ack(bytes@, frame_type@, offset as int) == Err::<
                QuicAckFields,
                QuicFrameParseError,
            >(e),
        },
{
    let head = match parse_ack_head(bytes, frame_type, offset) {
        Ok(h) => h,
        Err(e) => return Err(e),
    };
    let first_start = frame_type.byte_len() + head.largest_acknowledged.byte_len()
        + head.ack_delay.byte_len() + head.ack_range_count.byte_len();
    let first_smallest_acknowledged = match subtract(
        head.largest_acknowledged.value(),
        head.first_ack_range.value(),
        0,
        QuicFrameField::FirstAckRange,
        offset + first_start,
    ) {
        Ok(v) => v,
        Err(e) => return Err(e),
    };
    let ranges_start = first_start + head.first_ack_range.byte_len();
    let (ranges_end, _) = match walk_ranges(
        bytes,
        ranges_start,
        first_smallest_acknowledged,
        offset,
        head.ack_range_count.value(),
    ) {
        Ok(p) => p,
        Err(e) => return Err(e),
    };
    let ranges = slice_range(bytes, ranges_start, ranges_end);
    let (ecn_counts, end) = if frame_type.value() == 3 {
        match parse_ecn_counts(bytes, ranges_end, offset) {
            Ok(c) => (Some(c), ranges_end + c.bytes.len()),
            Err(e) => return Err(e),
        }
    } else {
        (None, ranges_end)
    };
    proof {
        lemma_ranges_end_window(
            bytes@,
            ranges_start as int,
            ranges_end as int,
            ranges_start as int,
            first_smallest_acknowledged,
            offset as int,
            head.ack_range_count.spec_value() as nat,
        );
        assert(bytes@.subrange(ranges_start as int, ranges_end as int) =~= ranges@);
    }
    Ok(
        (
            QuicAckFrame {
                bytes: slice_range(bytes, 0, end),
                frame_type,
                largest_acknowledged: head.largest_acknowledged,
                ack_delay: head.ack_delay,
                ack_range_count: head.ack_range_count,
                first_ack_range: head.first_ack_range,
                first_smallest_acknowledged,
                ranges,
                ranges_offset: offset + ranges_start,
                ecn_counts,
            },
            slice_from(bytes, end),
        ),
    )
}

} // verus!
