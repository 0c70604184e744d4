//! The framer: from the bytes of a packet stream to its records.
//!
//! A record is a length, a packet type and a clock, four bytes each, then
//! the payload. The length counts the clock and the payload, so a record
//! takes eight bytes more than it says. The stream may still be growing: a
//! record that is not all there yet is left for the next call.

use crate::wire::{copy_range, le_bytes_of, le_u32_at, lemma_le_round_trip, read_u32};
use vstd::prelude::*;

verus! {

/// One record of a packet stream.
#[derive(Debug)]
pub struct RawPacket {
    pub packet_type: u32,
    /// Seconds since the start of the battle: a 32-bit float, by its bit
    /// pattern.
    pub clock: u32,
    pub payload: Vec<u8>,
}

/// The mathematical model of a record.
pub struct RawPacketView {
    pub packet_type: u32,
    pub clock: u32,
    pub payload: Seq<u8>,
}

impl View for RawPacket {
    type V = RawPacketView;

    open spec fn view(&self) -> RawPacketView {
        RawPacketView { packet_type: self.packet_type, clock: self.clock, payload: self.payload@ }
    }
}

/// The models of a run of records.
pub open spec fn packet_views(packets: Seq<RawPacket>) -> Seq<RawPacketView> {
    Seq::new(packets.len(), |i: int| packets[i]@)
}

/// What framing a buffer gives.
#[derive(Debug)]
pub struct Framed {
    /// The complete records at the start of the buffer, in their order.
    pub packets: Vec<RawPacket>,
    /// How many bytes those records took. What follows them is for the next
    /// call, with the bytes that have come since behind it.
    pub consumed: usize,
    /// Whether what follows them can never become a record, whatever comes
    /// behind it: it declares a length too short to hold its own clock.
    pub malformed: bool,
}

/// The bytes that the record at the start of a buffer takes, by the length
/// it declares.
pub open spec fn first_len(bytes: Seq<u8>) -> int {
    8 + le_u32_at(bytes, 0)
}

/// Whether a buffer starts with a complete record.
pub open spec fn has_record(bytes: Seq<u8>) -> bool {
    &&& bytes.len() >= 12
    &&& le_u32_at(bytes, 0) >= 4
    &&& bytes.len() >= first_len(bytes)
}

/// The record at the start of a buffer that starts with a complete one.
pub open spec fn first_record(bytes: Seq<u8>) -> RawPacketView {
    RawPacketView {
        packet_type: le_u32_at(bytes, 4),
        clock: le_u32_at(bytes, 8),
        payload: bytes.subrange(12, first_len(bytes)),
    }
}

/// The complete records at the start of a buffer.
pub open spec fn records(bytes: Seq<u8>) -> Seq<RawPacketView>
    decreases bytes.len(),
{
    if has_record(bytes) {
        seq![first_record(bytes)] + records(bytes.skip(first_len(bytes)))
    } else {
        Seq::empty()
    }
}

/// The bytes that the complete records at the start of a buffer take.
pub open spec fn consumed(bytes: Seq<u8>) -> int
    decreases bytes.len(),
{
    if has_record(bytes) {
        first_len(bytes) + consumed(bytes.skip(first_len(bytes)))
    } else {
        0
    }
}

/// Whether a buffer starts with a length too short for a record.
pub open spec fn starts_malformed(bytes: Seq<u8>) -> bool {
    bytes.len() >= 4 && le_u32_at(bytes, 0) < 4
}

/// The bytes of a record as they lie in a stream.
pub open spec fn encoded(packet: RawPacketView) -> Seq<u8> {
    le_bytes_of((packet.payload.len() + 4) as u32) + le_bytes_of(packet.packet_type) + le_bytes_of(
        packet.clock,
    ) + packet.payload
}

/// The bytes of a run of records as they lie in a stream, one behind the
/// other.
pub open spec fn encoded_all(packets: Seq<RawPacketView>) -> Seq<u8>
    decreases packets.len(),
{
    if packets.len() == 0 {
        Seq::empty()
    } else {
        encoded(packets[0]) + encoded_all(packets.skip(1))
    }
}

/// The bytes that a record takes in a stream: the length that it declares,
/// which counts its clock and its payload, and eight bytes more.
pub open spec fn record_len(packet: RawPacketView) -> int {
    8 + (packet.payload.len() as int + 4)
}

/// The bytes that a run of records takes in a stream.
pub open spec fn records_len(packets: Seq<RawPacketView>) -> int
    decreases packets.len(),
{
    if packets.len() == 0 {
        0
    } else {
        record_len(packets[0]) + records_len(packets.skip(1))
    }
}

/// The complete records take a part of the buffer, from its start.
pub proof fn lemma_consumed_within(bytes: Seq<u8>)
    ensures
        0 <= consumed(bytes) <= bytes.len(),
    decreases bytes.len(),
{
    if has_record(bytes) {
        lemma_consumed_within(bytes.skip(first_len(bytes)));
    }
}

/// What follows the complete records does not start with one.
pub proof fn lemma_rest_has_no_record(bytes: Seq<u8>)
    ensures
        0 <= consumed(bytes) <= bytes.len(),
        !has_record(bytes.skip(consumed(bytes))),
    decreases bytes.len(),
{
    lemma_consumed_within(bytes);
    if has_record(bytes) {
        let n = first_len(bytes);
        lemma_rest_has_no_record(bytes.skip(n));
        lemma_consumed_within(bytes.skip(n));
        assert(bytes.skip(n).skip(consumed(bytes.skip(n))) =~= bytes.skip(consumed(bytes)));
    } else {
        assert(bytes.skip(0) =~= bytes);
    }
}

/// Framing a grown buffer continues the framing of the buffer as it was.
///
/// Let `a` be a buffer and `b` the bytes that come behind it later. The
/// records of `a` with `b` behind it are the records of `a`, then the records
/// of what `a` left over with `b` behind it: no record is lost and none comes
/// twice. The bytes consumed add up in the same way.
pub proof fn lemma_framing_continues(a: Seq<u8>, b: Seq<u8>)
    ensures
        0 <= consumed(a) <= a.len(),
        records(a + b) == records(a) + records(a.skip(consumed(a)) + b),
        consumed(a + b) == consumed(a) + consumed(a.skip(consumed(a)) + b),
    decreases a.len(),
{
    lemma_consumed_within(a);
    if has_record(a) {
        let n = first_len(a);
        let ab = a + b;
        assert(ab[0] == a[0] && ab[1] == a[1] && ab[2] == a[2] && ab[3] == a[3]);
        assert(ab[4] == a[4] && ab[5] == a[5] && ab[6] == a[6] && ab[7] == a[7]);
        assert(ab[8] == a[8] && ab[9] == a[9] && ab[10] == a[10] && ab[11] == a[11]);
        assert(has_record(ab));
        assert(ab.subrange(12, n) =~= a.subrange(12, n));
        assert(first_record(ab) == first_record(a));
        assert(ab.skip(n) =~= a.skip(n) + b);
        lemma_framing_continues(a.skip(n), b);
        lemma_consumed_within(a.skip(n));
        assert(a.skip(n).skip(consumed(a.skip(n))) =~= a.skip(consumed(a)));
        assert(records(ab) =~= records(a) + records(a.skip(consumed(a)) + b));
    } else {
        assert(a.skip(0) + b =~= a + b);
    }
}

/// A buffer that holds complete records and then a partial one frames into
/// exactly those records, and the bytes consumed are those that the records
/// take by the lengths they declare.
///
/// The records are `packets`, each with a payload short enough for its
/// length to be declared; `tail` is what follows them, and starts with no
/// complete record.
pub proof fn lemma_framing_finds_complete_records(packets: Seq<RawPacketView>, tail: Seq<u8>)
    requires
        forall|i: int| 0 <= i < packets.len() ==> packets[i].payload.len() + 4 <= u32::MAX,
        !has_record(tail),
    ensures
        records(encoded_all(packets) + tail) == packets,
        consumed(encoded_all(packets) + tail) == records_len(packets),
        encoded_all(packets).len() == records_len(packets),
    decreases packets.len(),
{
    if packets.len() == 0 {
        assert(encoded_all(packets) + tail =~= tail);
    } else {
        let p = packets[0];
        let rest = packets.skip(1);
        let bytes = encoded_all(packets) + tail;
        let total = (p.payload.len() + 4) as u32;
        lemma_le_round_trip(total);
        lemma_le_round_trip(p.packet_type);
        lemma_le_round_trip(p.clock);
        let e = encoded(p);
        assert(e.len() == 12 + p.payload.len());
        assert(bytes =~= e + (encoded_all(rest) + tail));
        assert(bytes[0] == le_bytes_of(total)[0] && bytes[1] == le_bytes_of(total)[1] && bytes[2]
            == le_bytes_of(total)[2] && bytes[3] == le_bytes_of(total)[3]);
        assert(le_u32_at(bytes, 0) == total);
        assert(bytes[4] == le_bytes_of(p.packet_type)[0] && bytes[5] == le_bytes_of(
            p.packet_type,
        )[1] && bytes[6] == le_bytes_of(p.packet_type)[2] && bytes[7] == le_bytes_of(
            p.packet_type,
        )[3]);
        assert(le_u32_at(bytes, 4) == p.packet_type);
        assert(bytes[8] == le_bytes_of(p.clock)[0] && bytes[9] == le_bytes_of(p.clock)[1]
            && bytes[10] == le_bytes_of(p.clock)[2] && bytes[11] == le_bytes_of(p.clock)[3]);
        assert(le_u32_at(bytes, 8) == p.clock);
        assert(first_len(bytes) == e.len());
        assert(has_record(bytes));
        assert(bytes.subrange(12, first_len(bytes)) =~= p.payload);
        assert(first_record(bytes) == p);
        assert(bytes.skip(first_len(bytes)) =~= encoded_all(rest) + tail);
        lemma_framing_finds_complete_records(rest, tail);
        assert(records(bytes) =~= packets);
    }
}

/// The start of a record that is not all there yet holds no complete
/// record.
pub proof fn lemma_partial_record_is_no_record(packet: RawPacketView, n: int)
    requires
        packet.payload.len() + 4 <= u32::MAX,
        0 <= n < encoded(packet).len(),
    ensures
        !has_record(encoded(packet).take(n)),
{
    let e = encoded(packet);
    let t = e.take(n);
    let total = (packet.payload.len() + 4) as u32;
    lemma_le_round_trip(total);
    if n >= 12 {
        assert(t[0] == le_bytes_of(total)[0] && t[1] == le_bytes_of(total)[1] && t[2]
            == le_bytes_of(total)[2] && t[3] == le_bytes_of(total)[3]);
        assert(le_u32_at(t, 0) == total);
    }
}

/// Splits a buffer into the complete records at its start and the rest.
///
/// The buffer holds records one behind the other, and may end in the middle
/// of one: that one is not consumed. To go on later, keep the bytes from
/// `consumed` on, put what has come since behind them, and frame again.
pub fn frame(buffer: &[u8]) -> (r: Framed)
    ensures
        packet_views(r.packets@) == records(buffer@),
        r.consumed == consumed(buffer@),
        r.consumed <= buffer@.len(),
        r.malformed == starts_malformed(buffer@.skip(r.consumed as int)),
{
    let mut packets: Vec<RawPacket> = Vec::new();
    let mut at: usize = 0;
    let mut malformed = false;
    assert(buffer@.skip(0) =~= buffer@);
    assert(packet_views(packets@) =~= Seq::empty());
    loop
        invariant_except_break
            !malformed,
        invariant
            at <= buffer@.len(),
            records(buffer@) == packet_views(packets@) + records(buffer@.skip(at as int)),
            consumed(buffer@) == at + consumed(buffer@.skip(at as int)),
        ensures
            at <= buffer@.len(),
            packet_views(packets@) == records(buffer@),
            consumed(buffer@) == at,
            malformed == starts_malformed(buffer@.skip(at as int)),
        decreases buffer@.len() - at,
    {
        let ghost rest = buffer@.skip(at as int);
        let left: usize = buffer.len() - at;
        if left < 4 {
            assert(!has_record(rest));
            break ;
        }
        let total: u32 = read_u32(buffer, at);
        assert(total == le_u32_at(rest, 0));
        if total < 4 {
            assert(!has_record(rest));
            malformed = true;
            break ;
        }
        if left < 12 || (left as u64) < 8 + total as u64 {
            assert(!has_record(rest));
            break ;
        }
        let len: usize = 8 + total as usize;
        let packet_type: u32 = read_u32(buffer, at + 4);
        let clock: u32 = read_u32(buffer, at + 8);
        let payload = copy_range(buffer, at + 12, at + len);
        proof {
            assert(has_record(rest));
            assert(packet_type == le_u32_at(rest, 4));
            assert(clock == le_u32_at(rest, 8));
            assert(payload@ =~= rest.subrange(12, first_len(rest)));
            assert(rest.skip(first_len(rest)) =~= buffer@.skip(at + len));
        }
        let ghost before = packet_views(packets@);
        packets.push(RawPacket { packet_type, clock, payload });
        at = at + len;
        proof {
            assert(packet_views(packets@) =~= before.push(first_record(rest)));
            assert(records(buffer@) =~= packet_views(packets@) + records(buffer@.skip(at as int)));
        }
    }
    assert(records(buffer@) =~= packet_views(packets@));
    Framed { packets, consumed: at, malformed }
}

} // verus!
