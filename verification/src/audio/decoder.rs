//! HID wire-format parser for the Siri Remote microphone stream (HID input
//! report `0xFA`), and the sequence tracking of one stream.
//!
//! The remote emits one Opus frame per notification while the Siri button is
//! held. Decoding a frame is left to the caller: each report gives a plan of
//! what to decode, and the samples go into the shared [`Ring`].

use vstd::prelude::*;

use crate::audio::{Ring, RING_CAPACITY_SAMPLES};
use crate::decoder::{le16, word_le};

verus! {

/// Total HID input payload length the remote sends for report `0xFA`.
pub const MIC_REPORT_LEN: usize = 99;

/// Maximum Opus frame length the 99-byte HID payload can carry (all but the
/// five header bytes).
pub const MAX_OPUS_FRAME_LEN: usize = 94;

/// Cap on consecutive packet-loss concealment frames before the stream no
/// longer counts as continuous and resyncs to the next real packet. Larger
/// gaps almost always indicate a button release or real disruption rather than
/// a single dropped notification.
pub const MAX_PLC_FRAMES: u16 = 4;

/// Whether a payload carries an Opus frame.
pub open spec fn is_packet(payload: Seq<u8>) -> bool {
    payload.len() >= 6 && 0 < payload[4] <= MAX_OPUS_FRAME_LEN && 5 + payload[4] <= payload.len()
}

/// The sequence number of a packet.
pub open spec fn packet_seq(payload: Seq<u8>) -> u16 {
    le16(payload[2], payload[3])
}

/// The Opus frame of a packet.
pub open spec fn packet_frame(payload: Seq<u8>) -> Seq<u8> {
    payload.subrange(5, 5 + payload[4])
}

/// Parse one HID `0xFA` payload into `(seq, opus_frame)`.
///
/// Wire layout (99-byte payload):
///   `[0..2]`  uninitialised prefix; the remote zeroes it for every
///             packet except the first two of a button press. Ignored.
///   `[2..4]`  sequence number, `u16` little-endian (wraps at 65535).
///   `[4]`     Opus frame length `L` in bytes.
///   `[5..5+L]` Opus frame (TOC + body).
///   `[5+L..]` zero padding.
///
/// All-zero payloads (button-released sentinel) and packets whose
/// declared frame length would overflow the buffer are rejected.
pub fn parse_packet(payload: &[u8]) -> (packet: Option<(u16, &[u8])>)
    ensures
        packet is Some <==> is_packet(payload@),
        packet matches Some((seq, frame)) ==> seq == packet_seq(payload@) && frame@
            == packet_frame(payload@),
{
    if payload.len() < 6 {
        return None;
    }
    let seq: u16 = word_le(payload[2], payload[3]);
    let len: usize = payload[4] as usize;
    if len == 0 || len > MAX_OPUS_FRAME_LEN || 5 + len > payload.len() {
        return None;
    }
    Some((seq, vstd::slice::slice_subrange(payload, 5, 5 + len)))
}

/// What to decode for one report: first `conceal` lost frames, then the frame
/// itself.
pub struct DecodePlan<'a> {
    pub conceal: u16,
    pub seq: u16,
    pub frame: &'a [u8],
}

/// The distance from `expected` up to `seq`, where sequence numbers wrap.
pub open spec fn seq_distance(expected: u16, seq: u16) -> int {
    if seq >= expected {
        seq - expected
    } else {
        seq - expected + 65536
    }
}

/// How many frames to conceal before a packet.
pub open spec fn concealed(expected: Option<u16>, seq: u16) -> int {
    match expected {
        Some(e) => if seq_distance(e, seq) > MAX_PLC_FRAMES {
            MAX_PLC_FRAMES as int
        } else {
            seq_distance(e, seq)
        },
        None => 0,
    }
}

/// The sequence number after `seq`.
pub open spec fn seq_after(seq: u16) -> u16 {
    if seq == 65535 {
        0
    } else {
        (seq + 1) as u16
    }
}

/// The sequence number expected after a payload: none after a payload without
/// a frame.
pub open spec fn expected_after(payload: Seq<u8>) -> Option<u16> {
    if is_packet(payload) {
        Some(seq_after(packet_seq(payload)))
    } else {
        None
    }
}

/// Whether a plan is the one for a payload when `before` was the number expected
/// until then and `after` is from now on.
pub open spec fn is_plan<'a>(
    before: Option<u16>,
    payload: Seq<u8>,
    plan: Option<DecodePlan<'a>>,
    after: Option<u16>,
) -> bool {
    &&& plan is Some <==> is_packet(payload)
    &&& plan matches Some(p) ==> {
        &&& p.seq == packet_seq(payload)
        &&& p.frame@ == packet_frame(payload)
        &&& p.conceal == concealed(before, p.seq)
    }
    &&& after == expected_after(payload)
}

/// Sequence tracking of one Siri Remote audio stream.
pub struct MicDecoder {
    next_seq: Option<u16>,
}

impl MicDecoder {
    /// Next expected sequence number; `None` until the first packet arrives or
    /// after a hard resync (button-release sentinel).
    pub closed spec fn expected(&self) -> Option<u16> {
        self.next_seq
    }

    pub fn new() -> (d: Self)
        ensures
            d.expected() is None,
    {
        Self { next_seq: None }
    }

    /// Take in one HID `0xFA` payload and plan its decoding. Sequence-number
    /// gaps are filled with up to [`MAX_PLC_FRAMES`] frames of packet-loss
    /// concealment; all-zero / truncated payloads (the button-released
    /// sentinel) reset sequence tracking so the next press resyncs cleanly.
    pub fn feed<'a>(&mut self, payload: &'a [u8]) -> (plan: Option<DecodePlan<'a>>)
        ensures
            plan is Some <==> is_packet(payload@),
            plan matches Some(plan) ==> {
                &&& plan.seq == packet_seq(payload@)
                &&& plan.frame@ == packet_frame(payload@)
                &&& plan.conceal == concealed(old(self).expected(), plan.seq)
            },
            final(self).expected() == expected_after(payload@),
            is_plan(old(self).expected(), payload@, plan, final(self).expected()),
    {
        match parse_packet(payload) {
            None => {
                self.next_seq = None;
                None
            },
            Some((seq, frame)) => {
                let conceal: u16 = match self.next_seq {
                    Some(expected) => {
                        let gap: u16 = seq.wrapping_sub(expected);
                        if gap > MAX_PLC_FRAMES {
                            MAX_PLC_FRAMES
                        } else {
                            gap
                        }
                    },
                    None => 0,
                };
                self.next_seq = Some(seq.wrapping_add(1));
                Some(DecodePlan { conceal, seq, frame })
            },
        }
    }

    /// The next expected sequence number.
    pub fn next_seq(&self) -> (seq: Option<u16>)
        ensures
            seq == self.expected(),
    {
        self.next_seq
    }
}

// -- The ring -----------------------------------------------------------------

/// The ring after samples were pushed: everything that was held and came in,
/// or as much of its newest end as the ring holds.
pub open spec fn pushed(before: Seq<i16>, samples: Seq<i16>) -> Seq<i16> {
    let all = before + samples;
    if samples.len() == 0 || all.len() <= RING_CAPACITY_SAMPLES {
        all
    } else {
        all.skip(all.len() - RING_CAPACITY_SAMPLES)
    }
}

/// Push samples into the ring, dropping the oldest on overflow so the
/// live stream stays close to real-time.
pub fn push_samples(ring: &mut Ring, samples: &[i16])
    ensures
        final(ring)@ == pushed(old(ring)@, samples@),
{
    if samples.len() == 0 {
        assert(pushed(old(ring)@, samples@) =~= old(ring)@);
        return;
    }
    // Of an overlong block only the newest end has room.
    let first: usize = if samples.len() > RING_CAPACITY_SAMPLES {
        samples.len() - RING_CAPACITY_SAMPLES
    } else {
        0
    };
    let room: usize = RING_CAPACITY_SAMPLES - (samples.len() - first);
    let drop_count: usize = if ring.len() > room {
        ring.len() - room
    } else {
        0
    };
    let mut i: usize = 0;
    while i < drop_count
        invariant
            i <= drop_count <= old(ring)@.len(),
            ring@ == old(ring)@.skip(i as int),
        decreases drop_count - i,
    {
        let _ = ring.pop_front();
        assert(ring@ =~= old(ring)@.skip(i + 1));
        i = i + 1;
    }
    let ghost kept = ring@;
    let mut j: usize = first;
    while j < samples.len()
        invariant
            first <= j <= samples.len(),
            ring@ == kept + samples@.subrange(first as int, j as int),
        decreases samples.len() - j,
    {
        ring.push_back(samples[j]);
        assert(ring@ =~= kept + samples@.subrange(first as int, j + 1));
        j = j + 1;
    }
    assert(ring@ =~= pushed(old(ring)@, samples@));
}

// -- Laws ---------------------------------------------------------------------

/// The newest samples are the ones that stay: the ring is the newest end of
/// everything that was in it and came in, and a block that fits is in it whole.
pub proof fn law_ring_keeps_newest(before: Seq<i16>, samples: Seq<i16>)
    ensures
        ({
            let all = before + samples;
            let after = pushed(before, samples);
            &&& after.len() <= all.len()
            &&& after == all.skip(all.len() - after.len())
            &&& samples.len() <= RING_CAPACITY_SAMPLES ==> samples.len() <= after.len()
                && after.skip(after.len() - samples.len()) == samples
        }),
{
    let all = before + samples;
    let after = pushed(before, samples);
    assert(after =~= all.skip(all.len() - after.len()));
    if samples.len() <= RING_CAPACITY_SAMPLES {
        assert(after.skip(after.len() - samples.len()) =~= samples);
    }
}

/// The ring is bounded: no block, however long, takes it beyond its capacity,
/// and nothing is dropped while there is room.
pub proof fn law_ring_bounded(before: Seq<i16>, samples: Seq<i16>)
    requires
        before.len() <= RING_CAPACITY_SAMPLES,
    ensures
        pushed(before, samples).len() == if before.len() + samples.len() <= RING_CAPACITY_SAMPLES {
            before.len() + samples.len()
        } else {
            RING_CAPACITY_SAMPLES as nat
        },
        before.len() + samples.len() <= RING_CAPACITY_SAMPLES ==> pushed(before, samples) == before
            + samples,
{
}

/// How samples are cut into blocks makes no difference.
pub proof fn law_blocks_join(before: Seq<i16>, first: Seq<i16>, second: Seq<i16>)
    requires
        before.len() <= RING_CAPACITY_SAMPLES,
    ensures
        pushed(pushed(before, first), second) == pushed(before, first + second),
{
    assert(before + first + second =~= before + (first + second));
    assert(pushed(pushed(before, first), second) =~= pushed(before, first + second));
}

/// Packets in sequence conceal nothing; after a payload without a frame nothing
/// is concealed either. At most [`MAX_PLC_FRAMES`] are concealed at once.
pub proof fn law_concealment(first: Seq<u8>, second: Seq<u8>)
    requires
        is_packet(second),
    ensures
        0 <= concealed(expected_after(first), packet_seq(second)) <= MAX_PLC_FRAMES,
        is_packet(first) && packet_seq(second) == seq_after(packet_seq(first)) ==> concealed(
            expected_after(first),
            packet_seq(second),
        ) == 0,
        !is_packet(first) ==> concealed(expected_after(first), packet_seq(second)) == 0,
{
}

/// An all-zero payload is never a packet.
pub proof fn law_sentinel_is_no_packet(payload: Seq<u8>)
    requires
        forall|i: int| 0 <= i < payload.len() ==> payload[i] == 0,
    ensures
        !is_packet(payload),
{
}

/// The bytes of an audio report: after the prefix the sequence number, its low
/// byte first, then the length of the frame, then the frame itself, whole and
/// in place.
pub proof fn law_packet_layout(payload: Seq<u8>)
    ensures
        is_packet(payload) <==> {
            &&& payload.len() >= 6
            &&& 1 <= payload[4] <= 94
            &&& payload.len() >= 5 + payload[4]
        },
        is_packet(payload) ==> {
            &&& packet_seq(payload) % 256 == payload[2] && packet_seq(payload) / 256 == payload[3]
            &&& packet_frame(payload).len() == payload[4]
            &&& forall|i: int|
                0 <= i < payload[4] ==> #[trigger] packet_frame(payload)[i] == payload[5 + i]
        },
{
}

/// Frames and padding do not mix: two packets that agree up to the end of the
/// frame carry the same frame under the same number.
pub proof fn law_padding_is_ignored(a: Seq<u8>, b: Seq<u8>)
    requires
        is_packet(a),
        b.len() >= 5 + a[4],
        b.len() >= 6,
        forall|i: int| 2 <= i < 5 + a[4] ==> #[trigger] b[i] == a[i],
    ensures
        is_packet(b),
        packet_seq(b) == packet_seq(a),
        packet_frame(b) == packet_frame(a),
{
    assert(b[2] == a[2] && b[3] == a[3] && b[4] == a[4]);
    assert forall|i: int| 0 <= i < a[4] implies packet_frame(b)[i] == packet_frame(a)[i] by {
        assert(b[5 + i] == a[5 + i]);
    }
    assert(packet_frame(b) =~= packet_frame(a));
}

/// As many frames are concealed as sequence numbers are missing, counted around
/// the wrap, but no more than four; without a number to expect, none.
pub proof fn law_lost_frames_are_concealed(last: u16, lost: int, seq: u16)
    requires
        0 <= lost < 65536,
        seq == (last + 1 + lost) % 65536,
    ensures
        seq_after(last) == (last + 1) % 65536,
        concealed(Some(seq_after(last)), seq) == if lost < 4 {
            lost
        } else {
            4
        },
        concealed(None, seq) == 0,
{
}

/// After a packet the next number is expected; after anything else none.
pub proof fn law_next_number_is_expected(payload: Seq<u8>)
    ensures
        is_packet(payload) ==> expected_after(payload) is Some && expected_after(payload)->0 == (
        payload[2] + 256 * payload[3] + 1) % 65536,
        !is_packet(payload) ==> expected_after(payload) is None,
{
}

/// Two packets in a row: each hands its frame over as it came, and the second
/// conceals as many frames as numbers were skipped in between, but at most four.
pub proof fn law_stream_of_packets<'a>(
    first: Seq<u8>,
    second: Seq<u8>,
    before: Option<u16>,
    between: Option<u16>,
    after: Option<u16>,
    plan_a: Option<DecodePlan<'a>>,
    plan_b: Option<DecodePlan<'a>>,
    i: int,
)
    requires
        is_plan(before, first, plan_a, between),
        is_plan(between, second, plan_b, after),
        first.len() >= 6,
        1 <= first[4] <= 94,
        first.len() >= 5 + first[4],
        second.len() >= 6,
        1 <= second[4] <= 94,
        second.len() >= 5 + second[4],
    ensures
        plan_a is Some && plan_b is Some,
        (plan_a->0).frame@.len() == first[4] && (plan_b->0).frame@.len() == second[4],
        0 <= i < first[4] ==> (plan_a->0).frame@[i] == first[5 + i],
        0 <= i < second[4] ==> (plan_b->0).frame@[i] == second[5 + i],
        (plan_a->0).seq == first[2] + 256 * first[3],
        (plan_b->0).seq == second[2] + 256 * second[3],
        ({
            let skipped = (second[2] + 256 * second[3] - (first[2] + 256 * first[3]) - 1) % 65536;
            (plan_b->0).conceal == if skipped < 4 {
                skipped
            } else {
                4
            }
        }),
        before is None ==> (plan_a->0).conceal == 0,
        after is Some && after->0 == (second[2] + 256 * second[3] + 1) % 65536,
{
    law_packet_layout(first);
    law_packet_layout(second);
}

/// A payload without a frame gives nothing to decode, and nothing is expected
/// after it.
pub proof fn law_button_release_resyncs<'a>(
    before: Option<u16>,
    payload: Seq<u8>,
    plan: Option<DecodePlan<'a>>,
    after: Option<u16>,
)
    requires
        is_plan(before, payload, plan, after),
        payload.len() < 6 || payload[4] == 0 || payload[4] > 94 || payload.len() < 5 + payload[4],
    ensures
        plan is None,
        after is None,
{
}

} // verus!
