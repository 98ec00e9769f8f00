//! Handing samples to the audio graph.

use vstd::prelude::*;

use crate::audio::decoder::pushed;
use crate::audio::{Ring, BYTES_PER_SAMPLE, RING_CAPACITY_SAMPLES};

verus! {

/// The two's complement word of a sample.
pub open spec fn sample_word(s: i16) -> int {
    if s < 0 {
        s + 65536
    } else {
        s as int
    }
}

/// How many whole samples a buffer holds.
pub open spec fn sample_capacity(bytes: int) -> int {
    bytes / 2
}

/// How many samples move from a ring into a buffer.
pub open spec fn moved(held: int, bytes: int) -> int {
    if held < sample_capacity(bytes) {
        held
    } else {
        sample_capacity(bytes)
    }
}

/// The byte at position `i` of a filled buffer: the samples in order, each low
/// byte first; then silence; a trailing odd byte stays as it was.
pub open spec fn filled_byte(before: Seq<u8>, ring: Seq<i16>, i: int) -> u8 {
    let n = moved(ring.len() as int, before.len() as int);
    if i < 2 * n {
        if i % 2 == 0 {
            (sample_word(ring[i / 2]) % 256) as u8
        } else {
            (sample_word(ring[i / 2]) / 256) as u8
        }
    } else if i < 2 * sample_capacity(before.len() as int) {
        0
    } else {
        before[i]
    }
}

/// Whether a ring and a buffer are what filling the buffer from the ring leaves.
pub open spec fn is_filled(
    ring: Seq<i16>,
    bytes: Seq<u8>,
    ring_after: Seq<i16>,
    bytes_after: Seq<u8>,
    usable: int,
) -> bool {
    &&& ring_after == ring.skip(moved(ring.len() as int, bytes.len() as int))
    &&& bytes_after == Seq::new(bytes.len(), |i: int| filled_byte(bytes, ring, i))
    &&& usable == 2 * sample_capacity(bytes.len() as int)
}

/// Drain as much as fits from the ring into the buffer and zero-pad the rest,
/// so downstream consumers see continuous audio rather than gaps when the Siri
/// button isn't held. Returns the number of bytes that carry samples or
/// silence.
pub fn fill_buffer(ring: &mut Ring, bytes: &mut [u8]) -> (usable: usize)
    ensures
        final(ring)@ == old(ring)@.skip(
            moved(old(ring)@.len() as int, old(bytes)@.len() as int),
        ),
        final(bytes)@ == Seq::new(
            old(bytes)@.len(),
            |i: int| filled_byte(old(bytes)@, old(ring)@, i),
        ),
        usable == 2 * sample_capacity(old(bytes)@.len() as int),
        is_filled(old(ring)@, old(bytes)@, final(ring)@, final(bytes)@, usable as int),
{
    let cap_samples: usize = bytes.len() / BYTES_PER_SAMPLE;
    let usable: usize = cap_samples * BYTES_PER_SAMPLE;
    let take: usize = if ring.len() < cap_samples {
        ring.len()
    } else {
        cap_samples
    };
    let ghost goal = |i: int| filled_byte(old(bytes)@, old(ring)@, i);
    let mut written: usize = 0;
    while written < take
        invariant
            written <= take,
            take == moved(old(ring)@.len() as int, old(bytes)@.len() as int),
            2 * take <= usable <= old(bytes)@.len(),
            take <= old(ring)@.len(),
            goal == (|i: int| filled_byte(old(bytes)@, old(ring)@, i)),
            ring@ == old(ring)@.skip(written as int),
            bytes@.len() == old(bytes)@.len(),
            forall|i: int| 0 <= i < 2 * written ==> #[trigger] bytes@[i] == goal(i),
            forall|i: int|
                2 * written <= i < bytes@.len() ==> #[trigger] bytes@[i] == old(bytes)@[i],
        decreases take - written,
    {
        match ring.pop_front() {
            Some(s) => {
                assert(s == old(ring)@[written as int]);
                let word: u16 = if s < 0 {
                    (s as i32 + 65536) as u16
                } else {
                    s as u16
                };
                let at: usize = written * BYTES_PER_SAMPLE;
                assert(goal(at as int) == (sample_word(s) % 256) as u8);
                assert(goal(at + 1) == (sample_word(s) / 256) as u8);
                bytes[at] = (word % 256) as u8;
                bytes[at + 1] = (word / 256) as u8;
            },
            None => {},
        }
        assert(ring@ =~= old(ring)@.skip(written + 1));
        written = written + 1;
    }
    let mut i: usize = 2 * written;
    while i < usable
        invariant
            2 * take <= i <= usable,
            usable == 2 * sample_capacity(old(bytes)@.len() as int),
            usable <= bytes@.len(),
            take == moved(old(ring)@.len() as int, old(bytes)@.len() as int),
            goal == (|i: int| filled_byte(old(bytes)@, old(ring)@, i)),
            bytes@.len() == old(bytes)@.len(),
            forall|j: int| 0 <= j < i ==> #[trigger] bytes@[j] == goal(j),
            forall|j: int| i <= j < bytes@.len() ==> #[trigger] bytes@[j] == old(bytes)@[j],
        decreases usable - i,
    {
        assert(goal(i as int) == 0);
        bytes[i] = 0;
        i = i + 1;
    }
    assert forall|j: int| 0 <= j < bytes@.len() implies #[trigger] bytes@[j] == goal(j) by {}
    assert(bytes@ =~= Seq::new(
        old(bytes)@.len(),
        |i: int| filled_byte(old(bytes)@, old(ring)@, i),
    ));
    usable
}

// -- Laws ---------------------------------------------------------------------

/// What a consumer reads back from a filled buffer is the samples that left the
/// ring, in order.
pub proof fn law_buffer_carries_samples(before: Seq<u8>, ring: Seq<i16>, k: int)
    requires
        0 <= k < moved(ring.len() as int, before.len() as int),
    ensures
        filled_byte(before, ring, 2 * k) + 256 * filled_byte(before, ring, 2 * k + 1)
            == sample_word(ring[k]),
{
}

/// Samples that found room in the ring come out after what was there before, in
/// order and unchanged.
pub proof fn law_pushed_samples_come_out(
    before: Seq<u8>,
    ring: Seq<i16>,
    samples: Seq<i16>,
    k: int,
)
    requires
        ring.len() + samples.len() <= RING_CAPACITY_SAMPLES,
        sample_capacity(before.len() as int) >= ring.len() + samples.len(),
        0 <= k < samples.len(),
    ensures
        ({
            let at = 2 * (ring.len() + k);
            filled_byte(before, pushed(ring, samples), at) + 256 * filled_byte(
                before,
                pushed(ring, samples),
                at + 1,
            ) == sample_word(samples[k])
        }),
{
    law_buffer_carries_samples(before, pushed(ring, samples), ring.len() + k);
}

/// A sample is known by its word.
pub proof fn law_sample_word_injective(a: i16, b: i16)
    requires
        sample_word(a) == sample_word(b),
    ensures
        a == b,
{
}

/// Two buffers in a row take what one buffer of their joint size would.
pub proof fn law_draining_in_parts(ring: Seq<i16>, first: int, second: int)
    requires
        first >= 0,
        second >= 0,
        first % 2 == 0,
    ensures
        ({
            let left = ring.skip(moved(ring.len() as int, first));
            left.skip(moved(left.len() as int, second)) == ring.skip(
                moved(ring.len() as int, first + second),
            )
        }),
{
    let left = ring.skip(moved(ring.len() as int, first));
    assert(left.skip(moved(left.len() as int, second)) =~= ring.skip(
        moved(ring.len() as int, first + second),
    ));
}

/// An empty ring gives silence.
pub proof fn law_empty_ring_is_silence(before: Seq<u8>, i: int)
    requires
        0 <= i < 2 * sample_capacity(before.len() as int),
    ensures
        filled_byte(before, Seq::<i16>::empty(), i) == 0,
{
}

/// A filled buffer, byte by byte: as many samples as the ring holds and the
/// buffer has room for, each in two's complement with its low byte first; then
/// zeros up to the last whole sample; an odd byte at the end is left alone.
pub proof fn law_buffer_layout(before: Seq<u8>, ring: Seq<i16>, k: int)
    requires
        0 <= k,
    ensures
        moved(ring.len() as int, before.len() as int) <= ring.len(),
        moved(ring.len() as int, before.len() as int) <= before.len() / 2,
        moved(ring.len() as int, before.len() as int) == ring.len() || moved(
            ring.len() as int,
            before.len() as int,
        ) == before.len() / 2,
        k < ring.len() && 2 * k + 1 < before.len() ==> (filled_byte(before, ring, 2 * k) + 256
            * filled_byte(before, ring, 2 * k + 1) - ring[k]) % 65536 == 0,
        k >= ring.len() && 2 * k + 1 < before.len() ==> filled_byte(before, ring, 2 * k) == 0
            && filled_byte(before, ring, 2 * k + 1) == 0,
        before.len() % 2 == 1 ==> filled_byte(before, ring, before.len() - 1) == before.last(),
{
    if k < ring.len() && 2 * k + 1 < before.len() {
        law_buffer_carries_samples(before, ring, k);
    }
}

/// Filling moves the oldest samples and loses none: those in the buffer, in
/// order, followed by those left in the ring are those that were there. Where
/// the ring runs out the buffer is silent, and its length never changes.
pub proof fn law_filling_loses_nothing(
    ring: Seq<i16>,
    bytes: Seq<u8>,
    ring_after: Seq<i16>,
    bytes_after: Seq<u8>,
    usable: int,
    k: int,
)
    requires
        is_filled(ring, bytes, ring_after, bytes_after, usable),
        0 <= k,
    ensures
        bytes_after.len() == bytes.len(),
        usable <= bytes.len() < usable + 2 && usable % 2 == 0,
        ring_after.len() == if ring.len() <= bytes.len() / 2 {
            0
        } else {
            ring.len() - bytes.len() / 2
        },
        k < ring_after.len() ==> ring_after[k] == ring[ring.len() - ring_after.len() + k],
        2 * k + 1 < bytes.len() && k < ring.len() ==> (bytes_after[2 * k] + 256 * bytes_after[2 * k
            + 1] - ring[k]) % 65536 == 0,
        2 * k + 1 < bytes.len() && k >= ring.len() ==> bytes_after[2 * k] == 0 && bytes_after[2 * k
            + 1] == 0,
        bytes.len() % 2 == 1 ==> bytes_after.last() == bytes.last(),
{
    law_buffer_layout(bytes, ring, k);
}

} // verus!
