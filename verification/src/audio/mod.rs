//! Microphone audio: the wire format of audio reports, what each report asks of
//! the Opus decoder, and the bounded ring of samples between the radio and the
//! audio graph.

use std::collections::VecDeque;

use vstd::prelude::*;

pub mod decoder;
pub mod pipewire;

verus! {

/// Opus canonical output rate. The audio graph's resampler handles any
/// consumer-side rate negotiation, so this never varies.
pub const SAMPLE_RATE: u32 = 48_000;

/// Mono S16LE → 2 bytes per sample on the wire.
pub const BYTES_PER_SAMPLE: usize = 2;

/// 20 ms frame @ 48 kHz: matches the Opus CELT-only WB config (`config=23`)
/// the Siri Remote uses (TOC byte `0xB8`).
pub const FRAME_SAMPLES: usize = 960;

/// Bound of the bridge ring buffer: 250 ms of audio. When the producer outruns
/// the consumer the oldest samples are dropped so the live stream stays close
/// to real-time.
pub const RING_CAPACITY_SAMPLES: usize = 12_000;

/// Decoded samples on their way from the radio (producer) to the audio graph
/// (consumer), oldest first.
pub type Ring = VecDeque<i16>;

/// Allocate a fresh `Ring` pre-sized to its overflow cap.
pub fn new_ring() -> (ring: Ring)
    ensures
        ring@ == Seq::<i16>::empty(),
{
    VecDeque::with_capacity(RING_CAPACITY_SAMPLES)
}

} // verus!
