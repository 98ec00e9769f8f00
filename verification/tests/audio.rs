use siri_remote::audio::decoder::{
    parse_packet, push_samples, MicDecoder, MAX_OPUS_FRAME_LEN, MAX_PLC_FRAMES, MIC_REPORT_LEN,
};
use siri_remote::audio::pipewire::fill_buffer;
use siri_remote::audio::{new_ring, FRAME_SAMPLES, RING_CAPACITY_SAMPLES};
use siri_remote::mic::{decode_error_line, mic_payload};
use siri_remote::session::DeviceEvent;

fn packet(seq: u16, frame: &[u8]) -> Vec<u8> {
    let mut p = vec![0u8; MIC_REPORT_LEN];
    p[2] = (seq & 0xFF) as u8;
    p[3] = (seq >> 8) as u8;
    p[4] = frame.len() as u8;
    p[5..5 + frame.len()].copy_from_slice(frame);
    p
}

#[test]
fn parse_rejects_all_zero_payload() {
    let p = vec![0u8; MIC_REPORT_LEN];
    assert!(parse_packet(&p).is_none());
}

#[test]
fn parse_rejects_oversized_len() {
    let mut p = vec![0u8; MIC_REPORT_LEN];
    p[4] = (MAX_OPUS_FRAME_LEN + 1) as u8;
    assert!(parse_packet(&p).is_none());
}

#[test]
fn parse_rejects_short_payload() {
    assert!(parse_packet(&[0u8; 5]).is_none());
}

#[test]
fn parse_takes_the_declared_frame() {
    let p = packet(0x1234, &[0xB8, 1, 2, 3]);
    let (seq, frame) = parse_packet(&p).expect("valid packet");
    assert_eq!(seq, 0x1234);
    assert_eq!(frame, &[0xB8, 1, 2, 3]);
    // A frame that would reach beyond the payload.
    assert!(parse_packet(&[9, 9, 0, 0, 2, 0xB8]).is_none());
    assert_eq!(parse_packet(&[9, 9, 1, 0, 1, 0xB8]), Some((1, &[0xB8u8][..])));
    let full = packet(7, &[5; 94]);
    assert_eq!(parse_packet(&full).unwrap().1.len(), MAX_OPUS_FRAME_LEN);
}

#[test]
fn feed_conceals_gaps_up_to_the_cap() {
    let mut d = MicDecoder::new();
    assert_eq!(d.next_seq(), None);
    let p = packet(10, &[1]);
    let plan = d.feed(&p).expect("packet");
    assert_eq!((plan.conceal, plan.seq, plan.frame), (0, 10, &[1u8][..]));
    assert_eq!(d.next_seq(), Some(11));
    // In sequence: nothing to conceal.
    assert_eq!(d.feed(&packet(11, &[1])).unwrap().conceal, 0);
    // Two lost.
    assert_eq!(d.feed(&packet(14, &[1])).unwrap().conceal, 2);
    // Many lost: capped.
    assert_eq!(d.feed(&packet(500, &[1])).unwrap().conceal, MAX_PLC_FRAMES);
    // A repeated number counts as almost a full turn.
    assert_eq!(d.feed(&packet(500, &[1])).unwrap().conceal, MAX_PLC_FRAMES);
    assert_eq!(d.next_seq(), Some(501));
}

#[test]
fn feed_wraps_and_resyncs_after_the_sentinel() {
    let mut d = MicDecoder::new();
    d.feed(&packet(65535, &[1]));
    assert_eq!(d.next_seq(), Some(0));
    assert_eq!(d.feed(&packet(1, &[1])).unwrap().conceal, 1);
    // Button released.
    assert!(d.feed(&[0u8; 99]).is_none());
    assert_eq!(d.next_seq(), None);
    assert_eq!(d.feed(&packet(900, &[1])).unwrap().conceal, 0);
}

#[test]
fn ring_keeps_the_newest_samples() {
    let mut ring = new_ring();
    let mut next = 0i16;
    for _ in 0..44 {
        let frame: Vec<i16> = (0..FRAME_SAMPLES as i16).map(|i| next.wrapping_add(i)).collect();
        push_samples(&mut ring, &frame);
        next = next.wrapping_add(FRAME_SAMPLES as i16);
    }
    assert_eq!(ring.len(), RING_CAPACITY_SAMPLES);
    assert_eq!(*ring.back().unwrap(), next.wrapping_sub(1));
    let oldest = next.wrapping_sub(RING_CAPACITY_SAMPLES as i16);
    assert_eq!(*ring.front().unwrap(), oldest);
}

#[test]
fn ring_keeps_the_newest_end_of_a_long_block() {
    let mut ring = new_ring();
    push_samples(&mut ring, &[1, 2, 3]);
    push_samples(&mut ring, &[]);
    assert_eq!(ring.len(), 3);
    let big: Vec<i16> = (0..RING_CAPACITY_SAMPLES as i16 + 5).collect();
    push_samples(&mut ring, &big);
    assert_eq!(ring.len(), RING_CAPACITY_SAMPLES);
    assert!(ring.iter().eq(big[5..].iter()));
    // A block that just fits takes the place of all that was there.
    push_samples(&mut ring, &big[..RING_CAPACITY_SAMPLES]);
    assert!(ring.iter().eq(big[..RING_CAPACITY_SAMPLES].iter()));
    // One block or two: the same.
    let mut cut = new_ring();
    push_samples(&mut cut, &big[..7000]);
    push_samples(&mut cut, &big[7000..]);
    assert!(cut.iter().eq(big[5..].iter()));
}

#[test]
fn fill_buffer_drains_then_pads() {
    let mut ring = new_ring();
    push_samples(&mut ring, &[1, -2, 300]);
    let mut bytes = vec![0xEEu8; 5];
    assert_eq!(fill_buffer(&mut ring, &mut bytes), 4);
    assert_eq!(bytes, vec![1, 0, 0xFE, 0xFF, 0xEE]);
    assert_eq!(ring.len(), 1);
    let mut bytes = vec![0xEEu8; 6];
    assert_eq!(fill_buffer(&mut ring, &mut bytes), 6);
    assert_eq!(bytes, vec![0x2C, 0x01, 0, 0, 0, 0]);
    assert!(ring.is_empty());
    let mut bytes = vec![0xEEu8; 4];
    fill_buffer(&mut ring, &mut bytes);
    assert_eq!(bytes, vec![0; 4]);
}

#[test]
fn mic_frames_are_picked_by_report_id() {
    let ev = DeviceEvent::UnknownInput { report_id: 0xFA, payload: vec![1, 2] };
    assert_eq!(mic_payload(ev), Some(vec![1, 2]));
    let ev = DeviceEvent::UnknownInput { report_id: 0xFB, payload: vec![1, 2] };
    assert_eq!(mic_payload(ev), None);
    let ev = DeviceEvent::Battery { value: 1, raw: vec![1] };
    assert_eq!(mic_payload(ev), None);
    assert_eq!(decode_error_line(7, 90), "opus decode error (seq=7, len=90): ");
}

#[test]
fn buffers_in_a_row_drain_the_ring_in_order() {
    let mut ring = new_ring();
    push_samples(&mut ring, &[10, -20]);
    push_samples(&mut ring, &[i16::MIN, i16::MAX, -1]);
    let mut heard = Vec::new();
    for _ in 0..3 {
        let mut bytes = [0u8; 4];
        assert_eq!(fill_buffer(&mut ring, &mut bytes), 4);
        heard.push(i16::from_le_bytes([bytes[0], bytes[1]]));
        heard.push(i16::from_le_bytes([bytes[2], bytes[3]]));
    }
    assert_eq!(heard, vec![10, -20, i16::MIN, i16::MAX, -1, 0]);
}
