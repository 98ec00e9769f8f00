use siri_remote::decoder::{
    button_list, event_line, format_battery, format_event, format_power, now_stamp, power_state,
    raw_hex, InputDecoder, TouchDecoder, TouchEvent, BUTTON_NAMES, NAMED_BUTTONS, TOUCH_X_MAX,
};

#[test]
fn button_list_empty_renders_none() {
    assert_eq!(button_list(0), "none");
}

#[test]
fn button_list_single_bit() {
    // Byte-0 bits (system buttons).
    assert_eq!(button_list(0x0001), "TV");
    assert_eq!(button_list(0x0008), "Select");
    assert_eq!(button_list(0x0080), "Mute");
    // Byte-1 bits (clickpad directional + Play/Pause).
    assert_eq!(button_list(0x0100), "Play/Pause");
    assert_eq!(button_list(0x1000), "Right");
}

#[test]
fn button_list_combination_in_table_order() {
    // Volume Up (0x0002) + Select (0x0008) — must appear in declaration order.
    assert_eq!(button_list(0x000A), "Volume Up+Select");
    // TV (0x0001) + Play/Pause (0x0100) — byte-0 entry first.
    assert_eq!(button_list(0x0101), "TV+Play/Pause");
    // Up (0x0200) + Down (0x0400) — both byte-1, in table order.
    assert_eq!(button_list(0x0600), "Up+Down");
}

#[test]
fn button_list_ignores_unmapped_bits() {
    // Byte 1 bits 0x2000..0x8000 are unobserved and must not produce
    // phantom names.
    assert_eq!(button_list(0xE000), "none");
    // Mapped + unmapped: only the mapped bit renders.
    assert_eq!(button_list(0x2001), "TV");
}

#[test]
fn format_battery_empty_and_known() {
    assert_eq!(format_battery(&[]), "empty battery packet");
    assert_eq!(format_battery(&[42]), "battery=42%");
    assert_eq!(format_battery(&[100, 0xff]), "battery=100%");
}

#[test]
fn format_power_known_and_unknown_and_empty() {
    assert_eq!(format_power(&[]), "empty power packet");
    assert_eq!(format_power(&[0xAB]), "power=charging");
    assert_eq!(format_power(&[0xAF]), "power=discharging");
    assert_eq!(format_power(&[0xBB]), "power=plugged-in");
    assert_eq!(format_power(&[0x12]), "power=unknown(0x12)");
}

#[test]
fn input_decoder_emits_press_then_release_diffs() {
    let mut d = InputDecoder::new();

    // Initial state 0 -> Back pressed (byte0 bit 0x40, mask 0x0040).
    let line = d.format(&[0x40, 0x00]);
    assert!(
        line.contains("buttons=Back pressed=Back released=none"),
        "unexpected first transition line: {line}",
    );

    // Same state repeated -> "unknown HID packet" fallback (no change).
    let line = d.format(&[0x40, 0x00]);
    assert!(
        line.starts_with("unknown HID packet len="),
        "no-change frame should yield the unknown fallback, got: {line}",
    );

    // Back released -> mask 0; pressed=none, released=Back.
    let line = d.format(&[0x00, 0x00]);
    assert!(
        line.contains("buttons=none pressed=none released=Back"),
        "unexpected release line: {line}",
    );
}

#[test]
fn input_decoder_combines_byte0_and_byte1_into_u16_mask() {
    let mut d = InputDecoder::new();
    // Up (byte1 bit 0x02 -> mask 0x0200) + TV (byte0 bit 0x01 -> 0x0001).
    let line = d.format(&[0x01, 0x02]);
    assert!(
        line.contains("buttons=TV+Up pressed=TV+Up released=none"),
        "expected combined byte-0/byte-1 decode, got: {line}",
    );
}

#[test]
fn input_decoder_ignores_non_two_byte_payloads() {
    let mut d = InputDecoder::new();
    // The touch (0xFC) / audio (0xFA) reports must NOT be decoded as buttons.
    let line = d.format(&[0x32, 0xFA, 0x99]);
    assert!(
        line.starts_with("unknown HID packet len="),
        "non-button payload must fall through, got: {line}",
    );
    let line = d.format(&[]);
    assert!(line.starts_with("unknown HID packet len="));
}

#[test]
fn format_event_battery_layout() {
    let line = format_event("battery", "uuid=abc", &[55], None);
    assert!(line.contains(" battery uuid=abc raw=37 | battery=55%"));
}

#[test]
fn format_event_unknown_source_falls_back_to_len() {
    let line = format_event("other", "uuid=zzz", &[1, 2, 3], None);
    assert!(line.contains(" other uuid=zzz raw=01 02 03 | len=3"));
}

#[test]
fn raw_hex_matches_python_spacing() {
    assert_eq!(raw_hex(&[]), "");
    assert_eq!(raw_hex(&[0x01]), "01");
    assert_eq!(raw_hex(&[0x01, 0xab, 0x00]), "01 ab 00");
}

#[test]
fn touch_parse_rejects_wrong_length_and_marker() {
    assert!(TouchEvent::parse(&[]).is_none());
    // Right length, wrong marker.
    assert!(TouchEvent::parse(&[0x00; 11]).is_none());
    // Right marker, wrong length.
    assert!(TouchEvent::parse(&[0x32, 0x00, 0x00]).is_none());
}

#[test]
fn touch_parse_decodes_active_touch() {
    // Captured from a real DNDJ22MG2330 mid-swipe:
    // 32 14 a6 01 c0 1e e6 9e 8e 1a a4
    let bytes = [
        0x32, 0x14, 0xa6, 0x01, 0xc0, 0x1e, 0xe6, 0x9e, 0x8e, 0x1a, 0xa4,
    ];
    let ev = TouchEvent::parse(&bytes).expect("valid touch packet");
    assert_eq!(ev.finger_mask, 0x01);
    assert_eq!(ev.finger_count(), 1);
    assert_eq!(ev.seq, 0xa614);
    let f = ev.points[0].expect("slot 1 present while touching");
    assert_eq!(f.x, 192 + 255 * 6, "x = byte0 + 255 * (byte1 & 7)");
    assert_eq!(f.y, 0xe6 - 188, "y = byte2 - 188 because bit 7 is set");
    assert_eq!(f.pressure, 0x1a);
    assert_eq!(f.status, 0xa4);
    assert_eq!(f.aux, [0x9e, 0x8e]);
    assert_eq!(f.byte1_high, 0x1e >> 3);
    assert!(ev.points[1].is_none(), "slot 2 must be empty in 11-byte payload");
}

#[test]
fn touch_parse_decodes_release_with_zeroed_point() {
    // Trailing release frame from the same swipe:
    // 32 e6 a6 00 c3 ee e6 00 00 00 87
    let bytes = [
        0x32, 0xe6, 0xa6, 0x00, 0xc3, 0xee, 0xe6, 0x00, 0x00, 0x00, 0x87,
    ];
    let ev = TouchEvent::parse(&bytes).expect("valid release packet");
    assert_eq!(ev.finger_mask, 0x00);
    assert_eq!(ev.finger_count(), 0);
    assert!(ev.points.iter().all(|p| p.is_none()));
    assert_eq!(ev.seq, 0xa6e6);
}

#[test]
fn touch_parse_decodes_two_finger_report() {
    // Captured from a real DNDJ22MG2330 with two fingers on the
    // touchpad: 18 bytes, mask byte 0x11 (slot 1 + slot 2).
    // 32 a0 89 11 77 60 f8 47 5a 0f 8b 41 0d e2 41 55 0e 83
    let bytes = [
        0x32, 0xa0, 0x89, 0x11, 0x77, 0x60, 0xf8, 0x47, 0x5a, 0x0f, 0x8b, 0x41, 0x0d, 0xe2,
        0x41, 0x55, 0x0e, 0x83,
    ];
    let ev = TouchEvent::parse(&bytes).expect("valid two-finger packet");
    assert_eq!(ev.finger_mask, 0x11);
    assert_eq!(ev.finger_count(), 2);
    assert_eq!(ev.seq, 0x89a0);
    let f1 = ev.points[0].expect("slot 1 active");
    assert_eq!(f1.x, 0x77 + 255 * 0, "slot1 zone is 0");
    assert_eq!(f1.y, 0xf8 - 188);
    assert_eq!(f1.pressure, 0x0f);
    assert_eq!(f1.status, 0x8b);
    assert_eq!(f1.aux, [0x47, 0x5a]);
    let f2 = ev.points[1].expect("slot 2 active");
    assert_eq!(f2.x, 0x41 + 255 * 5, "slot2 zone is 5");
    assert_eq!(f2.y, 0xe2 - 188);
    assert_eq!(f2.pressure, 0x0e);
    assert_eq!(f2.status, 0x83);
    assert_eq!(f2.aux, [0x41, 0x55]);
}

#[test]
fn touch_parse_rejects_slot2_bit_on_short_payload() {
    // Mask claims slot 2 is active but payload only has 11 bytes —
    // refuse to read past the buffer.
    let bytes = [
        0x32, 0x00, 0x00, 0x10, 0x00, 0x00, 0x00, 0x00, 0x00, 0x00, 0x00,
    ];
    assert!(TouchEvent::parse(&bytes).is_none());
}

#[test]
fn touch_format_active_includes_position_and_pressure() {
    let ev = TouchEvent::parse(&[
        0x32, 0x14, 0xa6, 0x01, 0xc0, 0x1e, 0xe6, 0x9e, 0x8e, 0x1a, 0xa4,
    ])
    .unwrap();
    let line = ev.format();
    assert!(
        line.contains("touch fingers=1"),
        "missing fingers tag: {line}",
    );
    // x = 0xc0 + 255 * (0x1e & 7) = 192 + 1530 = 1722
    // y = 0xe6 - 188 = 42 (bit 7 set)
    assert!(
        line.contains("[1: x=1722 y=42 pressure=26"),
        "missing decoded slot-1 position: {line}",
    );
    assert!(line.contains("status=0xa4"), "missing status: {line}");
    assert!(line.contains("seq=0xa614"), "missing seq: {line}");
    assert!(line.contains("aux=9e8e"), "missing aux bytes: {line}");
    assert!(line.contains("byte1_high=0x03"), "missing byte1_high: {line}");
}

#[test]
fn touch_format_two_fingers_emits_both_slots() {
    let ev = TouchEvent::parse(&[
        0x32, 0xa0, 0x89, 0x11, 0x77, 0x60, 0xf8, 0x47, 0x5a, 0x0f, 0x8b, 0x41, 0x0d, 0xe2,
        0x41, 0x55, 0x0e, 0x83,
    ])
    .unwrap();
    let line = ev.format();
    assert!(line.contains("touch fingers=2"), "{line}");
    // slot 1: x = 0x77 + 255*0 = 119, y = 0xf8 - 188 = 60
    assert!(line.contains("[1: x=119 y=60 pressure=15"), "{line}");
    // slot 2: x = 0x41 + 255*5 = 1340, y = 0xe2 - 188 = 38
    assert!(line.contains("[2: x=1340 y=38 pressure=14"), "{line}");
    assert!(line.contains("mask=0x11"), "{line}");
}

#[test]
fn touch_format_release_uses_released_label() {
    let ev = TouchEvent::parse(&[
        0x32, 0xe6, 0xa6, 0x00, 0xc3, 0xee, 0xe6, 0x00, 0x00, 0x00, 0x87,
    ])
    .unwrap();
    let line = ev.format();
    assert!(line.starts_with("touch released"), "expected released prefix: {line}");
    assert!(!line.contains(" x="), "released frame must not advertise x/y: {line}");
    assert!(line.contains("mask=0x00"));
}

#[test]
fn power_state_labels_known_bytes() {
    assert_eq!(power_state(0xAB), Some("charging"));
    assert_eq!(power_state(0xAF), Some("discharging"));
    assert_eq!(power_state(0xBB), Some("plugged-in"));
    assert_eq!(power_state(0x00), None);
}

#[test]
fn named_buttons_is_the_union_of_the_table() {
    let mut all = 0u16;
    for (bit, _) in BUTTON_NAMES {
        assert_eq!(all & bit, 0);
        all |= bit;
    }
    assert_eq!(all, NAMED_BUTTONS);
    assert_eq!(
        button_list(0xFFFF),
        "TV+Volume Up+Volume Down+Select+Power+Siri+Back+Mute+Play/Pause+Up+Down+Left+Right"
    );
}

#[test]
fn hex_dumps_tell_payloads_apart() {
    let payloads: [&[u8]; 5] = [&[], &[0], &[0, 0], &[0, 1], &[1, 0]];
    for (i, a) in payloads.iter().enumerate() {
        for (j, b) in payloads.iter().enumerate() {
            assert_eq!(raw_hex(a) == raw_hex(b), i == j);
        }
    }
    assert_eq!(raw_hex(&[0x0f, 0xf0, 0x9a]), "0f f0 9a");
}

#[test]
fn input_decoder_spells_out_every_part() {
    let mut d = InputDecoder::default();
    assert_eq!(
        d.format(&[0x09, 0x00]),
        "buttons=TV+Select pressed=TV+Select released=none"
    );
    assert_eq!(
        d.format(&[0x08, 0x01]),
        "buttons=Select+Play/Pause pressed=Play/Pause released=TV"
    );
    assert_eq!(d.format(&[0x08, 0x01]), "unknown HID packet len=2");
    assert_eq!(d.format(&[1, 2, 3]), "unknown HID packet len=3");
    assert_eq!(d.advance(0), 0x0108);
    assert_eq!(d.advance(5), 0);
}

#[test]
fn event_line_with_a_known_stamp() {
    let mut d = InputDecoder::new();
    assert_eq!(
        event_line("T", "input", "uuid=x", &[0x40, 0x00], &mut d),
        "T input uuid=x raw=40 00 | buttons=Back pressed=Back released=none"
    );
    // Other sources leave the decoder alone.
    assert_eq!(
        event_line("T", "power", "uuid=x", &[0x00, 0x00], &mut d),
        "T power uuid=x raw=00 00 | power=unknown(0x00)"
    );
    assert_eq!(
        event_line("T", "input", "uuid=x", &[0x00, 0x00], &mut d),
        "T input uuid=x raw=00 00 | buttons=none pressed=none released=Back"
    );
}

#[test]
fn format_event_starts_with_a_stamp() {
    let mut d = InputDecoder::new();
    let line = format_event("input", "id", &[0x01, 0x00], Some(&mut d));
    let stamp = line.split(' ').next().unwrap();
    assert_eq!(stamp.len(), 24);
    let shape: String = stamp
        .chars()
        .map(|c| if c.is_ascii_digit() { '9' } else { c })
        .collect();
    assert_eq!(shape, "9999-99-99T99:99:99.999Z");
    assert_eq!(
        &line[24..],
        " input id raw=01 00 | buttons=TV pressed=TV released=none"
    );
    assert_eq!(d.advance(0), 1);
}

#[test]
fn touch_range_extremes() {
    // Highest encodable X: last zone, last position.
    let top = TouchEvent::parse(&[0x32, 0, 0, 1, 0xFF, 0xFF, 0x7F, 0, 0, 0, 0]).unwrap();
    let f = top.points[0].unwrap();
    assert_eq!(f.x, TOUCH_X_MAX);
    assert_eq!(f.y, 0x7F + 255 - 188);
    assert_eq!(f.byte1_high, 0x1F);
    // Lowest Y: 0x80.
    let low = TouchEvent::parse(&[0x32, 0, 0, 1, 0, 0, 0x80, 0, 0, 0, 0]).unwrap();
    assert_eq!(low.points[0].unwrap().y, 0x80 - 188);
}

#[test]
fn touch_decoder_parses_like_the_event() {
    let bytes = [0x32, 0x14, 0xa6, 0x01, 0xc0, 0x1e, 0xe6, 0x9e, 0x8e, 0x1a, 0xa4];
    let mut d = TouchDecoder::new();
    assert_eq!(d.parse(&bytes), TouchEvent::parse(&bytes));
    assert!(d.parse(&bytes[1..]).is_none());
}

#[test]
fn touch_format_full_lines() {
    let ev = TouchEvent::parse(&[0x32, 0xe6, 0xa6, 0, 0, 0, 0, 0, 0, 0, 0]).unwrap();
    assert_eq!(ev.format(), "touch released mask=0x00 seq=0xa6e6");
    // Slot 2 alone, as only the long layout can carry it.
    let mut long = [0u8; 18];
    long[0] = 0x32;
    long[3] = 0x10;
    long[11] = 0x05;
    long[13] = 0x80;
    let ev = TouchEvent::parse(&long).unwrap();
    assert_eq!(
        ev.format(),
        "touch fingers=1 [2: x=5 y=-60 pressure=0 status=0x00 aux=0000 byte1_high=0x00] \
         mask=0x10 seq=0x0000"
    );
}

#[test]
fn stamps_have_a_year_and_milliseconds() {
    let stamp = now_stamp();
    assert_eq!(stamp.len(), 24);
    for (i, c) in stamp.chars().enumerate() {
        let fits = match i {
            4 | 7 => c == '-',
            10 => c == 'T',
            13 | 16 => c == ':',
            19 => c == '.',
            23 => c == 'Z',
            _ => c.is_ascii_digit(),
        };
        assert!(fits, "{stamp}");
    }
}
