//! Parsing of Siri Remote events: button masks, the finger geometry of touchpad
//! reports, battery and power bytes, and the decoder that tracks press and
//! release transitions across button reports.

use vstd::prelude::*;

use crate::text::{
    dec, dec_signed, hex2, hex4, hex_value, join, law_hex_reads_back, lemma_digit_injective,
    push_dec, push_dec_signed, push_hex2, push_hex4, same_text,
};

verus! {

// -- Shared constants ---------------------------------------------------------

/// Apple Bluetooth SIG company identifier. Used to recognise Apple manufacturer
/// data in BLE advertisements and pairing payloads.
pub const APPLE_COMPANY_ID: u16 = 0x004C;

/// Two-byte prefix that flags an Apple advertisement as carrying HID-over-GATT
/// pairing data. The next bytes follow `02 15 03 02 <6-byte identity address>`.
pub const APPLE_HID_MFR_PREFIX: [u8; 2] = [0x07, 0x0D];

/// 16-bit button mask → display name for the gen-3 Siri Remote (model
/// DNDJ22MG2330). Bits 0..7 come from byte 0 of the 2-byte HID Input report
/// 0xFB (system buttons), bits 8..15 from byte 1 (clickpad directional
/// clicks + Play/Pause). Empirically mapped against the physical remote:
/// Apple does not publish the report layout. Bits not listed have not been
/// observed and decode to nothing.
pub const BUTTON_NAMES: [(u16, &'static str); 13] = [
    (0x0001, "TV"),
    (0x0002, "Volume Up"),
    (0x0004, "Volume Down"),
    (0x0008, "Select"),
    (0x0010, "Power"),
    (0x0020, "Siri"),
    (0x0040, "Back"),
    (0x0080, "Mute"),
    (0x0100, "Play/Pause"),
    (0x0200, "Up"),
    (0x0400, "Down"),
    (0x0800, "Left"),
    (0x1000, "Right"),
];

/// The bits that `BUTTON_NAMES` names.
pub const NAMED_BUTTONS: u16 = 0x1FFF;

/// The label of a power-state byte, where it has one.
pub open spec fn power_state_text(value: u8) -> Option<Seq<char>> {
    if value == 0xAB {
        Some("charging"@)
    } else if value == 0xAF {
        Some("discharging"@)
    } else if value == 0xBB {
        Some("plugged-in"@)
    } else {
        None
    }
}

/// Map a raw power-state byte to a human label.
pub fn power_state(value: u8) -> (label: Option<&'static str>)
    ensures
        label is Some == power_state_text(value) is Some,
        label matches Some(s) ==> s@ == power_state_text(value)->0,
{
    match value {
        0xAB => Some("charging"),
        0xAF => Some("discharging"),
        0xBB => Some("plugged-in"),
        _ => None,
    }
}

// -- Formatting helpers -------------------------------------------------------

/// Whether `c` is a decimal digit.
pub open spec fn is_digit(c: char) -> bool {
    '0' <= c <= '9'
}

/// Whether a text is a year from 1970 on: four digits, or a plus sign and at
/// least five.
pub open spec fn is_year(s: Seq<char>) -> bool {
    ||| s.len() == 4 && forall|i: int| 0 <= i < 4 ==> is_digit(#[trigger] s[i])
    ||| {
        &&& s.len() >= 6
        &&& s[0] == '+'
        &&& forall|i: int| 1 <= i < s.len() ==> is_digit(#[trigger] s[i])
    }
}

/// The shape `YYYY-MM-DDTHH:MM:SS.mmmZ`; a year beyond 9999 has a sign and more
/// digits.
pub open spec fn is_stamp(s: Seq<char>) -> bool {
    let n = s.len() as int;
    &&& n >= 24
    &&& is_year(s.take(n - 20))
    &&& s[n - 20] == '-' && s[n - 17] == '-' && s[n - 14] == 'T'
    &&& s[n - 11] == ':' && s[n - 8] == ':' && s[n - 5] == '.' && s[n - 1] == 'Z'
    &&& is_digit(s[n - 19]) && is_digit(s[n - 18])
    &&& is_digit(s[n - 16]) && is_digit(s[n - 15])
    &&& is_digit(s[n - 13]) && is_digit(s[n - 12])
    &&& is_digit(s[n - 10]) && is_digit(s[n - 9])
    &&& is_digit(s[n - 7]) && is_digit(s[n - 6])
    &&& is_digit(s[n - 4]) && is_digit(s[n - 3]) && is_digit(s[n - 2])
}

/// Millisecond-precision UTC stamp of the current time.
///
/// Calls `chrono::Utc::now` and renders the instant with `DateTime::format`.
/// The contract claims the shape of the text alone: which instant it names
/// depends on the clock. `Utc::now` panics on a clock set before 1970.
#[verifier::external_body]
pub fn now_stamp() -> (stamp: String)
    ensures
        is_stamp(stamp@),
{
    chrono::Utc::now().format("%Y-%m-%dT%H:%M:%S%.3fZ").to_string()
}

/// Bytes as space-separated lowercase hexadecimal pairs.
pub open spec fn raw_hex_text(data: Seq<u8>) -> Seq<char> {
    join(Seq::new(data.len(), |i: int| hex2(data[i])), " "@)
}

/// Render bytes as space-separated lowercase hex.
pub fn raw_hex(data: &[u8]) -> (s: String)
    ensures
        s@ == raw_hex_text(data@),
{
    let mut s = String::new();
    let ghost pairs = Seq::new(data@.len(), |i: int| hex2(data@[i]));
    let mut i: usize = 0;
    while i < data.len()
        invariant
            i <= data.len(),
            pairs == Seq::new(data@.len(), |i: int| hex2(data@[i])),
            s@ == join(pairs.take(i as int), " "@),
        decreases data.len() - i,
    {
        if i > 0 {
            s.append(" ");
        }
        push_hex2(&mut s, data[i]);
        assert(pairs.take(i + 1).drop_last() =~= pairs.take(i as int));
        assert(s@ =~= join(pairs.take(i + 1), " "@));
        i = i + 1;
    }
    assert(pairs.take(i as int) =~= pairs);
    s
}

/// The names of the buttons in `mask`, among the first `n` of the table, in
/// table order.
pub open spec fn held_names(mask: u16, n: int) -> Seq<Seq<char>>
    decreases n,
{
    if n <= 0 {
        seq![]
    } else {
        let before = held_names(mask, n - 1);
        let entry = BUTTON_NAMES@[n - 1];
        if mask & entry.0 != 0 {
            before.push(entry.1@)
        } else {
            before
        }
    }
}

/// The names of the buttons in `mask` joined by `+`, or `none`.
pub open spec fn button_list_text(mask: u16) -> Seq<char> {
    let names = held_names(mask, 13);
    if names.len() == 0 {
        "none"@
    } else {
        join(names, "+"@)
    }
}

/// Join the set bits in `mask` using the names from `BUTTON_NAMES`,
/// returning the literal `"none"` when no named bit is set.
pub fn button_list(mask: u16) -> (out: String)
    ensures
        out@ == button_list_text(mask),
{
    let mut out = String::new();
    let mut any = false;
    let mut i: usize = 0;
    while i < 13
        invariant
            i <= 13,
            any == (held_names(mask, i as int).len() > 0),
            out@ == join(held_names(mask, i as int), "+"@),
        decreases 13 - i,
    {
        let (bit, name) = BUTTON_NAMES[i];
        if mask & bit != 0 {
            let ghost before = held_names(mask, i as int);
            if any {
                out.append("+");
            }
            out.append(name);
            any = true;
            assert(held_names(mask, i + 1).drop_last() =~= before);
            assert(out@ =~= join(held_names(mask, i + 1), "+"@));
        }
        i = i + 1;
    }
    if any {
        out
    } else {
        "none".to_owned()
    }
}

/// The description of a battery payload.
pub open spec fn battery_text(data: Seq<u8>) -> Seq<char> {
    if data.len() == 0 {
        "empty battery packet"@
    } else {
        "battery="@ + dec(data[0] as nat) + "%"@
    }
}

/// Describe a battery payload: its first byte is the level in percent.
pub fn format_battery(data: &[u8]) -> (out: String)
    ensures
        out@ == battery_text(data@),
{
    if data.len() == 0 {
        return "empty battery packet".to_owned();
    }
    let mut out = "battery=".to_owned();
    push_dec(&mut out, data[0] as u64);
    out.append("%");
    out
}

/// The description of a power payload.
pub open spec fn power_text(data: Seq<u8>) -> Seq<char> {
    if data.len() == 0 {
        "empty power packet"@
    } else {
        match power_state_text(data[0]) {
            Some(state) => "power="@ + state,
            None => "power=unknown(0x"@ + hex2(data[0]) + ")"@,
        }
    }
}

/// Describe a power payload: its first byte is the power state.
pub fn format_power(data: &[u8]) -> (out: String)
    ensures
        out@ == power_text(data@),
{
    if data.len() == 0 {
        return "empty power packet".to_owned();
    }
    match power_state(data[0]) {
        Some(state) => {
            let mut out = "power=".to_owned();
            out.append(state);
            out
        },
        None => {
            let mut out = "power=unknown(0x".to_owned();
            push_hex2(&mut out, data[0]);
            out.append(")");
            out
        },
    }
}

// -- Button input decoding ----------------------------------------------------

/// The 16-bit word with low byte `lo` and high byte `hi`.
pub open spec fn le16(lo: u8, hi: u8) -> u16 {
    (lo + 256 * hi) as u16
}

/// Assemble a little-endian 16-bit word.
pub fn word_le(lo: u8, hi: u8) -> (w: u16)
    ensures
        w == le16(lo, hi),
{
    lo as u16 + 256 * (hi as u16)
}

/// The button mask that a payload carries: its two bytes, little-endian.
/// Only a payload of exactly two bytes carries one.
pub open spec fn button_mask(payload: Seq<u8>) -> Option<u16> {
    if payload.len() == 2 {
        Some(le16(payload[0], payload[1]))
    } else {
        None
    }
}

/// The buttons that are down in `now` and were not in `before`.
pub open spec fn pressed_between(before: u16, now: u16) -> u16 {
    now & !before
}

/// The buttons that were down in `before` and are not in `now`.
pub open spec fn released_between(before: u16, now: u16) -> u16 {
    before & !now
}

/// The line that a button report gives when `before` was the mask until then.
pub open spec fn input_text(before: u16, payload: Seq<u8>) -> Seq<char> {
    match button_mask(payload) {
        Some(now) if now != before => {
            "buttons="@ + button_list_text(now) + " pressed="@ + button_list_text(
                pressed_between(before, now),
            ) + " released="@ + button_list_text(released_between(before, now))
        },
        _ => "unknown HID packet len="@ + dec(payload.len()),
    }
}

/// The mask after a payload: the payload's own where it carries one.
pub open spec fn mask_after(before: u16, payload: Seq<u8>) -> u16 {
    match button_mask(payload) {
        Some(now) => now,
        None => before,
    }
}

/// Stateful decoder for the gen-3 Siri Remote's 2-byte HID Input report
/// (report id 0xFB). Tracks the previous button mask so every emitted line
/// can spell out which buttons just transitioned.
pub struct InputDecoder {
    last_button: u16,
}

impl Default for InputDecoder {
    fn default() -> (d: Self)
        ensures
            d.held() == 0,
    {
        Self::new()
    }
}

impl InputDecoder {
    /// The mask of the last button report, zero before the first.
    pub closed spec fn held(&self) -> u16 {
        self.last_button
    }

    pub fn new() -> (d: Self)
        ensures
            d.held() == 0,
    {
        Self { last_button: 0 }
    }

    /// Read both bytes of a button report as a little-endian 16-bit mask.
    /// Returns `None` for any payload that is not exactly 2 bytes.
    fn mask(data: &[u8]) -> (m: Option<u16>)
        ensures
            m == button_mask(data@),
    {
        if data.len() != 2 {
            return None;
        }
        Some(word_le(data[0], data[1]))
    }

    /// Take `mask` as the current button state and return the state before.
    pub fn advance(&mut self, mask: u16) -> (before: u16)
        ensures
            before == old(self).held(),
            final(self).held() == mask,
    {
        let before = self.last_button;
        self.last_button = mask;
        before
    }

    /// Render a 2-byte HID button payload as a `buttons=… pressed=…
    /// released=…` line. Returns the `unknown HID packet len=N` fallback
    /// for any other shape, and the same fallback for repeated identical
    /// states (i.e. a state-refresh packet that doesn't actually
    /// transition any button).
    pub fn format(&mut self, payload: &[u8]) -> (out: String)
        ensures
            out@ == input_text(old(self).held(), payload@),
            final(self).held() == mask_after(old(self).held(), payload@),
    {
        let button = match Self::mask(payload) {
            Some(button) => button,
            None => {
                return unknown_packet(payload);
            },
        };
        if button == self.last_button {
            return unknown_packet(payload);
        }
        let before = self.advance(button);
        let mut out = "buttons=".to_owned();
        out.append(button_list(button).as_str());
        out.append(" pressed=");
        out.append(button_list(button & !before).as_str());
        out.append(" released=");
        out.append(button_list(before & !button).as_str());
        out
    }
}

fn unknown_packet(payload: &[u8]) -> (out: String)
    ensures
        out@ == "unknown HID packet len="@ + dec(payload@.len()),
{
    let mut out = "unknown HID packet len=".to_owned();
    push_dec(&mut out, payload.len() as u64);
    out
}

// -- Touchpad input decoding --------------------------------------------------

/// Marker byte that prefixes every touchpad HID Input report on report id
/// 0xFC. Empirically constant; matches the `TOUCH_EVENT` sentinel of the
/// gen-1 / gen-2 remotes (`0x32 == 50`).
pub const TOUCH_MARKER: u8 = 0x32;

/// Wire length of a single-finger touchpad report on the gen-3 Siri Remote
/// (model DNDJ22MG2330). The report uses report id 0xFC; payload is fixed
/// at 11 bytes whether a finger is in contact or the surface is idle.
pub const TOUCH_REPORT_LEN_1F: usize = 11;

/// Wire length of a two-finger touchpad report. The first 11 bytes are
/// identical to the single-finger layout (slot 1); the trailing 7 bytes
/// repeat the slot-1 trailer for slot 2.
pub const TOUCH_REPORT_LEN_2F: usize = 18;

/// Bit in byte 3 set when slot 1 (primary finger) is in contact.
pub const FINGER_SLOT_1_MASK: u8 = 0x01;

/// Bit in byte 3 set when slot 2 (secondary finger) is in contact.
/// Empirically only ever observed together with the slot-1 bit.
pub const FINGER_SLOT_2_MASK: u8 = 0x10;

/// Y-axis offset baked into the firmware's wire encoding.
///
/// Byte [2] of a finger payload sweeps `188..=255` then `0..=38` going
/// bottom-to-top across the touchpad. It decodes as a signed value relative
/// to `188`, so 0 sits at the bottom edge and ~106 at the top edge.
pub const TOUCH_Y_OFFSET: i16 = 188;

/// Number of horizontal "zones" the firmware splits the touchpad into.
/// The lower 3 bits of byte [1] of a finger payload select the zone
/// (0..=7); byte [0] is the position within the zone (0..=255). X is
/// reconstructed as `byte[0] + 255 * (byte[1] & 7)`, giving an 11-bit
/// value in `0..=2040`.
pub const TOUCH_X_ZONES: u8 = 8;

/// Mask that picks the zone bits out of finger byte [1].
pub const TOUCH_X_ZONE_MASK: u8 = 0x07;

/// Maximum value the encoded X can take: 255 for each of the seven zones
/// before the last, and 255 within it. Higher physical motion wraps back to
/// small X values.
pub const TOUCH_X_MAX: u16 = 2040;

/// One finger's slice of a touchpad report.
///
/// The firmware ships seven bytes per active slot. The first three
/// pack the high-precision finger position (X across two bytes plus
/// zone bits, then Y as a signed wrap byte); the next two co-vary with
/// pressure and contact area; then pressure and a status byte.
#[derive(Clone, Copy, Debug, PartialEq, Eq)]
pub struct FingerData {
    /// 11-bit horizontal position in `0..=TOUCH_X_MAX`. Increases
    /// left-to-right and wraps from `TOUCH_X_MAX` back to `0` at the
    /// zone boundary, so callers tracking continuous motion need to
    /// unwrap across consecutive samples.
    pub x: u16,
    /// Vertical position relative to the firmware's `188` offset.
    /// Increases bottom-to-top; sits roughly in `0..=106` across the
    /// touchpad's active area, with `<0` and `>106` reachable at the
    /// extreme corners.
    pub y: i16,
    /// Pressure byte. `0` immediately before release, peaks around
    /// `0x14..0x1c` for a light touch and `0x25+` for a hard click.
    pub pressure: u8,
    /// Status / quadrant byte, surfaced raw.
    pub status: u8,
    /// Finger payload bytes 3 and 4: the major and minor axis of the contact
    /// ellipse. They carry no position.
    pub aux: [u8; 2],
    /// Upper five bits of finger byte [1] (the lower three feed the X
    /// zone). Empirically a slow counter; surfaced for diagnostics.
    pub byte1_high: u8,
}

/// The finger that seven bytes of a report describe:
///
/// | byte | role |
/// |------|------|
/// | 0    | X low byte (within zone) |
/// | 1    | bits 0..2: X zone; bits 3..7: counter |
/// | 2    | Y signed wrap byte, offset by `188` |
/// | 3, 4 | contact ellipse |
/// | 5    | pressure |
/// | 6    | status / quadrant flags |
pub open spec fn finger_of(b: Seq<u8>) -> FingerData {
    FingerData {
        x: (b[0] + 255 * (b[1] & TOUCH_X_ZONE_MASK)) as u16,
        y: (if b[2] & 0x80 != 0 {
            b[2] - TOUCH_Y_OFFSET
        } else {
            b[2] + 255 - TOUCH_Y_OFFSET
        }) as i16,
        pressure: b[5],
        status: b[6],
        aux: [b[3], b[4]],
        byte1_high: b[1] >> 3,
    }
}

impl FingerData {
    /// Decode the 7-byte per-finger payload.
    fn decode(b: [u8; 7]) -> (f: Self)
        ensures
            f == finger_of(b@),
            f.x <= TOUCH_X_MAX,
    {
        let b1: u8 = b[1];
        assert(b1 & 7 <= 7) by (bit_vector);
        let zone: u16 = (b[1] & TOUCH_X_ZONE_MASK) as u16;
        let x: u16 = b[0] as u16 + 255 * zone;
        // Bytes without the top bit are shifted up by 255, so the wrap matches
        // the bottom-to-top sweep without a break inside the active area.
        let y: i16 = if b[2] & 0x80 != 0 {
            b[2] as i16 - TOUCH_Y_OFFSET
        } else {
            b[2] as i16 + 255 - TOUCH_Y_OFFSET
        };
        Self { x, y, pressure: b[5], status: b[6], aux: [b[3], b[4]], byte1_high: b[1] >> 3 }
    }
}

/// One decoded touchpad sample. Up to two simultaneous fingers are
/// reported; slot indices match the firmware's wire layout (slot 1 at
/// bytes 4..10, slot 2 at bytes 11..17). Released frames carry the
/// 11-byte payload with `finger_mask == 0` and no point data.
#[derive(Clone, Copy, Debug, PartialEq, Eq)]
pub struct TouchEvent {
    /// Raw byte 3. Bit 0 set ⇒ slot 1 active; bit 4 set ⇒ slot 2 active.
    pub finger_mask: u8,
    /// Little-endian 16-bit packet counter from bytes 1..2. Increments
    /// by `0x1E` per frame at the ~15 ms native rate, wraps at 0xFFFF.
    pub seq: u16,
    /// Per-slot finger data. `points[0]` is slot 1, `points[1]` is slot 2.
    /// `None` means that slot is not in contact in this frame.
    pub points: [Option<FingerData>; 2],
}

/// Whether a payload is a well-formed touchpad report: one of the two lengths,
/// the marker first, and room for slot 2 where its bit is set.
pub open spec fn is_touch_report(payload: Seq<u8>) -> bool {
    &&& payload.len() == TOUCH_REPORT_LEN_1F || payload.len() == TOUCH_REPORT_LEN_2F
    &&& payload[0] == TOUCH_MARKER
    &&& payload[3] & FINGER_SLOT_2_MASK != 0 ==> payload.len() == TOUCH_REPORT_LEN_2F
}

/// The sample that a well-formed report carries.
pub open spec fn touch_of(payload: Seq<u8>) -> TouchEvent {
    TouchEvent {
        finger_mask: payload[3],
        seq: le16(payload[1], payload[2]),
        points: [
            if payload[3] & FINGER_SLOT_1_MASK != 0 {
                Some(finger_of(payload.subrange(4, 11)))
            } else {
                None
            },
            if payload[3] & FINGER_SLOT_2_MASK != 0 {
                Some(finger_of(payload.subrange(11, 18)))
            } else {
                None
            },
        ],
    }
}

/// The number of occupied slots.
pub open spec fn fingers_in(points: Seq<Option<FingerData>>) -> int {
    (if points[0] is Some { 1int } else { 0 }) + (if points[1] is Some { 1int } else { 0 })
}

/// The block that describes the finger in slot `slot_no`.
pub open spec fn finger_text(slot_no: nat, f: FingerData) -> Seq<char> {
    " ["@ + dec(slot_no) + ": x="@ + dec(f.x as nat) + " y="@ + dec_signed(f.y as int)
        + " pressure="@ + dec(f.pressure as nat) + " status=0x"@ + hex2(f.status) + " aux="@
        + hex2(f.aux@[0]) + hex2(f.aux@[1]) + " byte1_high=0x"@ + hex2(f.byte1_high) + "]"@
}

/// The block of a slot, empty where the slot is.
pub open spec fn slot_text(slot_no: nat, slot: Option<FingerData>) -> Seq<char> {
    match slot {
        Some(f) => finger_text(slot_no, f),
        None => seq![],
    }
}

/// The one-line summary of a sample.
pub open spec fn touch_text(ev: TouchEvent) -> Seq<char> {
    let tail = " mask=0x"@ + hex2(ev.finger_mask) + " seq=0x"@ + hex4(ev.seq);
    let n = fingers_in(ev.points@);
    if n == 0 {
        "touch released"@ + tail
    } else {
        "touch fingers="@ + dec(n as nat) + slot_text(1, ev.points@[0]) + slot_text(
            2,
            ev.points@[1],
        ) + tail
    }
}

impl TouchEvent {
    /// Try to parse one touchpad HID Input report. Returns `None` when
    /// the payload is not a well-formed 0xFC report (wrong length, missing
    /// marker, or a slot-2 bit without slot-2 data); the caller should fall
    /// back to a raw-hex dump in that case.
    pub fn parse(payload: &[u8]) -> (ev: Option<Self>)
        ensures
            ev == (if is_touch_report(payload@) {
                Some(touch_of(payload@))
            } else {
                None
            }),
    {
        let len: usize = payload.len();
        if (len != TOUCH_REPORT_LEN_1F && len != TOUCH_REPORT_LEN_2F) || payload[0]
            != TOUCH_MARKER {
            return None;
        }
        let seq: u16 = word_le(payload[1], payload[2]);
        let finger_mask: u8 = payload[3];
        let slot1 = if finger_mask & FINGER_SLOT_1_MASK != 0 {
            Some(Self::slot(payload, 4))
        } else {
            None
        };
        // Slot 2 data is only present in the 18-byte layout. A slot-2 mask bit
        // on a short payload is a wire-format error.
        let slot2 = if finger_mask & FINGER_SLOT_2_MASK != 0 {
            if len < TOUCH_REPORT_LEN_2F {
                return None;
            }
            Some(Self::slot(payload, 11))
        } else {
            None
        };
        Some(Self { finger_mask, seq, points: [slot1, slot2] })
    }

    /// The finger whose seven bytes start at `at`.
    fn slot(payload: &[u8], at: usize) -> (f: FingerData)
        requires
            at + 7 <= payload@.len(),
        ensures
            f == finger_of(payload@.subrange(at as int, at + 7)),
    {
        let b: [u8; 7] = [
            payload[at],
            payload[at + 1],
            payload[at + 2],
            payload[at + 3],
            payload[at + 4],
            payload[at + 5],
            payload[at + 6],
        ];
        assert(b@ =~= payload@.subrange(at as int, at + 7));
        FingerData::decode(b)
    }

    /// Number of fingers currently in contact (0, 1, or 2).
    pub fn finger_count(&self) -> (n: u8)
        ensures
            n == fingers_in(self.points@),
    {
        let first: u8 = if self.points[0].is_some() { 1 } else { 0 };
        let second: u8 = if self.points[1].is_some() { 1 } else { 0 };
        first + second
    }

    /// Render a single line summary. Released frames lead with
    /// `touch released`; touched frames lead with `touch fingers=N` and emit
    /// one `[1: …]` / `[2: …]` block per active slot.
    pub fn format(&self) -> (out: String)
        ensures
            out@ == touch_text(*self),
    {
        let fingers: u8 = self.finger_count();
        let mut out = String::new();
        if fingers == 0 {
            out.append("touch released");
        } else {
            out.append("touch fingers=");
            push_dec(&mut out, fingers as u64);
            push_slot(&mut out, 1, &self.points[0]);
            push_slot(&mut out, 2, &self.points[1]);
        }
        out.append(" mask=0x");
        push_hex2(&mut out, self.finger_mask);
        out.append(" seq=0x");
        push_hex4(&mut out, self.seq);
        assert(out@ =~= touch_text(*self));
        out
    }
}

fn push_slot(out: &mut String, slot_no: u8, slot: &Option<FingerData>)
    ensures
        final(out)@ == old(out)@ + slot_text(slot_no as nat, *slot),
{
    if let Some(f) = slot {
        out.append(" [");
        push_dec(out, slot_no as u64);
        out.append(": x=");
        push_dec(out, f.x as u64);
        out.append(" y=");
        push_dec_signed(out, f.y as i64);
        out.append(" pressure=");
        push_dec(out, f.pressure as u64);
        out.append(" status=0x");
        push_hex2(out, f.status);
        out.append(" aux=");
        push_hex2(out, f.aux[0]);
        push_hex2(out, f.aux[1]);
        out.append(" byte1_high=0x");
        push_hex2(out, f.byte1_high);
        out.append("]");
        assert(out@ =~= old(out)@ + finger_text(slot_no as nat, *f));
    }
}

/// Decoder for the touch stream, the counterpart of `InputDecoder` for report
/// id 0xFC. Every report stands for itself: no state carries over.
pub struct TouchDecoder {}

impl TouchDecoder {
    pub fn new() -> (d: Self)
        ensures
            d == (TouchDecoder {  }),
    {
        Self {  }
    }

    /// Decode one report, or return `None` where it is not well-formed.
    pub fn parse(&mut self, payload: &[u8]) -> (ev: Option<TouchEvent>)
        ensures
            ev == (if is_touch_report(payload@) {
                Some(touch_of(payload@))
            } else {
                None
            }),
    {
        TouchEvent::parse(payload)
    }
}

// -- Event lines --------------------------------------------------------------

/// The description of a payload of the given source. `before` is the button
/// mask until then.
pub open spec fn decoded_text(source: Seq<char>, payload: Seq<u8>, before: u16) -> Seq<char> {
    if source == "battery"@ {
        battery_text(payload)
    } else if source == "power"@ {
        power_text(payload)
    } else if source == "input"@ {
        input_text(before, payload)
    } else {
        "len="@ + dec(payload.len())
    }
}

/// The line of an event at the time that `stamp` names.
pub open spec fn event_text(
    stamp: Seq<char>,
    source: Seq<char>,
    identifier: Seq<char>,
    payload: Seq<u8>,
    before: u16,
) -> Seq<char> {
    stamp + " "@ + source + " "@ + identifier + " raw="@ + raw_hex_text(payload) + " | "@
        + decoded_text(source, payload, before)
}

/// Compose the event line for a known time stamp. The decoder is consulted, and
/// moves on, only for the source `input`.
pub fn event_line(
    stamp: &str,
    source: &str,
    identifier: &str,
    payload: &[u8],
    decoder: &mut InputDecoder,
) -> (out: String)
    ensures
        out@ == event_text(stamp@, source@, identifier@, payload@, old(decoder).held()),
        final(decoder).held() == if source@ == "input"@ {
            mask_after(old(decoder).held(), payload@)
        } else {
            old(decoder).held()
        },
{
    let decoded = if same_text(source, "battery") {
        format_battery(payload)
    } else if same_text(source, "power") {
        format_power(payload)
    } else if same_text(source, "input") {
        decoder.format(payload)
    } else {
        let mut out = "len=".to_owned();
        push_dec(&mut out, payload.len() as u64);
        out
    };
    proof {
        reveal_strlit("battery");
        reveal_strlit("power");
        reveal_strlit("input");
        assert("power"@[0] != "input"@[0]);
    }
    let mut out = stamp.to_owned();
    out.append(" ");
    out.append(source);
    out.append(" ");
    out.append(identifier);
    out.append(" raw=");
    out.append(raw_hex(payload).as_str());
    out.append(" | ");
    out.append(decoded.as_str());
    out
}

/// Compose a full event line: time stamp, source label, identifier slot, raw
/// hex dump, and decoded description.
///
/// `identifier` is rendered as-is into the line; callers supply something
/// like `"uuid=0000xxxx-…"`. Without a decoder, a fresh one reads the payload.
pub fn format_event(
    source: &str,
    identifier: &str,
    payload: &[u8],
    decoder: Option<&mut InputDecoder>,
) -> (out: String)
    ensures
        match decoder {
            Some(d) => {
                &&& exists|stamp: Seq<char>|
                    is_stamp(stamp) && out@ == #[trigger] event_text(
                        stamp,
                        source@,
                        identifier@,
                        payload@,
                        d.held(),
                    )
                &&& final(d).held() == if source@ == "input"@ {
                    mask_after(d.held(), payload@)
                } else {
                    d.held()
                }
            },
            None => exists|stamp: Seq<char>|
                is_stamp(stamp) && out@ == #[trigger] event_text(
                    stamp,
                    source@,
                    identifier@,
                    payload@,
                    0,
                ),
        },
{
    let stamp = now_stamp();
    match decoder {
        Some(d) => event_line(stamp.as_str(), source, identifier, payload, d),
        None => {
            let mut fresh = InputDecoder::new();
            event_line(stamp.as_str(), source, identifier, payload, &mut fresh)
        },
    }
}

// -- Laws ---------------------------------------------------------------------

/// Hex dumps are faithful: payloads with the same dump are the same payload.
pub proof fn law_raw_hex_injective(a: Seq<u8>, b: Seq<u8>)
    requires
        raw_hex_text(a) == raw_hex_text(b),
    ensures
        a == b,
    decreases a.len(),
{
    lemma_raw_hex_len(a);
    lemma_raw_hex_len(b);
    if a.len() == 0 {
        assert(a =~= b);
    } else {
        lemma_raw_hex_last(a);
        lemma_raw_hex_last(b);
        let ta = raw_hex_text(a);
        let la = a.last();
        let lb = b.last();
        assert(ta[ta.len() - 2] == hex2(la)[0]);
        assert(ta[ta.len() - 1] == hex2(la)[1]);
        assert(ta[ta.len() - 2] == hex2(lb)[0]);
        assert(ta[ta.len() - 1] == hex2(lb)[1]);
        lemma_digit_injective((la / 16) as nat, (lb / 16) as nat);
        lemma_digit_injective((la % 16) as nat, (lb % 16) as nat);
        assert(la == lb);
        lemma_raw_hex_len(a.drop_last());
        lemma_raw_hex_len(b.drop_last());
        let m = raw_hex_text(a.drop_last()).len() as int;
        assert(raw_hex_text(a.drop_last()) =~= ta.take(m));
        assert(raw_hex_text(b.drop_last()) =~= ta.take(m));
        law_raw_hex_injective(a.drop_last(), b.drop_last());
        assert(a =~= a.drop_last().push(la));
        assert(b =~= b.drop_last().push(lb));
    }
}

/// A hex dump takes two characters per byte and one between neighbours.
pub proof fn lemma_raw_hex_len(data: Seq<u8>)
    ensures
        raw_hex_text(data).len() == if data.len() == 0 {
            0
        } else {
            3 * data.len() - 1
        },
    decreases data.len(),
{
    if data.len() > 0 {
        lemma_raw_hex_last(data);
        lemma_raw_hex_len(data.drop_last());
        reveal_strlit(" ");
    }
}

proof fn lemma_raw_hex_last(data: Seq<u8>)
    requires
        data.len() > 0,
    ensures
        raw_hex_text(data) == raw_hex_text(data.drop_last()) + (if data.len() == 1 {
            seq![]
        } else {
            " "@
        }) + hex2(data.last()),
{
    let pairs = Seq::new(data.len(), |i: int| hex2(data[i]));
    let shorter = data.drop_last();
    assert(pairs.drop_last() =~= Seq::new(shorter.len(), |i: int| hex2(shorter[i])));
    if data.len() == 1 {
        assert(raw_hex_text(shorter) =~= seq![]);
    }
    assert(raw_hex_text(data) =~= raw_hex_text(shorter) + (if data.len() == 1 {
        seq![]
    } else {
        " "@
    }) + hex2(data.last()));
}

/// Bits that the table does not name leave no trace in a button list.
pub proof fn law_unnamed_buttons_ignored(mask: u16)
    ensures
        button_list_text(mask) == button_list_text(mask & NAMED_BUTTONS),
        mask & NAMED_BUTTONS == 0 ==> button_list_text(mask) == "none"@,
{
    lemma_held_names_masked(mask, 13);
    if mask & NAMED_BUTTONS == 0 {
        lemma_held_names_empty(13);
    }
}

proof fn lemma_held_names_masked(mask: u16, n: int)
    requires
        n <= 13,
    ensures
        held_names(mask, n) == held_names(mask & NAMED_BUTTONS, n),
    decreases n,
{
    if n > 0 {
        lemma_held_names_masked(mask, n - 1);
        let bit = BUTTON_NAMES@[n - 1].0;
        assert(bit == 0x1 || bit == 0x2 || bit == 0x4 || bit == 0x8 || bit == 0x10 || bit == 0x20
            || bit == 0x40 || bit == 0x80 || bit == 0x100 || bit == 0x200 || bit == 0x400 || bit
            == 0x800 || bit == 0x1000);
        assert((mask & 0x1FFF) & bit == mask & bit) by (bit_vector)
            requires
                bit == 0x1 || bit == 0x2 || bit == 0x4 || bit == 0x8 || bit == 0x10 || bit == 0x20
                    || bit == 0x40 || bit == 0x80 || bit == 0x100 || bit == 0x200 || bit == 0x400
                    || bit == 0x800 || bit == 0x1000,
        ;
    }
}

proof fn lemma_held_names_empty(n: int)
    ensures
        held_names(0, n).len() == 0,
    decreases n,
{
    if n > 0 {
        lemma_held_names_empty(n - 1);
        let bit = BUTTON_NAMES@[n - 1].0;
        assert(0u16 & bit == 0) by (bit_vector);
    }
}

/// A transition splits into presses and releases: no button is in both, each
/// is part of the mask it names, and together they turn the old mask into the
/// new one. Nothing is pressed or released exactly when the mask stays.
pub proof fn law_transition(before: u16, now: u16)
    ensures
        pressed_between(before, now) & released_between(before, now) == 0,
        (before & !released_between(before, now)) | pressed_between(before, now) == now,
        (pressed_between(before, now) == 0 && released_between(before, now) == 0) <==> before
            == now,
{
    assert((now & !before) & (before & !now) == 0) by (bit_vector);
    assert((before & !(before & !now)) | (now & !before) == now) by (bit_vector);
    assert((now & !before == 0 && before & !now == 0) <==> before == now) by (bit_vector);
}

/// A button report that repeats the state changes nothing and reads as an
/// unknown packet; so does any payload of another length.
pub proof fn law_repeated_report_ignored(before: u16, payload: Seq<u8>)
    requires
        button_mask(payload) == Some(before) || payload.len() != 2,
    ensures
        input_text(before, payload) == "unknown HID packet len="@ + dec(payload.len()),
        mask_after(before, payload) == before,
{
}

/// Every finger of a report lies within the touchpad's encodable area.
pub proof fn law_finger_range(b: Seq<u8>)
    requires
        b.len() == 7,
    ensures
        finger_of(b).x == b[0] + 255 * (b[1] & TOUCH_X_ZONE_MASK),
        finger_of(b).x <= TOUCH_X_MAX,
        -60 <= finger_of(b).y <= 194,
        finger_of(b).byte1_high <= 31,
{
    let b1 = b[1];
    let b2 = b[2];
    assert(b1 & 7 <= 7) by (bit_vector);
    assert(b1 >> 3 <= 31) by (bit_vector);
    assert(b2 & 0x80 != 0 <==> b2 >= 128) by (bit_vector);
}

/// In a parsed report a slot holds a finger exactly when its mask bit is set.
pub proof fn law_slots_match_mask(payload: Seq<u8>)
    requires
        is_touch_report(payload),
    ensures
        touch_of(payload).points@[0] is Some <==> touch_of(payload).finger_mask
            & FINGER_SLOT_1_MASK != 0,
        touch_of(payload).points@[1] is Some <==> touch_of(payload).finger_mask
            & FINGER_SLOT_2_MASK != 0,
        fingers_in(touch_of(payload).points@) == 0 <==> touch_of(payload).finger_mask & 0x11 == 0,
{
    let m = payload[3];
    assert(m & 0x11 == 0 <==> (m & 0x01 == 0 && m & 0x10 == 0)) by (bit_vector);
}

/// The bytes of a touch report: a marker, a packet counter with its low byte
/// first, the slots in contact, then seven bytes for each slot.
pub proof fn law_touch_report_layout(payload: Seq<u8>)
    ensures
        is_touch_report(payload) <==> {
            &&& payload.len() == 11 || payload.len() == 18
            &&& payload[0] == 0x32
            &&& payload[3] / 16 % 2 == 1 ==> payload.len() == 18
        },
        is_touch_report(payload) ==> {
            let ev = touch_of(payload);
            &&& ev.finger_mask == payload[3]
            &&& ev.seq % 256 == payload[1] && ev.seq / 256 == payload[2]
            &&& ev.points@[0] is Some <==> payload[3] % 2 == 1
            &&& ev.points@[1] is Some <==> payload[3] / 16 % 2 == 1
            &&& fingers_in(ev.points@) == payload[3] % 2 + payload[3] / 16 % 2
        },
{
    let m = if payload.len() > 3 {
        payload[3]
    } else {
        0
    };
    assert((m & 0x01 != 0) == (m % 2 == 1)) by (bit_vector);
    assert((m & 0x10 != 0) == (m / 16 % 2 == 1)) by (bit_vector);
}

/// The seven bytes of a slot: X is the first byte plus 255 for each zone that
/// the low three bits of the second count, and Y is measured from 188, with
/// bytes below 128 lying one sweep of 255 above; then the two axes of the
/// contact, its pressure and its status.
pub proof fn law_slot_layout(payload: Seq<u8>)
    requires
        is_touch_report(payload),
    ensures
        touch_of(payload).points@[0] matches Some(f) ==> {
            &&& f.x == payload[4] + 255 * (payload[5] % 8)
            &&& f.y == payload[6] - 188 + (if payload[6] < 128 { 255int } else { 0 })
            &&& f.aux@ == seq![payload[7], payload[8]]
            &&& f.pressure == payload[9]
            &&& f.status == payload[10]
            &&& f.byte1_high == payload[5] / 8
        },
        touch_of(payload).points@[1] matches Some(f) ==> {
            &&& f.x == payload[11] + 255 * (payload[12] % 8)
            &&& f.y == payload[13] - 188 + (if payload[13] < 128 { 255int } else { 0 })
            &&& f.aux@ == seq![payload[14], payload[15]]
            &&& f.pressure == payload[16]
            &&& f.status == payload[17]
            &&& f.byte1_high == payload[12] / 8
        },
{
    law_touch_report_layout(payload);
    lemma_finger_bytes(payload.subrange(4, 11));
    if payload.len() == 18 {
        lemma_finger_bytes(payload.subrange(11, 18));
    }
}

proof fn lemma_finger_bytes(b: Seq<u8>)
    requires
        b.len() == 7,
    ensures
        ({
            let f = finger_of(b);
            &&& f.x == b[0] + 255 * (b[1] % 8)
            &&& f.y == b[2] - 188 + (if b[2] < 128 { 255int } else { 0 })
            &&& f.aux@ == seq![b[3], b[4]]
            &&& f.pressure == b[5]
            &&& f.status == b[6]
            &&& f.byte1_high == b[1] / 8
        }),
{
    let b1 = b[1];
    let b2 = b[2];
    assert(b1 & 7 == b1 % 8) by (bit_vector);
    assert(b1 >> 3 == b1 / 8) by (bit_vector);
    assert(b2 & 0x80 != 0 <==> b2 >= 128) by (bit_vector);
    assert(finger_of(b).aux@ =~= seq![b[3], b[4]]);
}

/// A finger that moves up the pad never falls back: along the sweep of the wire
/// byte, 128 to 255 and then 0 to 127, Y never decreases, and it grows from each
/// byte to the next but for the turn from 255 to 0. The active area runs from 0
/// to 105.
pub proof fn law_y_follows_the_sweep(a: Seq<u8>, b: Seq<u8>)
    requires
        a.len() == 7,
        b.len() == 7,
    ensures
        (a[2] + 128) % 256 <= (b[2] + 128) % 256 ==> finger_of(a).y <= finger_of(b).y,
        b[2] == a[2] + 1 && b[2] != 128 ==> finger_of(b).y == finger_of(a).y + 1,
        a[2] == 255 && b[2] == 0 ==> finger_of(b).y == finger_of(a).y,
        a[2] == 188 ==> finger_of(a).y == 0,
        a[2] == 38 ==> finger_of(a).y == 105,
{
    lemma_finger_bytes(a);
    lemma_finger_bytes(b);
}

/// A finger that moves right by one step within a zone moves X by one, and the
/// same step in the next zone lies 255 further.
pub proof fn law_x_follows_the_zones(a: Seq<u8>, b: Seq<u8>)
    requires
        a.len() == 7,
        b.len() == 7,
    ensures
        finger_of(b).x - finger_of(a).x == (b[0] - a[0]) + 255 * (b[1] % 8 - a[1] % 8),
        finger_of(a).x <= 2040,
{
    lemma_finger_bytes(a);
    lemma_finger_bytes(b);
}

/// Two bytes are a button mask, the first its low half and the second its high
/// half, whatever either holds; no other payload is one.
pub proof fn law_button_mask_layout(payload: Seq<u8>, before: u16)
    ensures
        button_mask(payload) is Some <==> payload.len() == 2,
        button_mask(payload) matches Some(mask) ==> mask % 256 == payload[0] && mask / 256
            == payload[1],
        payload.len() == 2 ==> mask_after(before, payload) % 256 == payload[0] && mask_after(
            before,
            payload,
        ) / 256 == payload[1],
        payload.len() != 2 ==> mask_after(before, payload) == before,
        forall|lo: u8, hi: u8| #[trigger] le16(lo, hi) % 256 == lo && le16(lo, hi) / 256 == hi,
{
}

/// A button is pressed exactly where it is down now and was not before, and
/// released exactly where it was down and is no longer.
pub proof fn law_transition_by_bit(before: u16, now: u16, bit: u16)
    requires
        bit != 0,
        bit & ((bit - 1) as u16) == 0,
    ensures
        pressed_between(before, now) & bit != 0 <==> now & bit != 0 && before & bit == 0,
        released_between(before, now) & bit != 0 <==> before & bit != 0 && now & bit == 0,
{
    let less = (bit - 1) as u16;
    assert((now & !before) & bit != 0 <==> now & bit != 0 && before & bit == 0) by (bit_vector)
        requires
            bit != 0,
            bit & less == 0,
            less == bit - 1,
    ;
    assert((before & !now) & bit != 0 <==> before & bit != 0 && now & bit == 0) by (bit_vector)
        requires
            bit != 0,
            bit & less == 0,
            less == bit - 1,
    ;
}

/// The names of a mask's buttons: one for each bit that is set and named, from
/// the lowest up, and none else. Without one the list reads "none".
pub proof fn law_button_names(mask: u16, k: int)
    requires
        0 <= k < 13,
    ensures
        held_names(mask, 0) == Seq::<Seq<char>>::empty(),
        mask & BUTTON_NAMES@[k].0 != 0 ==> held_names(mask, k + 1) == held_names(mask, k).push(
            BUTTON_NAMES@[k].1@,
        ),
        mask & BUTTON_NAMES@[k].0 == 0 ==> held_names(mask, k + 1) == held_names(mask, k),
        k > 0 ==> BUTTON_NAMES@[k].0 == 2 * BUTTON_NAMES@[k - 1].0,
        BUTTON_NAMES@[0].0 == 1,
        mask & BUTTON_NAMES@[k].0 != 0 ==> button_list_text(mask) == join(
            held_names(mask, 13),
            "+"@,
        ) && held_names(mask, 13).len() > 0,
        mask & 0x1FFF == 0 ==> button_list_text(mask) == "none"@,
{
    if mask & BUTTON_NAMES@[k].0 != 0 {
        lemma_held_name_stays(mask, k, 13);
    }
    law_unnamed_buttons_ignored(mask);
}

proof fn lemma_held_name_stays(mask: u16, k: int, n: int)
    requires
        0 <= k < n <= 13,
        mask & BUTTON_NAMES@[k].0 != 0,
    ensures
        held_names(mask, n).len() > 0,
    decreases n,
{
    if n > k + 1 {
        lemma_held_name_stays(mask, k, n - 1);
    }
}

/// A hex dump shows each byte in its place: two digits that read back as it,
/// with a space between neighbours.
pub proof fn law_raw_hex_reads_back(data: Seq<u8>, i: int)
    requires
        0 <= i < data.len(),
    ensures
        raw_hex_text(data).len() == 3 * data.len() - 1,
        16 * hex_value(raw_hex_text(data)[3 * i]) + hex_value(raw_hex_text(data)[3 * i + 1])
            == data[i],
        i + 1 < data.len() ==> raw_hex_text(data)[3 * i + 2] == ' ',
    decreases data.len(),
{
    lemma_raw_hex_len(data);
    lemma_raw_hex_last(data);
    lemma_raw_hex_len(data.drop_last());
    reveal_strlit(" ");
    law_hex_reads_back(data.last(), 0);
    if i < data.len() - 1 {
        law_raw_hex_reads_back(data.drop_last(), i);
    }
}

/// A battery level is the first byte in percent, and the power state that byte
/// stands for: 0xAB charging, 0xAF discharging, 0xBB plugged in.
pub proof fn law_battery_and_power_bytes(data: Seq<u8>)
    requires
        data.len() > 0,
    ensures
        battery_text(data) == "battery="@ + dec(data[0] as nat) + "%"@,
        data[0] == 0xAB ==> power_text(data) == "power="@ + "charging"@,
        data[0] == 0xAF ==> power_text(data) == "power="@ + "discharging"@,
        data[0] == 0xBB ==> power_text(data) == "power="@ + "plugged-in"@,
        data[0] != 0xAB && data[0] != 0xAF && data[0] != 0xBB ==> power_text(data)
            == "power=unknown(0x"@ + hex2(data[0]) + ")"@,
{
}

/// The line of a button report tells the new mask, what was pressed and what
/// was released.
pub proof fn law_button_line(before: u16, payload: Seq<u8>, now: u16)
    requires
        payload.len() == 2,
        now == payload[0] + 256 * payload[1],
    ensures
        mask_after(before, payload) == now,
        now != before ==> input_text(before, payload) == "buttons="@ + button_list_text(now)
            + " pressed="@ + button_list_text(now & !before) + " released="@ + button_list_text(
            before & !now,
        ),
        now == before ==> input_text(before, payload) == "unknown HID packet len="@ + dec(2),
{
}

/// The line of a touch frame names the fingers, each with its readings, the
/// slots in contact and the packet counter.
pub proof fn law_touch_line(ev: TouchEvent, slot_no: nat, f: FingerData)
    ensures
        ev.points@[0] is None && ev.points@[1] is None ==> touch_text(ev) == "touch released"@ + (
        " mask=0x"@ + hex2(ev.finger_mask) + " seq=0x"@ + hex4(ev.seq)),
        ev.points@[0] is Some && ev.points@[1] is None ==> touch_text(ev)
            == "touch fingers="@ + dec(1) + finger_text(1, ev.points@[0]->0) + seq![] + (
        " mask=0x"@ + hex2(ev.finger_mask) + " seq=0x"@ + hex4(ev.seq)),
        ev.points@[0] is None && ev.points@[1] is Some ==> touch_text(ev) == "touch fingers="@
            + dec(1) + seq![] + finger_text(2, ev.points@[1]->0) + (" mask=0x"@ + hex2(
            ev.finger_mask,
        ) + " seq=0x"@ + hex4(ev.seq)),
        ev.points@[0] is Some && ev.points@[1] is Some ==> touch_text(ev) == "touch fingers="@
            + dec(2) + finger_text(1, ev.points@[0]->0) + finger_text(2, ev.points@[1]->0) + (
        " mask=0x"@ + hex2(ev.finger_mask) + " seq=0x"@ + hex4(ev.seq)),
        finger_text(slot_no, f) == " ["@ + dec(slot_no) + ": x="@ + dec(f.x as nat) + " y="@
            + dec_signed(f.y as int) + " pressure="@ + dec(f.pressure as nat) + " status=0x"@
            + hex2(f.status) + " aux="@ + hex2(f.aux@[0]) + hex2(f.aux@[1]) + " byte1_high=0x"@
            + hex2(f.byte1_high) + "]"@,
{
}

/// The line of an event: time, source, identifier, the bytes in full, and what
/// they say, which the source decides.
pub proof fn law_line_by_source(
    stamp: Seq<char>,
    source: Seq<char>,
    identifier: Seq<char>,
    payload: Seq<u8>,
    before: u16,
)
    ensures
        event_text(stamp, source, identifier, payload, before) == stamp + " "@ + source + " "@
            + identifier + " raw="@ + raw_hex_text(payload) + " | "@ + decoded_text(
            source,
            payload,
            before,
        ),
        decoded_text("battery"@, payload, before) == battery_text(payload),
        decoded_text("power"@, payload, before) == power_text(payload),
        decoded_text("input"@, payload, before) == input_text(before, payload),
        source != "battery"@ && source != "power"@ && source != "input"@ ==> decoded_text(
            source,
            payload,
            before,
        ) == "len="@ + dec(payload.len()),
{
    reveal_strlit("battery");
    reveal_strlit("power");
    reveal_strlit("input");
    assert("power"@[0] != "input"@[0]);
    assert("battery"@.len() == 7 && "power"@.len() == 5 && "input"@.len() == 5);
}

} // verus!
