use siri_remote::calibration::Calibration;
use siri_remote::contact::{Contact, ContactFrame};
use siri_remote::decoder::TouchEvent;
use siri_remote::gamepad::config::{default_buttons, GamepadConfig, HatDir, StickMode, Target};
use siri_remote::gamepad::pad::{
    InputEvent, ABS_HAT0X, ABS_HAT0Y, ABS_X, ABS_Y, BTN_SOUTH, EV_ABS, EV_KEY, PAD_KEYS, STICK_MAX,
    STICK_MIN,
};
use siri_remote::gamepad::state::{PadPoint, PadState, StickMotion};
use siri_remote::session::DeviceEvent;

fn apply_deadzone(x: f64, y: f64, dz: f64) -> (f64, f64) {
    let m = (x * x + y * y).sqrt();
    if m <= dz {
        return (0.0, 0.0);
    }
    let s = ((m - dz) / (1.0 - dz)) / m;
    ((x * s).clamp(-1.0, 1.0), (y * s).clamp(-1.0, 1.0))
}

fn to_axis(v: f64) -> i32 {
    (v * STICK_MAX as f64)
        .round()
        .clamp(STICK_MIN as f64, STICK_MAX as f64) as i32
}

// The translator together with the shaping of a deflection.
struct Pad {
    st: PadState,
    cfg: GamepadConfig,
}

impl Pad {
    fn new(cfg: GamepadConfig, cal: Calibration) -> Self {
        Pad { st: PadState::new(cfg, cal), cfg }
    }

    fn on_buttons(&mut self, mask: u16, out: &mut Vec<InputEvent>) {
        self.st.on_buttons(mask, out);
    }

    fn neutral(&mut self, out: &mut Vec<InputEvent>) {
        self.st.neutral(out);
    }

    fn on_touch(&mut self, frame: &ContactFrame, out: &mut Vec<InputEvent>) {
        let share = |p: PadPoint, span: PadPoint| {
            (p.x as f64 / span.x as f64, p.y as f64 / span.y as f64)
        };
        let (ax, ay) = match self.st.on_touch(frame, out) {
            StickMotion::Settled => return,
            StickMotion::At { point, span } => {
                let (nx, ny) = share(point, span);
                (nx * 2.0 - 1.0, 1.0 - ny * 2.0)
            }
            StickMotion::Displaced { origin, point, span } => {
                let r = f64::from_bits(self.cfg.stick_radius);
                let (ox, oy) = share(origin, span);
                let (nx, ny) = share(point, span);
                ((nx - ox) / r, (oy - ny) / r)
            }
        };
        let (ax, ay) = apply_deadzone(
            ax.clamp(-1.0, 1.0),
            ay.clamp(-1.0, 1.0),
            f64::from_bits(self.cfg.deadzone),
        );
        self.st.deflect(to_axis(ax), to_axis(ay), out);
    }
}

fn cfg(stick_mode: StickMode, deadzone: f64) -> GamepadConfig {
    let mut buttons = [(0u16, Target::Unmapped); 13];
    for (slot, (bit, _, target)) in buttons.iter_mut().zip(default_buttons()) {
        *slot = (bit, target);
    }
    GamepadConfig {
        stick_mode,
        stick_radius: 0.35f64.to_bits(),
        deadzone: deadzone.to_bits(),
        buttons,
    }
}

fn st(stick_mode: StickMode) -> Pad {
    Pad::new(cfg(stick_mode, 0.0), CAL)
}

fn finger(x: i32, y: i32) -> Contact {
    Contact {
        x,
        y,
        major: 0x10,
        minor: 0x10,
        pressure: 0x18,
        flags: 0,
        hover: false,
        angle_idx: 0,
    }
}

fn touch(points: [Option<Contact>; 2]) -> ContactFrame {
    ContactFrame {
        header: 0,
        seq: 0,
        points,
    }
}

fn one(x: i32, y: i32) -> ContactFrame {
    touch([Some(finger(x, y)), None])
}

fn axis(batch: &[InputEvent], code: u16) -> Option<i32> {
    batch
        .iter()
        .filter(|e| e.event_type == EV_ABS && e.code == code)
        .map(|e| e.value)
        .next_back()
}

fn key(batch: &[InputEvent], code: u16) -> Option<i32> {
    batch
        .iter()
        .filter(|e| e.event_type == EV_KEY && e.code == code)
        .map(|e| e.value)
        .next_back()
}

// Spelled out so the axis assertions below can compute exact pad coordinates.
// Pinned to `Calibration::default` by `cal_const_tracks_default`.
const CAL: Calibration = Calibration {
    x_min: -2029,
    x_max: 1984,
    y_min: -1010,
    y_max: 270,
};

#[test]
fn cal_const_tracks_default() {
    assert_eq!(CAL, Calibration::default());
}

fn mid(lo: i32, hi: i32) -> i32 {
    (lo + hi) / 2
}

#[test]
fn absolute_centre_is_centred() {
    let mut s = st(StickMode::Absolute);
    let mut b = Vec::new();
    s.on_touch(
        &one(mid(CAL.x_min, CAL.x_max), mid(CAL.y_min, CAL.y_max)),
        &mut b,
    );
    // Integer midpoint rounding leaves at most one LSB of the span.
    let ax = axis(&b, ABS_X).unwrap_or(0);
    let ay = axis(&b, ABS_Y).unwrap_or(0);
    assert!(ax.abs() <= 32, "ABS_X {ax}");
    assert!(ay.abs() <= 32, "ABS_Y {ay}");
}

#[test]
fn absolute_bottom_right_is_max_on_both_axes() {
    let mut s = st(StickMode::Absolute);
    let mut b = Vec::new();
    s.on_touch(&one(CAL.x_max, CAL.y_min), &mut b);
    assert_eq!(axis(&b, ABS_X), Some(STICK_MAX));
    assert_eq!(axis(&b, ABS_Y), Some(STICK_MAX));
}

#[test]
fn absolute_top_of_pad_is_negative_y() {
    let mut s = st(StickMode::Absolute);
    let mut b = Vec::new();
    s.on_touch(&one(mid(CAL.x_min, CAL.x_max), CAL.y_max), &mut b);
    let ay = axis(&b, ABS_Y).expect("ABS_Y emitted");
    assert!((-32767..=-32766).contains(&ay), "ABS_Y {ay}");
}

#[test]
fn relative_first_frame_captures_origin_without_deflecting() {
    let mut s = st(StickMode::Relative);
    let mut b = Vec::new();
    s.on_touch(&one(1500, 100), &mut b);
    // Nothing changed from the centred initial state, so nothing is emitted.
    assert!(b.is_empty(), "{b:?}");
}

#[test]
fn relative_displacement_of_one_radius_is_full_scale() {
    let mut s = st(StickMode::Relative);
    let mut b = Vec::new();
    let x0 = mid(CAL.x_min, CAL.x_max);
    s.on_touch(&one(x0, 100), &mut b);
    b.clear();
    let span = (CAL.x_max - CAL.x_min) as f64;
    let dx = (span * 0.35).round() as i32;
    s.on_touch(&one(x0 + dx, 100), &mut b);
    assert_eq!(axis(&b, ABS_X), Some(STICK_MAX));
}

#[test]
fn release_recentres_and_reorigins() {
    let mut s = st(StickMode::Relative);
    let mut b = Vec::new();
    let x0 = mid(CAL.x_min, CAL.x_max);
    s.on_touch(&one(x0, 100), &mut b);
    b.clear();
    s.on_touch(&one(x0 + 800, 100), &mut b);
    assert!(axis(&b, ABS_X).unwrap() > 0);

    // The firmware's all-zero 11-byte payload decodes to no points.
    b.clear();
    s.on_touch(&touch([None, None]), &mut b);
    assert_eq!(axis(&b, ABS_X), Some(0));

    // Fresh contact somewhere else re-origins, so its first frame is centred.
    b.clear();
    s.on_touch(&one(x0 - 1200, 200), &mut b);
    assert!(b.is_empty(), "{b:?}");
}

#[test]
fn hover_frame_is_treated_as_released() {
    let mut s = st(StickMode::Relative);
    let mut b = Vec::new();
    let mut f = finger(1500, 100);
    f.hover = true;
    s.on_touch(&touch([Some(f), None]), &mut b);
    assert!(b.is_empty(), "{b:?}");

    // No origin was captured, so the first real contact still centres.
    b.clear();
    s.on_touch(&one(1500, 100), &mut b);
    assert!(b.is_empty(), "{b:?}");
}

#[test]
fn slot_two_is_ignored() {
    let mut s = st(StickMode::Absolute);
    let mut b = Vec::new();
    s.on_touch(
        &touch([None, Some(finger(CAL.x_max, CAL.y_min))]),
        &mut b,
    );
    assert!(b.is_empty(), "{b:?}");
}

#[test]
fn select_drives_btn_south_with_edge_dedup() {
    let mut s = st(StickMode::Relative);
    let mut b = Vec::new();
    s.on_buttons(0x0008, &mut b);
    assert_eq!(key(&b, BTN_SOUTH), Some(1));
    assert_eq!(b.len(), 1, "{b:?}");

    b.clear();
    s.on_buttons(0x0008, &mut b);
    assert!(b.is_empty(), "state-refresh packet re-emitted: {b:?}");

    b.clear();
    s.on_buttons(0x0000, &mut b);
    assert_eq!(key(&b, BTN_SOUTH), Some(0));
}

#[test]
fn clickpad_directions_drive_the_hat() {
    let mut s = st(StickMode::Relative);
    let mut b = Vec::new();
    s.on_buttons(0x0200, &mut b);
    assert_eq!(axis(&b, ABS_HAT0Y), Some(-1));

    b.clear();
    s.on_buttons(0x0800, &mut b);
    assert_eq!(axis(&b, ABS_HAT0Y), Some(1));

    // Up + down cancel.
    b.clear();
    s.on_buttons(0x0A00, &mut b);
    assert_eq!(axis(&b, ABS_HAT0Y), Some(0));

    b.clear();
    s.on_buttons(0x0400, &mut b);
    assert_eq!(axis(&b, ABS_HAT0X), Some(1));
}

#[test]
fn deadzone_suppresses_small_deflection_but_keeps_full_scale() {
    let mut s = Pad::new(cfg(StickMode::Absolute, 0.5), CAL);
    let mut b = Vec::new();
    // ~25 % right of centre, inside a 0.5 dead zone.
    let x = mid(CAL.x_min, CAL.x_max) + ((CAL.x_max - CAL.x_min) as f64 * 0.125) as i32;
    s.on_touch(&one(x, mid(CAL.y_min, CAL.y_max)), &mut b);
    assert_eq!(axis(&b, ABS_X).unwrap_or(0), 0);

    b.clear();
    s.on_touch(&one(CAL.x_max, CAL.y_min), &mut b);
    assert_eq!(axis(&b, ABS_X), Some(STICK_MAX));
}

#[test]
fn neutral_releases_and_recentres() {
    let mut s = st(StickMode::Absolute);
    let mut b = Vec::new();
    s.on_buttons(0x0208, &mut b);
    b.clear();
    s.on_touch(&one(CAL.x_max, CAL.y_min), &mut b);
    b.clear();

    s.neutral(&mut b);
    assert_eq!(key(&b, BTN_SOUTH), Some(0));
    assert_eq!(axis(&b, ABS_HAT0Y), Some(0));
    assert_eq!(axis(&b, ABS_X), Some(0));
    assert_eq!(axis(&b, ABS_Y), Some(0));

    // Idempotent: a second neutral has nothing left to release.
    b.clear();
    s.neutral(&mut b);
    assert!(b.is_empty(), "{b:?}");
}

#[test]
fn a_degenerate_calibration_holds_the_stick() {
    let flat = Calibration { x_min: 5, x_max: 5, y_min: 0, y_max: 9 };
    let mut s = PadState::new(cfg(StickMode::Absolute, 0.0), flat);
    let mut b = Vec::new();
    s.deflect(100, -200, &mut b);
    b.clear();
    assert_eq!(s.on_touch(&one(5, 5), &mut b), StickMotion::Settled);
    assert!(b.is_empty(), "{b:?}");
    // A release still centres.
    s.on_touch(&touch([None, None]), &mut b);
    assert_eq!(axis(&b, ABS_X), Some(0));
    assert_eq!(axis(&b, ABS_Y), Some(0));
}

#[test]
fn contacts_beyond_the_pad_count_as_its_edge() {
    let mut s = PadState::new(cfg(StickMode::Absolute, 0.0), CAL);
    let mut b = Vec::new();
    match s.on_touch(&one(30000, -30000), &mut b) {
        StickMotion::At { point, span } => {
            assert_eq!(span, PadPoint { x: 4013, y: 1280 });
            assert_eq!(point, PadPoint { x: 4013, y: 0 });
        }
        m => panic!("unexpected {m:?}"),
    }
}

#[test]
fn two_buttons_can_share_a_key() {
    let mut c = cfg(StickMode::Relative, 0.0);
    c.buttons[0].1 = Target::Key(BTN_SOUTH);
    // Three bits on one direction do not push the hat past its end.
    c.buttons[1].1 = Target::Hat(HatDir::Left);
    c.buttons[2].1 = Target::Hat(HatDir::Left);
    let mut s = PadState::new(c, CAL);
    let mut b = Vec::new();
    s.on_buttons(0x0009, &mut b);
    assert_eq!(b.len(), 1, "{b:?}");
    b.clear();
    s.on_buttons(0x0001, &mut b);
    assert!(b.is_empty(), "{b:?}");
    s.on_buttons(0x0000, &mut b);
    assert_eq!(key(&b, BTN_SOUTH), Some(0));
    b.clear();
    s.on_buttons(0x1006, &mut b);
    assert_eq!(axis(&b, ABS_HAT0X), Some(-1));
}

#[test]
fn a_batch_tells_the_whole_change() {
    let mut s = PadState::new(cfg(StickMode::Relative, 0.0), CAL);
    let mut seen = [false; 11];
    for mask in [0x0001u16, 0x01FF, 0x00F0, 0x1FFF, 0x0100, 0xE000, 0x0000] {
        let mut b = Vec::new();
        s.on_buttons(mask, &mut b);
        for e in &b {
            if e.event_type == EV_KEY {
                let i = PAD_KEYS.iter().position(|k| *k == e.code).unwrap();
                seen[i] = e.value == 1;
            }
        }
        for (bit, _, target) in default_buttons() {
            if let Target::Key(code) = target {
                let i = PAD_KEYS.iter().position(|k| *k == code).unwrap();
                assert_eq!(seen[i], mask & bit != 0);
            }
        }
    }
}

#[test]
fn device_events_are_folded() {
    let mut s = PadState::new(cfg(StickMode::Absolute, 0.0), CAL);
    let mut b = Vec::new();
    let ev = DeviceEvent::Buttons { report_id: 0xFB, mask: 8, pressed: 0, released: 0, raw: [8, 0] };
    assert_eq!(s.on_event(&ev, &mut b), StickMotion::Settled);
    assert_eq!(key(&b, BTN_SOUTH), Some(1));
    b.clear();
    let raw = vec![0x32, 0, 0, 1, 0x80, 0, 0xC0, 0x11, 0x22, 0x10, 0xE5];
    let event = TouchEvent::parse(&raw).unwrap();
    let frame = ContactFrame::of(&event);
    assert_eq!(frame.header, 1);
    let c = frame.points[0].unwrap();
    assert_eq!((c.x, c.y, c.major, c.minor), (128, 4, 0x11, 0x22));
    assert_eq!((c.flags, c.hover, c.angle_idx, c.angle_tenths()), (0xE5, false, 7, 0));
    let ev = DeviceEvent::Touch { report_id: 0xFC, event, raw };
    assert!(matches!(
        s.on_event(&ev, &mut b),
        StickMotion::At { point: PadPoint { x: 2157, y: 1014 }, .. }
    ));
    let ev = DeviceEvent::Battery { value: 1, raw: vec![1] };
    assert_eq!(s.on_event(&ev, &mut b), StickMotion::Settled);
    assert!(b.is_empty(), "{b:?}");
}

#[test]
fn orientation_buckets() {
    let mut c = finger(0, 0);
    for (idx, tenths) in [225, 450, 675, 900, 1125, 1350, 1575, 0].into_iter().enumerate() {
        c.angle_idx = idx as u8;
        assert_eq!(c.angle_tenths(), tenths);
    }
}
