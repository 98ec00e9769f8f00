use siri_remote::calibration::Calibration;
use siri_remote::contact::Contact;
use siri_remote::decoder::TouchEvent;
use siri_remote::logger::{Level, LogRecord};
use siri_remote::session::{DeviceEvent, InitError, PowerState, Selection};
use siri_remote::view::app::{
    run_session, should_quit, wait_with_ui, AppOutcome, Key, Terminal, UiEvent, UiStep, WaitEvent,
    WaitOutcome, WaitStep,
};
use siri_remote::view::link::{run_forever, ViewAction, ViewError, ViewEvent};
use siri_remote::view::state::{
    power_label, AppState, CalibrationSession, ConnState, EventSource, TrailPoint,
    BUTTON_AFTERGLOW, EVENT_LOG_CAP, TRAIL_CAP,
};
use siri_remote::view::ui::{
    battery_bar, calibration_area, calibration_lines, contact_color, event_tag, first_shown,
    inscribe_remote_canvas, power_glyph, pretty_button_list, remote_columns, ring_color,
    short_elapsed, status_text, style_for_bit, too_small, touch_lines, trail_head, trail_layers,
    Color, Rect,
};

const MS: u64 = 1_000_000;
const S: u64 = 1_000_000_000;

fn selection() -> Selection {
    Selection {
        address: "AA".to_string(),
        name: "Siri".to_string(),
        peripheral_id: None,
        identity_address: None,
        requires_pairing: false,
        rssi: Some(-44),
    }
}

fn state() -> AppState {
    AppState::new(selection(), Calibration::default(), S)
}

fn buttons(mask: u16, pressed: u16, released: u16) -> DeviceEvent {
    DeviceEvent::Buttons {
        report_id: 0xFB,
        mask,
        pressed,
        released,
        raw: [(mask & 0xFF) as u8, (mask >> 8) as u8],
    }
}

fn touch(raw: &[u8]) -> DeviceEvent {
    DeviceEvent::Touch {
        report_id: 0xFC,
        event: TouchEvent::parse(raw).unwrap(),
        raw: raw.to_vec(),
    }
}

fn last_text(s: &AppState) -> (EventSource, &str) {
    let line = s.events.back().unwrap();
    (line.source, line.text.as_str())
}

const ONE: [u8; 11] = [0x32, 0x14, 0xa6, 0x01, 0xc0, 0x1e, 0xe6, 0x9e, 0x8e, 0x1a, 0xa4];
const TWO: [u8; 18] = [
    0x32, 0xa0, 0x89, 0x11, 0x77, 0x60, 0xf8, 0x47, 0x5a, 0x0f, 0x8b, 0x41, 0x0d, 0xe2, 0x41, 0x55,
    0x0e, 0x83,
];
const NONE: [u8; 11] = [0x32, 0xe6, 0xa6, 0, 0, 0, 0, 0, 0, 0, 0];

#[test]
fn readings_are_kept_and_logged() {
    let mut s = state();
    assert!(matches!(s.connection, ConnState::Connecting { since } if since == S));
    s.on_event(DeviceEvent::Battery { value: 57, raw: vec![57] }, 2 * S);
    assert_eq!(s.battery, Some(57));
    assert_eq!(last_text(&s), (EventSource::Battery, "battery=57%"));
    assert_eq!(s.events.back().unwrap().stamp, 2 * S);
    s.on_event(DeviceEvent::Power { state: PowerState::Unknown(1), raw: vec![1] }, 2 * S);
    assert_eq!(s.power, Some(PowerState::Unknown(1)));
    assert_eq!(last_text(&s), (EventSource::Power, "power=unknown"));
    s.on_event(DeviceEvent::UnknownInput { report_id: 0xFA, payload: vec![0; 99] }, 2 * S);
    assert_eq!(last_text(&s), (EventSource::Raw, "report_id=0xFA len=99"));
    s.on_event(DeviceEvent::UnknownOther { uuid: 0x2a19, payload: vec![] }, 2 * S);
    assert_eq!(
        last_text(&s),
        (EventSource::Raw, "uuid=00000000-0000-0000-0000-000000002a19 len=0")
    );
    assert_eq!(s.events.len(), 4);
}

#[test]
fn buttons_glow_after_release() {
    let mut s = state();
    s.on_event(buttons(0x0A, 0x0A, 0), 0);
    assert_eq!(s.buttons_mask, 0x0A);
    assert!(s.button_afterglow.is_empty());
    assert_eq!(
        last_text(&s),
        (EventSource::Buttons, "mask=0x000A pressed=0x000A released=0x0000")
    );
    s.on_event(buttons(0, 0, 0x0A), 100);
    assert_eq!(s.button_afterglow.get(&0x02), Some(&(100 + BUTTON_AFTERGLOW)));
    assert_eq!(s.button_afterglow.get(&0x08), Some(&(100 + BUTTON_AFTERGLOW)));
    let logged = s.events.len();
    // A state refresh is not logged.
    s.on_event(buttons(0, 0, 0), 110);
    assert_eq!(s.events.len(), logged);
    // Pressing again ends the glow of that button alone.
    s.on_event(buttons(0x08, 0x08, 0), 120);
    assert_eq!(s.button_afterglow.len(), 1);
    s.tick_afterglow(99 + BUTTON_AFTERGLOW);
    assert_eq!(s.button_afterglow.len(), 1);
    s.tick_afterglow(100 + BUTTON_AFTERGLOW);
    assert!(s.button_afterglow.is_empty());
}

#[test]
fn button_colours_fade_in_steps() {
    let mut s = state();
    assert_eq!(style_for_bit(&s, 0x0008, 0), Color::White);
    assert_eq!(ring_color(&s, 0), Color::Gray);
    s.on_event(buttons(0x0008, 0x0008, 0), 0);
    assert_eq!(style_for_bit(&s, 0x0008, 0), Color::Yellow);
    s.on_event(buttons(0, 0, 0x0008), 0);
    let at = |ms: u64| style_for_bit(&s, 0x0008, ms * MS);
    assert_eq!(at(0), Color::LightYellow);
    assert_eq!(at(50), Color::LightYellow);
    assert_eq!(style_for_bit(&s, 0x0008, 51 * MS), Color::Yellow);
    assert_eq!(at(100), Color::Yellow);
    assert_eq!(at(120), Color::Yellow);
    assert_eq!(at(150), Color::Yellow);
    assert_eq!(at(151), Color::White);
    assert_eq!(ring_color(&s, 120 * MS), Color::Yellow);
    assert_eq!(ring_color(&s, 151 * MS), Color::Gray);
    assert_eq!(ring_color(&s, 0), Color::LightYellow);
    // The step is where the fraction of real numbers puts it.
    for ns in [0, 1, 50_999_999, 51_000_000, 51_000_001, 149_999_999, 150_000_000] {
        let frac = (150_000_000 - ns) as f64 / 1e9 / 0.150;
        let want = if frac > 0.66 {
            Color::LightYellow
        } else {
            Color::Yellow
        };
        assert_eq!(style_for_bit(&s, 0x0008, ns), want, "{ns}");
    }
}

#[test]
fn trails_grow_and_clear() {
    let mut s = state();
    s.on_event(touch(&ONE), 5);
    assert!(s.touch_active);
    assert_eq!(
        s.touch_trail.back(),
        Some(&TrailPoint { slot: 1, x: 1722, y: 42, stamp: 5 })
    );
    s.on_event(touch(&TWO), 6);
    assert_eq!(s.touch_trail.len(), 3);
    assert_eq!(
        s.touch_trail.back(),
        Some(&TrailPoint { slot: 2, x: 1340, y: 38, stamp: 6 })
    );
    for i in 0..40 {
        s.on_event(touch(&TWO), 7 + i);
    }
    assert_eq!(s.touch_trail.len(), TRAIL_CAP);
    assert_eq!(s.touch_trail.front().unwrap().stamp, 7 + 25);
    s.on_event(touch(&NONE), 100);
    assert!(!s.touch_active);
    assert!(s.touch_trail.is_empty());
    assert_eq!(s.last_touch.unwrap().seq, 0xa6e6);
}

#[test]
fn the_log_is_bounded_and_ordered() {
    let mut s = state();
    for i in 0..300 {
        s.push_log(EventSource::System, format!("{i}"), i);
    }
    assert_eq!(s.events.len(), EVENT_LOG_CAP);
    assert_eq!(s.events.front().unwrap().text, "44");
    assert_eq!(s.events.back().unwrap().text, "299");
    s.on_log(LogRecord { level: Level::Warn, message: "w".to_string() }, 1);
    assert_eq!(last_text(&s), (EventSource::Warning, "w"));
    s.on_log(LogRecord { level: Level::Error, message: "e".to_string() }, 1);
    assert_eq!(last_text(&s), (EventSource::Warning, "e"));
    s.on_log(LogRecord { level: Level::Info, message: "i".to_string() }, 1);
    assert_eq!(last_text(&s), (EventSource::System, "i"));
    assert_eq!(first_shown(256, 10), 246);
    assert_eq!(first_shown(3, 10), 0);
}

#[test]
fn trail_layers_are_drawn_old_to_new() {
    let mut s = state();
    let p = |slot: u8, stamp: u64| TrailPoint { slot, x: 1, y: 2, stamp };
    for (slot, ms) in [(1u8, 0u64), (1, 399), (2, 1), (1, 1000), (1, 700), (2, 1001), (1, 850)] {
        s.touch_trail.push_back(p(slot, ms * MS));
    }
    let layers = trail_layers(&s.touch_trail, 1000 * MS);
    let got: Vec<(Color, Vec<u64>)> = layers
        .iter()
        .map(|l| (l.color, l.points.iter().map(|p| p.stamp / MS).collect()))
        .collect();
    assert_eq!(
        got,
        vec![
            (Color::Cyan, vec![700]),
            (Color::LightCyan, vec![850]),
            (Color::White, vec![1000]),
            (Color::White, vec![1001]),
        ]
    );
    let mut one = state();
    one.touch_trail.push_back(p(2, 0));
    for (ms, color) in [
        (149, Color::White),
        (150, Color::LightMagenta),
        (299, Color::LightMagenta),
        (300, Color::Magenta),
        (450, Color::DarkGray),
        (600, Color::DarkGray),
    ] {
        assert_eq!(trail_layers(&one.touch_trail, ms * MS)[0].color, color, "{ms}");
        let frac: f64 = (ms as f64 / 1000.0) / 0.6;
        let level = (frac * 4.0).clamp(0.0, 3.999) as usize;
        let by_level =
            [Color::White, Color::LightMagenta, Color::Magenta, Color::DarkGray][level];
        assert_eq!(by_level, color, "{ms}");
    }
    assert!(trail_layers(&one.touch_trail, 601 * MS).is_empty());
    assert_eq!(trail_head(&one.touch_trail), Some((p(2, 0), Color::LightMagenta)));
    assert_eq!(trail_head(&s.touch_trail).unwrap().1, Color::LightCyan);
    assert_eq!(trail_head(&state().touch_trail), None);
}

#[test]
fn contacts_have_their_colours() {
    let mut c = Contact {
        x: 0,
        y: 0,
        major: 1,
        minor: 1,
        pressure: 1,
        flags: 0,
        hover: false,
        angle_idx: 0,
    };
    assert_eq!(contact_color(0, &c), Color::LightCyan);
    assert_eq!(contact_color(1, &c), Color::LightMagenta);
    c.hover = true;
    assert_eq!(contact_color(0, &c), Color::DarkGray);
}

#[test]
fn layout_keeps_aspect_and_room() {
    assert_eq!(too_small(70, 24), None);
    assert_eq!(
        too_small(69, 24).unwrap(),
        "Terminal too small. Need at least 70 cols × 24 rows; have 69×24."
    );
    assert!(too_small(70, 23).is_some());
    assert_eq!(remote_columns(70, 24), 18);
    assert_eq!(remote_columns(200, 50), 34);
    assert_eq!(remote_columns(70, 100), 30);
    assert_eq!(remote_columns(65535, 65535), 43690);
    let r = |x, y, width, height| Rect { x, y, width, height };
    assert_eq!(inscribe_remote_canvas(r(1, 1, 16, 48)), r(1, 13, 16, 24));
    assert_eq!(inscribe_remote_canvas(r(1, 1, 40, 30)), r(11, 1, 20, 30));
    assert_eq!(inscribe_remote_canvas(r(3, 4, 0, 9)), r(3, 4, 0, 9));
    assert_eq!(inscribe_remote_canvas(r(0, 0, 60000, 60000)), r(0, 13616, 60000, 32767));
}

#[test]
fn status_panel_texts() {
    let mut s = state();
    let t = status_text(&s, 8 * S);
    assert_eq!(t.connection, "connecting… (7s)");
    assert_eq!((t.color, t.bold), (Color::Yellow, false));
    assert_eq!(t.identity, "name=\"Siri\" addr=AA");
    assert_eq!(t.level, "rssi=-44 battery=?");
    assert_eq!(t.power, "power=?");
    s.set_connection(ConnState::Connected { since: 0 });
    s.on_event(DeviceEvent::Battery { value: 57, raw: vec![57] }, 0);
    s.on_event(DeviceEvent::Power { state: PowerState::PluggedIn, raw: vec![0xBB] }, 0);
    s.selection.rssi = None;
    let t = status_text(&s, 3661 * S);
    assert_eq!(t.connection, "connected (1h01m)");
    assert_eq!((t.color, t.bold), (Color::Green, true));
    assert_eq!(t.level, "battery=57% [██████····]");
    assert_eq!(t.power, "power=plugged-in");
    s.set_connection(ConnState::Reconnecting { reason: "why".to_string(), since: 0 });
    let t = status_text(&s, 61 * S);
    assert_eq!(t.connection, "reconnecting… why (1m01s)");
    assert_eq!(t.color, Color::Red);
    s.set_connection(ConnState::Pairing { since: 5 });
    let t = status_text(&s, 0);
    assert_eq!(t.connection, "pairing-mode scan (0s)");
    assert_eq!(t.color, Color::Magenta);
}

#[test]
fn short_forms() {
    assert_eq!(short_elapsed(0), "0s");
    assert_eq!(short_elapsed(59), "59s");
    assert_eq!(short_elapsed(60), "1m00s");
    assert_eq!(short_elapsed(3599), "59m59s");
    assert_eq!(short_elapsed(3600), "1h00m");
    assert_eq!(short_elapsed(360000 + 59 * 60), "100h59m");
    assert_eq!(battery_bar(0), "[··········]");
    assert_eq!(battery_bar(4), "[··········]");
    assert_eq!(battery_bar(5), "[█·········]");
    assert_eq!(battery_bar(94), "[█████████·]");
    assert_eq!(battery_bar(95), "[██████████]");
    assert_eq!(battery_bar(255), "[██████████]");
    assert_eq!(pretty_button_list(0), "—");
    assert_eq!(pretty_button_list(0x0101), "TV + Play/Pause");
    assert_eq!(pretty_button_list(0xE000), "");
    assert_eq!(power_label(PowerState::Charging), "charging");
    assert_eq!(power_label(PowerState::Discharging), "discharging");
    assert_eq!(power_glyph(PowerState::Charging), "⚡");
    assert_eq!(power_glyph(PowerState::PluggedIn), "⚡");
    assert_eq!(power_glyph(PowerState::Discharging), "🔋");
    assert_eq!(power_glyph(PowerState::Unknown(3)), "?");
}

#[test]
fn event_tags_line_up() {
    let tags = [
        (EventSource::Buttons, "buttons", Color::Yellow),
        (EventSource::Battery, "battery", Color::Green),
        (EventSource::Power, "power", Color::Green),
        (EventSource::Raw, "raw", Color::Blue),
        (EventSource::System, "system", Color::Magenta),
        (EventSource::Warning, "warn", Color::LightRed),
    ];
    for (source, tag, color) in tags {
        let want = format!("{tag:>7} ");
        assert_eq!(event_tag(source), (want.as_str(), color));
    }
}

#[test]
fn touch_panel_lines() {
    let mut s = state();
    assert_eq!(touch_lines(&s), vec!["touch: idle"]);
    s.on_event(touch(&TWO), 0);
    assert_eq!(
        touch_lines(&s),
        vec![
            "touch: fingers=2 seq=0x89A0 header=0x11",
            "  slot 1: x=119 y=60 pressure=0x0F flags=0x8B hover=false angle=112.5° major=71 \
             minor=90",
            "  slot 2: x=1340 y=38 pressure=0x0E flags=0x83 hover=false angle=112.5° major=65 \
             minor=85",
        ]
    );
    s.on_event(touch(&NONE), 0);
    assert_eq!(touch_lines(&s), vec!["touch: fingers=0 seq=0xA6E6 header=0x00"]);
}

#[test]
fn calibration_panel() {
    let mut s = state();
    assert!(!s.is_calibrating());
    let mut session = CalibrationSession { samples: 0, x_min: 0, x_max: 0, y_min: 0, y_max: 0 };
    assert_eq!(
        calibration_lines(&s, &session),
        vec![
            "trace a circle on the touchpad",
            "press c to finish · Esc to cancel",
            "x: [--..--]  y: [--..--]  samples=0",
            "saved: x=[-2029..1984] y=[-1010..270]",
        ]
    );
    assert_eq!(calibration_area(&Some(session)), None);
    session.samples = 12;
    session.x_min = -3;
    session.x_max = 40;
    assert_eq!(calibration_area(&Some(session)), None);
    session.y_max = 7;
    assert_eq!(calibration_lines(&s, &session)[2], "x: [-3..40]  y: [0..7]  samples=12");
    assert_eq!(calibration_area(&Some(session)), Some(((-3, 0), (40, 7))));
    assert_eq!(calibration_area(&None), None);
    s.calibration_session = Some(session);
    assert!(s.is_calibrating());
}

#[test]
fn keys_that_quit() {
    assert!(should_quit(Key::Char('q'), false));
    assert!(should_quit(Key::Esc, false));
    assert!(should_quit(Key::Char('c'), true));
    assert!(!should_quit(Key::Char('c'), false));
    assert!(!should_quit(Key::Char('Q'), true));
    assert!(!should_quit(Key::Other, true));
}

#[test]
fn the_session_loop_reacts() {
    let mut s = state();
    let ev = DeviceEvent::Battery { value: 1, raw: vec![1] };
    assert_eq!(run_session(&mut s, UiEvent::Session(Some(ev)), 0), UiStep::Redraw);
    assert_eq!(s.battery, Some(1));
    assert_eq!(
        run_session(&mut s, UiEvent::Session(None), 0),
        UiStep::Finish(AppOutcome::Disconnected)
    );
    assert_eq!(
        run_session(&mut s, UiEvent::Terminal(Terminal::Pressed(Key::Esc, false)), 0),
        UiStep::Finish(AppOutcome::Quit)
    );
    assert_eq!(
        run_session(&mut s, UiEvent::Terminal(Terminal::Closed), 0),
        UiStep::Finish(AppOutcome::Quit)
    );
    assert_eq!(
        run_session(&mut s, UiEvent::Terminal(Terminal::Ignored), 0),
        UiStep::Continue
    );
    s.on_event(buttons(0, 0, 1), 0);
    assert_eq!(run_session(&mut s, UiEvent::Tick, BUTTON_AFTERGLOW), UiStep::Redraw);
    assert!(s.button_afterglow.is_empty());
    let record = LogRecord { level: Level::Warn, message: "w".to_string() };
    assert_eq!(run_session(&mut s, UiEvent::Log(record), 0), UiStep::Redraw);
    assert_eq!(last_text(&s), (EventSource::Warning, "w"));
}

#[test]
fn waiting_stays_responsive() {
    let mut s = state();
    assert!(matches!(
        wait_with_ui(&mut s, WaitEvent::Ready(5), 0),
        WaitStep::Finish(WaitOutcome::Ready(5))
    ));
    assert!(matches!(
        wait_with_ui::<u8>(&mut s, WaitEvent::Terminal(Terminal::Pressed(Key::Char('q'), false)), 0),
        WaitStep::Finish(WaitOutcome::Quit)
    ));
    assert!(matches!(
        wait_with_ui::<u8>(&mut s, WaitEvent::Terminal(Terminal::Ignored), 0),
        WaitStep::Continue
    ));
    assert!(matches!(wait_with_ui::<u8>(&mut s, WaitEvent::Tick, 0), WaitStep::Redraw));
    let record = LogRecord { level: Level::Info, message: "i".to_string() };
    assert!(matches!(wait_with_ui::<u8>(&mut s, WaitEvent::Log(record), 0), WaitStep::Redraw));
    assert_eq!(last_text(&s), (EventSource::System, "i"));
    assert!(matches!(
        wait_with_ui::<u8>(&mut s, WaitEvent::DrawFailed, 0),
        WaitStep::Finish(WaitOutcome::Quit)
    ));
}

fn error(detail: &str, denied: Option<&str>) -> ViewError {
    ViewError {
        reason: "short".to_string(),
        detail: detail.to_string(),
        denied: denied.map(str::to_string),
    }
}

#[test]
fn the_link_loop_goes_through_its_steps() {
    let mut s = state();
    assert!(matches!(run_forever(&mut s, ViewEvent::Begin, 9), ViewAction::Connect));
    assert!(matches!(s.connection, ConnState::Connecting { since: 9 }));
    assert_eq!(last_text(&s), (EventSource::System, "connecting to AA"));
    let mut new = selection();
    new.address = "BB".to_string();
    assert!(matches!(
        run_forever(&mut s, ViewEvent::Connected(new), 9),
        ViewAction::OpenSession
    ));
    assert_eq!(s.selection.address, "BB");
    assert!(matches!(run_forever(&mut s, ViewEvent::Opened, 10), ViewAction::RunSession));
    assert!(matches!(s.connection, ConnState::Connected { since: 10 }));
    assert_eq!(last_text(&s).1, "session opened");
    assert!(matches!(run_forever(&mut s, ViewEvent::LinkDropped, 11), ViewAction::Delay));
    assert!(matches!(&s.connection, ConnState::Reconnecting { reason, since: 11 } if reason == "link dropped"));
    assert_eq!(last_text(&s).1, "link dropped; reconnecting");
    assert!(matches!(run_forever(&mut s, ViewEvent::Quit, 12), ViewAction::Exit(0)));
}

#[test]
fn the_link_loop_handles_failures() {
    let mut s = state();
    assert!(matches!(
        run_forever(&mut s, ViewEvent::ConnectFailed(error("timed out", None)), 1),
        ViewAction::Delay
    ));
    assert_eq!(last_text(&s).1, "connect failed: short");
    assert!(matches!(&s.connection, ConnState::Reconnecting { reason, .. } if reason == "short"));
    assert!(matches!(
        run_forever(&mut s, ViewEvent::ConnectFailed(error("Auth", None)), 2),
        ViewAction::ScanForPairing { reason } if reason == "short"
    ));
    assert!(matches!(s.connection, ConnState::Pairing { since: 2 }));
    assert_eq!(last_text(&s).1, "auth failure; scanning for pairing-mode remote");
    let mut found = selection();
    found.requires_pairing = true;
    let scanned = ViewEvent::Scanned { found: Ok(found), reason: "r".to_string() };
    assert!(matches!(run_forever(&mut s, scanned, 3), ViewAction::Restart));
    // A remote that is being paired is not scanned for again.
    assert!(matches!(
        run_forever(&mut s, ViewEvent::ConnectFailed(error("Auth", None)), 4),
        ViewAction::Delay
    ));
    let scanned = ViewEvent::Scanned { found: Err(InitError::Timeout), reason: "r".to_string() };
    assert!(matches!(run_forever(&mut s, scanned, 5), ViewAction::Delay));
    assert_eq!(last_text(&s).1, "pairing-mode scan timed out");
    assert!(matches!(&s.connection, ConnState::Reconnecting { reason, since: 5 } if reason == "r"));
    assert!(matches!(
        run_forever(&mut s, ViewEvent::OpenFailed(error("x", None)), 6),
        ViewAction::Delay
    ));
    assert_eq!(last_text(&s).1, "session open failed: short");
    for ev in [
        ViewEvent::OpenFailed(error("x", Some("/d"))),
        ViewEvent::ConnectFailed(error("Auth", Some("/d"))),
    ] {
        assert!(matches!(run_forever(&mut s, ev, 7), ViewAction::Exit(1)));
        assert_eq!(
            last_text(&s).1,
            "BlueZ refused HID input streaming on /d. Start bluetoothd with --noplugin=input,hog."
        );
        assert!(matches!(
            &s.connection,
            ConnState::Reconnecting { reason, .. } if reason == "hog plugin owns HID service"
        ));
    }
}

#[test]
fn readings_are_the_latest_ones() {
    let mut s = state();
    let idle = [0x32, 0, 0, 0, 0, 0, 0, 0, 0, 0, 0];
    assert!(!s.touch_active && s.touch_trail.is_empty() && s.last_touch.is_none());
    s.on_event(touch(&ONE), 1);
    s.on_event(DeviceEvent::Battery { value: 50, raw: vec![50] }, 2);
    s.on_event(touch(&TWO), 3);
    s.on_event(buttons(0x08, 0x08, 0), 4);
    s.on_event(DeviceEvent::Battery { value: 49, raw: vec![49] }, 5);
    s.on_event(DeviceEvent::Power { state: PowerState::Charging, raw: vec![0xAB] }, 6);
    assert!(s.touch_active);
    assert_eq!(s.last_touch, TouchEvent::parse(&TWO));
    assert_eq!(s.touch_trail.len(), 3);
    assert_eq!((s.battery, s.power), (Some(49), Some(PowerState::Charging)));
    assert_eq!(s.buttons_mask, 0x08);
    s.on_event(touch(&idle), 7);
    assert!(!s.touch_active && s.touch_trail.is_empty());
    assert_eq!(s.last_touch, TouchEvent::parse(&idle));
    assert_eq!((s.battery, s.buttons_mask), (Some(49), 0x08));
}
