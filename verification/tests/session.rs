use siri_remote::bluez::device::RemoteDevice;
use siri_remote::bluez::hid::{HidSession, ReadReport, ReportPath};
use siri_remote::decoder::{InputDecoder, TouchDecoder};
use siri_remote::hid::{
    Characteristic, BATTERY_LEVEL_UUID, BATTERY_POWER_UUID, HID_REPORT_UUID, PROP_INDICATE,
    PROP_NOTIFY, PROP_READ,
};
use siri_remote::scan::{Candidate, ScanError};
use siri_remote::session::{
    bonded_lines, choose_bonded, choose_initial_selection, connect_step, decode_btleplug,
    decode_hid_report, find_peripheral, is_auth_failure, normalize_address, notify_plan,
    print_selected, refreshed, report_lines, resolve_address, resolve_step,
    switch_to_pairing_scan, unresolved, Attempt, ConnectAction, ConnectEvent, DeviceEvent,
    Incoming, InitAction, InitError, InitEvent, NotifyPlan, PowerState, ResolveEvent, ResolveStep,
    Selection, Session, SessionStep, ValueNotification, ADDRESS_RESOLVE_TIMEOUT,
};

#[test]
fn buttons_decode_emits_transitions() {
    let mut input = InputDecoder::new();
    let mut touch = TouchDecoder::new();
    // First press of TV (0x0001).
    let ev = decode_hid_report(0xFB, vec![0x01, 0x00], &mut input, &mut touch);
    match ev {
        DeviceEvent::Buttons {
            report_id,
            mask,
            pressed,
            released,
            raw,
        } => {
            assert_eq!(report_id, 0xFB);
            assert_eq!(mask, 0x0001);
            assert_eq!(pressed, 0x0001);
            assert_eq!(released, 0x0000);
            assert_eq!(raw, [0x01, 0x00]);
        }
        _ => panic!("expected Buttons"),
    }
    // Release: pressed=0, released=TV.
    let ev = decode_hid_report(0xFB, vec![0x00, 0x00], &mut input, &mut touch);
    match ev {
        DeviceEvent::Buttons {
            mask,
            pressed,
            released,
            ..
        } => {
            assert_eq!(mask, 0x0000);
            assert_eq!(pressed, 0x0000);
            assert_eq!(released, 0x0001);
        }
        _ => panic!("expected Buttons"),
    }
    // State-refresh: same mask twice → pressed/released both zero
    // ("unknown HID packet len=2" in the stream).
    let _ = decode_hid_report(0xFB, vec![0x02, 0x00], &mut input, &mut touch);
    let ev = decode_hid_report(0xFB, vec![0x02, 0x00], &mut input, &mut touch);
    match ev {
        DeviceEvent::Buttons {
            pressed, released, ..
        } => {
            assert_eq!(pressed, 0);
            assert_eq!(released, 0);
        }
        _ => panic!("expected Buttons"),
    }
}

#[test]
fn touch_decode_emits_touch_event() {
    let mut input = InputDecoder::new();
    let mut touch = TouchDecoder::new();
    // 11-byte touchpad payload: marker + seq + finger_mask(slot1) + 7 finger bytes.
    // X=128 (zone 0), Y byte 0xC0 (signed wrap path: 0xC0-188 = 4).
    let mut payload = vec![0x32, 0x00, 0x00, 0x01, 0x80, 0x00, 0xC0, 0x00, 0x00, 0x10, 0x05];
    // Sanity: 11 bytes.
    assert_eq!(payload.len(), 11);
    let ev = decode_hid_report(0xFC, payload.clone(), &mut input, &mut touch);
    match ev {
        DeviceEvent::Touch {
            report_id,
            event,
            raw,
        } => {
            assert_eq!(report_id, 0xFC);
            assert_eq!(raw, payload);
            assert_eq!(event.finger_count(), 1);
            let f = event.points[0].expect("slot 1 finger present");
            assert_eq!(f.x, 128);
            assert_eq!(f.pressure, 0x10);
            assert_eq!(f.status, 0x05);
        }
        _ => panic!("expected Touch"),
    }
    // Drain the borrow on payload so the assertion above can move it.
    payload.clear();
}

#[test]
fn power_byte_classified() {
    let ev = decode_btleplug(ValueNotification {
        uuid: BATTERY_POWER_UUID,
        value: vec![0xAB],
    })
    .expect("event");
    match ev {
        DeviceEvent::Power { state, raw } => {
            assert_eq!(state, PowerState::Charging);
            assert_eq!(raw, vec![0xAB]);
        }
        _ => panic!("expected Power"),
    }
    let ev = decode_btleplug(ValueNotification {
        uuid: BATTERY_POWER_UUID,
        value: vec![0xFE],
    })
    .expect("event");
    match ev {
        DeviceEvent::Power { state, .. } => {
            assert_eq!(state, PowerState::Unknown(0xFE));
        }
        _ => panic!("expected Power"),
    }
}

#[test]
fn battery_value_extracted() {
    let ev = decode_btleplug(ValueNotification {
        uuid: BATTERY_LEVEL_UUID,
        value: vec![57],
    })
    .expect("event");
    match ev {
        DeviceEvent::Battery { value, raw } => {
            assert_eq!(value, 57);
            assert_eq!(raw, vec![57]);
        }
        _ => panic!("expected Battery"),
    }
}

#[test]
fn hid_report_uuid_passthrough_dropped() {
    let dropped = decode_btleplug(ValueNotification {
        uuid: HID_REPORT_UUID,
        value: vec![0x01, 0x00],
    });
    assert!(dropped.is_none());
}

fn remote(address: &str, connected: bool) -> RemoteDevice {
    RemoteDevice {
        path: format!("/org/bluez/hci0/dev_{address}"),
        adapter_path: "/org/bluez/hci0".to_string(),
        address: address.to_string(),
        name: String::new(),
        alias: "Remote".to_string(),
        paired: true,
        bonded: true,
        trusted: false,
        connected,
        uuids: vec![],
        modalias: String::new(),
        manufacturer_data: vec![],
        reasons: vec![],
    }
}

fn candidate(name: Option<&str>) -> Candidate {
    Candidate {
        identity_address: "10:B9:C4:01:A3:C0".to_string(),
        peripheral_id: 7,
        last_address: "AA:BB:CC:DD:EE:FF".to_string(),
        last_rssi: -44,
        hits: 3,
        rssi_total: -132,
        last_name: name.map(str::to_string),
    }
}

fn selection() -> Selection {
    Selection {
        address: "AA:BB:CC:DD:EE:FF".to_string(),
        name: "tv \"room\"".to_string(),
        peripheral_id: None,
        identity_address: Some("10:B9:C4:01:A3:C0".to_string()),
        requires_pairing: true,
        rssi: Some(-44),
    }
}

#[test]
fn addresses_are_normalized_or_refused() {
    assert_eq!(
        normalize_address("  10:b9:c4:01:a3:c0\n"),
        Ok("10:B9:C4:01:A3:C0".to_string())
    );
    assert_eq!(
        normalize_address("10:B9:C4:01:A3:C0"),
        Ok("10:B9:C4:01:A3:C0".to_string())
    );
    for bad in ["", "10:B9:C4:01:A3", "10-B9-C4-01-A3-C0", "10:B9:C4:01:A3:G0", "1:0B9:C4:01:A3:C0"] {
        assert_eq!(
            normalize_address(bad),
            Err(format!("invalid Bluetooth address: {bad:?}"))
        );
    }
    // Seventeen bytes, but not seventeen characters.
    assert!(normalize_address("10:B9:C4:01:A3:\u{e9}").is_err());
}

#[test]
fn initial_selection_goes_from_address_to_scan_to_bond() {
    match choose_initial_selection(InitEvent::Begin(Some("aa:bb:cc:dd:ee:ff".to_string()))) {
        InitAction::Use { selection, reason } => {
            assert_eq!(selection.address, "AA:BB:CC:DD:EE:FF");
            assert_eq!(selection.identity_address.as_deref(), Some("AA:BB:CC:DD:EE:FF"));
            assert_eq!(selection.name, "requested address");
            assert!(!selection.requires_pairing);
            assert_eq!(reason, "requested address; connecting directly");
        }
        _ => panic!("expected Use"),
    }
    match choose_initial_selection(InitEvent::Begin(Some("nope".to_string()))) {
        InitAction::Fail(InitError::Invalid(m)) => {
            assert_eq!(m, "invalid Bluetooth address: \"nope\"")
        }
        _ => panic!("expected Fail"),
    }
    assert!(matches!(
        choose_initial_selection(InitEvent::Begin(None)),
        InitAction::Scan
    ));
    assert!(matches!(
        choose_initial_selection(InitEvent::Bonded(vec![])),
        InitAction::Fail(InitError::Timeout)
    ));
    match choose_initial_selection(InitEvent::Bonded(vec![remote("A", false), remote("B", true)])) {
        InitAction::Use { selection, reason } => {
            assert_eq!(selection.address, "B");
            assert_eq!(selection.name, "Remote");
            assert!(!selection.requires_pairing);
            assert_eq!(reason, "bonded and currently connected");
        }
        _ => panic!("expected Use"),
    }
    match choose_initial_selection(InitEvent::Bonded(vec![remote("A", false)])) {
        InitAction::Use { reason, .. } => assert_eq!(reason, "bonded (will reconnect)"),
        _ => panic!("expected Use"),
    }
    match choose_initial_selection(InitEvent::Scanned(Ok(candidate(None)))) {
        InitAction::Use { selection, reason } => {
            assert_eq!(selection.name, "10:B9:C4:01:A3:C0");
            assert_eq!(selection.address, "AA:BB:CC:DD:EE:FF");
            assert_eq!(selection.identity_address.as_deref(), Some("10:B9:C4:01:A3:C0"));
            assert_eq!(selection.peripheral_id, Some(7));
            assert!(!selection.requires_pairing);
            assert_eq!(selection.rssi, Some(-44));
            assert_eq!(reason, "nearest advertising remote");
        }
        _ => panic!("expected Use"),
    }
    assert!(matches!(
        choose_initial_selection(InitEvent::Scanned(Err(ScanError::Timeout))),
        InitAction::ListBonded
    ));
    match choose_initial_selection(InitEvent::Scanned(Err(ScanError::Other("e".to_string())))) {
        InitAction::Fail(InitError::Invalid(m)) => assert_eq!(m, "e"),
        _ => panic!("expected Fail"),
    }
}

#[test]
fn pairing_scan_outcome() {
    let s = switch_to_pairing_scan(Some(candidate(Some("Siri")))).unwrap();
    assert_eq!(s.name, "Siri");
    assert!(s.requires_pairing);
    assert!(matches!(switch_to_pairing_scan(None), Err(InitError::Timeout)));
}

#[test]
fn selections_are_announced() {
    assert_eq!(
        print_selected(&selection(), "why"),
        "Selected \"tv \\\"room\\\"\" address=AA:BB:CC:DD:EE:FF identity=10:B9:C4:01:A3:C0 \
         rssi=-44 (why)."
    );
    let mut s = selection();
    s.identity_address = None;
    s.rssi = None;
    assert_eq!(
        print_selected(&s, "why"),
        "Selected \"tv \\\"room\\\"\" address=AA:BB:CC:DD:EE:FF (why)."
    );
    let remotes = vec![remote("A", false), remote("B", true)];
    assert_eq!(choose_bonded(&remotes), Some(1));
    assert_eq!(
        bonded_lines(&remotes, 1),
        vec![
            "2 bonded Siri Remote(s) found; picking Remote (B). Pass --address to override.",
            "    address=A name=\"\" connected=false bonded=true",
            "  * address=B name=\"\" connected=true bonded=true",
        ]
    );
    assert!(bonded_lines(&vec![remote("A", false)], 0).is_empty());
}

#[test]
fn peripherals_are_found_whatever_the_case() {
    let list = vec!["00".to_string(), "aa:bb:cc:dd:ee:ff".to_string()];
    assert_eq!(find_peripheral(&list, &selection()), Some(1));
    assert_eq!(find_peripheral(&vec!["00".to_string()], &selection()), None);
    assert_eq!(
        unresolved(&selection(), None),
        "could not find peripheral with address AA:BB:CC:DD:EE:FF within 10s"
    );
    assert_eq!(unresolved(&selection(), Some("boom".to_string())), "boom");
}

#[test]
fn connecting_falls_back_to_pairing() {
    let mut s = selection();
    assert!(matches!(
        connect_step(&s, ConnectEvent::Resolved),
        ConnectAction::ConnectWithPairing
    ));
    s.requires_pairing = false;
    assert!(matches!(
        connect_step(&s, ConnectEvent::Resolved),
        ConnectAction::ConnectDirectly
    ));
    assert!(matches!(
        connect_step(&s, ConnectEvent::Direct(Attempt::TimedOut)),
        ConnectAction::ConnectWithPairing
    ));
    assert!(matches!(
        connect_step(&s, ConnectEvent::Direct(Attempt::Connected)),
        ConnectAction::DiscoverServices
    ));
    assert!(matches!(
        connect_step(&s, ConnectEvent::Paired(Attempt::Connected)),
        ConnectAction::DiscoverServices
    ));
    assert!(matches!(
        connect_step(&s, ConnectEvent::Direct(Attempt::Failed("x".to_string()))),
        ConnectAction::Fail(m) if m == "x"
    ));
    assert!(matches!(
        connect_step(&s, ConnectEvent::Paired(Attempt::Failed("y".to_string()))),
        ConnectAction::Fail(m) if m == "y"
    ));
    assert!(matches!(
        connect_step(&s, ConnectEvent::Paired(Attempt::TimedOut)),
        ConnectAction::Fail(m) if m == "paired connect timed out"
    ));
}

#[test]
fn a_connection_pins_the_selection() {
    let after = refreshed(&selection(), 3);
    assert_eq!(after.address, "10:B9:C4:01:A3:C0");
    assert_eq!(after.peripheral_id, Some(3));
    assert_eq!(after.identity_address.as_deref(), Some("10:B9:C4:01:A3:C0"));
    assert!(!after.requires_pairing);
    assert_eq!(after.rssi, None);
    let mut s = selection();
    s.identity_address = None;
    assert_eq!(resolve_address(&s), "AA:BB:CC:DD:EE:FF");
}

#[test]
fn notifications_are_planned() {
    assert!(matches!(notify_plan(None, "battery"), NotifyPlan::Absent));
    for p in [PROP_NOTIFY, PROP_INDICATE | PROP_READ] {
        let c = Characteristic { uuid: BATTERY_LEVEL_UUID, properties: p };
        match notify_plan(Some(c), "battery") {
            NotifyPlan::Subscribe(line) => assert_eq!(
                line,
                "Enabled battery notifications on 00002a19-0000-1000-8000-00805f9b34fb."
            ),
            _ => panic!("expected Subscribe"),
        }
    }
    let c = Characteristic { uuid: BATTERY_POWER_UUID, properties: PROP_READ };
    match notify_plan(Some(c), "power") {
        NotifyPlan::Unable(line) => assert_eq!(
            line,
            "warning: power characteristic 00002a1a-0000-1000-8000-00805f9b34fb is not notifiable"
        ),
        _ => panic!("expected Unable"),
    }
}

#[test]
fn reports_are_listed() {
    let reads = vec![
        ReadReport {
            report: ReportPath {
                path: "/d/s/c2".to_string(),
                flags: vec!["read".to_string(), "write".to_string()],
                reference: Some("/d/s/c2/d".to_string()),
            },
            bytes: Some(vec![0xAB, 3]),
        },
        ReadReport {
            report: ReportPath {
                path: "/d/s/c1".to_string(),
                flags: vec!["notify".to_string()],
                reference: Some("/d/s/c1/d".to_string()),
            },
            bytes: Some(vec![0xFC, 1]),
        },
    ];
    assert_eq!(
        report_lines(&HidSession::open("/d", reads)),
        vec![
            "HID service exposes 2 report characteristic(s) under /d:",
            "  report id=0xFC type=input   flags=notify",
            "  report id=0xAB type=feature flags=read,write",
        ]
    );
}

#[test]
fn auth_failures_are_recognized_by_their_words() {
    assert!(is_auth_failure("org.bluez.Error.AuthenticationFailed"));
    assert!(is_auth_failure("Operation Not Permitted"));
    assert!(is_auth_failure("NotPermitted"));
    assert!(is_auth_failure("link en crypt ion required"));
    assert!(!is_auth_failure("connection timed out"));
    assert!(!is_auth_failure(""));
}

#[test]
fn power_states_cover_all_bytes() {
    assert_eq!(PowerState::from_byte(0xAB), PowerState::Charging);
    assert_eq!(PowerState::from_byte(0xAF), PowerState::Discharging);
    assert_eq!(PowerState::from_byte(0xBB), PowerState::PluggedIn);
    assert_eq!(PowerState::from_byte(0), PowerState::Unknown(0));
}

#[test]
fn empty_and_foreign_notifications_pass_through() {
    for uuid in [BATTERY_LEVEL_UUID, BATTERY_POWER_UUID, 42] {
        match decode_btleplug(ValueNotification { uuid, value: vec![] }) {
            Some(DeviceEvent::UnknownOther { uuid: u, payload }) => {
                assert_eq!(u, uuid);
                assert!(payload.is_empty());
            }
            _ => panic!("expected UnknownOther"),
        }
    }
}

#[test]
fn unparsed_reports_keep_their_bytes() {
    let mut input = InputDecoder::new();
    let mut touch = TouchDecoder::new();
    match decode_hid_report(0xFA, vec![1, 2, 3], &mut input, &mut touch) {
        DeviceEvent::UnknownInput { report_id, payload } => {
            assert_eq!(report_id, 0xFA);
            assert_eq!(payload, vec![1, 2, 3]);
        }
        _ => panic!("expected UnknownInput"),
    }
}

#[test]
fn the_stream_ends_with_its_sources() {
    let mut s = Session::new();
    assert!(matches!(s.next_event(Incoming::Probe(true)), SessionStep::Wait));
    assert!(matches!(s.next_event(Incoming::Probe(false)), SessionStep::End));
    assert!(matches!(s.next_event(Incoming::Notification(None)), SessionStep::End));
    assert!(matches!(s.next_event(Incoming::Report(None)), SessionStep::End));
    let n = ValueNotification { uuid: HID_REPORT_UUID, value: vec![1] };
    assert!(matches!(s.next_event(Incoming::Notification(Some(n))), SessionStep::Wait));
    let n = ValueNotification { uuid: BATTERY_LEVEL_UUID, value: vec![80] };
    assert!(matches!(
        s.next_event(Incoming::Notification(Some(n))),
        SessionStep::Emit(DeviceEvent::Battery { value: 80, .. })
    ));
    for (bytes, want) in [([1u8, 0u8], (1u16, 0u16)), ([1, 0], (0, 0)), ([2, 0], (2, 1))] {
        match s.next_event(Incoming::Report(Some((0xFB, bytes.to_vec())))) {
            SessionStep::Emit(DeviceEvent::Buttons { pressed, released, .. }) => {
                assert_eq!((pressed, released), want)
            }
            _ => panic!("expected Buttons"),
        }
    }
}

#[test]
fn white_space_around_an_address_is_dropped() {
    let canonical = "AA:BB:CC:00:11:22";
    let spaces = [
        " ", "\t", "\r\n", "\u{0B}", "\u{85}", "\u{A0}", "\u{1680}", "\u{2003}", "\u{2028}",
        "\u{3000}",
    ];
    for around in spaces {
        let padded = format!("{around}aa:bb:cc:00:11:22{around}{around}");
        assert_eq!(normalize_address(&padded), Ok(canonical.to_string()));
    }
    for other in ["\u{1C}", "\u{200B}", "\u{FEFF}", "x"] {
        let padded = format!("{other}aa:bb:cc:00:11:22");
        assert!(normalize_address(&padded).is_err());
    }
    assert_eq!(normalize_address(canonical), Ok(canonical.to_string()));
}

#[test]
fn normalizing_twice_changes_nothing() {
    // The ligature of two letters f is raised to both.
    for addr in ["AA:BB:CC:00:11:22", " aa:bb:cc:00:11:22", "\u{FB00}:bb:cc:00:11:22"] {
        let once = normalize_address(addr).unwrap();
        assert_eq!(normalize_address(&once), Ok(once.clone()));
    }
    assert_eq!(
        normalize_address("\u{FB00}:bb:cc:00:11:22"),
        Ok("FF:BB:CC:00:11:22".to_string())
    );
}

#[test]
fn peripherals_are_looked_for_until_time_runs_out() {
    let step = |event, last_error, now| resolve_step(&selection(), event, last_error, 100, now);
    let boom = || Some("boom".to_string());
    assert!(matches!(
        step(ResolveEvent::Due, None, 100),
        ResolveStep::Look { last_error: None }
    ));
    // A look without the address, and one that failed.
    assert!(matches!(
        step(ResolveEvent::Seen(Ok(vec!["00".to_string()])), boom(), 200),
        ResolveStep::Pause { wait: 250_000_000, last_error } if last_error == boom()
    ));
    assert!(matches!(
        step(ResolveEvent::Seen(Err("boom".to_string())), None, 200),
        ResolveStep::Pause { wait: 250_000_000, last_error } if last_error == boom()
    ));
    assert!(matches!(
        step(ResolveEvent::Due, boom(), 99 + ADDRESS_RESOLVE_TIMEOUT),
        ResolveStep::Look { last_error } if last_error == boom()
    ));
    // A look that ends late still counts.
    let list = vec!["00".to_string(), "aa:bb:cc:dd:ee:ff".to_string()];
    assert!(matches!(
        step(ResolveEvent::Seen(Ok(list)), None, 200 + ADDRESS_RESOLVE_TIMEOUT),
        ResolveStep::Found(1)
    ));
    assert!(matches!(
        step(ResolveEvent::Due, boom(), 100 + ADDRESS_RESOLVE_TIMEOUT),
        ResolveStep::Fail(m) if m == "boom"
    ));
    assert!(matches!(
        step(ResolveEvent::Due, None, 100 + ADDRESS_RESOLVE_TIMEOUT),
        ResolveStep::Fail(m)
            if m == "could not find peripheral with address AA:BB:CC:DD:EE:FF within 10s"
    ));
}
