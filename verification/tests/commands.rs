use siri_remote::bluez::device::RemoteDevice;
use siri_remote::calibration::{config_base, config_file_in, config_path_in};
use siri_remote::cli::{check_link_args, check_mic_args, check_pair_args, UnpairArgs};
use siri_remote::decoder::TouchEvent;
use siri_remote::dump::{dump_line, dump_now, touch_dump_line, touch_dump_now, Filter};
use siri_remote::events::{
    decode_text_or_hex, describe_properties, event_line, format_event, print_device_info,
    CharacteristicInfo, ServiceInfo,
};
use siri_remote::gamepad::pad::PadGone;
use siri_remote::logger::{enabled, route, undelivered, Level, LogRecord, Route};
use siri_remote::pair::{gatt_lines, not_bonded_message, retry_message, scan_failure};
use siri_remote::reconnect::{
    after_link, after_pairing_scan, init_failure, Help, LinkError, LinkOutcome, LoopStep,
};
use siri_remote::scan::{Candidate, ScanError};
use siri_remote::session::{
    choose_initial_selection, DeviceEvent, InitAction, InitError, InitEvent, PowerState, Selection,
};
use siri_remote::unpair::{exit_code, format_remote, removal_line, unpair_plan, wanted_addresses};

fn selection(requires_pairing: bool) -> Selection {
    Selection {
        address: "A".to_string(),
        name: "N".to_string(),
        peripheral_id: None,
        identity_address: None,
        requires_pairing,
        rssi: None,
    }
}

fn failed(detail: &str) -> LinkOutcome {
    LinkOutcome::Failed(LinkError { detail: detail.to_string(), denied: None, pad_gone: None })
}

fn touch() -> DeviceEvent {
    let raw = vec![0x32, 0, 0, 0, 0, 0, 0, 0, 0, 0, 0];
    DeviceEvent::Touch { report_id: 0xFC, event: TouchEvent::parse(&raw).unwrap(), raw }
}

#[test]
fn events_are_rendered() {
    let cases = [
        (
            DeviceEvent::Battery { value: 55, raw: vec![55] },
            "T battery uuid=00002a19-0000-1000-8000-00805f9b34fb raw=37 | battery=55%",
        ),
        (
            DeviceEvent::Power { state: PowerState::Charging, raw: vec![0xAB] },
            "T power uuid=00002a1a-0000-1000-8000-00805f9b34fb raw=ab | power=charging",
        ),
        (
            DeviceEvent::UnknownOther { uuid: 1, payload: vec![1, 2] },
            "T other uuid=00000000-0000-0000-0000-000000000001 raw=01 02 | len=2",
        ),
        (
            DeviceEvent::Buttons { report_id: 0xFB, mask: 9, pressed: 8, released: 2, raw: [9, 0] },
            "T input report_id=0xFB raw=09 00 | buttons=TV+Select pressed=Select released=Volume Up",
        ),
        (
            DeviceEvent::Buttons { report_id: 0xFB, mask: 9, pressed: 0, released: 0, raw: [9, 0] },
            "T input report_id=0xFB raw=09 00 | unknown HID packet len=2",
        ),
        (
            touch(),
            "T input report_id=0xFC raw=32 00 00 00 00 00 00 00 00 00 00 | \
             touch released mask=0x00 seq=0x0000",
        ),
        (
            DeviceEvent::UnknownInput { report_id: 0xFA, payload: vec![0xFF] },
            "T input report_id=0xFA raw=ff",
        ),
    ];
    for (ev, want) in &cases {
        assert_eq!(event_line("T", ev), *want);
        let line = format_event(ev);
        assert_eq!(&line[line.find('Z').unwrap() + 1..], &want[1..]);
    }
}

#[test]
fn properties_are_listed() {
    assert_eq!(describe_properties(0), "");
    assert_eq!(describe_properties(0x12), "read,notify");
    assert_eq!(
        describe_properties(0xFF),
        "broadcast,read,write-without-response,write,notify,indicate,\
         authenticated-signed-writes,extended-properties"
    );
}

#[test]
fn values_are_text_or_hex() {
    assert_eq!(decode_text_or_hex(b"ABC\0\0"), "ABC");
    assert_eq!(decode_text_or_hex("é".as_bytes()), "é");
    assert_eq!(decode_text_or_hex(b"A\0B"), "A\0B");
    assert_eq!(decode_text_or_hex(&[0xFF, 0x00]), "ff 00");
    assert_eq!(decode_text_or_hex(&[0, 0]), "00 00");
    assert_eq!(decode_text_or_hex(&[]), "");
}

fn services() -> Vec<ServiceInfo> {
    vec![
        ServiceInfo {
            uuid: 1,
            characteristics: vec![
                CharacteristicInfo { uuid: 2, properties: 0x02, descriptors: vec![5, 6] },
                CharacteristicInfo { uuid: 3, properties: 0, descriptors: vec![] },
            ],
        },
        ServiceInfo { uuid: 4, characteristics: vec![] },
    ]
}

#[test]
fn devices_are_described() {
    let mut s = selection(false);
    s.identity_address = Some("I".to_string());
    assert_eq!(
        print_device_info(&s, &services()),
        vec![
            "\nConnected Siri Remote",
            "  selected_address: A",
            "  identity_address: I",
            "  selected_name: N",
            "  backend: btleplug",
            "  services: 2 chars: 2 descriptors: 2",
            "  Service 00000000-0000-0000-0000-000000000001",
            "    Char 00000000-0000-0000-0000-000000000002 [read]",
            "    Char 00000000-0000-0000-0000-000000000003 []",
            "  Service 00000000-0000-0000-0000-000000000004",
        ]
    );
    assert_eq!(print_device_info(&selection(false), &vec![]).len(), 5);
    assert_eq!(
        gatt_lines(&services()),
        vec![
            "\nGATT services:",
            "Service 00000000-0000-0000-0000-000000000001",
            "  Char  00000000-0000-0000-0000-000000000002  [read]",
            "    Desc  00000000-0000-0000-0000-000000000005",
            "    Desc  00000000-0000-0000-0000-000000000006",
            "  Char  00000000-0000-0000-0000-000000000003  []",
            "Service 00000000-0000-0000-0000-000000000004",
        ]
    );
}

#[test]
fn dumps_are_filtered() {
    assert_eq!(
        Filter::new(false, false),
        Err((2, "error: at least one of --touch or --mic must be specified".to_string()))
    );
    let touch_only = Filter::new(true, false).unwrap();
    let mic_only = Filter::new(false, true).unwrap();
    let both = Filter::new(true, true).unwrap();
    assert!(touch_only.accepts(0xFC) && !touch_only.accepts(0xFA));
    assert!(!mic_only.accepts(0xFC) && mic_only.accepts(0xFA));
    assert!(both.accepts(0xFC) && both.accepts(0xFA) && !both.accepts(0xFB));
    let mic = DeviceEvent::UnknownInput { report_id: 0xFA, payload: vec![1, 0xAB] };
    assert_eq!(
        dump_line(&both, "T", &mic),
        Some("T report_id=0xFA raw=01 ab".to_string())
    );
    assert_eq!(dump_line(&touch_only, "T", &mic), None);
    assert!(dump_line(&touch_only, "T", &touch()).is_some());
    assert_eq!(dump_line(&both, "T", &DeviceEvent::Battery { value: 1, raw: vec![1] }), None);
    assert_eq!(touch_dump_line("T", &mic), None);
    assert_eq!(
        touch_dump_line("T", &touch()),
        Some("T raw=32 00 00 00 00 00 00 00 00 00 00".to_string())
    );
    assert!(dump_now(&mic_only, &mic).unwrap().ends_with("Z report_id=0xFA raw=01 ab"));
    assert!(touch_dump_now(&touch()).unwrap().contains("Z raw=32 00"));
    assert_eq!(touch_dump_now(&mic), None);
}

/// Route a record to a sink, where one is installed.
fn emit(sink: &mut Option<Vec<LogRecord>>, level: Level, message: &str) {
    let record = LogRecord { level, message: message.to_string() };
    if let Route::Sink(record) = route(record, sink.is_some()) {
        sink.as_mut().expect("installed").push(record);
    }
}

#[test]
fn sink_receives_emitted_record() {
    let mut sink = Some(Vec::new());
    emit(&mut sink, Level::Info, "hello");
    emit(&mut sink, Level::Warn, "careful");
    let received = sink.unwrap();
    assert_eq!(received.len(), 2);
    assert_eq!(received[0].level, Level::Info);
    assert_eq!(received[0].message, "hello");
    assert_eq!(received[1].level, Level::Warn);
    assert_eq!(received[1].message, "careful");
}

#[test]
fn cleared_sink_falls_through() {
    let record = LogRecord { level: Level::Info, message: "after-clear".to_string() };
    assert!(
        matches!(route(record, false), Route::Stderr(m) if m == "after-clear"),
        "nothing goes to a sink that was cleared"
    );
}

#[test]
fn router_drops_below_info() {
    let mut sink = Some(Vec::new());
    emit(&mut sink, Level::Debug, "debug");
    emit(&mut sink, Level::Trace, "trace");
    assert!(sink.unwrap().is_empty(), "debug/trace must be filtered");
}

#[test]
fn log_records_are_routed() {
    let record = |level| LogRecord { level, message: "m".to_string() };
    for level in [Level::Error, Level::Warn, Level::Info] {
        assert!(enabled(level));
        assert!(matches!(
            route(record(level), true),
            Route::Sink(r) if r.level == level && r.message == "m"
        ));
        assert!(matches!(route(record(level), false), Route::Stderr(m) if m == "m"));
    }
    for level in [Level::Debug, Level::Trace] {
        assert!(!enabled(level));
        assert!(matches!(route(record(level), true), Route::Dropped));
        assert!(matches!(route(record(level), false), Route::Dropped));
    }
    assert!(matches!(undelivered(record(Level::Info)), Route::Stderr(m) if m == "m"));
}

#[test]
fn links_are_retried_scanned_for_or_given_up() {
    match after_link(selection(false), LinkOutcome::Disconnected(selection(true)), Help::Full) {
        LoopStep::Reconnect { selection, say } => {
            assert!(selection.requires_pairing);
            assert_eq!(say, "Disconnected from A; reconnecting automatically.");
        }
        _ => panic!("expected Reconnect"),
    }
    match after_link(selection(false), failed("timed out"), Help::Full) {
        LoopStep::Reconnect { say, .. } => {
            assert_eq!(say, "Connection failed: timed out; retrying.")
        }
        _ => panic!("expected Reconnect"),
    }
    assert!(matches!(
        after_link(selection(false), failed("Authentication"), Help::Full),
        LoopStep::ScanForPairing { .. }
    ));
    assert!(matches!(
        after_link(selection(true), failed("Authentication"), Help::Full),
        LoopStep::Reconnect { .. }
    ));
    let denied = |help| {
        let err = LinkError {
            detail: "auth".to_string(),
            denied: Some("/d".to_string()),
            pad_gone: None,
        };
        match after_link(selection(false), LinkOutcome::Failed(err), help) {
            LoopStep::Exit { code, say } => (code, say),
            _ => panic!("expected Exit"),
        }
    };
    assert_eq!(
        denied(Help::Brief),
        (
            1,
            "error: BlueZ refused to enable HID input streaming on /d.\n\
             Start bluetoothd with `--noplugin=input,hog` so the kernel HoG\n\
             plugin releases the HID service; the existing bond is preserved."
                .to_string()
        )
    );
    let (code, full) = denied(Help::Full);
    assert_eq!(code, 1);
    assert!(full.contains("\n\n    ExecStart=/usr/libexec/bluetooth/bluetoothd --noplugin=input,hog\n\n"));
    let gone = LinkError {
        detail: "x".to_string(),
        denied: Some("/d".to_string()),
        pad_gone: Some(PadGone("EIO".to_string())),
    };
    assert!(matches!(
        after_link(selection(false), LinkOutcome::Failed(gone), Help::Brief),
        LoopStep::Exit { code: 2, say } if say == "error: virtual gamepad write failed: EIO"
    ));
}

#[test]
fn scans_and_starts_can_end_the_program() {
    assert!(matches!(
        after_pairing_scan(Ok(selection(true))),
        LoopStep::ConnectNow { selection } if selection.requires_pairing
    ));
    assert!(matches!(
        after_pairing_scan(Err(InitError::Timeout)),
        LoopStep::Exit { code: 1, say } if say == "Timed out scanning for a pairing-mode remote."
    ));
    assert!(matches!(
        after_pairing_scan(Err(InitError::Invalid("m".to_string()))),
        LoopStep::Exit { code: 2, say } if say == "m"
    ));
    assert_eq!(init_failure(InitError::Invalid("m".to_string())), (2, "m".to_string()));
    let (code, say) = init_failure(InitError::Timeout);
    assert_eq!(code, 1);
    assert!(say.starts_with("Timed out waiting for a Siri Remote. If it is unpaired,"));
    match scan_failure(ScanError::Timeout) {
        Ok((code, say)) => {
            assert_eq!(code, 1);
            assert!(say.ends_with("within reach (RSSI >= -55)."));
        }
        Err(_) => panic!("expected an exit"),
    }
    assert_eq!(scan_failure(ScanError::Other("e".to_string())), Err("e".to_string()));
}

#[test]
fn failed_pairing_is_explained() {
    let m = retry_message("boom");
    assert!(m.starts_with("\nPair failed: boom\n\nThis is a known BlueZ flake"));
    assert!(m.contains("\n\nTo recover:\n  1. Put the remote back"));
    assert!(m.ends_with("session state:  systemctl restart bluetooth"));
    assert!(not_bonded_message("X").starts_with(
        "\nPair failed: connect+pair reported success but BlueZ does not list X as bonded\n"
    ));
}

fn remote() -> RemoteDevice {
    RemoteDevice {
        path: "/h/dev_1".to_string(),
        adapter_path: "/h".to_string(),
        address: "AA".to_string(),
        name: "Siri".to_string(),
        alias: String::new(),
        paired: true,
        bonded: true,
        trusted: true,
        connected: false,
        uuids: vec![],
        modalias: String::new(),
        manufacturer_data: vec![],
        reasons: vec!["HID service".to_string(), "Apple modalias".to_string()],
    }
}

#[test]
fn unpairing_lists_then_removes() {
    let line = "AA \"Siri\" [paired/bonded/trusted] path=/h/dev_1 match=HID service, Apple modalias";
    assert_eq!(format_remote(&remote()), line);
    let mut plain = remote();
    plain.paired = false;
    plain.bonded = false;
    plain.trusted = false;
    assert!(format_remote(&plain).contains("[known]"));
    let mut args = UnpairArgs { address: vec![], dry_run: false };
    assert_eq!(wanted_addresses(&args), None);
    let plan = unpair_plan(&args, &vec![]);
    assert_eq!(plan.lines, vec!["No paired/bonded Siri Remote found."]);
    assert!(!plan.remove);
    let plan = unpair_plan(&args, &vec![remote()]);
    assert_eq!(plan.lines, vec!["Matched Siri Remote device(s):".to_string(), format!("  {line}")]);
    assert!(plan.remove);
    args.dry_run = true;
    let plan = unpair_plan(&args, &vec![remote()]);
    assert_eq!(plan.lines.last().unwrap(), "Dry run: no devices removed.");
    assert!(!plan.remove);
    args.address = vec![" aa ".to_string()];
    assert_eq!(wanted_addresses(&args), Some(vec!["AA".to_string()]));
    assert_eq!(
        unpair_plan(&args, &vec![]).lines,
        vec!["No paired/bonded Siri Remote matching requested address found."]
    );
    assert_eq!(removal_line(&remote(), &None), "Unpaired AA \"Siri\".");
    assert_eq!(
        removal_line(&remote(), &Some("e".to_string())),
        "Failed to unpair AA \"Siri\": e"
    );
    assert_eq!(exit_code(&vec![]), 0);
    assert_eq!(exit_code(&vec![None, None]), 0);
    assert_eq!(exit_code(&vec![None, Some("e".to_string())]), 2);
}

#[test]
fn negative_durations_are_refused() {
    let ok = 0.5f64.to_bits();
    let bad = (-0.5f64).to_bits();
    assert_eq!(check_link_args(ok, ok), Ok(()));
    assert_eq!(
        check_link_args(bad, bad),
        Err("--scan-seconds must be non-negative".to_string())
    );
    assert_eq!(
        check_link_args(ok, bad),
        Err("--reconnect-delay must be non-negative".to_string())
    );
    assert_eq!(
        check_pair_args(ok, bad),
        Err("--hold-seconds must be non-negative".to_string())
    );
    assert_eq!(check_pair_args(ok, ok), Ok(()));
    assert_eq!(check_mic_args(ok, ok, "n"), Ok(()));
    assert_eq!(
        check_mic_args(ok, ok, ""),
        Err("--node-name must be non-empty".to_string())
    );
    assert_eq!(
        check_mic_args(ok, bad, ""),
        Err("--reconnect-delay must be non-negative".to_string())
    );
    for v in [
        0.0,
        -0.0,
        1.0,
        -1.0,
        5e-324,
        -5e-324,
        f64::INFINITY,
        f64::NEG_INFINITY,
        f64::NAN,
        -f64::NAN,
    ] {
        assert_eq!(check_link_args(v.to_bits(), ok).is_err(), v < 0.0, "{v}");
    }
}

#[test]
fn config_paths() {
    assert_eq!(config_base(Some(b"/x"), None), Some(b"/x".to_vec()));
    assert_eq!(config_base(None, Some(b"/h")), Some(b"/h/.config".to_vec()));
    assert_eq!(config_base(Some(b""), Some(b"")), Some(b".config".to_vec()));
    assert_eq!(config_base(Some(b""), None), None);
    assert_eq!(config_path_in(b"/x"), b"/x/siri-remote/calibration.toml".to_vec());
    assert_eq!(config_path_in(b"/x/"), b"/x/siri-remote/calibration.toml".to_vec());
    assert_eq!(config_file_in(b"", "f"), b"siri-remote/f".to_vec());
    for base in ["", "/", "/x", "/x/", "rel/dir"] {
        let want = std::path::Path::new(base).join("siri-remote").join("calibration.toml");
        let got = String::from_utf8(config_path_in(base.as_bytes())).unwrap();
        assert_eq!(got, want.to_str().unwrap());
    }
}

#[test]
fn first_auth_failure_falls_back_to_pairing() {
    let candidate = Candidate {
        identity_address: "10:B9:C4:01:A3:C0".to_string(),
        peripheral_id: 7,
        last_address: "AA:BB:CC:DD:EE:FF".to_string(),
        last_rssi: -44,
        hits: 2,
        rssi_total: -88,
        last_name: None,
    };
    let InitAction::Use { selection, .. } =
        choose_initial_selection(InitEvent::Scanned(Ok(candidate)))
    else {
        panic!("expected Use");
    };
    assert!(matches!(
        after_link(selection, failed("Insufficient Authentication"), Help::Full),
        LoopStep::ScanForPairing { selection } if selection.peripheral_id == Some(7)
    ));
}
