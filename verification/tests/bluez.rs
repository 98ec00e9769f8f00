use siri_remote::bluez::device::{
    adapter_path_for_device, build_remote, device_path_from_address, list_siri_remotes,
    match_reasons, DeviceObject, DeviceProps,
};
use siri_remote::bluez::hid::{
    enable_line, enable_outcome, enable_refused, find_reports, unclassified_line, GattObject, HidSession,
    InputRoutes, PropertySignal, ReadReport, ReportPath, CHAR_IFACE,
};
use siri_remote::pair::paired_path;

const HID: &str = "00001812-0000-1000-8000-00805F9B34FB";

fn props(address: &str) -> DeviceProps {
    DeviceProps {
        address: Some(address.to_string()),
        name: Some("Siri Remote".to_string()),
        alias: None,
        paired: Some(true),
        bonded: None,
        trusted: Some(false),
        connected: None,
        uuids: vec![HID.to_string()],
        modalias: None,
        manufacturer_data: vec![],
    }
}

fn object(path: &str, props: DeviceProps) -> DeviceObject {
    DeviceObject { path: path.to_string(), props }
}

#[test]
fn adapter_is_what_precedes_the_last_device_part() {
    assert_eq!(
        adapter_path_for_device("/org/bluez/hci0/dev_AA_BB"),
        Ok("/org/bluez/hci0".to_string())
    );
    assert_eq!(adapter_path_for_device("/a/dev_/b/dev_"), Ok("/a/dev_/b".to_string()));
    assert_eq!(adapter_path_for_device("/dev_x"), Ok(String::new()));
    for bad in ["", "/de", "/org/bluez/hci0", "dev_"] {
        assert_eq!(
            adapter_path_for_device(bad),
            Err(format!("malformed BlueZ device path: {bad}"))
        );
    }
}

#[test]
fn snapshots_need_an_address_and_a_path() {
    let r = build_remote(object("/h/dev_1", props(" aa:bb "))).unwrap();
    assert_eq!(r.address, "AA:BB");
    assert_eq!(r.adapter_path, "/h");
    assert_eq!(r.path, "/h/dev_1");
    assert_eq!(r.uuids, vec![HID.to_lowercase()]);
    assert!(r.paired && !r.bonded && !r.trusted && !r.connected);
    assert_eq!(r.alias, "");
    assert!(r.reasons.is_empty());
    assert_eq!(r.display_name(), "Siri Remote");
    assert!(build_remote(object("/h/dev_1", props("  "))).is_none());
    assert!(build_remote(object("/h/1", props("aa"))).is_none());
    let mut p = props("aa");
    p.address = None;
    assert!(build_remote(object("/h/dev_1", p)).is_none());
}

#[test]
fn names_fall_back_to_alias_and_address() {
    let mut p = props("aa");
    p.name = None;
    p.alias = Some("Alias".to_string());
    assert_eq!(build_remote(object("/h/dev_1", p.clone())).unwrap().display_name(), "Alias");
    p.alias = Some(String::new());
    assert_eq!(build_remote(object("/h/dev_1", p)).unwrap().display_name(), "AA");
}

#[test]
fn reasons_need_the_hid_service_and_one_more() {
    let reasons = |p: DeviceProps| match_reasons(&build_remote(object("/h/dev_1", p)).unwrap());
    assert_eq!(reasons(props("a")), vec!["remote-like name", "HID service"]);
    let mut p = props("a");
    p.uuids.clear();
    assert!(reasons(p).is_empty());
    let mut p = props("a");
    p.name = Some("Keyboard".to_string());
    assert!(reasons(p.clone()).is_empty());
    p.modalias = Some("Bluetooth:V004Cp0315".to_string());
    assert_eq!(reasons(p.clone()), vec!["HID service", "Apple modalias"]);
    p.modalias = None;
    p.manufacturer_data = vec![(1, vec![]), (0x004C, vec![7])];
    assert_eq!(reasons(p.clone()), vec!["HID service", "Apple manufacturer data"]);
    p.manufacturer_data[1].1 = vec![0x07, 0x0D, 1];
    p.alias = Some("my APPLE TV Remote".to_string());
    assert_eq!(
        reasons(p),
        vec![
            "remote-like name",
            "HID service",
            "Apple manufacturer data",
            "Apple HID manufacturer prefix",
        ]
    );
}

#[test]
fn remotes_are_listed_by_address_and_path() {
    let mut strange = props("cc");
    strange.paired = None;
    let mut other = props("dd");
    other.uuids.clear();
    let objects = vec![
        object("/h/dev_3", props("bb")),
        object("/h/dev_2", props("aa")),
        object("/h/dev_4", strange),
        object("/h/dev_5", other),
        object("/h/dev_1", props("aa")),
        object("/h/dev_0", {
            let mut p = props("ee");
            p.paired = Some(false);
            p.bonded = Some(true);
            p
        }),
    ];
    let all = list_siri_remotes(objects.clone(), None);
    let paths: Vec<&str> = all.iter().map(|r| r.path.as_str()).collect();
    assert_eq!(paths, vec!["/h/dev_1", "/h/dev_2", "/h/dev_3", "/h/dev_0"]);
    assert_eq!(all[0].reasons, vec!["remote-like name", "HID service"]);
    let some = list_siri_remotes(objects.clone(), Some(&vec![" bB ".to_string()]));
    assert_eq!(some.len(), 1);
    assert_eq!(some[0].address, "BB");
    assert!(list_siri_remotes(objects, Some(&vec![])).is_empty());
}

#[test]
fn devices_are_found_by_address() {
    let objects = vec![object("/x", props("aa")), object("/y", props("BB")), object("/z", props("bb"))];
    assert_eq!(device_path_from_address(&objects, " bb"), Ok("/y".to_string()));
    assert_eq!(
        device_path_from_address(&objects, "cc"),
        Err("could not find BlueZ device path for address cc".to_string())
    );
    assert_eq!(paired_path(&objects, "aa", "bb"), Ok("/x".to_string()));
    assert_eq!(paired_path(&objects, "cc", "bb"), Ok("/y".to_string()));
    assert_eq!(
        paired_path(&objects, "cc", "dd"),
        Err("could not find BlueZ device path for address dd".to_string())
    );
}

fn gatt(path: &str) -> GattObject {
    GattObject {
        path: path.to_string(),
        service_uuid: None,
        characteristic_uuid: None,
        flags: vec![],
        descriptor_uuid: None,
    }
}

fn tree() -> Vec<GattObject> {
    let mut v = Vec::new();
    v.push(GattObject {
        descriptor_uuid: Some("00002908-0000-1000-8000-00805f9b34fb".to_string()),
        ..gatt("/d/s1/c1/d1")
    });
    v.push(GattObject {
        characteristic_uuid: Some("00002A4D-0000-1000-8000-00805f9b34fb".to_string()),
        flags: vec!["notify".to_string()],
        ..gatt("/d/s1/c1")
    });
    v.push(GattObject { service_uuid: Some(HID.to_string()), ..gatt("/d/s1") });
    // A report of another device, and one outside the HID service.
    v.push(GattObject { service_uuid: Some(HID.to_string()), ..gatt("/dx/s1") });
    v.push(GattObject {
        characteristic_uuid: Some("00002a4d-0000-1000-8000-00805f9b34fb".to_string()),
        ..gatt("/dx/s1/c1")
    });
    v.push(GattObject {
        characteristic_uuid: Some("00002a4d-0000-1000-8000-00805f9b34fb".to_string()),
        ..gatt("/d/s10/c9")
    });
    v.push(GattObject {
        characteristic_uuid: Some("00002a4d-0000-1000-8000-00805f9b34fb".to_string()),
        flags: vec!["write".to_string()],
        ..gatt("/d/s1/c2")
    });
    v
}

#[test]
fn reports_are_found_below_the_hid_service() {
    let reports = find_reports(&tree(), "/d").unwrap();
    let got: Vec<(&str, Option<&str>)> =
        reports.iter().map(|r| (r.path.as_str(), r.reference.as_deref())).collect();
    assert_eq!(got, vec![("/d/s1/c1", Some("/d/s1/c1/d1")), ("/d/s1/c2", None)]);
    assert_eq!(reports[0].flags, vec!["notify"]);
    assert_eq!(
        find_reports(&tree(), "/e").unwrap_err(),
        "no HID service (00001812-0000-1000-8000-00805f9b34fb) under /e; wait for \
         ServicesResolved=true before opening HidSession"
    );
    let bare = vec![GattObject { service_uuid: Some(HID.to_string()), ..gatt("/d/s1") }];
    assert_eq!(
        find_reports(&bare, "/d").unwrap_err(),
        "no HID Report characteristics (00002a4d-0000-1000-8000-00805f9b34fb) under /d"
    );
}

fn read(path: &str, flags: &[&str], bytes: Option<&[u8]>) -> ReadReport {
    ReadReport {
        report: ReportPath {
            path: path.to_string(),
            flags: flags.iter().map(|f| f.to_string()).collect(),
            reference: None,
        },
        bytes: bytes.map(|b| b.to_vec()),
    }
}

fn session() -> HidSession {
    HidSession::open(
        "/d",
        vec![
            read("/d/f", &["write-without-response"], Some(&[0x10, 3])),
            read("/d/i2", &["indicate"], Some(&[0xFC, 1, 9])),
            read("/d/none", &["notify"], None),
            read("/d/short", &["notify"], Some(&[1])),
            read("/d/i1b", &["notify", "write"], Some(&[0xFB, 1])),
            read("/d/i1a", &["read"], Some(&[0xFB, 1])),
            read("/d/o", &["write"], Some(&[0x01, 2])),
            read("/d/x", &["write"], Some(&[0x01, 9])),
        ],
    )
}

#[test]
fn sessions_order_and_sort_out_reports() {
    let s = session();
    assert_eq!(s.device_path(), "/d");
    let paths: Vec<&str> = s.reports().iter().map(|r| r.path.as_str()).collect();
    assert_eq!(paths, vec!["/d/i1a", "/d/i1b", "/d/i2", "/d/o", "/d/f", "/d/x"]);
    assert_eq!(s.enable_targets(), Ok(vec![3, 4, 5]));
    assert_eq!(s.input_reports(), Ok(vec![1, 2]));
    let r = s.reports();
    assert!(r[1].supports_notify() && r[1].supports_write());
    assert!(!r[0].supports_notify() && !r[0].supports_write());
    assert!(r[4].supports_write() && r[4].prefers_write_without_response());
    assert!(!r[3].prefers_write_without_response());
    assert_eq!(
        enable_line(0xAF, &r[3]),
        "Sending input-enable byte (0xAF) to output report id=0x01 path=/d/o."
    );
    assert_eq!(
        enable_line(0xAF, &r[4]),
        "Sending input-enable byte (0xAF) to feature report id=0x10 path=/d/f."
    );
    assert_eq!(
        enable_line(0xAF, &r[5]),
        "Sending input-enable byte (0xAF) to other report id=0x01 path=/d/x."
    );
    let empty = HidSession::open("/d", vec![]);
    assert_eq!(
        empty.enable_targets(),
        Err("no writable Output/Feature HID Report under /d".to_string())
    );
    assert_eq!(
        empty.input_reports(),
        Err("no notifiable HID Input report under /d; the remote will not stream events".to_string())
    );
}

#[test]
fn unclassified_reports_are_warned_about() {
    assert_eq!(
        unclassified_line(&read("/c", &[], None)),
        Some(
            "warning: HID report char /c has no Report Reference descriptor; cannot classify, \
             skipping"
                .to_string()
        )
    );
    assert_eq!(
        unclassified_line(&read("/c", &[], Some(&[1]))),
        Some("warning: Report Reference of /c is 1 byte(s); expected 2".to_string())
    );
    assert_eq!(unclassified_line(&read("/c", &[], Some(&[1, 2]))), None);
}

#[test]
fn writes_are_counted() {
    let e = |s: &str| Some(s.to_string());
    assert_eq!(enable_outcome(&vec![None, e("a"), None]), Ok(2));
    assert_eq!(enable_outcome(&vec![e("a"), e("b")]), Err("b".to_string()));
    assert_eq!(
        enable_outcome(&vec![]),
        Err("no Report accepted the input-enable byte".to_string())
    );
}

#[test]
fn refusals_are_recognized() {
    let no = Some("org.bluez.Error.NotAuthorized: x".to_string());
    let other = Some("org.bluez.Error.Failed".to_string());
    assert!(enable_refused(&vec![no.clone(), no.clone()]));
    assert!(!enable_refused(&vec![no.clone(), other]));
    assert!(!enable_refused(&vec![no, None]));
    assert!(!enable_refused(&vec![]));
}

#[test]
fn signals_are_routed_to_their_report() {
    let s = session();
    let routes = InputRoutes::new(&s, &s.input_reports().unwrap());
    let signal = |path: &str, iface: &str, value: Option<Vec<u8>>| PropertySignal {
        path: path.to_string(),
        interface: iface.to_string(),
        value,
    };
    assert_eq!(
        routes.route(signal("/d/i2", CHAR_IFACE, Some(vec![1]))),
        Some((0xFC, vec![1]))
    );
    assert_eq!(
        routes.route(signal("/d/i1b", CHAR_IFACE, Some(vec![]))),
        Some((0xFB, vec![]))
    );
    assert_eq!(routes.route(signal("/d/i1a", CHAR_IFACE, Some(vec![1]))), None);
    assert_eq!(routes.route(signal("/d/i2", "org.bluez.Battery1", Some(vec![1]))), None);
    assert_eq!(routes.route(signal("/d/i2", CHAR_IFACE, None)), None);
}
