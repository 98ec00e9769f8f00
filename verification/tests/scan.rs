use siri_remote::scan::{
    extract_identity_address, is_siri_remote, nearest_pick, nearest_wait, nearest_window,
    others_line, Advertisement, CandidateMap, RemoteScan, ScanStep, HID_SERVICE_UUID, MIN_RSSI,
    SECOND, STALE_AFTER,
};

const MFR: [u8; 15] = [
    0x07, 0x0d, 0x02, 0x15, 0x03, 0x02, 0x10, 0xb9, 0xc4, 0x01, 0xa3, 0xc0, 0x4f, 0x50, 0x50,
];

fn adv(last: u8, rssi: i16) -> Advertisement {
    let mut mfr = MFR.to_vec();
    mfr[11] = last;
    Advertisement {
        peripheral_id: last as u64,
        address: "aa:bb:cc:dd:ee:0f".to_string(),
        local_name: None,
        rssi: Some(rssi),
        services: vec![1, HID_SERVICE_UUID],
        manufacturer_data: vec![(0x0006, vec![1]), (0x004C, mfr)],
    }
}

#[test]
fn extract_identity_address_known_payload() {
    // Identity bytes at offset 6..12 are `10 b9 c4 01 a3 c0` so the formatted
    // address is `10:B9:C4:01:A3:C0`.
    let mfr = [
        0x07, 0x0d, 0x02, 0x15, 0x03, 0x02, 0x10, 0xb9, 0xc4, 0x01, 0xa3, 0xc0, 0x4f, 0x50, 0x50,
    ];
    assert_eq!(
        extract_identity_address(&mfr),
        Some("10:B9:C4:01:A3:C0".to_string())
    );
}

#[test]
fn extract_identity_address_rejects_short_payload() {
    assert!(extract_identity_address(&[]).is_none());
    assert!(extract_identity_address(&[0x07, 0x0d]).is_none());
    // 11 bytes total: one short of the slice end (offset 12).
    let short = [
        0x07, 0x0d, 0x02, 0x15, 0x03, 0x02, 0x10, 0xb9, 0xc4, 0x01, 0xa3,
    ];
    assert!(extract_identity_address(&short).is_none());
}

#[test]
fn extract_identity_address_rejects_wrong_prefix() {
    // First two bytes are not `07 0D` -> not the Apple HID advertisement.
    let mfr = [
        0xff, 0x00, 0x02, 0x15, 0x03, 0x02, 0x10, 0xb9, 0xc4, 0x01, 0xa3, 0xc0,
    ];
    assert!(extract_identity_address(&mfr).is_none());
}

#[test]
fn remote_needs_signal_service_and_prefix() {
    assert!(is_siri_remote(&adv(1, MIN_RSSI)));
    assert!(!is_siri_remote(&adv(1, MIN_RSSI - 1)));
    let mut a = adv(1, -40);
    a.rssi = None;
    assert!(!is_siri_remote(&a));
    let mut a = adv(1, -40);
    a.services = vec![];
    assert!(!is_siri_remote(&a));
    let mut a = adv(1, -40);
    a.manufacturer_data[1].1[0] = 0;
    assert!(!is_siri_remote(&a));
    let mut a = adv(1, -40);
    a.manufacturer_data.pop();
    assert!(!is_siri_remote(&a));
}

#[test]
fn strongest_mean_wins() {
    let mut map = CandidateMap::new();
    // -40 and -50 average to -45; -46 twice is weaker.
    assert_eq!(map.ingest(&adv(1, -40), 10), Some(0));
    assert_eq!(map.ingest(&adv(2, -46), 20), Some(1));
    assert_eq!(map.ingest(&adv(1, -50), 30), Some(0));
    assert_eq!(map.ingest(&adv(2, -46), 40), Some(1));
    let pick = map.best_with(50, STALE_AFTER, 2).expect("a pick");
    assert_eq!(pick.candidate.identity_address, "10:B9:C4:01:A3:01");
    assert_eq!(pick.candidate.last_address, "AA:BB:CC:DD:EE:0F");
    assert_eq!(pick.candidate.peripheral_id, 1);
    assert_eq!(pick.candidate.last_rssi, -50);
    assert_eq!(pick.candidate.hits, 2);
    assert_eq!(pick.candidate.rssi_total, -90);
    assert_eq!(pick.candidate.last_name, None);
    assert_eq!(pick.others, 1);
    assert_eq!(
        others_line(pick.others),
        "  (1 other Siri Remote(s) also in range; picked the one with the strongest signal)"
    );
    assert_eq!(
        pick.candidate.lock_line(),
        "\nLocked on identity 10:B9:C4:01:A3:01 via current address AA:BB:CC:DD:EE:0F (mean RSSI "
    );
    assert_eq!(pick.candidate.lock_tail(), " over 2 adverts, last rssi -50)");
}

#[test]
fn fractional_means_are_told_apart() {
    let mut map = CandidateMap::new();
    for r in [-45, -45, -46] {
        map.ingest(&adv(1, r), 1);
    }
    for r in [-45, -46, -46, -45, -45] {
        map.ingest(&adv(2, r), 1);
    }
    // -136/3 = -45.33 against -227/5 = -45.4.
    assert_eq!(map.best_with(2, 10, 1).unwrap().candidate.peripheral_id, 1);
}

#[test]
fn first_of_equals_is_picked_and_stale_ones_do_not_count() {
    let mut map = CandidateMap::default();
    map.ingest(&adv(1, -50), 0);
    map.ingest(&adv(2, -50), 5);
    assert_eq!(map.best_with(5, 5, 1).unwrap().candidate.peripheral_id, 1);
    assert_eq!(map.best_with(6, 5, 1).unwrap().candidate.peripheral_id, 2);
    assert_eq!(map.best_with(6, 5, 1).unwrap().others, 0);
    assert!(map.best_with(11, 5, 1).is_none());
    assert!(map.best_with(5, 5, 2).is_none());
}

#[test]
fn ingest_ignores_what_is_no_remote() {
    let mut map = CandidateMap::new();
    assert_eq!(map.ingest(&adv(1, -80), 0), None);
    let mut a = adv(1, -40);
    a.manufacturer_data[1].1.truncate(11);
    assert_eq!(map.ingest(&a, 0), None);
    assert!(map.best_with(0, 10, 0).is_none());
}

#[test]
fn sightings_are_logged() {
    let mut map = CandidateMap::new();
    let mut a = adv(0xC0, -41);
    map.ingest(&a, 0);
    assert_eq!(
        map.get(0).sighting_line(),
        "  identity=10:B9:C4:01:A3:C0 addr=AA:BB:CC:DD:EE:0F name=\"10:B9:C4:01:A3:C0\" \
         rssi=-41 hits=1 mean_rssi="
    );
    a.local_name = Some("Re\"mote".to_string());
    a.rssi = Some(-43);
    map.ingest(&a, 1);
    assert_eq!(
        map.get(0).sighting_line(),
        "  identity=10:B9:C4:01:A3:C0 addr=AA:BB:CC:DD:EE:0F name=\"Re\\\"mote\" rssi=-43 \
         hits=2 mean_rssi="
    );
}

#[test]
fn pairing_scan_settles_waits_and_times_out() {
    let s = SECOND;
    let mut scan = RemoteScan::new(10 * s, 5 * s, 60 * s);
    assert!(matches!(scan.step(10 * s), ScanStep::Wait(w) if w == 2 * s));
    assert!(matches!(scan.step(14 * s), ScanStep::Wait(w) if w == s));
    assert_eq!(scan.heard(&adv(1, -40), 14 * s), Some(0));
    assert_eq!(scan.sighted(0).rssis, vec![-40]);
    // One hit is not enough.
    assert!(matches!(scan.step(15 * s), ScanStep::Wait(w) if w == 2 * s));
    assert!(!scan.quiet(14 * s));
    assert!(scan.quiet(15 * s));
    assert!(!scan.quiet(16 * s));
    scan.heard(&adv(1, -42), 16 * s);
    match scan.step(16 * s) {
        ScanStep::Locked(pick) => assert_eq!(pick.candidate.hits, 2),
        _ => panic!("expected a lock"),
    }
    // The candidate went stale.
    assert!(matches!(scan.step(22 * s), ScanStep::Wait(_)));
    assert!(matches!(scan.step(70 * s), ScanStep::Wait(_)));
    assert!(matches!(scan.step(70 * s + 1), ScanStep::TimedOut));
}

#[test]
fn pairing_scan_does_not_lock_before_it_settled() {
    let s = SECOND;
    let mut scan = RemoteScan::new(0, 5 * s, 60 * s);
    scan.heard(&adv(1, -40), s);
    scan.heard(&adv(1, -40), s);
    assert!(matches!(scan.step(2 * s), ScanStep::Wait(_)));
    assert!(matches!(scan.step(5 * s), ScanStep::Locked(_)));
}

#[test]
fn nearest_scan_widens_its_window() {
    assert_eq!(nearest_wait(10, 4), Some(6));
    assert_eq!(nearest_wait(10, 10), None);
    assert_eq!(nearest_window(3 * SECOND), STALE_AFTER);
    assert_eq!(nearest_window(5 * SECOND), 6 * SECOND);
    let mut map = CandidateMap::new();
    map.ingest(&adv(9, -50), 0);
    assert_eq!(nearest_pick(&map, 5 * SECOND, 6 * SECOND).unwrap().candidate.hits, 1);
    assert!(nearest_pick(&map, 5 * SECOND, 6 * SECOND + 1).is_none());
}
