use siri_remote::hid::{
    enable_line, enable_order, enable_plan, enable_step, find_by_uuid, hid_reports, notifiable,
    report_reference, writable, write_order, Characteristic, EnableAttempt, EnableStep,
    ReportState, WriteType, BATTERY_LEVEL_UUID, HID_REPORT_UUID, PROP_INDICATE, PROP_NOTIFY,
    PROP_READ, PROP_WRITE, PROP_WRITE_WITHOUT_RESPONSE, REPORT_REFERENCE_UUID,
};

fn c(uuid: u128, properties: u8) -> Characteristic {
    Characteristic { uuid, properties }
}

fn report(uuid: u128, properties: u8, reference: Option<&[u8]>) -> ReportState {
    ReportState { uuid, properties, reference: reference.map(|r| r.to_vec()) }
}

#[test]
fn characteristics_are_found_in_order() {
    let list = [
        c(1, 0),
        c(HID_REPORT_UUID, 1),
        c(BATTERY_LEVEL_UUID, 2),
        c(HID_REPORT_UUID, 3),
    ];
    assert_eq!(find_by_uuid(&list, HID_REPORT_UUID), Some(1));
    assert_eq!(find_by_uuid(&list, BATTERY_LEVEL_UUID), Some(2));
    assert_eq!(find_by_uuid(&list, 9), None);
    assert_eq!(hid_reports(&list), vec![1, 3]);
    assert!(hid_reports(&[]).is_empty());
    assert_eq!(report_reference(&[5, REPORT_REFERENCE_UUID, REPORT_REFERENCE_UUID]), Some(1));
    assert_eq!(report_reference(&[5]), None);
}

#[test]
fn property_bits() {
    assert!(writable(PROP_WRITE) && writable(PROP_WRITE_WITHOUT_RESPONSE));
    assert!(!writable(PROP_READ | PROP_NOTIFY));
    assert!(notifiable(PROP_NOTIFY) && notifiable(PROP_INDICATE));
    assert!(!notifiable(PROP_READ | PROP_WRITE));
}

#[test]
fn output_reports_come_first() {
    let reports = vec![
        report(2, PROP_WRITE | PROP_NOTIFY, None),
        report(1, PROP_WRITE | PROP_NOTIFY, Some(&[1, 1])),
        report(3, PROP_WRITE, Some(&[1])),
        report(4, PROP_READ, Some(&[1, 2])),
        report(5, PROP_WRITE_WITHOUT_RESPONSE | PROP_NOTIFY, Some(&[9, 2])),
        report(2, PROP_WRITE | PROP_NOTIFY, Some(&[7, 3])),
    ];
    let order = enable_order(&reports).unwrap();
    let got: Vec<(u8, usize)> = order.iter().map(|e| (e.rank, e.position)).collect();
    assert_eq!(got, vec![(0, 4), (2, 2), (3, 1), (3, 0), (3, 5)]);
    assert_eq!(
        enable_order(&vec![report(1, PROP_READ, None)]).unwrap_err(),
        "no writable HID report characteristic found"
    );
}

#[test]
fn writes_without_response_are_tried_first() {
    assert_eq!(
        write_order(PROP_WRITE | PROP_WRITE_WITHOUT_RESPONSE),
        vec![WriteType::WithoutResponse, WriteType::WithResponse]
    );
    assert_eq!(write_order(PROP_WRITE), vec![WriteType::WithResponse]);
    assert!(write_order(PROP_READ).is_empty());
}

#[test]
fn attempts_are_announced() {
    assert_eq!(
        enable_line(&report(HID_REPORT_UUID, 0, Some(&[2, 2]))),
        "Sending input-enable byte to report uuid=00002a4d-0000-1000-8000-00805f9b34fb \
         report_ref=02 02."
    );
    assert_eq!(
        enable_line(&report(0xfedc_ba98_7654_3210_0f1e_2d3c_4b5a_6978, 0, None)),
        "Sending input-enable byte to report uuid=fedcba98-7654-3210-0f1e-2d3c4b5a6978 \
         report_ref=unknown."
    );
}

#[test]
fn writes_stop_at_the_first_that_is_accepted() {
    let reports = vec![
        report(2, PROP_WRITE | PROP_NOTIFY, None),
        report(4, PROP_READ, Some(&[1, 2])),
        report(5, PROP_WRITE_WITHOUT_RESPONSE | PROP_WRITE, Some(&[9, 2])),
    ];
    let plan = enable_plan(&reports).unwrap();
    let attempt = |position, how, first| EnableAttempt { position, how, first };
    assert_eq!(
        plan,
        vec![
            attempt(2, WriteType::WithoutResponse, true),
            attempt(2, WriteType::WithResponse, false),
            attempt(0, WriteType::WithResponse, true),
        ]
    );
    for tried in 0..3 {
        assert!(matches!(
            enable_step(&plan, tried, false),
            EnableStep::Write(next) if next == plan[tried]
        ));
    }
    assert!(matches!(enable_step(&plan, 2, true), EnableStep::Done));
    assert!(matches!(enable_step(&plan, 3, true), EnableStep::Done));
    assert!(matches!(
        enable_step(&plan, 3, false),
        EnableStep::Fail(m) if m == "could not send Siri Remote input-enable byte to any HID report"
    ));
    assert_eq!(
        enable_plan(&vec![report(1, PROP_READ, None)]).unwrap_err(),
        "no writable HID report characteristic found"
    );
}
