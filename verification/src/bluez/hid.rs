//! The HID-over-GATT reports of one device, as the BlueZ object tree lists
//! them.
//!
//! The Siri Remote's HID service has eight `Report` characteristics that all
//! share UUID `0x2A4D` and differ only by their Report Reference descriptor
//! (report id + report type) and ATT handle. Each is addressed here by its
//! object path.

use vstd::prelude::*;

use crate::order::{is_stable_sort, law_sort_is_reproducible, no_ties, stable_sort, Ranked};
use crate::text::{
    ascii_lower, chars_of, clone_texts, contains_seq, contains_text, dec, hex2_upper, le_text,
    lemma_text_le_total, lemma_text_le_transitive, lists_text, lower_ascii, push_dec,
    push_hex2_upper, same_text, starts_with_seq, starts_with_text, text_le, texts,
};

verus! {

/// The D-Bus interface of a characteristic.
pub const CHAR_IFACE: &'static str = "org.bluez.GattCharacteristic1";

pub const HID_SERVICE_UUID: &'static str = "00001812-0000-1000-8000-00805f9b34fb";

pub const HID_REPORT_UUID: &'static str = "00002a4d-0000-1000-8000-00805f9b34fb";

pub const REPORT_REFERENCE_UUID: &'static str = "00002908-0000-1000-8000-00805f9b34fb";

/// Standard HID-over-GATT report types from the Report Reference descriptor.
pub const REPORT_TYPE_INPUT: u8 = 1;

pub const REPORT_TYPE_OUTPUT: u8 = 2;

pub const REPORT_TYPE_FEATURE: u8 = 3;

// -- The object tree ----------------------------------------------------------

/// An object of the GATT tree: its path, and the UUID under each of the
/// interfaces that it has.
#[derive(Clone, Debug)]
pub struct GattObject {
    pub path: String,
    pub service_uuid: Option<String>,
    pub characteristic_uuid: Option<String>,
    /// The flags of the characteristic.
    pub flags: Vec<String>,
    pub descriptor_uuid: Option<String>,
}

/// Whether `path` lies below `parent`.
pub open spec fn is_below(path: Seq<char>, parent: Seq<char>) -> bool {
    starts_with_seq(path, parent + "/"@)
}

/// Whether a UUID is the given one, in whatever case it is written.
pub open spec fn is_uuid(uuid: Option<String>, wanted: Seq<char>) -> bool {
    uuid matches Some(u) && u@.map_values(|c: char| ascii_lower(c)) == wanted
}

/// Whether an object is a HID service of the device.
pub open spec fn is_hid_service(object: GattObject, device_path: Seq<char>) -> bool {
    is_below(object.path@, device_path) && is_uuid(object.service_uuid, HID_SERVICE_UUID@)
}

/// Whether the device has a HID service.
pub open spec fn has_hid_service(objects: Seq<GattObject>, device_path: Seq<char>) -> bool {
    exists|i: int| 0 <= i < objects.len() && is_hid_service(#[trigger] objects[i], device_path)
}

/// Whether an object is a report characteristic below a HID service of the
/// device.
pub open spec fn is_report(
    object: GattObject,
    objects: Seq<GattObject>,
    device_path: Seq<char>,
) -> bool {
    is_uuid(object.characteristic_uuid, HID_REPORT_UUID@) && exists|i: int|
        0 <= i < objects.len() && is_hid_service(#[trigger] objects[i], device_path) && is_below(
            object.path@,
            objects[i].path@,
        )
}

/// Whether an object is the Report Reference descriptor of a characteristic.
pub open spec fn is_reference(object: GattObject, characteristic: Seq<char>) -> bool {
    is_below(object.path@, characteristic) && is_uuid(
        object.descriptor_uuid,
        REPORT_REFERENCE_UUID@,
    )
}

/// The path of the first Report Reference descriptor of a characteristic.
pub open spec fn reference_of(objects: Seq<GattObject>, characteristic: Seq<char>) -> Option<
    Seq<char>,
>
    decreases objects.len(),
{
    if objects.len() == 0 {
        None
    } else if is_reference(objects[0], characteristic) {
        Some(objects[0].path@)
    } else {
        reference_of(objects.drop_first(), characteristic)
    }
}

/// A report characteristic and the descriptor that classifies it.
#[derive(Clone, Debug)]
pub struct ReportPath {
    pub path: String,
    pub flags: Vec<String>,
    pub reference: Option<String>,
}

/// What a [`ReportPath`] says.
pub struct ReportPathView {
    pub path: Seq<char>,
    pub flags: Seq<Seq<char>>,
    pub reference: Option<Seq<char>>,
}

impl View for ReportPath {
    type V = ReportPathView;

    open spec fn view(&self) -> ReportPathView {
        ReportPathView {
            path: self.path@,
            flags: texts(self.flags@),
            reference: match self.reference {
                Some(r) => Some(r@),
                None => None,
            },
        }
    }
}

/// The report characteristics among the first `n` objects, in tree order, each
/// with its descriptor.
pub open spec fn report_paths(
    objects: Seq<GattObject>,
    device_path: Seq<char>,
    n: int,
) -> Seq<ReportPathView>
    decreases n,
{
    if n <= 0 {
        seq![]
    } else {
        let before = report_paths(objects, device_path, n - 1);
        let object = objects[n - 1];
        if is_report(object, objects, device_path) {
            before.push(
                ReportPathView {
                    path: object.path@,
                    flags: texts(object.flags@),
                    reference: reference_of(objects, object.path@),
                },
            )
        } else {
            before
        }
    }
}

/// What each report path says.
pub open spec fn path_views(reports: Seq<ReportPath>) -> Seq<ReportPathView> {
    Seq::new(reports.len(), |i: int| reports[i]@)
}

fn below(path: &str, parent: &str) -> (r: bool)
    ensures
        r == is_below(path@, parent@),
{
    let mut prefix = parent.to_owned();
    prefix.append("/");
    starts_with_text(path, prefix.as_str())
}

fn uuid_is(uuid: &Option<String>, wanted: &str) -> (r: bool)
    ensures
        r == is_uuid(*uuid, wanted@),
{
    match uuid {
        Some(u) => same_text(lower_ascii(u.as_str()).as_str(), wanted),
        None => false,
    }
}

fn belongs_to_hid_service(path: &str, objects: &Vec<GattObject>, device_path: &str) -> (r: bool)
    ensures
        r == exists|i: int|
            0 <= i < objects@.len() && is_hid_service(#[trigger] objects@[i], device_path@)
                && is_below(path@, objects@[i].path@),
{
    let mut i: usize = 0;
    while i < objects.len()
        invariant
            i <= objects.len(),
            forall|j: int|
                0 <= j < i ==> !(is_hid_service(#[trigger] objects@[j], device_path@) && is_below(
                    path@,
                    objects@[j].path@,
                )),
        decreases objects.len() - i,
    {
        let service = &objects[i];
        if below(service.path.as_str(), device_path) && uuid_is(
            &service.service_uuid,
            HID_SERVICE_UUID,
        ) && below(path, service.path.as_str()) {
            assert(is_hid_service(objects@[i as int], device_path@));
            return true;
        }
        i = i + 1;
    }
    false
}

fn find_reference(objects: &Vec<GattObject>, characteristic: &str) -> (path: Option<String>)
    ensures
        path is Some == reference_of(objects@, characteristic@) is Some,
        path matches Some(p) ==> p@ == reference_of(objects@, characteristic@)->0,
{
    let mut i: usize = 0;
    assert(objects@.skip(0) =~= objects@);
    while i < objects.len()
        invariant
            i <= objects.len(),
            reference_of(objects@, characteristic@) == reference_of(
                objects@.skip(i as int),
                characteristic@,
            ),
        decreases objects.len() - i,
    {
        let object = &objects[i];
        if below(object.path.as_str(), characteristic) && uuid_is(
            &object.descriptor_uuid,
            REPORT_REFERENCE_UUID,
        ) {
            return Some(object.path.clone());
        }
        assert(objects@.skip(i as int).drop_first() =~= objects@.skip(i + 1));
        i = i + 1;
    }
    None
}

/// Enumerate every `0x2A4D` report characteristic of the device, each with its
/// Report Reference descriptor. The device must already be connected and have
/// its services resolved: otherwise BlueZ has not yet populated the tree.
pub fn find_reports(objects: &Vec<GattObject>, device_path: &str) -> (reports: Result<
    Vec<ReportPath>,
    String,
>)
    ensures
        ({
            let all = report_paths(objects@, device_path@, objects@.len() as int);
            match reports {
                Ok(reports) => {
                    &&& has_hid_service(objects@, device_path@)
                    &&& all.len() > 0
                    &&& path_views(reports@) == all
                },
                Err(message) => if !has_hid_service(objects@, device_path@) {
                    message@ == "no HID service ("@ + HID_SERVICE_UUID@ + ") under "@ + device_path@
                        + "; wait for ServicesResolved=true before opening HidSession"@
                } else {
                    &&& all.len() == 0
                    &&& message@ == "no HID Report characteristics ("@ + HID_REPORT_UUID@
                        + ") under "@ + device_path@
                },
            }
        }),
{
    let mut has_service = false;
    let mut reports: Vec<ReportPath> = Vec::new();
    let mut i: usize = 0;
    while i < objects.len()
        invariant
            i <= objects.len(),
            has_service == exists|j: int|
                0 <= j < i && is_hid_service(#[trigger] objects@[j], device_path@),
            path_views(reports@) == report_paths(objects@, device_path@, i as int),
        decreases objects.len() - i,
    {
        let object = &objects[i];
        if below(object.path.as_str(), device_path) && uuid_is(
            &object.service_uuid,
            HID_SERVICE_UUID,
        ) {
            assert(is_hid_service(objects@[i as int], device_path@));
            has_service = true;
        }
        if uuid_is(&object.characteristic_uuid, HID_REPORT_UUID) && belongs_to_hid_service(
            object.path.as_str(),
            objects,
            device_path,
        ) {
            let ghost before = reports@;
            let report = ReportPath {
                path: object.path.clone(),
                flags: clone_texts(&object.flags),
                reference: find_reference(objects, object.path.as_str()),
            };
            let ghost added = report@;
            reports.push(report);
            assert(path_views(reports@) =~= path_views(before).push(added));
        }
        i = i + 1;
    }
    assert(path_views(reports@).len() == reports@.len());
    if !has_service {
        let mut message = "no HID service (".to_owned();
        message.append(HID_SERVICE_UUID);
        message.append(") under ");
        message.append(device_path);
        message.append("; wait for ServicesResolved=true before opening HidSession");
        return Err(message);
    }
    if reports.len() == 0 {
        let mut message = "no HID Report characteristics (".to_owned();
        message.append(HID_REPORT_UUID);
        message.append(") under ");
        message.append(device_path);
        return Err(message);
    }
    Ok(reports)
}

// -- Reports ------------------------------------------------------------------

/// One `Report` characteristic instance under the HID service.
#[derive(Clone, Debug)]
pub struct ReportChar {
    pub path: String,
    pub report_id: u8,
    pub report_type: u8,
    pub flags: Vec<String>,
}

/// What a [`ReportChar`] says.
pub struct ReportView {
    pub path: Seq<char>,
    pub report_id: u8,
    pub report_type: u8,
    pub flags: Seq<Seq<char>>,
}

impl View for ReportChar {
    type V = ReportView;

    open spec fn view(&self) -> ReportView {
        ReportView {
            path: self.path@,
            report_id: self.report_id,
            report_type: self.report_type,
            flags: texts(self.flags@),
        }
    }
}

/// Whether a report can notify or indicate.
pub open spec fn can_notify(report: ReportView) -> bool {
    report.flags.contains("notify"@) || report.flags.contains("indicate"@)
}

/// Whether a report can be written.
pub open spec fn can_write(report: ReportView) -> bool {
    report.flags.contains("write"@) || report.flags.contains("write-without-response"@)
}

impl ReportChar {
    /// Whether the report can notify or indicate.
    pub fn supports_notify(&self) -> (r: bool)
        ensures
            r == can_notify(self@),
    {
        lists_text(&self.flags, "notify") || lists_text(&self.flags, "indicate")
    }

    /// Whether the report can be written.
    pub fn supports_write(&self) -> (r: bool)
        ensures
            r == can_write(self@),
    {
        lists_text(&self.flags, "write") || lists_text(&self.flags, "write-without-response")
    }

    /// Whether a write should go without response.
    pub fn prefers_write_without_response(&self) -> (r: bool)
        ensures
            r == self@.flags.contains("write-without-response"@),
    {
        lists_text(&self.flags, "write-without-response")
    }
}

/// The order of reports: by type, id and path.
pub open spec fn report_le(a: ReportView, b: ReportView) -> bool {
    if a.report_type != b.report_type {
        a.report_type < b.report_type
    } else if a.report_id != b.report_id {
        a.report_id < b.report_id
    } else {
        text_le(a.path, b.path)
    }
}

impl Ranked for ReportChar {
    open spec fn ranks_le(&self, other: &Self) -> bool {
        report_le(self@, other@)
    }

    proof fn ranks_total(&self, other: &Self) {
        lemma_text_le_total(self.path@, other.path@);
    }

    proof fn ranks_transitive(&self, middle: &Self, last: &Self) {
        if self.report_type == middle.report_type && middle.report_type == last.report_type
            && self.report_id == middle.report_id && middle.report_id == last.report_id {
            lemma_text_le_transitive(self.path@, middle.path@, last.path@);
        }
    }

    fn goes_before(&self, other: &Self) -> bool {
        if self.report_type != other.report_type {
            self.report_type < other.report_type
        } else if self.report_id != other.report_id {
            self.report_id < other.report_id
        } else {
            le_text(self.path.as_str(), other.path.as_str())
        }
    }
}

/// A report characteristic after its Report Reference descriptor was read; no
/// bytes where it has no such descriptor.
pub struct ReadReport {
    pub report: ReportPath,
    pub bytes: Option<Vec<u8>>,
}

/// Whether what was read classifies the report: an id and a type.
pub open spec fn is_classified(read: ReadReport) -> bool {
    read.bytes matches Some(b) && b@.len() >= 2
}

/// The classified reports, in the order of the reads.
pub open spec fn classified(reads: Seq<ReadReport>) -> Seq<ReportView>
    decreases reads.len(),
{
    if reads.len() == 0 {
        seq![]
    } else {
        let before = classified(reads.drop_last());
        let read = reads.last();
        if is_classified(read) {
            before.push(
                ReportView {
                    path: read.report@.path,
                    report_id: read.bytes->0@[0],
                    report_type: read.bytes->0@[1],
                    flags: read.report@.flags,
                },
            )
        } else {
            before
        }
    }
}

/// What each report says.
pub open spec fn report_views(reports: Seq<ReportChar>) -> Seq<ReportView> {
    Seq::new(reports.len(), |i: int| reports[i]@)
}

/// The warning about a report that cannot be classified.
pub fn unclassified_line(read: &ReadReport) -> (line: Option<String>)
    ensures
        line is None == is_classified(*read),
        line matches Some(line) ==> line@ == match read.bytes {
            None => "warning: HID report char "@ + read.report.path@
                + " has no Report Reference descriptor; cannot classify, skipping"@,
            Some(b) => "warning: Report Reference of "@ + read.report.path@ + " is "@ + dec(
                b@.len(),
            ) + " byte(s); expected 2"@,
        },
{
    match &read.bytes {
        None => {
            let mut line = "warning: HID report char ".to_owned();
            line.append(read.report.path.as_str());
            line.append(" has no Report Reference descriptor; cannot classify, skipping");
            Some(line)
        },
        Some(bytes) => {
            if bytes.len() >= 2 {
                return None;
            }
            let mut line = "warning: Report Reference of ".to_owned();
            line.append(read.report.path.as_str());
            line.append(" is ");
            push_dec(&mut line, bytes.len() as u64);
            line.append(" byte(s); expected 2");
            Some(line)
        },
    }
}

// -- A device's reports -------------------------------------------------------

/// Whether a report is to receive the input-enable byte: any writable report
/// that is not itself an Input.
///
/// The exact report type is firmware-dependent: 1st/2nd-gen remotes expose it
/// as an Output report, the 3rd-gen ships only Feature reports. Which instance
/// the remote checks is unknown, so every plausible one gets the byte.
pub open spec fn takes_enable_byte(report: ReportView) -> bool {
    report.report_type != REPORT_TYPE_INPUT && can_write(report)
}

/// Whether a report streams input.
pub open spec fn streams_input(report: ReportView) -> bool {
    report.report_type == REPORT_TYPE_INPUT && can_notify(report)
}

/// The positions, in order, of the reports among the first `n` that satisfy
/// `wanted`.
pub open spec fn positions(
    reports: Seq<ReportView>,
    wanted: spec_fn(ReportView) -> bool,
    n: int,
) -> Seq<usize>
    decreases n,
{
    if n <= 0 {
        seq![]
    } else {
        let before = positions(reports, wanted, n - 1);
        if wanted(reports[n - 1]) {
            before.push((n - 1) as usize)
        } else {
            before
        }
    }
}

/// The name of a report type in the input-enable log.
pub open spec fn enable_kind(report_type: u8) -> Seq<char> {
    if report_type == REPORT_TYPE_OUTPUT {
        "output"@
    } else if report_type == REPORT_TYPE_FEATURE {
        "feature"@
    } else {
        "other"@
    }
}

/// Snapshot of the HID service for one device.
pub struct HidSession {
    device_path: String,
    reports: Vec<ReportChar>,
}

impl HidSession {
    /// The object path of the device.
    pub closed spec fn device(&self) -> Seq<char> {
        self.device_path@
    }

    /// The classified reports, by type, id and path.
    pub closed spec fn listed(&self) -> Seq<ReportChar> {
        self.reports@
    }

    /// Classify the reports that were read and put them in order: by type, id
    /// and path, so log output and event order are reproducible.
    pub fn open(device_path: &str, reads: Vec<ReadReport>) -> (session: Self)
        ensures
            session.device() == device_path@,
            exists|found: Seq<ReportChar>|
                report_views(found) == classified(reads@) && #[trigger] is_stable_sort(
                    found,
                    session.listed(),
                ),
    {
        let mut found: Vec<ReportChar> = Vec::new();
        for read in it: reads
            invariant
                report_views(found@) == classified(it.seq().take(it.index())),
        {
            let ghost before = found@;
            let ghost upto = it.seq().take(it.index() + 1);
            assert(upto.drop_last() =~= it.seq().take(it.index()));
            assert(upto.last() == read);
            if let Some(bytes) = &read.bytes {
                if bytes.len() >= 2 {
                    let report = ReportChar {
                        path: read.report.path.clone(),
                        report_id: bytes[0],
                        report_type: bytes[1],
                        flags: clone_texts(&read.report.flags),
                    };
                    let ghost added = report@;
                    found.push(report);
                    assert(report_views(found@) =~= report_views(before).push(added));
                }
            }
        }
        assert(reads@.take(reads@.len() as int) =~= reads@);
        let ghost all = found@;
        let session = Self { device_path: device_path.to_owned(), reports: stable_sort(found) };
        assert(is_stable_sort(all, session.listed()));
        session
    }

    pub fn reports(&self) -> (reports: &Vec<ReportChar>)
        ensures
            reports@ == self.listed(),
    {
        &self.reports
    }

    pub fn device_path(&self) -> (path: &str)
        ensures
            path@ == self.device(),
    {
        self.device_path.as_str()
    }

    /// The reports to write the input-enable byte to.
    pub fn enable_targets(&self) -> (targets: Result<Vec<usize>, String>)
        ensures
            ({
                let all = positions(
                    report_views(self.listed()),
                    |r: ReportView| takes_enable_byte(r),
                    self.listed().len() as int,
                );
                match targets {
                    Ok(targets) => all.len() > 0 && targets@ == all,
                    Err(message) => all.len() == 0 && message@
                        == "no writable Output/Feature HID Report under "@ + self.device(),
                }
            }),
    {
        let ghost wanted = |r: ReportView| takes_enable_byte(r);
        let mut targets: Vec<usize> = Vec::new();
        let mut i: usize = 0;
        while i < self.reports.len()
            invariant
                i <= self.reports.len(),
                wanted == (|r: ReportView| takes_enable_byte(r)),
                targets@ == positions(report_views(self.listed()), wanted, i as int),
            decreases self.reports.len() - i,
        {
            let report = &self.reports[i];
            assert(report_views(self.listed())[i as int] == report@);
            if report.report_type != REPORT_TYPE_INPUT && report.supports_write() {
                targets.push(i);
            }
            i = i + 1;
        }
        if targets.len() == 0 {
            let mut message = "no writable Output/Feature HID Report under ".to_owned();
            message.append(self.device_path.as_str());
            return Err(message);
        }
        Ok(targets)
    }

    /// The reports to subscribe to.
    pub fn input_reports(&self) -> (inputs: Result<Vec<usize>, String>)
        ensures
            ({
                let all = positions(
                    report_views(self.listed()),
                    |r: ReportView| streams_input(r),
                    self.listed().len() as int,
                );
                match inputs {
                    Ok(inputs) => all.len() > 0 && inputs@ == all,
                    Err(message) => all.len() == 0 && message@
                        == "no notifiable HID Input report under "@ + self.device()
                        + "; the remote will not stream events"@,
                }
            }),
    {
        let ghost wanted = |r: ReportView| streams_input(r);
        let mut inputs: Vec<usize> = Vec::new();
        let mut i: usize = 0;
        while i < self.reports.len()
            invariant
                i <= self.reports.len(),
                wanted == (|r: ReportView| streams_input(r)),
                inputs@ == positions(report_views(self.listed()), wanted, i as int),
            decreases self.reports.len() - i,
        {
            let report = &self.reports[i];
            assert(report_views(self.listed())[i as int] == report@);
            if report.report_type == REPORT_TYPE_INPUT && report.supports_notify() {
                inputs.push(i);
            }
            i = i + 1;
        }
        if inputs.len() == 0 {
            let mut message = "no notifiable HID Input report under ".to_owned();
            message.append(self.device_path.as_str());
            message.append("; the remote will not stream events");
            return Err(message);
        }
        Ok(inputs)
    }
}

/// Announce a write of the input-enable byte.
pub fn enable_line(byte: u8, report: &ReportChar) -> (line: String)
    ensures
        line@ == "Sending input-enable byte (0x"@ + hex2_upper(byte) + ") to "@ + enable_kind(
            report.report_type,
        ) + " report id=0x"@ + hex2_upper(report.report_id) + " path="@ + report.path@ + "."@,
{
    let mut line = "Sending input-enable byte (0x".to_owned();
    push_hex2_upper(&mut line, byte);
    line.append(") to ");
    if report.report_type == REPORT_TYPE_OUTPUT {
        line.append("output");
    } else if report.report_type == REPORT_TYPE_FEATURE {
        line.append("feature");
    } else {
        line.append("other");
    }
    line.append(" report id=0x");
    push_hex2_upper(&mut line, report.report_id);
    line.append(" path=");
    line.append(report.path.as_str());
    line.append(".");
    line
}

/// How many writes succeeded; a write that failed left its error.
pub open spec fn successes(results: Seq<Option<String>>) -> nat
    decreases results.len(),
{
    if results.len() == 0 {
        0
    } else {
        successes(results.drop_last()) + if results.last() is None {
            1nat
        } else {
            0nat
        }
    }
}

/// What the writes of the input-enable byte amount to: the number that
/// succeeded, or, where none did, the last error.
pub fn enable_outcome(results: &Vec<Option<String>>) -> (outcome: Result<usize, String>)
    ensures
        match outcome {
            Ok(n) => n > 0 && n == successes(results@),
            Err(e) => {
                &&& successes(results@) == 0
                &&& e@ == if results@.len() == 0 {
                    "no Report accepted the input-enable byte"@
                } else {
                    results@.last()->0@
                }
            },
        },
{
    let mut ok: usize = 0;
    let mut last = "no Report accepted the input-enable byte".to_owned();
    let mut i: usize = 0;
    while i < results.len()
        invariant
            i <= results.len(),
            ok <= i,
            ok == successes(results@.take(i as int)),
            ok == 0 ==> last@ == if i == 0 {
                "no Report accepted the input-enable byte"@
            } else {
                results@[i - 1]->0@
            },
        decreases results.len() - i,
    {
        assert(results@.take(i + 1).drop_last() =~= results@.take(i as int));
        match &results[i] {
            None => {
                ok = ok + 1;
            },
            Some(e) => {
                last = e.clone();
            },
        }
        i = i + 1;
    }
    assert(results@.take(i as int) =~= results@);
    if ok == 0 {
        Err(last)
    } else {
        Ok(ok)
    }
}

/// Whether the daemon refused every write of the input-enable byte: there were
/// writes, all failed, and each for want of authorization.
pub open spec fn is_refusal(results: Seq<Option<String>>) -> bool {
    results.len() > 0 && forall|i: int|
        0 <= i < results.len() ==> (#[trigger] results[i] matches Some(e) && contains_seq(
            e@,
            "org.bluez.Error.NotAuthorized"@,
        ))
}

/// Whether the daemon refused every write of the input-enable byte.
pub fn enable_refused(results: &Vec<Option<String>>) -> (r: bool)
    ensures
        r == is_refusal(results@),
{
    let marker = chars_of("org.bluez.Error.NotAuthorized");
    let mut i: usize = 0;
    while i < results.len()
        invariant
            i <= results.len(),
            marker@ == "org.bluez.Error.NotAuthorized"@,
            forall|j: int|
                0 <= j < i ==> (#[trigger] results@[j] matches Some(e) && contains_seq(
                    e@,
                    "org.bluez.Error.NotAuthorized"@,
                )),
        decreases results.len() - i,
    {
        match &results[i] {
            None => {
                return false;
            },
            Some(e) => {
                if !contains_text(&chars_of(e.as_str()), &marker) {
                    return false;
                }
            },
        }
        i = i + 1;
    }
    results.len() > 0
}

// -- Incoming reports ---------------------------------------------------------

/// A `PropertiesChanged` signal: the object it comes from, the interface it
/// speaks of, and the new `Value`, where it carries one.
pub struct PropertySignal {
    pub path: String,
    pub interface: String,
    pub value: Option<Vec<u8>>,
}

/// The report id of a path: that of the last route to it.
pub open spec fn routed_id(routes: Seq<(String, u8)>, path: Seq<char>) -> Option<u8>
    decreases routes.len(),
{
    if routes.len() == 0 {
        None
    } else if routes.last().0@ == path {
        Some(routes.last().1)
    } else {
        routed_id(routes.drop_last(), path)
    }
}

/// Whether a report is what a signal carries under the given routes.
pub open spec fn is_carried(
    routes: Seq<(String, u8)>,
    signal: PropertySignal,
    report: Option<(u8, Vec<u8>)>,
) -> bool {
    let id = routed_id(routes, signal.path@);
    match report {
        Some((report_id, value)) => {
            &&& id == Some(report_id)
            &&& signal.interface@ == CHAR_IFACE@
            &&& signal.value == Some(value)
        },
        None => id is None || signal.interface@ != CHAR_IFACE@ || signal.value is None,
    }
}

/// Which report each subscribed path stands for.
pub struct InputRoutes {
    by_path: Vec<(String, u8)>,
}

impl InputRoutes {
    /// The subscribed paths with their report ids.
    pub closed spec fn routes(&self) -> Seq<(String, u8)> {
        self.by_path@
    }

    /// Routes for the reports of a session at the given positions.
    pub fn new(session: &HidSession, inputs: &Vec<usize>) -> (r: Self)
        requires
            forall|k: int|
                0 <= k < inputs@.len() ==> #[trigger] inputs@[k] < session.listed().len(),
        ensures
            r.routes().len() == inputs@.len(),
            forall|k: int|
                0 <= k < inputs@.len() ==> {
                    let report = session.listed()[#[trigger] inputs@[k] as int];
                    r.routes()[k].0@ == report.path@ && r.routes()[k].1 == report.report_id
                },
    {
        let mut by_path: Vec<(String, u8)> = Vec::new();
        let mut k: usize = 0;
        while k < inputs.len()
            invariant
                k <= inputs.len(),
                by_path@.len() == k,
                forall|k: int|
                    0 <= k < inputs@.len() ==> #[trigger] inputs@[k] < session.listed().len(),
                forall|j: int|
                    0 <= j < k ==> {
                        let report = session.listed()[#[trigger] inputs@[j] as int];
                        by_path@[j].0@ == report.path@ && by_path@[j].1 == report.report_id
                    },
            decreases inputs.len() - k,
        {
            let report = &session.reports[inputs[k]];
            by_path.push((report.path.clone(), report.report_id));
            k = k + 1;
        }
        Self { by_path }
    }

    /// The report that a signal carries, if any: signals from paths that were
    /// not subscribed to, of other interfaces, or without a fresh value carry
    /// none.
    pub fn route(&self, signal: PropertySignal) -> (report: Option<(u8, Vec<u8>)>)
        ensures
            ({
                let id = routed_id(self.routes(), signal.path@);
                match report {
                    Some((report_id, value)) => {
                        &&& id == Some(report_id)
                        &&& signal.interface@ == CHAR_IFACE@
                        &&& signal.value == Some(value)
                    },
                    None => id is None || signal.interface@ != CHAR_IFACE@ || signal.value is None,
                }
            }),
            is_carried(self.routes(), signal, report),
    {
        let mut i: usize = self.by_path.len();
        assert(self.by_path@.take(i as int) =~= self.by_path@);
        while i > 0 && !same_text(self.by_path[i - 1].0.as_str(), signal.path.as_str())
            invariant
                i <= self.by_path.len(),
                routed_id(self.routes(), signal.path@) == routed_id(
                    self.by_path@.take(i as int),
                    signal.path@,
                ),
            decreases i,
        {
            assert(self.by_path@.take(i as int).drop_last() =~= self.by_path@.take(i - 1));
            i = i - 1;
        }
        if i == 0 {
            return None;
        }
        assert(self.by_path@.take(i as int).last() == self.by_path@[i - 1]);
        if !same_text(signal.interface.as_str(), CHAR_IFACE) {
            return None;
        }
        match signal.value {
            Some(value) => Some((self.by_path[i - 1].1, value)),
            None => None,
        }
    }
}

// -- Laws ---------------------------------------------------------------------

/// The order of a device's reports does not depend on the order in which they
/// were read: the same reports, none sharing a path, are listed alike, so log
/// output and event order are reproducible.
pub proof fn law_reports_are_reproducible(
    reads_a: Seq<ReadReport>,
    reads_b: Seq<ReadReport>,
    found_a: Seq<ReportChar>,
    found_b: Seq<ReportChar>,
    listed_a: Seq<ReportChar>,
    listed_b: Seq<ReportChar>,
)
    requires
        forall|v: ReportView| #[trigger]
            classified(reads_a).contains(v) <==> classified(reads_b).contains(v),
        distinct_report_paths(classified(reads_a)),
        distinct_report_paths(classified(reads_b)),
        report_views(found_a) == classified(reads_a),
        report_views(found_b) == classified(reads_b),
        is_stable_sort(found_a, listed_a),
        is_stable_sort(found_b, listed_b),
    ensures
        report_views(listed_a) == report_views(listed_b),
{
    let shown = |r: ReportChar| r@;
    let before = |a: ReportView, b: ReportView| report_le(a, b);
    assert(found_a.map_values(shown) =~= report_views(found_a));
    assert(found_b.map_values(shown) =~= report_views(found_b));
    assert(listed_a.map_values(shown) =~= report_views(listed_a));
    assert(listed_b.map_values(shown) =~= report_views(listed_b));
    lemma_no_report_ties(found_a);
    lemma_no_report_ties(found_b);
    law_sort_is_reproducible(found_a, listed_a, found_b, listed_b, shown, before);
}

/// Whether no two reports share a path.
pub open spec fn distinct_report_paths(reports: Seq<ReportView>) -> bool {
    forall|i: int, j: int|
        0 <= i < j < reports.len() ==> (#[trigger] reports[i]).path != (#[trigger] reports[j]).path
}

proof fn lemma_no_report_ties(found: Seq<ReportChar>)
    requires
        distinct_report_paths(report_views(found)),
    ensures
        no_ties(
            found,
            |r: ReportChar| r@,
            |a: ReportView, b: ReportView| report_le(a, b),
        ),
{
    let views = report_views(found);
    assert forall|i: int, j: int|
        0 <= i < found.len() && 0 <= j < found.len() && i != j implies !(report_le(
        (#[trigger] found[i])@,
        (#[trigger] found[j])@,
    ) && report_le(found[j]@, found[i]@)) by {
        assert(views[i] == found[i]@ && views[j] == found[j]@);
        if i < j {
            assert(views[i].path != views[j].path);
        } else {
            assert(views[j].path != views[i].path);
        }
        lemma_text_le_total(views[i].path, views[j].path);
    }
}

/// A signal from a path that one report was subscribed under belongs to that
/// report; one from any other path belongs to none.
pub proof fn law_signals_find_their_report(routes: Seq<(String, u8)>, path: Seq<char>)
    ensures
        forall|k: int|
            0 <= k < routes.len() && (#[trigger] routes[k]).0@ == path && (forall|j: int|
                0 <= j < routes.len() && j != k ==> (#[trigger] routes[j]).0@ != path)
                ==> routed_id(routes, path) == Some(routes[k].1),
        (forall|k: int| 0 <= k < routes.len() ==> (#[trigger] routes[k]).0@ != path) <==> routed_id(
            routes,
            path,
        ) is None,
    decreases routes.len(),
{
    if routes.len() > 0 {
        let shorter = routes.drop_last();
        law_signals_find_their_report(shorter, path);
        assert(forall|k: int| 0 <= k < shorter.len() ==> shorter[k] == routes[k]);
        assert forall|k: int|
            0 <= k < routes.len() && (#[trigger] routes[k]).0@ == path && (forall|j: int|
                0 <= j < routes.len() && j != k ==> (#[trigger] routes[j]).0@ != path) implies
            routed_id(routes, path) == Some(routes[k].1) by {
            if k < shorter.len() {
                assert(shorter[k].0@ == path);
                assert(routes[routes.len() - 1].0@ != path);
                assert forall|j: int| 0 <= j < shorter.len() && j != k implies (
                #[trigger] shorter[j]).0@ != path by {
                    assert(routes[j].0@ != path);
                }
            }
        }
        if forall|k: int| 0 <= k < routes.len() ==> (#[trigger] routes[k]).0@ != path {
            assert(routes[routes.len() - 1].0@ != path);
            assert forall|k: int| 0 <= k < shorter.len() implies (#[trigger] shorter[k]).0@
                != path by {
                assert(routes[k].0@ != path);
            }
        }
        if routed_id(routes, path) is None {
            assert forall|k: int| 0 <= k < routes.len() implies (#[trigger] routes[k]).0@
                != path by {
                if k < shorter.len() {
                    assert(shorter[k].0@ != path);
                }
            }
        }
    }
}

/// Input is read from Input reports alone, and the input-enable byte never goes
/// to one.
pub proof fn law_inputs_are_not_written(report: ReportView)
    ensures
        !(streams_input(report) && takes_enable_byte(report)),
{
}

/// A report characteristic is known by its UUID, in whatever case, and by lying
/// below a HID service of the device; its flags and its Report Reference
/// descriptor come with it.
pub proof fn law_report_is_found(objects: Seq<GattObject>, device_path: Seq<char>, n: int, s: int)
    requires
        0 <= n < objects.len(),
        0 <= s < objects.len(),
        objects[s].service_uuid is Some,
        objects[s].service_uuid->0@.map_values(|c: char| ascii_lower(c))
            == "00001812-0000-1000-8000-00805f9b34fb"@,
        starts_with_seq(objects[s].path@, device_path + "/"@),
        objects[n].characteristic_uuid is Some,
        objects[n].characteristic_uuid->0@.map_values(|c: char| ascii_lower(c))
            == "00002a4d-0000-1000-8000-00805f9b34fb"@,
        starts_with_seq(objects[n].path@, objects[s].path@ + "/"@),
    ensures
        has_hid_service(objects, device_path),
        ({
            let before = report_paths(objects, device_path, n);
            let all = report_paths(objects, device_path, n + 1);
            &&& all.len() == before.len() + 1
            &&& all.drop_last() == before
            &&& all.last().path == objects[n].path@
            &&& all.last().flags == texts(objects[n].flags@)
            &&& all.last().reference == reference_of(objects, objects[n].path@)
        }),
{
    assert(is_hid_service(objects[s], device_path));
    let before = report_paths(objects, device_path, n);
    assert(report_paths(objects, device_path, n + 1).drop_last() =~= before);
}

/// Nothing else is taken for a report.
pub proof fn law_others_are_no_reports(objects: Seq<GattObject>, device_path: Seq<char>, n: int)
    requires
        0 <= n < objects.len(),
        objects[n].characteristic_uuid matches Some(u) ==> u@.map_values(|c: char| ascii_lower(c))
            != "00002a4d-0000-1000-8000-00805f9b34fb"@,
    ensures
        report_paths(objects, device_path, n + 1) == report_paths(objects, device_path, n),
        report_paths(objects, device_path, 0).len() == 0,
{
}

/// The reference of a characteristic is the first Report Reference descriptor
/// below it.
pub proof fn law_reference_is_the_first(
    objects: Seq<GattObject>,
    characteristic: Seq<char>,
    i: int,
)
    requires
        0 <= i < objects.len(),
        starts_with_seq(objects[i].path@, characteristic + "/"@),
        objects[i].descriptor_uuid is Some,
        objects[i].descriptor_uuid->0@.map_values(|c: char| ascii_lower(c))
            == "00002908-0000-1000-8000-00805f9b34fb"@,
        forall|j: int| 0 <= j < i ==> !is_reference(#[trigger] objects[j], characteristic),
    ensures
        reference_of(objects, characteristic) == Some(objects[i].path@),
    decreases objects.len(),
{
    assert(is_reference(objects[i], characteristic));
    if i > 0 {
        assert(!is_reference(objects[0], characteristic));
        let rest = objects.drop_first();
        assert forall|j: int| 0 <= j < i - 1 implies !is_reference(
            #[trigger] rest[j],
            characteristic,
        ) by {
            assert(!is_reference(objects[j + 1], characteristic));
        }
        law_reference_is_the_first(rest, characteristic, i - 1);
    }
}

/// A report is classified by the two bytes of its reference: the first is its
/// id, the second its type. One without them is left out.
pub proof fn law_reports_are_classified(reads: Seq<ReadReport>)
    requires
        reads.len() > 0,
    ensures
        ({
            let before = classified(reads.drop_last());
            let all = classified(reads);
            let read = reads.last();
            &&& (read.bytes is Some && read.bytes->0@.len() >= 2) ==> {
                &&& all.len() == before.len() + 1
                &&& all.drop_last() == before
                &&& all.last().report_id == read.bytes->0@[0]
                &&& all.last().report_type == read.bytes->0@[1]
                &&& all.last().path == read.report.path@
                &&& all.last().flags == texts(read.report.flags@)
            }
            &&& (read.bytes is None || read.bytes->0@.len() < 2) ==> all == before
        }),
        classified(Seq::<ReadReport>::empty()).len() == 0,
{
    let before = classified(reads.drop_last());
    let all = classified(reads);
    if all.len() > before.len() {
        assert(all.drop_last() =~= before);
    }
}

/// Reports go by type, then by id, then by path.
pub proof fn law_report_order(a: ReportView, b: ReportView)
    ensures
        a.report_type < b.report_type ==> report_le(a, b) && !report_le(b, a),
        a.report_type == b.report_type && a.report_id < b.report_id ==> report_le(a, b)
            && !report_le(b, a),
        a.report_type == b.report_type && a.report_id == b.report_id ==> (report_le(a, b)
            <==> text_le(a.path, b.path)),
{
}

/// What a report's flags allow, and what it is for: an Input that notifies is
/// read, and anything else that can be written gets the byte.
pub proof fn law_report_uses(report: ReportView)
    ensures
        can_notify(report) <==> report.flags.contains("notify"@) || report.flags.contains(
            "indicate"@,
        ),
        can_write(report) <==> report.flags.contains("write"@) || report.flags.contains(
            "write-without-response"@,
        ),
        streams_input(report) <==> report.report_type == 1 && can_notify(report),
        takes_enable_byte(report) <==> report.report_type != 1 && can_write(report),
{
}

/// Positions are listed one by one: each report that is wanted, in order, and
/// no other.
pub proof fn law_positions_by_wish(
    reports: Seq<ReportView>,
    wanted: spec_fn(ReportView) -> bool,
    n: int,
)
    requires
        0 <= n < reports.len() <= usize::MAX,
    ensures
        positions(reports, wanted, 0) == Seq::<usize>::empty(),
        wanted(reports[n]) ==> positions(reports, wanted, n + 1) == positions(
            reports,
            wanted,
            n,
        ).push(n as usize),
        !wanted(reports[n]) ==> positions(reports, wanted, n + 1) == positions(reports, wanted, n),
{
}

/// Writes that were accepted are counted one by one.
pub proof fn law_accepted_writes_count(results: Seq<Option<String>>)
    requires
        results.len() > 0,
    ensures
        results.last() is None ==> successes(results) == successes(results.drop_last()) + 1,
        results.last() is Some ==> successes(results) == successes(results.drop_last()),
        successes(Seq::<Option<String>>::empty()) == 0,
{
}

/// The kind of a report in the log: type 2 is an output, 3 a feature.
pub proof fn law_enable_kinds(report_type: u8)
    ensures
        report_type == 2 ==> enable_kind(report_type) == "output"@,
        report_type == 3 ==> enable_kind(report_type) == "feature"@,
        report_type != 2 && report_type != 3 ==> enable_kind(report_type) == "other"@,
{
}

/// The daemon has refused only where every write failed for want of
/// authorization; one that was accepted, or failed otherwise, is no refusal.
pub proof fn law_refusal_is_unanimous(results: Seq<Option<String>>, i: int)
    requires
        0 <= i < results.len(),
    ensures
        is_refusal(results) ==> (results[i] matches Some(e) && contains_seq(
            e@,
            "org.bluez.Error.NotAuthorized"@,
        )),
        is_refusal(results) ==> successes(results) == 0,
        !is_refusal(Seq::<Option<String>>::empty()),
        (forall|k: int|
            0 <= k < results.len() ==> (#[trigger] results[k]) is Some && contains_seq(
                results[k]->0@,
                "org.bluez.Error.NotAuthorized"@,
            )) ==> is_refusal(results),
{
    if is_refusal(results) {
        assert(results[i] is Some);
        lemma_all_refused(results);
    }
}

proof fn lemma_all_refused(results: Seq<Option<String>>)
    requires
        forall|k: int| 0 <= k < results.len() ==> (#[trigger] results[k]) is Some,
    ensures
        successes(results) == 0,
    decreases results.len(),
{
    if results.len() > 0 {
        let shorter = results.drop_last();
        assert forall|k: int| 0 <= k < shorter.len() implies (#[trigger] shorter[k]) is Some by {
            assert(results[k] is Some);
        }
        lemma_all_refused(shorter);
        assert(results[results.len() - 1] is Some);
    }
}

/// A fresh value on a subscribed characteristic is handed on whole, under the id
/// of its report; nothing else is.
pub proof fn law_values_are_handed_on(
    routes: Seq<(String, u8)>,
    signal: PropertySignal,
    report: Option<(u8, Vec<u8>)>,
    k: int,
)
    requires
        is_carried(routes, signal, report),
        0 <= k < routes.len(),
        forall|j: int| 0 <= j < routes.len() && j != k ==> (#[trigger] routes[j]).0@
            != routes[k].0@,
        signal.path@ == routes[k].0@,
    ensures
        signal.interface@ == "org.bluez.GattCharacteristic1"@ && signal.value is Some ==> report
            == Some((routes[k].1, signal.value->0)),
        signal.interface@ != "org.bluez.GattCharacteristic1"@ || signal.value is None ==> report
            is None,
{
    law_signals_find_their_report(routes, signal.path@);
    assert(routes[k].0@ == signal.path@);
}

} // verus!
