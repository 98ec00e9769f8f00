//! Raw dumps of HID input reports: which frames are wanted, and their lines.
//!
//! Touchpad frames and microphone-audio frames can be selected; every other
//! event is dropped. This exists to capture wire traces for offline analysis.

use vstd::prelude::*;

use crate::decoder::{is_stamp, now_stamp, raw_hex, raw_hex_text};
use crate::session::DeviceEvent;
use crate::text::{hex2_upper, push_hex2_upper};

verus! {

/// HID input report id carrying touchpad samples.
pub const TOUCH_REPORT_ID: u8 = 0xFC;

/// HID input report id carrying microphone audio frames (Siri button held).
pub const MIC_REPORT_ID: u8 = 0xFA;

/// Which report streams the user opted into.
#[derive(Clone, Copy, Debug, PartialEq, Eq, Structural)]
pub struct Filter {
    pub touch: bool,
    pub mic: bool,
}

impl Filter {
    /// Whether reports with this id are wanted.
    pub open spec fn wants(&self, report_id: u8) -> bool {
        (self.touch && report_id == TOUCH_REPORT_ID) || (self.mic && report_id == MIC_REPORT_ID)
    }

    /// A filter for the given streams; at least one must be selected, else the
    /// program ends with a code and words.
    pub fn new(touch: bool, mic: bool) -> (filter: Result<Self, (u8, String)>)
        ensures
            match filter {
                Ok(f) => (touch || mic) && f == (Filter { touch, mic }),
                Err((code, say)) => !touch && !mic && code == 2 && say@
                    == "error: at least one of --touch or --mic must be specified"@,
            },
    {
        if !touch && !mic {
            return Err(
                (2, "error: at least one of --touch or --mic must be specified".to_owned()),
            );
        }
        Ok(Filter { touch, mic })
    }

    /// Whether reports with this id are wanted.
    pub fn accepts(&self, report_id: u8) -> (r: bool)
        ensures
            r == self.wants(report_id),
    {
        (self.touch && report_id == TOUCH_REPORT_ID) || (self.mic && report_id == MIC_REPORT_ID)
    }
}

/// The report id and the bytes of an event that stands for a whole report:
/// button reports are not dumped.
pub open spec fn whole_report(ev: DeviceEvent) -> Option<(u8, Seq<u8>)> {
    match ev {
        DeviceEvent::Touch { report_id, raw, .. } => Some((report_id, raw@)),
        DeviceEvent::UnknownInput { report_id, payload } => Some((report_id, payload@)),
        _ => None,
    }
}

/// The line of a dumped report at the time that `stamp` names.
pub open spec fn dump_text(stamp: Seq<char>, report_id: u8, bytes: Seq<u8>) -> Seq<char> {
    stamp + " report_id=0x"@ + hex2_upper(report_id) + " raw="@ + raw_hex_text(bytes)
}

/// The line of a dumped touch report at the time that `stamp` names.
pub open spec fn touch_dump_text(stamp: Seq<char>, bytes: Seq<u8>) -> Seq<char> {
    stamp + " raw="@ + raw_hex_text(bytes)
}

fn report_of(ev: &DeviceEvent) -> (report: Option<(u8, &Vec<u8>)>)
    ensures
        match report {
            Some((id, bytes)) => whole_report(*ev) == Some((id, bytes@)),
            None => whole_report(*ev) is None,
        },
{
    match ev {
        DeviceEvent::Touch { report_id, raw, .. } => Some((*report_id, raw)),
        DeviceEvent::UnknownInput { report_id, payload } => Some((*report_id, payload)),
        _ => None,
    }
}

/// The line of an event at a known time, where the filter lets it through.
pub fn dump_line(filter: &Filter, stamp: &str, ev: &DeviceEvent) -> (line: Option<String>)
    ensures
        match whole_report(*ev) {
            Some((id, bytes)) if filter.wants(id) => line is Some && line->0@ == dump_text(
                stamp@,
                id,
                bytes,
            ),
            _ => line is None,
        },
{
    match report_of(ev) {
        Some((report_id, bytes)) => {
            if !filter.accepts(report_id) {
                return None;
            }
            let mut line = stamp.to_owned();
            line.append(" report_id=0x");
            push_hex2_upper(&mut line, report_id);
            line.append(" raw=");
            line.append(raw_hex(bytes.as_slice()).as_str());
            Some(line)
        },
        None => None,
    }
}

/// The line of a touch report at a known time; other events have none.
pub fn touch_dump_line(stamp: &str, ev: &DeviceEvent) -> (line: Option<String>)
    ensures
        match whole_report(*ev) {
            Some((id, bytes)) if id == TOUCH_REPORT_ID => line is Some && line->0@
                == touch_dump_text(stamp@, bytes),
            _ => line is None,
        },
{
    match report_of(ev) {
        Some((report_id, bytes)) => {
            if report_id != TOUCH_REPORT_ID {
                return None;
            }
            let mut line = stamp.to_owned();
            line.append(" raw=");
            line.append(raw_hex(bytes.as_slice()).as_str());
            Some(line)
        },
        None => None,
    }
}

/// The line of an event with the current time, where the filter lets it
/// through.
pub fn dump_now(filter: &Filter, ev: &DeviceEvent) -> (line: Option<String>)
    ensures
        match whole_report(*ev) {
            Some((id, bytes)) if filter.wants(id) => line is Some && exists|stamp: Seq<char>|
                is_stamp(stamp) && line->0@ == #[trigger] dump_text(stamp, id, bytes),
            _ => line is None,
        },
{
    dump_line(filter, now_stamp().as_str(), ev)
}

/// The line of a touch report with the current time.
pub fn touch_dump_now(ev: &DeviceEvent) -> (line: Option<String>)
    ensures
        match whole_report(*ev) {
            Some((id, bytes)) if id == TOUCH_REPORT_ID => line is Some && exists|
                stamp: Seq<char>,
            |
                is_stamp(stamp) && line->0@ == #[trigger] touch_dump_text(stamp, bytes),
            _ => line is None,
        },
{
    touch_dump_line(now_stamp().as_str(), ev)
}

// -- Laws ---------------------------------------------------------------------

/// Touch frames have id 0xFC and audio frames 0xFA; each is dumped where it was
/// asked for, and nothing else is.
pub proof fn law_streams_by_id(filter: Filter, report_id: u8)
    ensures
        filter.wants(report_id) <==> (report_id == 0xFC && filter.touch) || (report_id == 0xFA
            && filter.mic),
{
}

/// A dumped line holds the time, the id and every byte of the report; button
/// reports and notifications are not dumped.
pub proof fn law_dumped_lines(stamp: Seq<char>, ev: DeviceEvent, id: u8, bytes: Seq<u8>)
    ensures
        whole_report(ev) is Some <==> ev is Touch || ev is UnknownInput,
        ev matches DeviceEvent::Touch { report_id, raw, .. } ==> whole_report(ev) == Some(
            (report_id, raw@),
        ),
        ev matches DeviceEvent::UnknownInput { report_id, payload } ==> whole_report(ev) == Some(
            (report_id, payload@),
        ),
        dump_text(stamp, id, bytes) == stamp + " report_id=0x"@ + hex2_upper(id) + " raw="@
            + raw_hex_text(bytes),
        touch_dump_text(stamp, bytes) == stamp + " raw="@ + raw_hex_text(bytes),
{
}

} // verus!
