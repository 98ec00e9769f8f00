//! Picking the microphone frames out of the event stream.

use vstd::prelude::*;

use crate::dump::MIC_REPORT_ID;
use crate::session::DeviceEvent;
use crate::text::{dec, push_dec};

verus! {

/// The payload of a microphone frame; other events have none.
pub fn mic_payload(ev: DeviceEvent) -> (payload: Option<Vec<u8>>)
    ensures
        payload == match ev {
            DeviceEvent::UnknownInput { report_id, payload: p } => if report_id == MIC_REPORT_ID {
                Some(p)
            } else {
                None
            },
            _ => None,
        },
{
    match ev {
        DeviceEvent::UnknownInput { report_id, payload } => {
            if report_id == MIC_REPORT_ID {
                Some(payload)
            } else {
                None
            }
        },
        _ => None,
    }
}

/// The complaint about a frame that could not be decoded, up to the decoder's
/// own words.
pub fn decode_error_line(seq: u16, frame_len: usize) -> (line: String)
    ensures
        line@ == "opus decode error (seq="@ + dec(seq as nat) + ", len="@ + dec(frame_len as nat)
            + "): "@,
{
    let mut line = "opus decode error (seq=".to_owned();
    push_dec(&mut line, seq as u64);
    line.append(", len=");
    push_dec(&mut line, frame_len as u64);
    line.append("): ");
    line
}

} // verus!
