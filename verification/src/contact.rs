//! Touch contacts as the gamepad and the dashboard read them: signed
//! coordinates, the contact ellipse and its orientation.

use vstd::prelude::*;

use crate::decoder::{FingerData, TouchEvent};

verus! {

/// One finger on, or above, the touchpad.
#[derive(Clone, Copy, Debug, PartialEq, Eq, Structural)]
pub struct Contact {
    pub x: i32,
    pub y: i32,
    /// Long axis of the contact ellipse.
    pub major: u8,
    /// Short axis of the contact ellipse.
    pub minor: u8,
    pub pressure: u8,
    pub flags: u8,
    /// The finger is close but does not touch.
    pub hover: bool,
    /// Orientation bucket, from the high three bits of the flags.
    pub angle_idx: u8,
}

/// One touchpad frame: `points[0]` is slot 1, `points[1]` is slot 2.
#[derive(Clone, Copy, Debug, PartialEq, Eq)]
pub struct ContactFrame {
    pub header: u8,
    pub seq: u16,
    pub points: [Option<Contact>; 2],
}

/// The contact that a decoded finger stands for. The report layout has no
/// hover flag, so a decoded finger touches.
pub open spec fn contact_of(f: FingerData) -> Contact {
    Contact {
        x: f.x as i32,
        y: f.y as i32,
        major: f.aux@[0],
        minor: f.aux@[1],
        pressure: f.pressure,
        flags: f.status,
        hover: false,
        angle_idx: f.status >> 5,
    }
}

/// The contact of an optional finger.
pub open spec fn contact_if(f: Option<FingerData>) -> Option<Contact> {
    match f {
        Some(f) => Some(contact_of(f)),
        None => None,
    }
}

/// The frame that a decoded report stands for.
pub open spec fn frame_of(ev: TouchEvent) -> ContactFrame {
    ContactFrame {
        header: ev.finger_mask,
        seq: ev.seq,
        points: [contact_if(ev.points@[0]), contact_if(ev.points@[1])],
    }
}

/// The orientation of the long axis in tenths of a degree, counted
/// counter-clockwise from the touchpad's +X: eight buckets of 22.5°, shifted by
/// one, where the last wraps to 0° because the ellipse is symmetric.
pub open spec fn angle_tenths_of(angle_idx: u8) -> int {
    ((angle_idx + 1) % 8) * 225
}

impl Contact {
    fn of(f: &FingerData) -> (c: Self)
        ensures
            c == contact_of(*f),
    {
        Contact {
            x: f.x as i32,
            y: f.y as i32,
            major: f.aux[0],
            minor: f.aux[1],
            pressure: f.pressure,
            flags: f.status,
            hover: false,
            angle_idx: f.status >> 5,
        }
    }

    /// The orientation of the long axis in tenths of a degree.
    pub fn angle_tenths(&self) -> (tenths: u16)
        ensures
            tenths == angle_tenths_of(self.angle_idx),
    {
        ((self.angle_idx as u16 + 1) % 8) * 225
    }
}

fn contact_slot(f: &Option<FingerData>) -> (c: Option<Contact>)
    ensures
        c == contact_if(*f),
{
    match f {
        Some(f) => Some(Contact::of(f)),
        None => None,
    }
}

impl ContactFrame {
    /// The frame of a decoded report.
    pub fn of(ev: &TouchEvent) -> (frame: Self)
        ensures
            frame == frame_of(*ev),
    {
        ContactFrame {
            header: ev.finger_mask,
            seq: ev.seq,
            points: [contact_slot(&ev.points[0]), contact_slot(&ev.points[1])],
        }
    }
}

/// Orientations lie in `0°..180°`, and the eight buckets differ.
pub proof fn law_angles_cover_half_turn(a: u8, b: u8)
    requires
        a < 8,
        b < 8,
    ensures
        0 <= angle_tenths_of(a) < 1800,
        angle_tenths_of(a) == angle_tenths_of(b) ==> a == b,
        angle_tenths_of(7) == 0,
{
}

/// A contact holds what the finger's bytes say: its place, the two axes of its
/// ellipse, its pressure, and the status byte, whose high three bits are the
/// orientation.
pub proof fn law_contact_keeps_readings(ev: TouchEvent, i: int)
    requires
        0 <= i < 2,
    ensures
        frame_of(ev).header == ev.finger_mask,
        frame_of(ev).seq == ev.seq,
        frame_of(ev).points@[i] is Some <==> ev.points@[i] is Some,
        ev.points@[i] matches Some(f) ==> {
            let c = frame_of(ev).points@[i]->0;
            &&& c.x == f.x && c.y == f.y
            &&& c.major == f.aux@[0] && c.minor == f.aux@[1]
            &&& c.pressure == f.pressure
            &&& c.flags == f.status
            &&& c.angle_idx == f.status / 32
            &&& !c.hover
        },
{
    if let Some(f) = ev.points@[i] {
        let s = f.status;
        assert(s >> 5 == s / 32) by (bit_vector);
    }
}

/// The angle grows by 22.5 degrees with the index, shifted by one step, and
/// wraps after eight.
pub proof fn law_angle_steps(angle_idx: u8)
    ensures
        angle_idx % 8 == 7 ==> angle_tenths_of(angle_idx) == 0,
        angle_idx % 8 != 7 ==> angle_tenths_of(angle_idx) == 225 * (angle_idx % 8) + 225,
{
}

} // verus!
