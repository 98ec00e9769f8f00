//! The identity and the controls of the virtual gamepad.
//!
//! It impersonates a wired Xbox 360 controller. That identity is not cosmetic:
//! SDL ships a built-in mapping keyed on bus / vendor / product / version, so
//! games and the browser Gamepad API auto-map the pad with no per-user
//! configuration.
//!
//! SDL derives its button indices from the capability bitmap in ascending code
//! order. Declaring fewer keys would shift every later index and break the
//! built-in mapping, which is why [`PAD_KEYS`] includes two buttons the remote
//! cannot produce.

use vstd::prelude::*;

use crate::text::{hex4, push_hex4};

verus! {

pub const DEVICE_NAME: &'static str = "Microsoft X-Box 360 pad";

pub const VENDOR: u16 = 0x045E;

pub const PRODUCT: u16 = 0x028E;

pub const VERSION: u16 = 0x0110;

pub const STICK_MIN: i32 = -32768;

pub const STICK_MAX: i32 = 32767;

// Event types and codes of the kernel's input layer. The kernel names the face
// buttons by compass direction: north is X and west is Y.

pub const EV_KEY: u16 = 0x01;

pub const EV_ABS: u16 = 0x03;

pub const ABS_X: u16 = 0x00;

pub const ABS_Y: u16 = 0x01;

pub const ABS_HAT0X: u16 = 0x10;

pub const ABS_HAT0Y: u16 = 0x11;

pub const BTN_SOUTH: u16 = 0x130;

pub const BTN_EAST: u16 = 0x131;

pub const BTN_NORTH: u16 = 0x133;

pub const BTN_WEST: u16 = 0x134;

pub const BTN_TL: u16 = 0x136;

pub const BTN_TR: u16 = 0x137;

pub const BTN_SELECT: u16 = 0x13a;

pub const BTN_START: u16 = 0x13b;

pub const BTN_MODE: u16 = 0x13c;

pub const BTN_THUMBL: u16 = 0x13d;

pub const BTN_THUMBR: u16 = 0x13e;

/// The button set of the wired controller, ascending by code so SDL's index
/// order matches its built-in mapping. `BTN_THUMBL` / `BTN_THUMBR` have no
/// remote source but must be declared for that index order to hold.
pub const PAD_KEYS: [u16; 11] = [
    BTN_SOUTH,
    BTN_EAST,
    BTN_NORTH,
    BTN_WEST,
    BTN_TL,
    BTN_TR,
    BTN_SELECT,
    BTN_START,
    BTN_MODE,
    BTN_THUMBL,
    BTN_THUMBR,
];

/// One event of the kernel's input layer.
#[derive(Clone, Copy, Debug, PartialEq, Eq, Structural)]
pub struct InputEvent {
    pub event_type: u16,
    pub code: u16,
    pub value: i32,
}

/// The device node could not be opened for writing; holds the system's words.
#[derive(Debug)]
pub struct UinputUnavailable(pub String);

impl UinputUnavailable {
    pub fn message(&self) -> (message: String)
        ensures
            message@ == "cannot open /dev/uinput: "@ + self.0@,
    {
        let mut message = "cannot open /dev/uinput: ".to_owned();
        message.append(self.0.as_str());
        message
    }

    /// What the user is told, with a way out.
    pub open spec fn help_text(&self) -> Seq<char> {
        "error: cannot open /dev/uinput for writing: "@ + self.0@
            + "\n\nThe virtual gamepad is created through the kernel's uinput device, which is\nroot-only by default. Grant this user access, then rerun:\n\n    NixOS:  hardware.uinput.enable = true;   (creates the uinput group + udev rule)\n            users.users.<you>.extraGroups = [ \"uinput\" \"input\" ];\n    else:   load the uinput module and install a udev rule granting the\n            input group write access to /dev/uinput."@
    }

    /// What to tell the user, with a way out.
    pub fn help(&self) -> (text: String)
        ensures
            text@ == self.help_text(),
    {
        let mut text = "error: cannot open /dev/uinput for writing: ".to_owned();
        text.append(self.0.as_str());
        text.append(
            "\n\nThe virtual gamepad is created through the kernel's uinput device, which is\nroot-only by default. Grant this user access, then rerun:\n\n    NixOS:  hardware.uinput.enable = true;   (creates the uinput group + udev rule)\n            users.users.<you>.extraGroups = [ \"uinput\" \"input\" ];\n    else:   load the uinput module and install a udev rule granting the\n            input group write access to /dev/uinput.",
        );
        text
    }

    /// How the program ends: the code and the words.
    pub fn exit(&self) -> (exit: (u8, String))
        ensures
            exit.0 == 1,
            exit.1@ == self.help_text(),
    {
        (1, self.help())
    }
}

/// A write to the registered device failed, which means the kernel device is
/// gone. Retrying cannot fix it. Holds the system's words.
#[derive(Debug)]
pub struct PadGone(pub String);

impl PadGone {
    pub fn message(&self) -> (message: String)
        ensures
            message@ == "virtual gamepad write failed: "@ + self.0@,
    {
        let mut message = "virtual gamepad write failed: ".to_owned();
        message.append(self.0.as_str());
        message
    }
}

/// Announce the registered gamepad.
pub fn registered_line() -> (line: String)
    ensures
        line@ == "Registered virtual gamepad \""@ + DEVICE_NAME@ + "\" ("@ + hex4(VENDOR) + ":"@
            + hex4(PRODUCT) + " version "@ + hex4(VERSION) + ")."@,
{
    let mut line = "Registered virtual gamepad \"".to_owned();
    line.append(DEVICE_NAME);
    line.append("\" (");
    push_hex4(&mut line, VENDOR);
    line.append(":");
    push_hex4(&mut line, PRODUCT);
    line.append(" version ");
    push_hex4(&mut line, VERSION);
    line.append(").");
    line
}

/// The controls ascend by code, so no two are the same.
pub proof fn law_pad_keys_ascend(i: int, j: int)
    requires
        0 <= i < j < 11,
    ensures
        PAD_KEYS@[i] < PAD_KEYS@[j],
{
}

} // verus!
