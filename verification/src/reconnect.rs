//! The reconnect-forever loop of the streaming commands: what follows when a
//! link ends or never came up, and with which words.

use vstd::prelude::*;

use crate::gamepad::pad::PadGone;
use crate::session::{
    is_auth_failure, search_leads_to, speaks_of_auth, InitAction, InitError, InitEvent, Selection,
};
use crate::text::starts_with_seq;

verus! {

/// Why a link failed.
pub struct LinkError {
    /// The error in full, for diagnosis.
    pub detail: String,
    /// The device on which the daemon refused to enable input streaming, if
    /// that is what happened.
    pub denied: Option<String>,
    /// The virtual gamepad is gone, if that is what happened.
    pub pad_gone: Option<PadGone>,
}

/// How a link ended.
pub enum LinkOutcome {
    /// It was up and dropped; the selection to reconnect with.
    Disconnected(Selection),
    /// It failed.
    Failed(LinkError),
}

/// How much to say when the daemon refuses to enable input streaming.
#[derive(Clone, Copy, Debug, PartialEq, Eq, Structural)]
pub enum Help {
    Full,
    Brief,
}

/// What the loop does next.
pub enum LoopStep {
    /// Say this, wait for the reconnect delay and connect.
    Reconnect { selection: Selection, say: String },
    /// Connect at once.
    ConnectNow { selection: Selection },
    /// Scan for a remote in pairing mode.
    ScanForPairing { selection: Selection },
    /// Say this and end the program with this code.
    Exit { code: u8, say: String },
}

/// The words about a refusal to enable input streaming.
pub open spec fn denied_text(device_path: Seq<char>, help: Help) -> Seq<char> {
    "error: BlueZ refused to enable HID input streaming on "@ + device_path + (match help {
        Help::Brief => {
            ".\nStart bluetoothd with `--noplugin=input,hog` so the kernel HoG\nplugin releases the HID service; the existing bond is preserved."@
        },
        Help::Full => {
            ".\nEvery writable HID Report on the remote returned org.bluez.Error.NotAuthorized.\n\nThis happens when BlueZ's `hog` plugin (HID-over-GATT) has claimed the\nHID service so the kernel can expose it as a uinput device. While the\nplugin owns the service no other process is allowed to write to its\nReport characteristics, and the Siri Remote needs the 0xAF input-enable\nbyte written to a Feature report before it will stream events.\n\nFix: start bluetoothd without the `hog` (and `input`) plugin. Edit your\nbluetooth.service unit so ExecStart reads:\n\n    ExecStart=/usr/libexec/bluetooth/bluetoothd --noplugin=input,hog\n\n(the path is /usr/lib/bluetooth/bluetoothd on some distros), then\nrestart bluetoothd. The existing bond is preserved."@
        },
    })
}

fn denied_message(device_path: &str, help: Help) -> (message: String)
    ensures
        message@ == denied_text(device_path@, help),
{
    let mut message = "error: BlueZ refused to enable HID input streaming on ".to_owned();
    message.append(device_path);
    match help {
        Help::Brief => message.append(
            ".\nStart bluetoothd with `--noplugin=input,hog` so the kernel HoG\nplugin releases the HID service; the existing bond is preserved.",
        ),
        Help::Full => message.append(
            ".\nEvery writable HID Report on the remote returned org.bluez.Error.NotAuthorized.\n\nThis happens when BlueZ's `hog` plugin (HID-over-GATT) has claimed the\nHID service so the kernel can expose it as a uinput device. While the\nplugin owns the service no other process is allowed to write to its\nReport characteristics, and the Siri Remote needs the 0xAF input-enable\nbyte written to a Feature report before it will stream events.\n\nFix: start bluetoothd without the `hog` (and `input`) plugin. Edit your\nbluetooth.service unit so ExecStart reads:\n\n    ExecStart=/usr/libexec/bluetooth/bluetoothd --noplugin=input,hog\n\n(the path is /usr/lib/bluetooth/bluetoothd on some distros), then\nrestart bluetoothd. The existing bond is preserved.",
        ),
    }
    message
}

/// Whether a step is the one that follows a link.
pub open spec fn follows(
    selection: Selection,
    outcome: LinkOutcome,
    help: Help,
    step: LoopStep,
) -> bool {
    match outcome {
        LinkOutcome::Disconnected(new) => {
            &&& step matches LoopStep::Reconnect { selection: next, say }
            &&& next == new
            &&& say@ == "Disconnected from "@ + new.address@ + "; reconnecting automatically."@
        },
        LinkOutcome::Failed(err) => if err.pad_gone is Some {
            &&& step matches LoopStep::Exit { code, say }
            &&& code == 2
            &&& say@ == "error: "@ + ("virtual gamepad write failed: "@ + (err.pad_gone->0).0@)
        } else if err.denied is Some {
            &&& step matches LoopStep::Exit { code, say }
            &&& code == 1
            &&& say@ == denied_text(err.denied->0@, help)
        } else if !selection.requires_pairing && speaks_of_auth(err.detail@) {
            step == (LoopStep::ScanForPairing { selection })
        } else {
            &&& step matches LoopStep::Reconnect { selection: next, say }
            &&& next == selection
            &&& say@ == "Connection failed: "@ + err.detail@ + "; retrying."@
        },
    }
}

/// What follows a link: a drop is followed by a reconnect to the refreshed
/// selection. Of the failures, a gamepad that is gone and a refusal of the
/// daemon end the program; a failed authentication of a remote that was not
/// being paired leads to a scan for one in pairing mode; any other is retried.
pub fn after_link(selection: Selection, outcome: LinkOutcome, help: Help) -> (step: LoopStep)
    ensures
        follows(selection, outcome, help, step),
{
    match outcome {
        LinkOutcome::Disconnected(new) => {
            let mut say = "Disconnected from ".to_owned();
            say.append(new.address.as_str());
            say.append("; reconnecting automatically.");
            LoopStep::Reconnect { selection: new, say }
        },
        LinkOutcome::Failed(err) => {
            if let Some(gone) = &err.pad_gone {
                let mut say = "error: ".to_owned();
                say.append(gone.message().as_str());
                return LoopStep::Exit { code: 2, say };
            }
            if let Some(path) = &err.denied {
                return LoopStep::Exit { code: 1, say: denied_message(path.as_str(), help) };
            }
            if !selection.requires_pairing && is_auth_failure(err.detail.as_str()) {
                return LoopStep::ScanForPairing { selection };
            }
            let mut say = "Connection failed: ".to_owned();
            say.append(err.detail.as_str());
            say.append("; retrying.");
            LoopStep::Reconnect { selection, say }
        },
    }
}

/// What follows a scan for a remote in pairing mode: the remote is tried at
/// once, without the reconnect delay; without one the program ends.
pub fn after_pairing_scan(found: Result<Selection, InitError>) -> (step: LoopStep)
    ensures
        match found {
            Ok(s) => step == (LoopStep::ConnectNow { selection: s }),
            Err(InitError::Timeout) => {
                &&& step matches LoopStep::Exit { code, say }
                &&& code == 1
                &&& say@ == "Timed out scanning for a pairing-mode remote."@
            },
            Err(InitError::Invalid(msg)) => step == (LoopStep::Exit { code: 2, say: msg }),
        },
{
    match found {
        Ok(selection) => LoopStep::ConnectNow { selection },
        Err(InitError::Timeout) => LoopStep::Exit {
            code: 1,
            say: "Timed out scanning for a pairing-mode remote.".to_owned(),
        },
        Err(InitError::Invalid(msg)) => LoopStep::Exit { code: 2, say: msg },
    }
}

/// How the program ends when no remote could be selected: the code and the
/// words.
pub fn init_failure(err: InitError) -> (exit: (u8, String))
    ensures
        match err {
            InitError::Invalid(msg) => exit == (2u8, msg),
            InitError::Timeout => {
                &&& exit.0 == 1
                &&& exit.1@
                    == "Timed out waiting for a Siri Remote. If it is unpaired, hold MENU + Volume Up for pairing mode and keep it close to this host."@
            },
        },
{
    match err {
        InitError::Invalid(msg) => (2, msg),
        InitError::Timeout => (
            1,
            "Timed out waiting for a Siri Remote. If it is unpaired, hold MENU + Volume Up for pairing mode and keep it close to this host.".to_owned(),
        ),
    }
}

// -- Laws ---------------------------------------------------------------------

/// Whichever remote the search ended with, a failed authentication on it falls
/// back to the discovery of one in pairing mode.
pub proof fn law_auth_failure_falls_back(
    event: InitEvent,
    action: InitAction,
    err: LinkError,
    help: Help,
    step: LoopStep,
)
    requires
        search_leads_to(event, action),
        action is Use,
        err.pad_gone is None,
        err.denied is None,
        speaks_of_auth(err.detail@),
        follows(action->selection, LinkOutcome::Failed(err), help, step),
    ensures
        step == (LoopStep::ScanForPairing { selection: action->selection }),
{
}

/// What follows each way in which a link ends: a drop reconnects to the new
/// selection; of the failures a lost gamepad ends the program with code 2 and a
/// refusal with code 1, and any that is not one of authentication is retried
/// with the same selection.
pub proof fn law_link_endings(
    selection: Selection,
    outcome: LinkOutcome,
    help: Help,
    step: LoopStep,
)
    requires
        follows(selection, outcome, help, step),
    ensures
        match outcome {
            LinkOutcome::Disconnected(new) => step matches LoopStep::Reconnect {
                selection: next,
                say,
            } && next == new && say@ == "Disconnected from "@ + new.address@
                + "; reconnecting automatically."@,
            LinkOutcome::Failed(err) => {
                &&& err.pad_gone matches Some(gone) ==> (step matches LoopStep::Exit { code, say }
                    && code == 2 && say@ == "error: "@ + ("virtual gamepad write failed: "@
                    + gone.0@))
                &&& err.pad_gone is None && err.denied is Some ==> (step matches LoopStep::Exit {
                    code,
                    say,
                } && code == 1 && say@ == denied_text(err.denied->0@, help))
                &&& err.pad_gone is None && err.denied is None && (selection.requires_pairing
                    || !speaks_of_auth(err.detail@)) ==> (step matches LoopStep::Reconnect {
                    selection: next,
                    say,
                } && next == selection && say@ == "Connection failed: "@ + err.detail@
                    + "; retrying."@)
                &&& step is ScanForPairing ==> !selection.requires_pairing && speaks_of_auth(
                    err.detail@,
                )
            },
        },
{
}

/// The words about a refusal name the device and the way out.
pub proof fn law_refusal_names_the_device(device_path: Seq<char>, help: Help)
    ensures
        starts_with_seq(
            denied_text(device_path, help),
            "error: BlueZ refused to enable HID input streaming on "@ + device_path,
        ),
{
    let head = "error: BlueZ refused to enable HID input streaming on "@ + device_path;
    assert(denied_text(device_path, help).take(head.len() as int) =~= head);
}

} // verus!
