//! The reconnect-forever loop of the dashboard: what each step of a link leads
//! to, and what the dashboard shows for it.

use vstd::prelude::*;

use crate::session::{
    is_auth_failure, search_leads_to, speaks_of_auth, InitAction, InitError, InitEvent, Selection,
};
use crate::view::state::{logged, AppState, AppView, ConnState, ConnView, EventSource};

verus! {

/// Why a step failed.
pub struct ViewError {
    /// The error in short, for display.
    pub reason: String,
    /// The error in full, for diagnosis.
    pub detail: String,
    /// The device on which the daemon refused to enable input streaming, if
    /// that is what happened.
    pub denied: Option<String>,
}

/// What has happened on the way to a link.
pub enum ViewEvent {
    /// Time to connect: at the start, and after each reconnect delay.
    Begin,
    /// The user asked to quit while something was awaited.
    Quit,
    /// Connected; the refreshed selection.
    Connected(Selection),
    ConnectFailed(ViewError),
    /// The session is open.
    Opened,
    OpenFailed(ViewError),
    /// The session ended without the user asking for it.
    LinkDropped,
    /// A scan for a remote in pairing mode ended. `reason` is why it was begun.
    Scanned { found: Result<Selection, InitError>, reason: String },
}

/// What to do on the way to a link.
pub enum ViewAction {
    Connect,
    OpenSession,
    RunSession,
    /// Scan for a remote in pairing mode; hand back the reason with the result.
    ScanForPairing { reason: String },
    /// Begin again at once.
    Restart,
    /// Wait for the reconnect delay, then begin again.
    Delay,
    /// End the program with this code.
    Exit(u8),
}

/// The state after a line of the system was logged.
pub open spec fn noted(state: AppView, text: Seq<char>, now: u64) -> AppView {
    logged(state, EventSource::System, text, now)
}

/// The state of a dashboard that will reconnect.
pub open spec fn reconnecting(state: AppView, reason: Seq<char>, now: u64) -> AppView {
    AppView { connection: ConnView::Reconnecting { reason, since: now }, ..state }
}

/// The state after the daemon refused to enable input streaming.
pub open spec fn refused(state: AppView, device_path: Seq<char>, now: u64) -> AppView {
    reconnecting(
        noted(
            state,
            "BlueZ refused HID input streaming on "@ + device_path
                + ". Start bluetoothd with --noplugin=input,hog."@,
            now,
        ),
        "hog plugin owns HID service"@,
        now,
    )
}

/// The state after a step.
pub open spec fn step_applied(state: AppView, event: ViewEvent, now: u64) -> AppView {
    match event {
        ViewEvent::Begin => noted(
            AppView { connection: ConnView::Connecting { since: now }, ..state },
            "connecting to "@ + state.selection.address,
            now,
        ),
        ViewEvent::Quit => state,
        ViewEvent::Connected(selection) => AppView { selection: selection@, ..state },
        ViewEvent::ConnectFailed(err) => if err.denied is Some {
            refused(state, err.denied->0@, now)
        } else if !state.selection.requires_pairing && speaks_of_auth(err.detail@) {
            noted(
                AppView { connection: ConnView::Pairing { since: now }, ..state },
                "auth failure; scanning for pairing-mode remote"@,
                now,
            )
        } else {
            reconnecting(
                noted(state, "connect failed: "@ + err.reason@, now),
                err.reason@,
                now,
            )
        },
        ViewEvent::Opened => noted(
            AppView { connection: ConnView::Connected { since: now }, ..state },
            "session opened"@,
            now,
        ),
        ViewEvent::OpenFailed(err) => if err.denied is Some {
            refused(state, err.denied->0@, now)
        } else {
            reconnecting(
                noted(state, "session open failed: "@ + err.reason@, now),
                err.reason@,
                now,
            )
        },
        ViewEvent::LinkDropped => reconnecting(
            noted(state, "link dropped; reconnecting"@, now),
            "link dropped"@,
            now,
        ),
        ViewEvent::Scanned { found, reason } => match found {
            Ok(selection) => AppView { selection: selection@, ..state },
            Err(_) => reconnecting(
                noted(state, "pairing-mode scan timed out"@, now),
                reason@,
                now,
            ),
        },
    }
}

/// Whether an action is the one that a step leads to.
pub open spec fn leads_to(state: AppView, event: ViewEvent, action: ViewAction) -> bool {
    match event {
        ViewEvent::Begin => action is Connect,
        ViewEvent::Quit => action == ViewAction::Exit(0),
        ViewEvent::Connected(_) => action is OpenSession,
        ViewEvent::ConnectFailed(err) => if err.denied is Some {
            action == ViewAction::Exit(1)
        } else if !state.selection.requires_pairing && speaks_of_auth(err.detail@) {
            action == (ViewAction::ScanForPairing { reason: err.reason })
        } else {
            action is Delay
        },
        ViewEvent::Opened => action is RunSession,
        ViewEvent::OpenFailed(err) => if err.denied is Some {
            action == ViewAction::Exit(1)
        } else {
            action is Delay
        },
        ViewEvent::LinkDropped => action is Delay,
        ViewEvent::Scanned { found, .. } => if found is Ok {
            action is Restart
        } else {
            action is Delay
        },
    }
}

fn show_refusal(state: &mut AppState, device_path: &str, now: u64)
    requires
        old(state).wf(),
    ensures
        final(state).wf(),
        final(state)@ == refused(old(state)@, device_path@, now),
{
    let mut text = "BlueZ refused HID input streaming on ".to_owned();
    text.append(device_path);
    text.append(". Start bluetoothd with --noplugin=input,hog.");
    state.push_log(EventSource::System, text, now);
    state.set_connection(
        ConnState::Reconnecting { reason: "hog plugin owns HID service".to_owned(), since: now },
    );
}

/// Take one step on the way to a link.
pub fn run_forever(state: &mut AppState, event: ViewEvent, now: u64) -> (action: ViewAction)
    requires
        old(state).wf(),
    ensures
        final(state).wf(),
        final(state)@ == step_applied(old(state)@, event, now),
        leads_to(old(state)@, event, action),
{
    match event {
        ViewEvent::Begin => {
            state.set_connection(ConnState::Connecting { since: now });
            let mut text = "connecting to ".to_owned();
            text.append(state.selection.address.as_str());
            state.push_log(EventSource::System, text, now);
            ViewAction::Connect
        },
        ViewEvent::Quit => ViewAction::Exit(0),
        ViewEvent::Connected(selection) => {
            state.selection = selection;
            ViewAction::OpenSession
        },
        ViewEvent::ConnectFailed(err) => {
            if let Some(path) = &err.denied {
                show_refusal(state, path.as_str(), now);
                return ViewAction::Exit(1);
            }
            if !state.selection.requires_pairing && is_auth_failure(err.detail.as_str()) {
                state.set_connection(ConnState::Pairing { since: now });
                state.push_log(
                    EventSource::System,
                    "auth failure; scanning for pairing-mode remote".to_owned(),
                    now,
                );
                return ViewAction::ScanForPairing { reason: err.reason };
            }
            let mut text = "connect failed: ".to_owned();
            text.append(err.reason.as_str());
            state.push_log(EventSource::System, text, now);
            state.set_connection(ConnState::Reconnecting { reason: err.reason, since: now });
            ViewAction::Delay
        },
        ViewEvent::Opened => {
            state.set_connection(ConnState::Connected { since: now });
            state.push_log(EventSource::System, "session opened".to_owned(), now);
            ViewAction::RunSession
        },
        ViewEvent::OpenFailed(err) => {
            if let Some(path) = &err.denied {
                show_refusal(state, path.as_str(), now);
                return ViewAction::Exit(1);
            }
            let mut text = "session open failed: ".to_owned();
            text.append(err.reason.as_str());
            state.push_log(EventSource::System, text, now);
            state.set_connection(ConnState::Reconnecting { reason: err.reason, since: now });
            ViewAction::Delay
        },
        ViewEvent::LinkDropped => {
            state.push_log(EventSource::System, "link dropped; reconnecting".to_owned(), now);
            state.set_connection(
                ConnState::Reconnecting { reason: "link dropped".to_owned(), since: now },
            );
            ViewAction::Delay
        },
        ViewEvent::Scanned { found, reason } => match found {
            Ok(selection) => {
                state.selection = selection;
                ViewAction::Restart
            },
            Err(_) => {
                state.push_log(EventSource::System, "pairing-mode scan timed out".to_owned(), now);
                state.set_connection(ConnState::Reconnecting { reason, since: now });
                ViewAction::Delay
            },
        },
    }
}

// -- Laws ---------------------------------------------------------------------

/// What the dashboard has learned of the remote survives a lost link: no step
/// touches battery, power, buttons or touch.
pub proof fn law_steps_keep_readings(state: AppView, event: ViewEvent, now: u64)
    ensures
        ({
            let after = step_applied(state, event, now);
            &&& after.battery == state.battery
            &&& after.power == state.power
            &&& after.buttons_mask == state.buttons_mask
            &&& after.button_afterglow == state.button_afterglow
            &&& after.touch_trail == state.touch_trail
            &&& after.last_touch == state.last_touch
            &&& after.calibration == state.calibration
        }),
{
}

/// Whichever remote the search ended with, a failed authentication on the way
/// to its link falls back to the discovery of one in pairing mode.
pub proof fn law_auth_failure_falls_back(
    event: InitEvent,
    chosen: InitAction,
    state: AppView,
    err: ViewError,
    action: ViewAction,
)
    requires
        search_leads_to(event, chosen),
        chosen is Use,
        state.selection == (chosen->selection)@,
        err.denied is None,
        speaks_of_auth(err.detail@),
        leads_to(state, ViewEvent::ConnectFailed(err), action),
    ensures
        action == (ViewAction::ScanForPairing { reason: err.reason }),
{
}

/// A remote that is being paired is not sent into another pairing scan.
pub proof fn law_no_scan_while_pairing(state: AppView, event: ViewEvent, action: ViewAction)
    requires
        state.selection.requires_pairing,
        leads_to(state, event, action),
    ensures
        !(action is ScanForPairing),
{
}

/// What each step shows: the connection it is in, and the line it logs last.
pub proof fn law_steps_are_shown(state: AppView, event: ViewEvent, now: u64)
    ensures
        ({
            let after = step_applied(state, event, now);
            match event {
                ViewEvent::Begin => {
                    &&& after.connection == (ConnView::Connecting { since: now })
                    &&& after.events.last().text == "connecting to "@ + state.selection.address
                    &&& after.selection == state.selection
                },
                ViewEvent::Quit => after == state,
                ViewEvent::Connected(s) => after == (AppView { selection: s@, ..state }),
                ViewEvent::Opened => {
                    &&& after.connection == (ConnView::Connected { since: now })
                    &&& after.events.last().text == "session opened"@
                    &&& after.selection == state.selection
                },
                ViewEvent::LinkDropped => {
                    &&& after.connection == (ConnView::Reconnecting {
                        reason: "link dropped"@,
                        since: now,
                    })
                    &&& after.events.last().text == "link dropped; reconnecting"@
                },
                ViewEvent::OpenFailed(err) => err.denied is None ==> {
                    &&& after.connection == (ConnView::Reconnecting {
                        reason: err.reason@,
                        since: now,
                    })
                    &&& after.events.last().text == "session open failed: "@ + err.reason@
                },
                ViewEvent::ConnectFailed(err) => err.denied is None ==> {
                    if !state.selection.requires_pairing && speaks_of_auth(err.detail@) {
                        &&& after.connection == (ConnView::Pairing { since: now })
                        &&& after.events.last().text
                            == "auth failure; scanning for pairing-mode remote"@
                    } else {
                        &&& after.connection == (ConnView::Reconnecting {
                            reason: err.reason@,
                            since: now,
                        })
                        &&& after.events.last().text == "connect failed: "@ + err.reason@
                    }
                },
                ViewEvent::Scanned { found: Ok(s), .. } => after == (AppView {
                    selection: s@,
                    ..state
                }),
                ViewEvent::Scanned { found: Err(_), reason } => {
                    &&& after.connection == (ConnView::Reconnecting { reason: reason@, since: now })
                    &&& after.events.last().text == "pairing-mode scan timed out"@
                },
            }
        }),
{
}

/// A refusal of the daemon ends the program with code 1 and says where; a user
/// who quits ends it with code 0; nothing else ends it.
pub proof fn law_what_ends_the_dashboard(
    state: AppView,
    event: ViewEvent,
    action: ViewAction,
    now: u64,
)
    requires
        leads_to(state, event, action),
    ensures
        ({
            let denied = match event {
                ViewEvent::ConnectFailed(err) => err.denied,
                ViewEvent::OpenFailed(err) => err.denied,
                _ => None,
            };
            &&& action is Exit <==> event is Quit || denied is Some
            &&& event is Quit ==> action == ViewAction::Exit(0)
            &&& denied matches Some(path) ==> {
                let after = step_applied(state, event, now);
                &&& action == ViewAction::Exit(1)
                &&& after.connection == (ConnView::Reconnecting {
                    reason: "hog plugin owns HID service"@,
                    since: now,
                })
                &&& after.events.last().text == "BlueZ refused HID input streaming on "@ + path@
                    + ". Start bluetoothd with --noplugin=input,hog."@
            }
        }),
{
}

/// The way to a link: connect, open, run; after a drop or a failure wait and
/// begin again; a remote found in pairing mode is tried at once.
pub proof fn law_way_to_a_link(state: AppView, event: ViewEvent, action: ViewAction)
    requires
        leads_to(state, event, action),
    ensures
        event is Begin ==> action is Connect,
        event is Connected ==> action is OpenSession,
        event is Opened ==> action is RunSession,
        event is LinkDropped ==> action is Delay,
        event matches ViewEvent::OpenFailed(err) ==> err.denied is None ==> action is Delay,
        event matches ViewEvent::ConnectFailed(err) ==> err.denied is None ==> (action
            is ScanForPairing <==> !state.selection.requires_pairing && speaks_of_auth(err.detail@))
            && (action is ScanForPairing || action is Delay),
        event matches ViewEvent::Scanned { found, .. } ==> (found is Ok ==> action is Restart) && (
        found is Err ==> action is Delay),
{
}

} // verus!
