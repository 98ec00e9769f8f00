//! Selecting a remote, connecting to it, and the typed event stream.
//!
//! What needs a radio or a bus is left to the caller: each decision here takes
//! what the outside world answered and says what to do next.

use vstd::prelude::*;

use crate::bluez::device::{shown_name as remote_name, RemoteDevice};
use crate::bluez::hid::{
    HidSession, ReportChar, REPORT_TYPE_FEATURE, REPORT_TYPE_INPUT, REPORT_TYPE_OUTPUT,
};
use crate::decoder::{
    button_mask, is_touch_report, law_touch_report_layout, le16, mask_after, power_state_text,
    pressed_between, released_between, touch_of, word_le, InputDecoder, TouchDecoder, TouchEvent,
};
use crate::hid::{
    is_notifiable, notifiable, uuid_form, uuid_text, Characteristic, BATTERY_LEVEL_UUID,
    BATTERY_POWER_UUID, HID_REPORT_UUID,
};
use crate::scan::{identity_in, shown_name, Candidate, ScanError};
use crate::text::{
    ascii_upper, chars_of, contains_seq, contains_text, debug_quoted, debug_text, dec,
    dec_signed, hex2_upper, join, join_text, push_dec, push_dec_signed, push_hex2_upper, same_text,
    strip_spaces, texts, trim_text, trimmed, uppercased, lowercased, without_spaces,
};

verus! {

/// Fragments that mark an error as an authentication failure.
pub const AUTH_FAILURE_MARKERS: [&'static str; 6] = [
    "auth",
    "encrypt",
    "not authorized",
    "not permitted",
    "insufficient authentication",
    "authenticationfailed",
];

/// How long to look for a peripheral by address, in nanoseconds.
pub const ADDRESS_RESOLVE_TIMEOUT: u64 = 10_000_000_000;

/// How long to wait between two looks for a peripheral, in nanoseconds.
pub const ADDRESS_RESOLVE_PAUSE: u64 = 250_000_000;

/// How long a direct connection may take, in nanoseconds.
pub const DIRECT_CONNECT_TIMEOUT: u64 = 60_000_000_000;

/// How long a connection with pairing may take, in nanoseconds.
pub const PAIRED_CONNECT_TIMEOUT: u64 = 60_000_000_000;

/// Magic byte the Siri Remote needs on any HID Output report before it
/// starts emitting input notifications.
pub const INPUT_ENABLE_BYTE: u8 = 0xAF;

// -- Selection ----------------------------------------------------------------

/// The remote to connect to. A peripheral is known by a number under which its
/// owner finds it again.
#[derive(Clone, Debug)]
pub struct Selection {
    pub address: String,
    pub name: String,
    pub peripheral_id: Option<u64>,
    pub identity_address: Option<String>,
    pub requires_pairing: bool,
    pub rssi: Option<i16>,
}

/// What a [`Selection`] says.
pub struct SelectionView {
    pub address: Seq<char>,
    pub name: Seq<char>,
    pub peripheral_id: Option<u64>,
    pub identity_address: Option<Seq<char>>,
    pub requires_pairing: bool,
    pub rssi: Option<i16>,
}

impl View for Selection {
    type V = SelectionView;

    open spec fn view(&self) -> SelectionView {
        SelectionView {
            address: self.address@,
            name: self.name@,
            peripheral_id: self.peripheral_id,
            identity_address: match self.identity_address {
                Some(i) => Some(i@),
                None => None,
            },
            requires_pairing: self.requires_pairing,
            rssi: self.rssi,
        }
    }
}

/// Why no remote could be selected.
#[derive(Debug)]
pub enum InitError {
    Invalid(String),
    Timeout,
}

/// Whether `c` is a hexadecimal digit.
pub open spec fn is_hex_digit(c: char) -> bool {
    '0' <= c <= '9' || 'a' <= c <= 'f' || 'A' <= c <= 'F'
}

/// Whether a text is six pairs of hexadecimal digits with colons between them.
pub open spec fn is_address(t: Seq<char>) -> bool {
    &&& t.len() == 17
    &&& forall|i: int|
        0 <= i < 17 ==> if i % 3 == 2 {
            #[trigger] t[i] == ':'
        } else {
            is_hex_digit(t[i])
        }
}

fn address_shaped(t: &Vec<char>) -> (r: bool)
    ensures
        r == is_address(t@),
{
    if t.len() != 17 {
        return false;
    }
    let mut i: usize = 0;
    while i < 17
        invariant
            i <= 17,
            t.len() == 17,
            forall|j: int|
                0 <= j < i ==> if j % 3 == 2 {
                    #[trigger] t@[j] == ':'
                } else {
                    is_hex_digit(t@[j])
                },
        decreases 17 - i,
    {
        let c: char = t[i];
        let fits = if i % 3 == 2 {
            c == ':'
        } else {
            ('0' <= c && c <= '9') || ('a' <= c && c <= 'f') || ('A' <= c && c <= 'F')
        };
        if !fits {
            assert(t@[i as int] == c);
            return false;
        }
        i = i + 1;
    }
    true
}

/// Whether a text is an address without lowercase letters.
pub open spec fn is_canonical(t: Seq<char>) -> bool {
    is_address(t) && forall|i: int| 0 <= i < 17 ==> !('a' <= #[trigger] t[i] <= 'z')
}

/// What comes of bringing a text into the canonical form of an address.
pub open spec fn is_normalized(addr: Seq<char>, address: Result<String, String>) -> bool {
    &&& match address {
        Ok(t) => t@ == uppercased(trimmed(addr)) && is_canonical(t@),
        Err(message) => {
            &&& !is_address(uppercased(trimmed(addr)))
            &&& message@ == "invalid Bluetooth address: "@ + debug_quoted(addr)
        },
    }
    // The letters of an address are raised.
    &&& is_address(trimmed(addr)) ==> address is Ok && address->Ok_0@ == trimmed(addr).map_values(
        |c: char| ascii_upper(c),
    )
    // An address in canonical form stays as it is.
    &&& is_canonical(addr) ==> address is Ok && address->Ok_0@ == addr
}

/// Bring a Bluetooth address into its canonical form: without white space
/// around it and in upper case. Anything but six colon-separated pairs of
/// hexadecimal digits is an error.
pub fn normalize_address(addr: &str) -> (address: Result<String, String>)
    ensures
        is_normalized(addr@, address),
{
    let bare = trim_text(addr);
    let t = bare.as_str().to_uppercase();
    proof {
        if is_address(addr@) {
            assert(is_hex_digit(addr@[0]) && is_hex_digit(addr@[16]));
            assert(bare@ == addr@);
        }
        if is_address(bare@) {
            assert forall|i: int| 0 <= i < bare@.len() implies (#[trigger] bare@[i] as nat)
                < 128 by {
                assert(bare@[i] == ':' || is_hex_digit(bare@[i]));
            }
            let raised = bare@.map_values(|c: char| ascii_upper(c));
            assert(t@ == raised);
            assert forall|i: int| 0 <= i < 17 implies if i % 3 == 2 {
                #[trigger] t@[i] == ':'
            } else {
                is_hex_digit(t@[i])
            } by {
                assert(t@[i] == ascii_upper(bare@[i]));
                assert(if i % 3 == 2 {
                    bare@[i] == ':'
                } else {
                    is_hex_digit(bare@[i])
                });
            }
            if forall|i: int| 0 <= i < 17 ==> !('a' <= #[trigger] bare@[i] <= 'z') {
                assert(raised =~= bare@);
            }
        }
    }
    if !address_shaped(&chars_of(t.as_str())) {
        let mut message = "invalid Bluetooth address: ".to_owned();
        message.append(debug_text(addr).as_str());
        return Err(message);
    }
    Ok(t)
}

/// The selection of an address that the user asked for.
pub open spec fn requested(address: Seq<char>) -> SelectionView {
    SelectionView {
        address,
        name: "requested address"@,
        peripheral_id: None,
        identity_address: Some(address),
        requires_pairing: false,
        rssi: None,
    }
}

/// The selection of a bonded remote.
pub open spec fn bonded(remote: RemoteDevice) -> SelectionView {
    SelectionView {
        address: remote.address@,
        name: remote_name(remote@),
        peripheral_id: None,
        identity_address: Some(remote.address@),
        requires_pairing: false,
        rssi: None,
    }
}

/// The selection of a remote that a scan found in pairing mode.
pub open spec fn scanned(candidate: Candidate) -> SelectionView {
    SelectionView {
        address: candidate.last_address@,
        name: shown_name(candidate.last_name, candidate.identity_address@),
        peripheral_id: Some(candidate.peripheral_id),
        identity_address: Some(candidate.identity_address@),
        requires_pairing: true,
        rssi: Some(candidate.last_rssi),
    }
}

/// The selection of the nearest advertising remote: it is connected directly,
/// as it may be bonded.
pub open spec fn nearest(candidate: Candidate) -> SelectionView {
    SelectionView { requires_pairing: false, ..scanned(candidate) }
}

/// Whether `c` is the position of the bonded remote to use: the first with a
/// live connection if there is any, else the first.
pub open spec fn is_preferred(remotes: Seq<RemoteDevice>, c: int) -> bool {
    if exists|i: int| 0 <= i < remotes.len() && (#[trigger] remotes[i]).connected {
        &&& remotes[c].connected
        &&& forall|j: int| 0 <= j < c ==> !(#[trigger] remotes[j]).connected
    } else {
        c == 0
    }
}

/// Pick among bonded remotes.
pub fn choose_bonded(remotes: &Vec<RemoteDevice>) -> (chosen: Option<usize>)
    ensures
        chosen is None <==> remotes@.len() == 0,
        chosen matches Some(c) ==> c < remotes@.len() && is_preferred(remotes@, c as int),
{
    if remotes.len() == 0 {
        return None;
    }
    let mut i: usize = 0;
    while i < remotes.len()
        invariant
            i <= remotes.len(),
            forall|j: int| 0 <= j < i ==> !(#[trigger] remotes@[j]).connected,
        decreases remotes.len() - i,
    {
        if remotes[i].connected {
            return Some(i);
        }
        i = i + 1;
    }
    Some(0)
}

fn requested_selection(address: String) -> (selection: Selection)
    ensures
        selection@ == requested(address@),
{
    Selection {
        address: address.clone(),
        name: "requested address".to_owned(),
        peripheral_id: None,
        identity_address: Some(address),
        requires_pairing: false,
        rssi: None,
    }
}

fn bonded_selection(remote: &RemoteDevice) -> (selection: Selection)
    ensures
        selection@ == bonded(*remote),
{
    Selection {
        address: remote.address.clone(),
        name: remote.display_name(),
        peripheral_id: None,
        identity_address: Some(remote.address.clone()),
        requires_pairing: false,
        rssi: None,
    }
}

/// The selection of a remote that a scan found in pairing mode.
pub fn candidate_selection(candidate: Candidate) -> (selection: Selection)
    ensures
        selection@ == scanned(candidate),
{
    let name = match candidate.last_name {
        Some(name) => name,
        None => candidate.identity_address.clone(),
    };
    Selection {
        address: candidate.last_address,
        name,
        peripheral_id: Some(candidate.peripheral_id),
        identity_address: Some(candidate.identity_address),
        requires_pairing: true,
        rssi: Some(candidate.last_rssi),
    }
}

fn nearest_selection(candidate: Candidate) -> (selection: Selection)
    ensures
        selection@ == nearest(candidate),
{
    let mut selection = candidate_selection(candidate);
    selection.requires_pairing = false;
    selection
}

/// What the search for a remote has come to.
pub enum InitEvent {
    /// The search begins, with the address that the user gave, if any.
    Begin(Option<String>),
    /// The result of a scan for the nearest advertising remote.
    Scanned(Result<Candidate, ScanError>),
    /// The bonded Siri Remotes; none also where they could not be listed.
    Bonded(Vec<RemoteDevice>),
}

/// What the search for a remote does next.
pub enum InitAction {
    /// Scan for the nearest advertising remote.
    Scan,
    /// List the bonded remotes.
    ListBonded,
    /// Use this remote, for the given reason.
    Use { selection: Selection, reason: String },
    /// Give up.
    Fail(InitError),
}

/// Whether an action is the one that the search for a remote leads to.
pub open spec fn search_leads_to(event: InitEvent, action: InitAction) -> bool {
    match event {
        InitEvent::Begin(Some(addr)) => if is_address(uppercased(trimmed(addr@))) {
            &&& action matches InitAction::Use { selection, reason }
            &&& selection@ == requested(uppercased(trimmed(addr@)))
            &&& reason@ == "requested address; connecting directly"@
        } else {
            &&& action matches InitAction::Fail(InitError::Invalid(message))
            &&& message@ == "invalid Bluetooth address: "@ + debug_quoted(addr@)
        },
        InitEvent::Begin(None) => action is Scan,
        InitEvent::Scanned(Ok(candidate)) => {
            &&& action matches InitAction::Use { selection, reason }
            &&& selection@ == nearest(candidate)
            &&& reason@ == "nearest advertising remote"@
        },
        InitEvent::Scanned(Err(ScanError::Timeout)) => action is ListBonded,
        InitEvent::Scanned(Err(ScanError::Other(e))) => action == InitAction::Fail(
            InitError::Invalid(e),
        ),
        InitEvent::Bonded(remotes) => if remotes@.len() == 0 {
            action == InitAction::Fail(InitError::Timeout)
        } else {
            &&& action matches InitAction::Use { selection, reason }
            &&& exists|c: int|
                #![trigger remotes@[c]]
                {
                    &&& 0 <= c < remotes@.len()
                    &&& is_preferred(remotes@, c)
                    &&& selection@ == bonded(remotes@[c])
                    &&& reason@ == if remotes@[c].connected {
                        "bonded and currently connected"@
                    } else {
                        "bonded (will reconnect)"@
                    }
                }
        },
    }
}

/// Search for a remote: a requested address is taken as it is, without a scan;
/// otherwise the nearest advertising remote is used; where none advertises, a
/// bonded remote, the connected one first.
pub fn choose_initial_selection(event: InitEvent) -> (action: InitAction)
    ensures
        search_leads_to(event, action),
{
    match event {
        InitEvent::Begin(Some(addr)) => match normalize_address(addr.as_str()) {
            Ok(address) => InitAction::Use {
                selection: requested_selection(address),
                reason: "requested address; connecting directly".to_owned(),
            },
            Err(message) => InitAction::Fail(InitError::Invalid(message)),
        },
        InitEvent::Begin(None) => InitAction::Scan,
        InitEvent::Scanned(Ok(candidate)) => InitAction::Use {
            selection: nearest_selection(candidate),
            reason: "nearest advertising remote".to_owned(),
        },
        InitEvent::Scanned(Err(ScanError::Timeout)) => InitAction::ListBonded,
        InitEvent::Scanned(Err(ScanError::Other(e))) => InitAction::Fail(InitError::Invalid(e)),
        InitEvent::Bonded(remotes) => match choose_bonded(&remotes) {
            Some(c) => {
                let chosen = &remotes[c];
                assert(is_preferred(remotes@, c as int));
                InitAction::Use {
                    selection: bonded_selection(chosen),
                    reason: (if chosen.connected {
                        "bonded and currently connected"
                    } else {
                        "bonded (will reconnect)"
                    }).to_owned(),
                }
            },
            None => InitAction::Fail(InitError::Timeout),
        },
    }
}

/// What the scan after a failed authentication came to: the remote it found,
/// or a timeout.
pub fn switch_to_pairing_scan(found: Option<Candidate>) -> (selection: Result<
    Selection,
    InitError,
>)
    ensures
        match found {
            Some(candidate) => selection is Ok && selection->Ok_0@ == scanned(candidate),
            None => selection == Err::<Selection, InitError>(InitError::Timeout),
        },
{
    match found {
        Some(candidate) => Ok(candidate_selection(candidate)),
        None => Err(InitError::Timeout),
    }
}

// -- Announcements ------------------------------------------------------------

/// A flag as text.
pub open spec fn flag_text(flag: bool) -> Seq<char> {
    if flag {
        "true"@
    } else {
        "false"@
    }
}

fn push_flag(out: &mut String, flag: bool)
    ensures
        final(out)@ == old(out)@ + flag_text(flag),
{
    if flag {
        out.append("true");
    } else {
        out.append("false");
    }
}

/// The announcement of a selection.
pub open spec fn selected_text(selection: SelectionView, reason: Seq<char>) -> Seq<char> {
    "Selected "@ + debug_quoted(selection.name) + " address="@ + selection.address + (
    match selection.identity_address {
        Some(i) => " identity="@ + i,
        None => seq![],
    }) + (match selection.rssi {
        Some(r) => " rssi="@ + dec_signed(r as int),
        None => seq![],
    }) + " ("@ + reason + ")."@
}

/// Announce a selection.
pub fn print_selected(selection: &Selection, reason: &str) -> (line: String)
    ensures
        line@ == selected_text(selection@, reason@),
{
    let mut line = "Selected ".to_owned();
    line.append(debug_text(selection.name.as_str()).as_str());
    line.append(" address=");
    line.append(selection.address.as_str());
    let ghost head = line@;
    if let Some(identity) = &selection.identity_address {
        line.append(" identity=");
        line.append(identity.as_str());
    }
    assert(line@ =~= head + (match selection@.identity_address {
        Some(i) => " identity="@ + i,
        None => seq![],
    }));
    let ghost head = line@;
    if let Some(rssi) = selection.rssi {
        line.append(" rssi=");
        push_dec_signed(&mut line, rssi as i64);
    }
    assert(line@ =~= head + (match selection@.rssi {
        Some(r) => " rssi="@ + dec_signed(r as int),
        None => seq![],
    }));
    line.append(" (");
    line.append(reason);
    line.append(").");
    line
}

/// The line of one bonded remote in the list of several.
pub open spec fn bonded_row(remote: RemoteDevice, chosen: RemoteDevice) -> Seq<char> {
    "  "@ + (if remote.address@ == chosen.address@ {
        "*"@
    } else {
        " "@
    }) + " address="@ + remote.address@ + " name="@ + debug_quoted(remote.name@) + " connected="@
        + flag_text(remote.connected) + " bonded="@ + flag_text(remote.bonded)
}

/// Say which of several bonded remotes is taken: a heading, then one line per
/// remote. A single remote needs no words.
pub fn bonded_lines(remotes: &Vec<RemoteDevice>, chosen: usize) -> (lines: Vec<String>)
    requires
        chosen < remotes@.len(),
    ensures
        if remotes@.len() > 1 {
            &&& lines@.len() == remotes@.len() + 1
            &&& lines@[0]@ == dec(remotes@.len()) + " bonded Siri Remote(s) found; picking "@
                + remote_name(remotes@[chosen as int]@) + " ("@ + remotes@[chosen as int].address@
                + "). Pass --address to override."@
            &&& forall|i: int|
                0 <= i < remotes@.len() ==> (#[trigger] lines@[i + 1])@ == bonded_row(
                    remotes@[i],
                    remotes@[chosen as int],
                )
        } else {
            lines@.len() == 0
        },
{
    let mut lines: Vec<String> = Vec::new();
    if remotes.len() <= 1 {
        return lines;
    }
    let pick = &remotes[chosen];
    let mut head = String::new();
    push_dec(&mut head, remotes.len() as u64);
    head.append(" bonded Siri Remote(s) found; picking ");
    head.append(pick.display_name().as_str());
    head.append(" (");
    head.append(pick.address.as_str());
    head.append("). Pass --address to override.");
    let ghost heading = head@;
    assert(heading =~= dec(remotes@.len()) + " bonded Siri Remote(s) found; picking "@
        + remote_name(pick@) + " ("@ + pick.address@ + "). Pass --address to override."@);
    lines.push(head);
    let mut i: usize = 0;
    while i < remotes.len()
        invariant
            i <= remotes.len(),
            *pick == remotes@[chosen as int],
            lines@.len() == i + 1,
            lines@[0]@ == heading,
            forall|j: int|
                0 <= j < i ==> (#[trigger] lines@[j + 1])@ == bonded_row(remotes@[j], *pick),
        decreases remotes.len() - i,
    {
        let remote = &remotes[i];
        let mut line = "  ".to_owned();
        if same_text(remote.address.as_str(), pick.address.as_str()) {
            line.append("*");
        } else {
            line.append(" ");
        }
        line.append(" address=");
        line.append(remote.address.as_str());
        line.append(" name=");
        line.append(debug_text(remote.name.as_str()).as_str());
        line.append(" connected=");
        push_flag(&mut line, remote.connected);
        line.append(" bonded=");
        push_flag(&mut line, remote.bonded);
        let ghost row = line@;
        assert(row =~= bonded_row(*remote, *pick));
        let ghost before = lines@;
        lines.push(line);
        assert forall|j: int| 0 <= j < i + 1 implies (#[trigger] lines@[j + 1])@ == bonded_row(
            remotes@[j],
            *pick,
        ) by {
            if j < i {
                assert(lines@[j + 1] == before[j + 1]);
            }
        }
        i = i + 1;
    }
    lines
}

// -- Connect ------------------------------------------------------------------

/// Whether `found` is the position of the first of the addresses that is the
/// selected one, whatever the case.
pub open spec fn is_first_match(
    addresses: Seq<String>,
    address: Seq<char>,
    found: Option<usize>,
) -> bool {
    match found {
        Some(i) => {
            &&& i < addresses.len()
            &&& uppercased(addresses[i as int]@) == uppercased(address)
            &&& forall|j: int|
                0 <= j < i ==> uppercased((#[trigger] addresses[j])@) != uppercased(address)
        },
        None => forall|j: int|
            0 <= j < addresses.len() ==> uppercased((#[trigger] addresses[j])@) != uppercased(
                address,
            ),
    }
}

/// Position of the first peripheral with the selected address, whatever the
/// case.
pub fn find_peripheral(addresses: &Vec<String>, selection: &Selection) -> (found: Option<usize>)
    ensures
        is_first_match(addresses@, selection.address@, found),
{
    let needle = selection.address.as_str().to_uppercase();
    let mut i: usize = 0;
    while i < addresses.len()
        invariant
            i <= addresses.len(),
            needle@ == uppercased(selection.address@),
            forall|j: int| 0 <= j < i ==> uppercased((#[trigger] addresses@[j])@) != needle@,
        decreases addresses.len() - i,
    {
        if same_text(addresses[i].as_str().to_uppercase().as_str(), needle.as_str()) {
            return Some(i);
        }
        i = i + 1;
    }
    None
}

/// Why a peripheral could not be found in time: the last error met on the way,
/// or the plain fact.
pub open spec fn unresolved_text(address: Seq<char>, last_error: Option<String>) -> Seq<char> {
    match last_error {
        Some(e) => e@,
        None => "could not find peripheral with address "@ + address + " within 10s"@,
    }
}

/// Say why a peripheral could not be found in time.
pub fn unresolved(selection: &Selection, last_error: Option<String>) -> (message: String)
    ensures
        message@ == unresolved_text(selection.address@, last_error),
{
    match last_error {
        Some(e) => e,
        None => {
            let mut message = "could not find peripheral with address ".to_owned();
            message.append(selection.address.as_str());
            message.append(" within 10s");
            message
        },
    }
}

/// What has happened in the search for a peripheral by address.
pub enum ResolveEvent {
    /// The time for a look has come: at the start, and after each pause.
    Due,
    /// A look gave these addresses, or an error.
    Seen(Result<Vec<String>, String>),
}

/// What the search for a peripheral does next. `last_error` is to be handed
/// back with the next event.
pub enum ResolveStep {
    /// Look which peripherals there are.
    Look { last_error: Option<String> },
    /// The peripheral at this position of the look is the one.
    Found(usize),
    /// Wait this long, then look again.
    Pause { wait: u64, last_error: Option<String> },
    Fail(String),
}

/// Search for a peripheral by address: look again and again, with a pause after
/// each look, as long as the time since `start` is under
/// [`ADDRESS_RESOLVE_TIMEOUT`].
pub fn resolve_step(
    selection: &Selection,
    event: ResolveEvent,
    last_error: Option<String>,
    start: u64,
    now: u64,
) -> (step: ResolveStep)
    ensures
        match event {
            ResolveEvent::Due => if now - start >= ADDRESS_RESOLVE_TIMEOUT {
                &&& step matches ResolveStep::Fail(message)
                &&& message@ == unresolved_text(selection.address@, last_error)
            } else {
                step == (ResolveStep::Look { last_error })
            },
            ResolveEvent::Seen(Ok(addresses)) => match step {
                ResolveStep::Found(i) => is_first_match(
                    addresses@,
                    selection.address@,
                    Some(i),
                ),
                _ => {
                    &&& is_first_match(addresses@, selection.address@, None)
                    &&& step == (ResolveStep::Pause { wait: ADDRESS_RESOLVE_PAUSE, last_error })
                },
            },
            ResolveEvent::Seen(Err(e)) => step == (ResolveStep::Pause {
                wait: ADDRESS_RESOLVE_PAUSE,
                last_error: Some(e),
            }),
        },
{
    match event {
        ResolveEvent::Due => {
            if now > start && now - start >= ADDRESS_RESOLVE_TIMEOUT {
                ResolveStep::Fail(unresolved(selection, last_error))
            } else {
                ResolveStep::Look { last_error }
            }
        },
        ResolveEvent::Seen(Ok(addresses)) => match find_peripheral(&addresses, selection) {
            Some(i) => ResolveStep::Found(i),
            None => ResolveStep::Pause { wait: ADDRESS_RESOLVE_PAUSE, last_error },
        },
        ResolveEvent::Seen(Err(e)) => ResolveStep::Pause {
            wait: ADDRESS_RESOLVE_PAUSE,
            last_error: Some(e),
        },
    }
}

/// How an attempt to connect ended.
pub enum Attempt {
    Connected,
    Failed(String),
    TimedOut,
}

/// What has happened on the way to a connection.
pub enum ConnectEvent {
    /// The peripheral has been found.
    Resolved,
    /// A direct attempt ended.
    Direct(Attempt),
    /// An attempt with pairing ended.
    Paired(Attempt),
}

/// What to do on the way to a connection.
pub enum ConnectAction {
    ConnectDirectly,
    ConnectWithPairing,
    DiscoverServices,
    Fail(String),
}

/// The way to a connection: directly, or with pairing where the remote needs it
/// or where the direct attempt timed out (which uses an existing bond if there
/// is one).
pub fn connect_step(selection: &Selection, event: ConnectEvent) -> (action: ConnectAction)
    ensures
        match event {
            ConnectEvent::Resolved => action == if selection.requires_pairing {
                ConnectAction::ConnectWithPairing
            } else {
                ConnectAction::ConnectDirectly
            },
            ConnectEvent::Direct(Attempt::Connected) => action is DiscoverServices,
            ConnectEvent::Paired(Attempt::Connected) => action is DiscoverServices,
            ConnectEvent::Direct(Attempt::Failed(e)) => action == ConnectAction::Fail(e),
            ConnectEvent::Paired(Attempt::Failed(e)) => action == ConnectAction::Fail(e),
            ConnectEvent::Direct(Attempt::TimedOut) => action is ConnectWithPairing,
            ConnectEvent::Paired(Attempt::TimedOut) => {
                &&& action matches ConnectAction::Fail(message)
                &&& message@ == "paired connect timed out"@
            },
        },
{
    match event {
        ConnectEvent::Resolved => {
            if selection.requires_pairing {
                ConnectAction::ConnectWithPairing
            } else {
                ConnectAction::ConnectDirectly
            }
        },
        ConnectEvent::Direct(Attempt::Connected) => ConnectAction::DiscoverServices,
        ConnectEvent::Paired(Attempt::Connected) => ConnectAction::DiscoverServices,
        ConnectEvent::Direct(Attempt::Failed(e)) => ConnectAction::Fail(e),
        ConnectEvent::Paired(Attempt::Failed(e)) => ConnectAction::Fail(e),
        ConnectEvent::Direct(Attempt::TimedOut) => ConnectAction::ConnectWithPairing,
        ConnectEvent::Paired(Attempt::TimedOut) => ConnectAction::Fail(
            "paired connect timed out".to_owned(),
        ),
    }
}

/// The address under which a selected remote is known to stay reachable: its
/// identity address where it has one.
pub open spec fn lasting_address(selection: SelectionView) -> Seq<char> {
    match selection.identity_address {
        Some(i) => i,
        None => selection.address,
    }
}

/// The address under which a selected remote is known to stay reachable.
pub fn resolve_address(selection: &Selection) -> (address: String)
    ensures
        address@ == lasting_address(selection@),
{
    match &selection.identity_address {
        Some(i) => i.clone(),
        None => selection.address.clone(),
    }
}

/// The selection after a connection was made: pinned to the peripheral and the
/// lasting address, and with no further need of pairing.
pub fn refreshed(selection: &Selection, peripheral_id: u64) -> (after: Selection)
    ensures
        after@ == (SelectionView {
            address: lasting_address(selection@),
            name: selection@.name,
            peripheral_id: Some(peripheral_id),
            identity_address: selection@.identity_address,
            requires_pairing: false,
            rssi: None,
        }),
{
    Selection {
        address: resolve_address(selection),
        name: selection.name.clone(),
        peripheral_id: Some(peripheral_id),
        identity_address: match &selection.identity_address {
            Some(i) => Some(i.clone()),
            None => None,
        },
        requires_pairing: false,
        rssi: None,
    }
}

// -- Notifications ------------------------------------------------------------

/// What to do about the notifications of an optional characteristic.
pub enum NotifyPlan {
    /// There is no such characteristic.
    Absent,
    /// It cannot notify; the warning to give.
    Unable(String),
    /// Subscribe; the line to print once that has worked.
    Subscribe(String),
}

/// Decide about the notifications of an optional characteristic.
pub fn notify_plan(characteristic: Option<Characteristic>, source: &str) -> (plan: NotifyPlan)
    ensures
        match characteristic {
            None => plan is Absent,
            Some(c) => if is_notifiable(c.properties) {
                &&& plan matches NotifyPlan::Subscribe(line)
                &&& line@ == "Enabled "@ + source@ + " notifications on "@ + uuid_form(c.uuid)
                    + "."@
            } else {
                &&& plan matches NotifyPlan::Unable(line)
                &&& line@ == "warning: "@ + source@ + " characteristic "@ + uuid_form(c.uuid)
                    + " is not notifiable"@
            },
        },
{
    match characteristic {
        None => NotifyPlan::Absent,
        Some(c) => {
            if notifiable(c.properties) {
                let mut line = "Enabled ".to_owned();
                line.append(source);
                line.append(" notifications on ");
                line.append(uuid_text(c.uuid).as_str());
                line.append(".");
                NotifyPlan::Subscribe(line)
            } else {
                let mut line = "warning: ".to_owned();
                line.append(source);
                line.append(" characteristic ");
                line.append(uuid_text(c.uuid).as_str());
                line.append(" is not notifiable");
                NotifyPlan::Unable(line)
            }
        },
    }
}

/// The name of a report type, seven characters wide.
pub open spec fn report_kind(report_type: u8) -> Seq<char> {
    if report_type == REPORT_TYPE_INPUT {
        "input  "@
    } else if report_type == REPORT_TYPE_OUTPUT {
        "output "@
    } else if report_type == REPORT_TYPE_FEATURE {
        "feature"@
    } else {
        "unknown"@
    }
}

/// The line of one report in the list of a device's reports.
pub open spec fn report_row(report: ReportChar) -> Seq<char> {
    "  report id=0x"@ + hex2_upper(report.report_id) + " type="@ + report_kind(report.report_type)
        + " flags="@ + join(texts(report.flags@), ","@)
}

/// List a device's reports: a heading, then one line per report.
pub fn report_lines(session: &HidSession) -> (lines: Vec<String>)
    ensures
        lines@.len() == session.listed().len() + 1,
        lines@[0]@ == "HID service exposes "@ + dec(session.listed().len())
            + " report characteristic(s) under "@ + session.device() + ":"@,
        forall|i: int|
            0 <= i < session.listed().len() ==> (#[trigger] lines@[i + 1])@ == report_row(
                session.listed()[i],
            ),
{
    let reports = session.reports();
    let mut lines: Vec<String> = Vec::new();
    let mut head = "HID service exposes ".to_owned();
    push_dec(&mut head, reports.len() as u64);
    head.append(" report characteristic(s) under ");
    head.append(session.device_path());
    head.append(":");
    let ghost heading = head@;
    lines.push(head);
    let mut i: usize = 0;
    while i < reports.len()
        invariant
            i <= reports.len(),
            reports@ == session.listed(),
            lines@.len() == i + 1,
            lines@[0]@ == heading,
            forall|j: int| 0 <= j < i ==> (#[trigger] lines@[j + 1])@ == report_row(reports@[j]),
        decreases reports.len() - i,
    {
        let report = &reports[i];
        let mut line = "  report id=0x".to_owned();
        push_hex2_upper(&mut line, report.report_id);
        line.append(" type=");
        if report.report_type == REPORT_TYPE_INPUT {
            line.append("input  ");
        } else if report.report_type == REPORT_TYPE_OUTPUT {
            line.append("output ");
        } else if report.report_type == REPORT_TYPE_FEATURE {
            line.append("feature");
        } else {
            line.append("unknown");
        }
        line.append(" flags=");
        line.append(join_text(&report.flags, ",").as_str());
        let ghost row = line@;
        assert(row =~= report_row(*report));
        let ghost before = lines@;
        lines.push(line);
        assert forall|j: int| 0 <= j < i + 1 implies (#[trigger] lines@[j + 1])@ == report_row(
            reports@[j],
        ) by {
            if j < i {
                assert(lines@[j + 1] == before[j + 1]);
            }
        }
        i = i + 1;
    }
    lines
}

// -- Authentication -----------------------------------------------------------

/// Whether the text of an error speaks of a failed authentication, whatever
/// the case and the spaces.
pub open spec fn speaks_of_auth(detail: Seq<char>) -> bool {
    exists|k: int|
        0 <= k < 6 && contains_seq(
            without_spaces(lowercased(detail)),
            without_spaces((#[trigger] AUTH_FAILURE_MARKERS@[k])@),
        )
}

/// Whether the text of an error speaks of a failed authentication.
pub fn is_auth_failure(detail: &str) -> (r: bool)
    ensures
        r == speaks_of_auth(detail@),
{
    let hay = strip_spaces(detail.to_lowercase().as_str());
    let mut k: usize = 0;
    while k < 6
        invariant
            k <= 6,
            hay@ == without_spaces(lowercased(detail@)),
            forall|j: int|
                0 <= j < k ==> !contains_seq(
                    hay@,
                    without_spaces((#[trigger] AUTH_FAILURE_MARKERS@[j])@),
                ),
        decreases 6 - k,
    {
        if contains_text(&hay, &strip_spaces(AUTH_FAILURE_MARKERS[k])) {
            assert(contains_seq(hay@, without_spaces(AUTH_FAILURE_MARKERS@[k as int]@)));
            return true;
        }
        k = k + 1;
    }
    false
}

// -- Typed event stream -------------------------------------------------------

/// Power-state byte translated to a labelled variant. `Unknown(b)` carries the
/// unrecognised byte for diagnostics.
#[derive(Clone, Copy, Debug, PartialEq, Eq, Structural)]
pub enum PowerState {
    Charging,
    Discharging,
    PluggedIn,
    Unknown(u8),
}

/// The power state that a byte stands for.
pub open spec fn power_state_of(b: u8) -> PowerState {
    if b == 0xAB {
        PowerState::Charging
    } else if b == 0xAF {
        PowerState::Discharging
    } else if b == 0xBB {
        PowerState::PluggedIn
    } else {
        PowerState::Unknown(b)
    }
}

impl PowerState {
    /// The power state that a byte stands for.
    pub fn from_byte(b: u8) -> (state: Self)
        ensures
            state == power_state_of(b),
    {
        match b {
            0xAB => Self::Charging,
            0xAF => Self::Discharging,
            0xBB => Self::PluggedIn,
            _ => Self::Unknown(b),
        }
    }
}

/// Single decoded event from the remote. Every frontend consumes this stream.
#[derive(Clone, Debug)]
#[allow(inconsistent_fields)]
pub enum DeviceEvent {
    /// 2-byte HID system-buttons report. `pressed` / `released` are the
    /// bits that transitioned vs. the previous frame; both are `0` on a
    /// state-refresh packet (mask unchanged).
    Buttons { report_id: u8, mask: u16, pressed: u16, released: u16, raw: [u8; 2] },
    /// Parsed touchpad sample. `raw` is the full wire payload (11 or 18
    /// bytes) so callers can dump it verbatim.
    Touch { report_id: u8, event: TouchEvent, raw: Vec<u8> },
    /// HID Input report whose layout we have no parser for (audio,
    /// vendor-specific, etc.).
    UnknownInput { report_id: u8, payload: Vec<u8> },
    /// Battery level characteristic notification (0..=100).
    Battery { value: u8, raw: Vec<u8> },
    /// Battery power-state characteristic notification.
    Power { state: PowerState, raw: Vec<u8> },
    /// Notification on a UUID that is neither HID Report, Battery Level, nor
    /// Battery Power.
    UnknownOther { uuid: u128, payload: Vec<u8> },
}

/// A value that a characteristic has sent.
#[derive(Clone, Debug)]
pub struct ValueNotification {
    pub uuid: u128,
    pub value: Vec<u8>,
}

/// The event of a notification. HID reports give none: they arrive one by one
/// through the report stream.
pub open spec fn notification_event(n: ValueNotification) -> Option<DeviceEvent> {
    if n.uuid == HID_REPORT_UUID {
        None
    } else if n.uuid == BATTERY_LEVEL_UUID && n.value@.len() > 0 {
        Some(DeviceEvent::Battery { value: n.value@[0], raw: n.value })
    } else if n.uuid == BATTERY_POWER_UUID && n.value@.len() > 0 {
        Some(DeviceEvent::Power { state: power_state_of(n.value@[0]), raw: n.value })
    } else {
        Some(DeviceEvent::UnknownOther { uuid: n.uuid, payload: n.value })
    }
}

/// Decode a notification.
pub fn decode_btleplug(n: ValueNotification) -> (event: Option<DeviceEvent>)
    ensures
        event == notification_event(n),
{
    if n.uuid == HID_REPORT_UUID {
        return None;
    }
    if n.uuid == BATTERY_LEVEL_UUID {
        if n.value.len() == 0 {
            return Some(DeviceEvent::UnknownOther { uuid: n.uuid, payload: n.value });
        }
        let value: u8 = n.value[0];
        return Some(DeviceEvent::Battery { value, raw: n.value });
    }
    if n.uuid == BATTERY_POWER_UUID {
        if n.value.len() == 0 {
            return Some(DeviceEvent::UnknownOther { uuid: n.uuid, payload: n.value });
        }
        let state = PowerState::from_byte(n.value[0]);
        return Some(DeviceEvent::Power { state, raw: n.value });
    }
    Some(DeviceEvent::UnknownOther { uuid: n.uuid, payload: n.value })
}

/// The event of a HID report when `before` was the button mask until then.
pub open spec fn report_event(report_id: u8, value: Vec<u8>, before: u16) -> DeviceEvent {
    if value@.len() == 2 {
        let mask = le16(value@[0], value@[1]);
        DeviceEvent::Buttons {
            report_id,
            mask,
            pressed: pressed_between(before, mask),
            released: released_between(before, mask),
            raw: [value@[0], value@[1]],
        }
    } else if is_touch_report(value@) {
        DeviceEvent::Touch { report_id, event: touch_of(value@), raw: value }
    } else {
        DeviceEvent::UnknownInput { report_id, payload: value }
    }
}

/// Decode a HID report: two bytes are buttons, a well-formed touch report is a
/// touch, anything else is passed on as it is.
pub fn decode_hid_report(
    report_id: u8,
    value: Vec<u8>,
    input: &mut InputDecoder,
    touch: &mut TouchDecoder,
) -> (event: DeviceEvent)
    ensures
        event == report_event(report_id, value, old(input).held()),
        final(input).held() == mask_after(old(input).held(), value@),
{
    if value.len() == 2 {
        let mask: u16 = word_le(value[0], value[1]);
        let prev: u16 = input.advance(mask);
        return DeviceEvent::Buttons {
            report_id,
            mask,
            pressed: mask & !prev,
            released: prev & !mask,
            raw: [value[0], value[1]],
        };
    }
    if let Some(event) = touch.parse(value.as_slice()) {
        return DeviceEvent::Touch { report_id, event, raw: value };
    }
    DeviceEvent::UnknownInput { report_id, payload: value }
}

/// What reached an open session. `None` stands for the end of a stream.
pub enum Incoming {
    Notification(Option<ValueNotification>),
    Report(Option<(u8, Vec<u8>)>),
    /// The periodic probe found the link up, or not.
    Probe(bool),
}

/// What an open session makes of it.
pub enum SessionStep {
    /// Hand this event out.
    Emit(DeviceEvent),
    /// Nothing to hand out; wait on.
    Wait,
    /// The link has dropped.
    End,
}

/// Whether a step is what a session makes of something that arrived, when
/// `before` was the button mask until then and `after` is from now on.
pub open spec fn is_session_step(
    before: u16,
    incoming: Incoming,
    step: SessionStep,
    after: u16,
) -> bool {
    match incoming {
        Incoming::Notification(Some(n)) => {
            &&& after == before
            &&& step == match notification_event(n) {
                Some(event) => SessionStep::Emit(event),
                None => SessionStep::Wait,
            }
        },
        Incoming::Report(Some((report_id, value))) => {
            &&& after == mask_after(before, value@)
            &&& step == SessionStep::Emit(report_event(report_id, value, before))
        },
        Incoming::Probe(true) => after == before && step is Wait,
        _ => after == before && step is End,
    }
}

/// The decoders behind the event stream of one connection.
pub struct Session {
    input_decoder: InputDecoder,
    touch_decoder: TouchDecoder,
}

impl Session {
    /// The button mask of the last button report.
    pub closed spec fn held(&self) -> u16 {
        self.input_decoder.held()
    }

    pub fn new() -> (session: Self)
        ensures
            session.held() == 0,
    {
        Self { input_decoder: InputDecoder::new(), touch_decoder: TouchDecoder::new() }
    }

    /// Turn what arrived into the next event. The stream ends when either
    /// source closes or the probe finds the link down.
    pub fn next_event(&mut self, incoming: Incoming) -> (step: SessionStep)
        ensures
            match incoming {
                Incoming::Notification(Some(n)) => {
                    &&& final(self).held() == old(self).held()
                    &&& step == match notification_event(n) {
                        Some(event) => SessionStep::Emit(event),
                        None => SessionStep::Wait,
                    }
                },
                Incoming::Report(Some((report_id, value))) => {
                    &&& final(self).held() == mask_after(old(self).held(), value@)
                    &&& step == SessionStep::Emit(
                        report_event(report_id, value, old(self).held()),
                    )
                },
                Incoming::Probe(true) => final(self).held() == old(self).held() && step is Wait,
                _ => final(self).held() == old(self).held() && step is End,
            },
            is_session_step(old(self).held(), incoming, step, final(self).held()),
    {
        match incoming {
            Incoming::Notification(Some(n)) => match decode_btleplug(n) {
                Some(event) => SessionStep::Emit(event),
                None => SessionStep::Wait,
            },
            Incoming::Notification(None) => SessionStep::End,
            Incoming::Report(Some((report_id, value))) => SessionStep::Emit(
                decode_hid_report(
                    report_id,
                    value,
                    &mut self.input_decoder,
                    &mut self.touch_decoder,
                ),
            ),
            Incoming::Report(None) => SessionStep::End,
            Incoming::Probe(connected) => {
                if connected {
                    SessionStep::Wait
                } else {
                    SessionStep::End
                }
            },
        }
    }
}

// -- Laws ---------------------------------------------------------------------

/// Without an address the search begins with a scan, and what the scan finds is
/// used, whichever remotes are bonded: those are asked for only where it found
/// none.
pub proof fn law_nearest_remote_comes_first(
    candidate: Candidate,
    begun: InitAction,
    found: InitAction,
    missed: InitAction,
)
    requires
        search_leads_to(InitEvent::Begin(None), begun),
        search_leads_to(InitEvent::Scanned(Ok(candidate)), found),
        search_leads_to(InitEvent::Scanned(Err(ScanError::Timeout)), missed),
    ensures
        begun is Scan,
        found matches InitAction::Use { selection, .. } && selection@ == nearest(candidate),
        missed is ListBonded,
{
}

/// Whichever remote the search ends with is first connected without pairing.
pub proof fn law_search_never_demands_pairing(event: InitEvent, action: InitAction)
    requires
        search_leads_to(event, action),
    ensures
        action matches InitAction::Use { selection, .. } ==> !selection@.requires_pairing,
{
}

/// Normalizing twice is normalizing once: an address that was accepted is
/// accepted again, unchanged.
pub proof fn law_normalizing_is_idempotent(
    addr: Seq<char>,
    first: Result<String, String>,
    second: Result<String, String>,
)
    requires
        is_normalized(addr, first),
        first is Ok,
        is_normalized(first->Ok_0@, second),
    ensures
        second is Ok,
        second->Ok_0@ == first->Ok_0@,
{
}

/// The label of a power byte and its variant tell the same story: a byte has a
/// label exactly when it has a variant of its own.
pub proof fn law_power_label_matches_state(b: u8)
    ensures
        power_state_text(b) is None <==> power_state_of(b) == PowerState::Unknown(b),
        power_state_of(b) is Charging <==> power_state_text(b) == Some("charging"@),
        power_state_of(b) is Discharging <==> power_state_text(b) == Some("discharging"@),
        power_state_of(b) is PluggedIn <==> power_state_text(b) == Some("plugged-in"@),
{
    reveal_strlit("charging");
    reveal_strlit("discharging");
    reveal_strlit("plugged-in");
    assert("charging"@.len() == 8 && "discharging"@.len() == 11 && "plugged-in"@.len() == 10);
}

/// A button report that repeats the state carries no transitions.
pub proof fn law_refresh_has_no_transitions(report_id: u8, value: Vec<u8>, before: u16)
    requires
        button_mask(value@) == Some(before),
    ensures
        report_event(report_id, value, before) matches DeviceEvent::Buttons {
            pressed,
            released,
            ..
        } && pressed == 0 && released == 0,
{
    assert(before & !before == 0) by (bit_vector);
}

/// No payload is lost: the raw bytes of a report are part of its event.
pub proof fn law_report_keeps_payload(report_id: u8, value: Vec<u8>, before: u16)
    ensures
        match report_event(report_id, value, before) {
            DeviceEvent::Buttons { report_id: id, raw, .. } => id == report_id && raw@ == value@,
            DeviceEvent::Touch { report_id: id, raw, .. } => id == report_id && raw == value,
            DeviceEvent::UnknownInput { report_id: id, payload } => id == report_id && payload
                == value,
            _ => false,
        },
{
    if value@.len() == 2 {
        assert([value@[0], value@[1]]@ =~= value@);
    }
}

proof fn lemma_upper_pair(b: u8)
    ensures
        hex2_upper(b).len() == 2,
        forall|i: int|
            0 <= i < 2 ==> is_hex_digit(#[trigger] hex2_upper(b)[i]) && !('a' <= hex2_upper(b)[i]
                <= 'z'),
{
}

proof fn lemma_pair_joined(parts: Seq<Seq<char>>)
    requires
        parts.len() > 0,
        forall|k: int| 0 <= k < parts.len() ==> (#[trigger] parts[k]).len() == 2,
    ensures
        join(parts, ":"@).len() == 3 * parts.len() - 1,
        forall|i: int|
            0 <= i < join(parts, ":"@).len() ==> #[trigger] join(parts, ":"@)[i] == if i % 3 == 2 {
                ':'
            } else {
                parts[i / 3][i % 3]
            },
    decreases parts.len(),
{
    reveal_strlit(":");
    if parts.len() > 1 {
        let shorter = parts.drop_last();
        lemma_pair_joined(shorter);
        assert(join(parts, ":"@) == join(shorter, ":"@) + ":"@ + parts.last());
    }
}

/// An identity address read from an advertisement is a well-formed address in
/// canonical form.
pub proof fn law_identity_is_address(mfr: Seq<u8>)
    requires
        identity_in(mfr) is Some,
    ensures
        is_canonical(identity_in(mfr)->0),
{
    let pairs = Seq::new(6, |i: int| hex2_upper(mfr[6 + i]));
    lemma_pair_joined(pairs);
    let t = join(pairs, ":"@);
    assert forall|i: int| 0 <= i < 17 implies if i % 3 == 2 {
        #[trigger] t[i] == ':'
    } else {
        is_hex_digit(t[i]) && !('a' <= t[i] <= 'z')
    } by {
        lemma_upper_pair(mfr[6 + i / 3]);
        assert(pairs[i / 3] == hex2_upper(mfr[6 + i / 3]));
    }
}

/// The event of a HID report, by its bytes: two are a button mask, low half
/// first, with the buttons that went down and up since the mask before; a
/// marked touch report of one of the two lengths is a touch; anything else is
/// passed on.
pub proof fn law_report_by_bytes(report_id: u8, value: Vec<u8>, before: u16)
    ensures
        value@.len() == 2 ==> (report_event(report_id, value, before) matches DeviceEvent::Buttons {
            report_id: id,
            mask,
            pressed,
            released,
            raw,
        } && {
            &&& id == report_id
            &&& mask % 256 == value@[0] && mask / 256 == value@[1]
            &&& pressed == mask & !before
            &&& released == before & !mask
            &&& raw@[0] == value@[0] && raw@[1] == value@[1]
        }),
        (value@.len() == 11 || value@.len() == 18) && value@[0] == 0x32 && (value@[3] / 16 % 2 == 1
            ==> value@.len() == 18) ==> report_event(report_id, value, before) == (
        DeviceEvent::Touch { report_id, event: touch_of(value@), raw: value }),
        value@.len() != 2 && value@.len() != 11 && value@.len() != 18 ==> report_event(
            report_id,
            value,
            before,
        ) == (DeviceEvent::UnknownInput { report_id, payload: value }),
        value@.len() > 3 && (value@[0] != 0x32 || (value@.len() == 11 && value@[3] / 16 % 2 == 1))
            ==> report_event(report_id, value, before) == (DeviceEvent::UnknownInput {
            report_id,
            payload: value,
        }),
{
    law_touch_report_layout(value@);
}

/// Masks chain: the buttons that a report finds down are those before, without
/// what was released and with what was pressed.
pub proof fn law_reports_chain(report_id: u8, value: Vec<u8>, before: u16)
    requires
        value@.len() == 2,
    ensures
        report_event(report_id, value, before) matches DeviceEvent::Buttons {
            mask,
            pressed,
            released,
            ..
        } && {
            &&& mask == (before & !released) | pressed
            &&& mask == mask_after(before, value@)
            &&& pressed & before == 0 && released & !before == 0
        },
{
    let now = le16(value@[0], value@[1]);
    assert(now == (before & !(before & !now)) | (now & !before)) by (bit_vector);
    assert((now & !before) & before == 0 && (before & !now) & !before == 0) by (bit_vector);
}

/// The event of a notification, by its characteristic: reports give none, the
/// battery and power characteristics their first byte, anything else is passed
/// on, as is an empty value.
pub proof fn law_notification_by_characteristic(n: ValueNotification)
    ensures
        notification_event(n) is None <==> n.uuid == 0x00002a4d_0000_1000_8000_00805f9b34fb,
        n.uuid == 0x00002a19_0000_1000_8000_00805f9b34fb && n.value@.len() > 0
            ==> notification_event(n) == Some(
            DeviceEvent::Battery { value: n.value@[0], raw: n.value },
        ),
        n.uuid == 0x00002a1a_0000_1000_8000_00805f9b34fb && n.value@.len() > 0 ==> (
        notification_event(n) matches Some(DeviceEvent::Power { state, raw }) && raw == n.value && (
        state is Charging <==> n.value@[0] == 0xAB) && (state is Discharging <==> n.value@[0]
            == 0xAF) && (state is PluggedIn <==> n.value@[0] == 0xBB) && (state
            is Unknown ==> state == PowerState::Unknown(n.value@[0]))),
        n.uuid != 0x00002a4d_0000_1000_8000_00805f9b34fb && (n.value@.len() == 0 || (n.uuid
            != 0x00002a19_0000_1000_8000_00805f9b34fb && n.uuid
            != 0x00002a1a_0000_1000_8000_00805f9b34fb)) ==> notification_event(n) == Some(
            DeviceEvent::UnknownOther { uuid: n.uuid, payload: n.value },
        ),
{
}

/// An address is seventeen characters: a colon after each pair of hexadecimal
/// digits but the last.
pub proof fn law_address_form(t: Seq<char>, i: int)
    requires
        is_address(t),
        0 <= i < 6,
    ensures
        t.len() == 17,
        i < 5 ==> t[3 * i + 2] == ':',
        '0' <= t[3 * i] <= '9' || 'a' <= t[3 * i] <= 'f' || 'A' <= t[3 * i] <= 'F',
        '0' <= t[3 * i + 1] <= '9' || 'a' <= t[3 * i + 1] <= 'f' || 'A' <= t[3 * i + 1] <= 'F',
{
    assert(is_hex_digit(t[3 * i]));
    assert(is_hex_digit(t[3 * i + 1]));
    if i < 5 {
        assert(t[3 * i + 2] == ':');
    }
}

/// Six pairs of uppercase digits with colons between them are an address in
/// canonical form.
pub proof fn law_address_accepted(t: Seq<char>)
    requires
        t.len() == 17,
        forall|i: int|
            0 <= i < 17 ==> if i % 3 == 2 {
                #[trigger] t[i] == ':'
            } else {
                '0' <= t[i] <= '9' || 'A' <= t[i] <= 'F'
            },
    ensures
        is_canonical(t),
{
}

/// What each way of selecting a remote takes over: the address to connect to,
/// the address that lasts, the name, and whether to pair first.
pub proof fn law_selections(address: Seq<char>, remote: RemoteDevice, candidate: Candidate)
    ensures
        requested(address).address == address,
        requested(address).identity_address == Some(address),
        !requested(address).requires_pairing,
        requested(address).peripheral_id is None && requested(address).rssi is None,
        bonded(remote).address == remote.address@,
        bonded(remote).identity_address == Some(remote.address@),
        !bonded(remote).requires_pairing,
        bonded(remote).peripheral_id is None && bonded(remote).rssi is None,
        remote.name@.len() > 0 ==> bonded(remote).name == remote.name@,
        remote.name@.len() == 0 && remote.alias@.len() > 0 ==> bonded(remote).name
            == remote.alias@,
        remote.name@.len() == 0 && remote.alias@.len() == 0 ==> bonded(remote).name
            == remote.address@,
        scanned(candidate).address == candidate.last_address@,
        scanned(candidate).identity_address == Some(candidate.identity_address@),
        scanned(candidate).requires_pairing,
        scanned(candidate).peripheral_id == Some(candidate.peripheral_id),
        scanned(candidate).rssi == Some(candidate.last_rssi),
        candidate.last_name matches Some(n) ==> scanned(candidate).name == n@,
        candidate.last_name is None ==> scanned(candidate).name == candidate.identity_address@,
        !nearest(candidate).requires_pairing,
        nearest(candidate).address == candidate.last_address@,
        nearest(candidate).identity_address == Some(candidate.identity_address@),
        nearest(candidate).name == scanned(candidate).name,
        nearest(candidate).peripheral_id == Some(candidate.peripheral_id),
        nearest(candidate).rssi == Some(candidate.last_rssi),
{
}

/// Among bonded remotes one with a live connection comes before any without,
/// and among equals the first in the list.
pub proof fn law_live_remote_preferred(remotes: Seq<RemoteDevice>, c: int, i: int)
    requires
        0 <= c < remotes.len(),
        is_preferred(remotes, c),
        0 <= i < remotes.len(),
    ensures
        remotes[i].connected ==> remotes[c].connected && c <= i,
        !remotes[c].connected ==> c == 0,
{
}

/// A remote stays known under its identity address where it has one, and else
/// under the address it was selected by.
pub proof fn law_lasting_address(selection: SelectionView)
    ensures
        selection.identity_address matches Some(i) ==> lasting_address(selection) == i,
        selection.identity_address is None ==> lasting_address(selection) == selection.address,
{
}

/// An error speaks of authentication exactly where one of the markers occurs in
/// it, whatever the case and the spaces of either.
pub proof fn law_auth_markers(detail: Seq<char>)
    ensures
        ({
            let said = without_spaces(lowercased(detail));
            speaks_of_auth(detail) <==> contains_seq(said, without_spaces("auth"@))
                || contains_seq(said, without_spaces("encrypt"@)) || contains_seq(
                said,
                without_spaces("not authorized"@),
            ) || contains_seq(said, without_spaces("not permitted"@)) || contains_seq(
                said,
                without_spaces("insufficient authentication"@),
            ) || contains_seq(said, without_spaces("authenticationfailed"@))
        }),
{
    let said = without_spaces(lowercased(detail));
    let m = AUTH_FAILURE_MARKERS@;
    assert(m[0]@ == "auth"@ && m[1]@ == "encrypt"@ && m[2]@ == "not authorized"@ && m[3]@
        == "not permitted"@ && m[4]@ == "insufficient authentication"@ && m[5]@
        == "authenticationfailed"@);
    if contains_seq(said, without_spaces("auth"@)) {
        assert(contains_seq(said, without_spaces(m[0]@)));
    }
    if contains_seq(said, without_spaces("encrypt"@)) {
        assert(contains_seq(said, without_spaces(m[1]@)));
    }
    if contains_seq(said, without_spaces("not authorized"@)) {
        assert(contains_seq(said, without_spaces(m[2]@)));
    }
    if contains_seq(said, without_spaces("not permitted"@)) {
        assert(contains_seq(said, without_spaces(m[3]@)));
    }
    if contains_seq(said, without_spaces("insufficient authentication"@)) {
        assert(contains_seq(said, without_spaces(m[4]@)));
    }
    if contains_seq(said, without_spaces("authenticationfailed"@)) {
        assert(contains_seq(said, without_spaces(m[5]@)));
    }
}

/// The announcement of a selection gives its name, its address, and its identity
/// and signal strength where they are known.
pub proof fn law_selection_line(selection: SelectionView, reason: Seq<char>)
    ensures
        selection.identity_address matches Some(i) ==> selection.rssi matches Some(r)
            ==> selected_text(selection, reason) == "Selected "@ + debug_quoted(selection.name)
            + " address="@ + selection.address + (" identity="@ + i) + (" rssi="@ + dec_signed(
            r as int,
        )) + " ("@ + reason + ")."@,
        selection.identity_address is None && selection.rssi is None ==> selected_text(
            selection,
            reason,
        ) == "Selected "@ + debug_quoted(selection.name) + " address="@ + selection.address
            + " ("@ + reason + ")."@,
        selection.identity_address matches Some(i) ==> selection.rssi is None ==> selected_text(
            selection,
            reason,
        ) == "Selected "@ + debug_quoted(selection.name) + " address="@ + selection.address + (
        " identity="@ + i) + " ("@ + reason + ")."@,
{
    let head = "Selected "@ + debug_quoted(selection.name) + " address="@ + selection.address;
    assert(head + Seq::<char>::empty() =~= head);
    if let Some(i) = selection.identity_address {
        let more = head + (" identity="@ + i);
        assert(more + Seq::<char>::empty() =~= more);
    }
}

/// An address is accepted exactly where its trimmed and raised form has the form
/// of one; that form is the result, and the complaint quotes what was given.
pub proof fn law_normalized_address(addr: Seq<char>, address: Result<String, String>)
    requires
        is_normalized(addr, address),
    ensures
        address is Ok <==> is_address(uppercased(trimmed(addr))),
        address matches Ok(t) ==> t@ == uppercased(trimmed(addr)),
        address matches Err(m) ==> m@ == "invalid Bluetooth address: "@ + debug_quoted(addr),
{
}

/// A requested address is used without a scan where it is one, and refused where
/// it is not; bonded remotes are used by preference, and without any the search
/// has timed out.
pub proof fn law_search_outcomes(event: InitEvent, action: InitAction)
    requires
        search_leads_to(event, action),
    ensures
        event matches InitEvent::Begin(Some(a)) ==> if is_address(uppercased(trimmed(a@))) {
            action matches InitAction::Use { selection, reason } && selection@.address
                == uppercased(trimmed(a@)) && reason@ == "requested address; connecting directly"@
        } else {
            action matches InitAction::Fail(InitError::Invalid(m)) && m@
                == "invalid Bluetooth address: "@ + debug_quoted(a@)
        },
        event matches InitEvent::Bonded(remotes) ==> remotes@.len() == 0 ==> action
            == InitAction::Fail(InitError::Timeout),
        event matches InitEvent::Bonded(remotes) ==> remotes@.len() > 0 ==> (
        action matches InitAction::Use { selection, .. } && exists|c: int|
            0 <= c < remotes@.len() && is_preferred(remotes@, c) && selection@.address == (
            #[trigger] remotes@[c]).address@),
        event matches InitEvent::Scanned(Err(ScanError::Other(e))) ==> action == InitAction::Fail(
            InitError::Invalid(e),
        ),
{
}

/// A peripheral is found by its address whatever the case of either, and the
/// first one is taken.
pub proof fn law_first_match(
    addresses: Seq<String>,
    address: Seq<char>,
    found: Option<usize>,
    i: int,
)
    requires
        is_first_match(addresses, address, found),
        0 <= i < addresses.len(),
        uppercased(addresses[i]@) == uppercased(address),
    ensures
        found matches Some(f) && f <= i && uppercased(addresses[f as int]@) == uppercased(address),
{
}

/// The complaint about a peripheral that was not found is the last error, or the
/// address and the time.
pub proof fn law_unresolved_words(address: Seq<char>, last_error: Option<String>)
    ensures
        last_error matches Some(e) ==> unresolved_text(address, last_error) == e@,
        last_error is None ==> unresolved_text(address, last_error)
            == "could not find peripheral with address "@ + address + " within 10s"@,
{
}

/// The rows of the lists: a bonded remote is starred where it is the one taken,
/// and a report is given by id, type and flags.
pub proof fn law_list_rows(remote: RemoteDevice, chosen: RemoteDevice, report: ReportChar)
    ensures
        remote.address@ == chosen.address@ ==> bonded_row(remote, chosen) == "  "@ + "*"@
            + " address="@ + remote.address@ + " name="@ + debug_quoted(remote.name@)
            + " connected="@ + flag_text(remote.connected) + " bonded="@ + flag_text(remote.bonded),
        remote.address@ != chosen.address@ ==> bonded_row(remote, chosen) == "  "@ + " "@
            + " address="@ + remote.address@ + " name="@ + debug_quoted(remote.name@)
            + " connected="@ + flag_text(remote.connected) + " bonded="@ + flag_text(remote.bonded),
        report_row(report) == "  report id=0x"@ + hex2_upper(report.report_id) + " type="@
            + report_kind(report.report_type) + " flags="@ + join(texts(report.flags@), ","@),
        report.report_type == 1 ==> report_kind(report.report_type) == "input  "@,
        report.report_type == 2 ==> report_kind(report.report_type) == "output "@,
        report.report_type == 3 ==> report_kind(report.report_type) == "feature"@,
        report.report_type == 0 || report.report_type > 3 ==> report_kind(report.report_type)
            == "unknown"@,
        flag_text(true) == "true"@ && flag_text(false) == "false"@,
{
}

/// Two button reports in a row: the second tells what changed since the first,
/// whatever came in between that was no button report.
pub proof fn law_presses_since_the_last_report(
    start: u16,
    between: u16,
    end: u16,
    first: (u8, Vec<u8>),
    second: (u8, Vec<u8>),
    step_a: SessionStep,
    step_b: SessionStep,
)
    requires
        first.1@.len() == 2,
        second.1@.len() == 2,
        is_session_step(start, Incoming::Report(Some(first)), step_a, between),
        is_session_step(between, Incoming::Report(Some(second)), step_b, end),
    ensures
        between % 256 == first.1@[0] && between / 256 == first.1@[1],
        end % 256 == second.1@[0] && end / 256 == second.1@[1],
        step_b matches SessionStep::Emit(DeviceEvent::Buttons {
            report_id,
            mask,
            pressed,
            released,
            ..
        }) && {
            &&& report_id == second.0
            &&& mask == end
            &&& pressed == end & !between
            &&& released == between & !end
        },
{
}

/// Only button reports move the mask, only the end of a stream or a lost link
/// ends the session, and every report is handed out.
pub proof fn law_session_steps(
    before: u16,
    incoming: Incoming,
    step: SessionStep,
    after: u16,
)
    requires
        is_session_step(before, incoming, step, after),
    ensures
        !(incoming is Report) ==> after == before,
        incoming matches Incoming::Report(Some(r)) ==> step is Emit && (r.1@.len() != 2 ==> after
            == before),
        incoming matches Incoming::Report(None) ==> step is End,
        incoming matches Incoming::Notification(None) ==> step is End,
        incoming matches Incoming::Probe(up) ==> (up ==> step is Wait) && (!up ==> step is End),
        incoming matches Incoming::Notification(Some(n)) ==> if n.uuid
            == 0x00002a4d_0000_1000_8000_00805f9b34fb {
            step is Wait
        } else {
            step is Emit
        },
{
}

} // verus!
