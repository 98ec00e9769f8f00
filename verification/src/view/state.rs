//! Live state of the dashboard, changed by [`DeviceEvent`]s and log records.
//! Times are nanoseconds on one monotonic clock.

use std::collections::{HashMap, VecDeque};

use vstd::prelude::*;
use vstd::std_specs::hash::group_hash_axioms;

use crate::calibration::Calibration;
use crate::decoder::{fingers_in, FingerData, TouchEvent};
use crate::hid::{uuid_form, uuid_text};
use crate::logger::{Level, LogRecord};
use crate::session::{DeviceEvent, PowerState, Selection, SelectionView};
use crate::text::{
    dec, hex2_upper, hex4_upper, push_dec, push_hex2_upper, push_hex4_upper,
};

verus! {

/// Maximum number of touch samples retained for the fading trail. Older
/// samples are pushed off, all are cleared on release.
pub const TRAIL_CAP: usize = 30;

/// Buttons stay highlighted for this long after release: 150 ms.
pub const BUTTON_AFTERGLOW: u64 = 150_000_000;

/// Event log capacity before old entries are dropped.
pub const EVENT_LOG_CAP: usize = 256;

/// Where a log line comes from.
#[derive(Clone, Copy, Debug, PartialEq, Eq, Structural)]
pub enum EventSource {
    Buttons,
    Battery,
    Power,
    Raw,
    System,
    Warning,
}

/// One log line in the events panel.
#[derive(Clone, Debug)]
pub struct EventLine {
    pub stamp: u64,
    pub source: EventSource,
    pub text: String,
}

/// What an [`EventLine`] says.
pub struct EventLineView {
    pub stamp: u64,
    pub source: EventSource,
    pub text: Seq<char>,
}

impl View for EventLine {
    type V = EventLineView;

    open spec fn view(&self) -> EventLineView {
        EventLineView { stamp: self.stamp, source: self.source, text: self.text@ }
    }
}

/// The state of the link.
#[derive(Clone, Debug)]
pub enum ConnState {
    Connecting { since: u64 },
    Connected { since: u64 },
    Reconnecting { reason: String, since: u64 },
    Pairing { since: u64 },
}

/// What a [`ConnState`] says.
pub enum ConnView {
    Connecting { since: u64 },
    Connected { since: u64 },
    Reconnecting { reason: Seq<char>, since: u64 },
    Pairing { since: u64 },
}

impl View for ConnState {
    type V = ConnView;

    open spec fn view(&self) -> ConnView {
        match self {
            ConnState::Connecting { since } => ConnView::Connecting { since: *since },
            ConnState::Connected { since } => ConnView::Connected { since: *since },
            ConnState::Reconnecting { reason, since } => ConnView::Reconnecting {
                reason: reason@,
                since: *since,
            },
            ConnState::Pairing { since } => ConnView::Pairing { since: *since },
        }
    }
}

/// One touchpad sample retained in the trail, in raw coordinates.
#[derive(Clone, Copy, Debug, PartialEq, Eq, Structural)]
pub struct TrailPoint {
    pub slot: u8,
    pub x: u16,
    pub y: i16,
    /// Time the sample was captured. Used to bucket the trail into fade
    /// levels (newer = brighter).
    pub stamp: u64,
}

/// The area that a running calibration has covered so far.
#[derive(Clone, Copy, Debug, PartialEq, Eq, Structural)]
pub struct CalibrationSession {
    pub samples: usize,
    pub x_min: i32,
    pub x_max: i32,
    pub y_min: i32,
    pub y_max: i32,
}

/// The sixteen single-bit masks.
pub const BITS: [u16; 16] = [
    0x0001,
    0x0002,
    0x0004,
    0x0008,
    0x0010,
    0x0020,
    0x0040,
    0x0080,
    0x0100,
    0x0200,
    0x0400,
    0x0800,
    0x1000,
    0x2000,
    0x4000,
    0x8000,
];

/// Everything the dashboard shows.
pub struct AppState {
    pub connection: ConnState,
    pub selection: Selection,
    pub battery: Option<u8>,
    pub power: Option<PowerState>,
    pub buttons_mask: u16,
    /// Per-bit afterglow deadlines. A bit is fully highlighted while held;
    /// after release it stays in this map until its deadline passes, allowing
    /// a fade animation.
    pub button_afterglow: HashMap<u16, u64>,
    pub touch_active: bool,
    pub touch_trail: VecDeque<TrailPoint>,
    pub last_touch: Option<TouchEvent>,
    pub events: VecDeque<EventLine>,
    pub calibration: Calibration,
    pub calibration_session: Option<CalibrationSession>,
}

/// What an [`AppState`] says.
#[verifier::ext_equal]
pub struct AppView {
    pub connection: ConnView,
    pub selection: SelectionView,
    pub battery: Option<u8>,
    pub power: Option<PowerState>,
    pub buttons_mask: u16,
    pub button_afterglow: Map<u16, u64>,
    pub touch_active: bool,
    pub touch_trail: Seq<TrailPoint>,
    pub last_touch: Option<TouchEvent>,
    pub events: Seq<EventLineView>,
    pub calibration: Calibration,
    pub calibration_session: Option<CalibrationSession>,
}

/// What each log line says.
pub open spec fn line_views(lines: Seq<EventLine>) -> Seq<EventLineView> {
    Seq::new(lines.len(), |i: int| lines[i]@)
}

impl View for AppState {
    type V = AppView;

    open spec fn view(&self) -> AppView {
        AppView {
            connection: self.connection@,
            selection: self.selection@,
            battery: self.battery,
            power: self.power,
            buttons_mask: self.buttons_mask,
            button_afterglow: self.button_afterglow@,
            touch_active: self.touch_active,
            touch_trail: self.touch_trail@,
            last_touch: self.last_touch,
            events: line_views(self.events@),
            calibration: self.calibration,
            calibration_session: self.calibration_session,
        }
    }
}

/// Whether a mask has exactly one bit set.
pub open spec fn is_bit(mask: u16) -> bool {
    exists|i: int| 0 <= i < 16 && mask == #[trigger] BITS@[i]
}

/// Whether a touch frame holds a finger.
pub open spec fn touches(frame: Option<TouchEvent>) -> bool {
    frame matches Some(ev) && fingers_in(ev.points@) > 0
}

/// The bounds that the state keeps: trail and log never exceed their
/// capacities, touch is active exactly while the last frame holds a finger,
/// there is a trail only then, and only single buttons glow.
pub open spec fn within_bounds(state: AppView) -> bool {
    &&& state.touch_trail.len() <= TRAIL_CAP
    &&& state.events.len() <= EVENT_LOG_CAP
    &&& state.touch_active == touches(state.last_touch)
    &&& state.touch_trail.len() > 0 ==> state.touch_active
    &&& forall|k: u16| #[trigger] state.button_afterglow.dom().contains(k) ==> is_bit(k)
}

/// The log after a line was added: the oldest line makes way when it is full.
pub open spec fn log_after(log: Seq<EventLineView>, line: EventLineView) -> Seq<EventLineView> {
    (if log.len() == EVENT_LOG_CAP {
        log.drop_first()
    } else {
        log
    }).push(line)
}

/// The state after a line was logged.
pub open spec fn logged(
    state: AppView,
    source: EventSource,
    text: Seq<char>,
    now: u64,
) -> AppView {
    AppView {
        events: log_after(state.events, EventLineView { stamp: now, source, text }),
        ..state
    }
}

/// The trail after a sample was added: the oldest makes way when it is full.
pub open spec fn trail_after(trail: Seq<TrailPoint>, point: TrailPoint) -> Seq<TrailPoint> {
    (if trail.len() == TRAIL_CAP {
        trail.drop_first()
    } else {
        trail
    }).push(point)
}

/// The trail after the finger of a slot, if there is one, left a sample.
pub open spec fn traced(
    trail: Seq<TrailPoint>,
    slot: u8,
    finger: Option<FingerData>,
    now: u64,
) -> Seq<TrailPoint> {
    match finger {
        Some(f) => trail_after(trail, TrailPoint { slot, x: f.x, y: f.y, stamp: now }),
        None => trail,
    }
}

/// The afterglow deadlines after a transition, where the first `n` buttons have
/// been looked at: a pressed button no longer glows, a released one glows for
/// [`BUTTON_AFTERGLOW`].
pub open spec fn glow_after(
    glow: Map<u16, u64>,
    pressed: u16,
    released: u16,
    now: u64,
    n: int,
) -> Map<u16, u64>
    decreases n,
{
    if n <= 0 {
        glow
    } else {
        let before = glow_after(glow, pressed, released, now, n - 1);
        let bit = BITS@[n - 1];
        if pressed & bit != 0 {
            before.remove(bit)
        } else if released & bit != 0 {
            before.insert(bit, (now + BUTTON_AFTERGLOW) as u64)
        } else {
            before
        }
    }
}

/// The afterglow deadlines that are still ahead.
pub open spec fn still_glowing(glow: Map<u16, u64>, now: u64) -> Map<u16, u64> {
    Map::new(|k: u16| glow.dom().contains(k) && glow[k] > now, |k: u16| glow[k])
}

/// The label of a power state.
pub open spec fn power_label_text(state: PowerState) -> Seq<char> {
    match state {
        PowerState::Charging => "charging"@,
        PowerState::Discharging => "discharging"@,
        PowerState::PluggedIn => "plugged-in"@,
        PowerState::Unknown(_) => "unknown"@,
    }
}

/// The label of a power state.
pub fn power_label(state: PowerState) -> (label: &'static str)
    ensures
        label@ == power_label_text(state),
{
    match state {
        PowerState::Charging => "charging",
        PowerState::Discharging => "discharging",
        PowerState::PluggedIn => "plugged-in",
        PowerState::Unknown(_) => "unknown",
    }
}

/// A dashboard that has just begun to connect.
pub open spec fn fresh(selection: SelectionView, calibration: Calibration, now: u64) -> AppView {
    AppView {
        connection: ConnView::Connecting { since: now },
        selection,
        battery: None,
        power: None,
        buttons_mask: 0,
        button_afterglow: Map::empty(),
        touch_active: false,
        touch_trail: Seq::empty(),
        last_touch: None,
        events: Seq::empty(),
        calibration,
        calibration_session: None,
    }
}

/// The state after a device event.
pub open spec fn event_applied(state: AppView, ev: DeviceEvent, now: u64) -> AppView {
    match ev {
        DeviceEvent::Battery { value, .. } => logged(
            AppView { battery: Some(value), ..state },
            EventSource::Battery,
            "battery="@ + dec(value as nat) + "%"@,
            now,
        ),
        DeviceEvent::Power { state: power, .. } => logged(
            AppView { power: Some(power), ..state },
            EventSource::Power,
            "power="@ + power_label_text(power),
            now,
        ),
        DeviceEvent::Buttons { mask, pressed, released, .. } => {
            let after = AppView {
                button_afterglow: glow_after(state.button_afterglow, pressed, released, now, 16),
                buttons_mask: mask,
                ..state
            };
            if pressed != 0 || released != 0 {
                logged(
                    after,
                    EventSource::Buttons,
                    "mask=0x"@ + hex4_upper(mask) + " pressed=0x"@ + hex4_upper(pressed)
                        + " released=0x"@ + hex4_upper(released),
                    now,
                )
            } else {
                after
            }
        },
        DeviceEvent::Touch { event, .. } => if fingers_in(event.points@) == 0 {
            AppView {
                touch_active: false,
                touch_trail: Seq::empty(),
                last_touch: Some(event),
                ..state
            }
        } else {
            AppView {
                touch_active: true,
                touch_trail: traced(
                    traced(state.touch_trail, 1, event.points@[0], now),
                    2,
                    event.points@[1],
                    now,
                ),
                last_touch: Some(event),
                ..state
            }
        },
        DeviceEvent::UnknownInput { report_id, payload } => logged(
            state,
            EventSource::Raw,
            "report_id=0x"@ + hex2_upper(report_id) + " len="@ + dec(payload@.len()),
            now,
        ),
        DeviceEvent::UnknownOther { uuid, payload } => logged(
            state,
            EventSource::Raw,
            "uuid="@ + uuid_form(uuid) + " len="@ + dec(payload@.len()),
            now,
        ),
    }
}

/// The panel colour class of a log record: warnings and errors stand out.
pub open spec fn log_source(level: Level) -> EventSource {
    match level {
        Level::Warn | Level::Error => EventSource::Warning,
        _ => EventSource::System,
    }
}

impl AppState {
    /// The bounds that the state keeps.
    pub open spec fn wf(&self) -> bool {
        within_bounds(self@)
    }

    /// A dashboard that has just begun to connect.
    pub fn new(selection: Selection, calibration: Calibration, now: u64) -> (state: Self)
        ensures
            state.wf(),
            state@ == fresh(selection@, calibration, now),
    {
        broadcast use group_hash_axioms;

        let state = Self {
            connection: ConnState::Connecting { since: now },
            selection,
            battery: None,
            power: None,
            buttons_mask: 0,
            button_afterglow: HashMap::new(),
            touch_active: false,
            touch_trail: VecDeque::with_capacity(TRAIL_CAP),
            last_touch: None,
            events: VecDeque::with_capacity(EVENT_LOG_CAP),
            calibration,
            calibration_session: None,
        };
        assert(state@.events =~= Seq::empty());
        state
    }

    pub fn set_connection(&mut self, connection: ConnState)
        ensures
            final(self)@ == (AppView { connection: connection@, ..old(self)@ }),
    {
        self.connection = connection;
    }

    /// Whether a calibration is running.
    pub fn is_calibrating(&self) -> (r: bool)
        ensures
            r == self@.calibration_session is Some,
    {
        self.calibration_session.is_some()
    }

    /// Append a line to the events panel.
    pub fn push_log(&mut self, source: EventSource, text: String, now: u64)
        ensures
            final(self)@ == logged(old(self)@, source, text@, now),
            old(self).wf() ==> final(self).wf(),
    {
        if self.events.len() == EVENT_LOG_CAP {
            let _ = self.events.pop_front();
            assert(line_views(self.events@) =~= line_views(old(self).events@).drop_first());
        }
        let ghost kept = self.events@;
        let line = EventLine { stamp: now, source, text };
        let ghost said = line@;
        self.events.push_back(line);
        assert(line_views(self.events@) =~= line_views(kept).push(said));
    }

    /// Add the sample of a slot to the trail, where the slot has a finger.
    fn trace(&mut self, slot: u8, finger: &Option<FingerData>, now: u64)
        ensures
            final(self)@ == (AppView {
                touch_trail: traced(old(self)@.touch_trail, slot, *finger, now),
                ..old(self)@
            }),
    {
        if let Some(f) = finger {
            if self.touch_trail.len() == TRAIL_CAP {
                let _ = self.touch_trail.pop_front();
                assert(self.touch_trail@ =~= old(self).touch_trail@.drop_first());
            }
            self.touch_trail.push_back(TrailPoint { slot, x: f.x, y: f.y, stamp: now });
        }
    }

    /// Note the buttons that were released and forget those that were pressed.
    fn glow(&mut self, pressed: u16, released: u16, now: u64)
        requires
            now + BUTTON_AFTERGLOW <= u64::MAX,
        ensures
            final(self)@ == (AppView {
                button_afterglow: glow_after(
                    old(self)@.button_afterglow,
                    pressed,
                    released,
                    now,
                    16,
                ),
                ..old(self)@
            }),
    {
        broadcast use group_hash_axioms;

        let mut i: usize = 0;
        while i < 16
            invariant
                i <= 16,
                now + BUTTON_AFTERGLOW <= u64::MAX,
                self@ == (AppView {
                    button_afterglow: glow_after(
                        old(self)@.button_afterglow,
                        pressed,
                        released,
                        now,
                        i as int,
                    ),
                    ..old(self)@
                }),
            decreases 16 - i,
        {
            let bit: u16 = BITS[i];
            let ghost before = self.button_afterglow@;
            if released & bit != 0 {
                self.button_afterglow.insert(bit, now + BUTTON_AFTERGLOW);
            }
            // While held, the held state takes priority: a stale entry would
            // make the button fade midway through a long press.
            if pressed & bit != 0 {
                self.button_afterglow.remove(&bit);
                assert(self.button_afterglow@ =~= before.remove(bit));
            }
            i = i + 1;
        }
    }

    /// Apply one decoded event to the state.
    pub fn on_event(&mut self, ev: DeviceEvent, now: u64)
        requires
            old(self).wf(),
            now + BUTTON_AFTERGLOW <= u64::MAX,
        ensures
            final(self).wf(),
            final(self)@ == event_applied(old(self)@, ev, now),
    {
        match ev {
            DeviceEvent::Battery { value, .. } => {
                self.battery = Some(value);
                let mut text = "battery=".to_owned();
                push_dec(&mut text, value as u64);
                text.append("%");
                self.push_log(EventSource::Battery, text, now);
            },
            DeviceEvent::Power { state, .. } => {
                self.power = Some(state);
                let mut text = "power=".to_owned();
                text.append(power_label(state));
                self.push_log(EventSource::Power, text, now);
            },
            DeviceEvent::Buttons { mask, pressed, released, .. } => {
                proof {
                    lemma_glow_bits(self@.button_afterglow, pressed, released, now, 16);
                }
                self.glow(pressed, released, now);
                self.buttons_mask = mask;
                if pressed != 0 || released != 0 {
                    let mut text = "mask=0x".to_owned();
                    push_hex4_upper(&mut text, mask);
                    text.append(" pressed=0x");
                    push_hex4_upper(&mut text, pressed);
                    text.append(" released=0x");
                    push_hex4_upper(&mut text, released);
                    self.push_log(EventSource::Buttons, text, now);
                }
            },
            DeviceEvent::Touch { event, .. } => {
                if event.finger_count() == 0 {
                    // Release: drop the trail and keep the frame.
                    self.touch_active = false;
                    self.touch_trail.clear();
                    self.last_touch = Some(event);
                } else {
                    self.touch_active = true;
                    self.trace(1, &event.points[0], now);
                    self.trace(2, &event.points[1], now);
                    self.last_touch = Some(event);
                }
            },
            DeviceEvent::UnknownInput { report_id, payload } => {
                let mut text = "report_id=0x".to_owned();
                push_hex2_upper(&mut text, report_id);
                text.append(" len=");
                push_dec(&mut text, payload.len() as u64);
                self.push_log(EventSource::Raw, text, now);
            },
            DeviceEvent::UnknownOther { uuid, payload } => {
                let mut text = "uuid=".to_owned();
                text.append(uuid_text(uuid).as_str());
                text.append(" len=");
                push_dec(&mut text, payload.len() as u64);
                self.push_log(EventSource::Raw, text, now);
            },
        }
    }

    /// Drop afterglow entries past their deadline. Called on every tick.
    pub fn tick_afterglow(&mut self, now: u64)
        requires
            old(self).wf(),
        ensures
            final(self).wf(),
            final(self)@ == (AppView {
                button_afterglow: still_glowing(old(self)@.button_afterglow, now),
                ..old(self)@
            }),
    {
        broadcast use group_hash_axioms;

        let mut i: usize = 0;
        while i < 16
            invariant
                i <= 16,
                old(self).wf(),
                self@ == (AppView { button_afterglow: self@.button_afterglow, ..old(self)@ }),
                forall|k: u16|
                    #[trigger] self@.button_afterglow.dom().contains(k) ==> old(
                        self,
                    )@.button_afterglow.dom().contains(k) && self@.button_afterglow[k] == old(
                        self,
                    )@.button_afterglow[k],
                forall|k: u16|
                    #[trigger] old(self)@.button_afterglow.dom().contains(k) ==> (
                    self@.button_afterglow.dom().contains(k) || old(self)@.button_afterglow[k]
                        <= now),
                forall|j: int|
                    0 <= j < i && self@.button_afterglow.dom().contains(#[trigger] BITS@[j])
                        ==> self@.button_afterglow[BITS@[j]] > now,
            decreases 16 - i,
        {
            let bit: u16 = BITS[i];
            let over = match self.button_afterglow.get(&bit) {
                Some(deadline) => *deadline <= now,
                None => false,
            };
            if over {
                self.button_afterglow.remove(&bit);
            }
            i = i + 1;
        }
        let ghost kept = self@.button_afterglow;
        let ghost goal = still_glowing(old(self)@.button_afterglow, now);
        assert forall|k: u16| #[trigger] kept.dom().contains(k) == goal.dom().contains(k) by {
            if kept.dom().contains(k) {
                assert(is_bit(k));
                let j = choose|j: int| 0 <= j < 16 && k == #[trigger] BITS@[j];
                assert(kept[BITS@[j]] > now);
            }
        }
        assert(kept =~= goal);
    }

    /// Route a log record into the events panel.
    pub fn on_log(&mut self, record: LogRecord, now: u64)
        requires
            old(self).wf(),
        ensures
            final(self).wf(),
            final(self)@ == logged(old(self)@, log_source(record.level), record.message@, now),
    {
        let source = match record.level {
            Level::Warn | Level::Error => EventSource::Warning,
            _ => EventSource::System,
        };
        self.push_log(source, record.message, now);
    }
}

proof fn lemma_glow_bits(glow: Map<u16, u64>, pressed: u16, released: u16, now: u64, n: int)
    requires
        0 <= n <= 16,
        forall|k: u16| #[trigger] glow.dom().contains(k) ==> is_bit(k),
    ensures
        forall|k: u16|
            #[trigger] glow_after(glow, pressed, released, now, n).dom().contains(k) ==> is_bit(k),
    decreases n,
{
    if n > 0 {
        lemma_glow_bits(glow, pressed, released, now, n - 1);
        let before = glow_after(glow, pressed, released, now, n - 1);
        let after = glow_after(glow, pressed, released, now, n);
        assert(is_bit(BITS@[n - 1]));
        assert forall|k: u16| #[trigger] after.dom().contains(k) implies is_bit(k) by {
            assert(k == BITS@[n - 1] || before.dom().contains(k));
        }
    }
}

// -- Laws ---------------------------------------------------------------------

proof fn lemma_bits_ascend(i: int, j: int)
    requires
        0 <= i < j < 16,
    ensures
        BITS@[i] < BITS@[j],
{
}

proof fn lemma_glow(glow: Map<u16, u64>, pressed: u16, released: u16, now: u64, n: int, j: int)
    requires
        0 <= n <= 16,
        0 <= j < 16,
        now + BUTTON_AFTERGLOW <= u64::MAX,
    ensures
        ({
            let after = glow_after(glow, pressed, released, now, n);
            let k = BITS@[j];
            if j < n && pressed & k != 0 {
                !after.dom().contains(k)
            } else if j < n && released & k != 0 {
                after.dom().contains(k) && after[k] == now + BUTTON_AFTERGLOW
            } else {
                &&& after.dom().contains(k) == glow.dom().contains(k)
                &&& after.dom().contains(k) ==> after[k] == glow[k]
            }
        }),
    decreases n,
{
    if n > 0 {
        lemma_glow(glow, pressed, released, now, n - 1, j);
        if j < n - 1 {
            lemma_bits_ascend(j, n - 1);
        } else if j > n - 1 {
            lemma_bits_ascend(n - 1, j);
        }
    }
}

/// After a transition a pressed button does not glow, a released one glows for
/// [`BUTTON_AFTERGLOW`], and any other is as before.
pub proof fn law_afterglow(glow: Map<u16, u64>, pressed: u16, released: u16, now: u64, bit: u16)
    requires
        is_bit(bit),
        now + BUTTON_AFTERGLOW <= u64::MAX,
    ensures
        ({
            let after = glow_after(glow, pressed, released, now, 16);
            if pressed & bit != 0 {
                !after.dom().contains(bit)
            } else if released & bit != 0 {
                after.dom().contains(bit) && after[bit] == now + BUTTON_AFTERGLOW
            } else {
                &&& after.dom().contains(bit) == glow.dom().contains(bit)
                &&& after.dom().contains(bit) ==> after[bit] == glow[bit]
            }
        }),
{
    let j = choose|j: int| 0 <= j < 16 && bit == #[trigger] BITS@[j];
    lemma_glow(glow, pressed, released, now, 16, j);
}

/// A released button stops glowing: no tick at or after its deadline leaves it.
pub proof fn law_afterglow_ends(
    glow: Map<u16, u64>,
    pressed: u16,
    released: u16,
    now: u64,
    bit: u16,
    later: u64,
)
    requires
        is_bit(bit),
        released & bit != 0,
        now + BUTTON_AFTERGLOW <= later,
    ensures
        !still_glowing(glow_after(glow, pressed, released, now, 16), later).dom().contains(bit),
{
    law_afterglow(glow, pressed, released, now, bit);
}

/// The state after device events, each with its time.
pub open spec fn events_applied(state: AppView, history: Seq<(DeviceEvent, u64)>) -> AppView
    decreases history.len(),
{
    if history.len() == 0 {
        state
    } else {
        event_applied(
            events_applied(state, history.drop_last()),
            history.last().0,
            history.last().1,
        )
    }
}

/// The battery level that was reported last.
pub open spec fn latest_battery(history: Seq<(DeviceEvent, u64)>) -> Option<u8>
    decreases history.len(),
{
    if history.len() == 0 {
        None
    } else {
        match history.last().0 {
            DeviceEvent::Battery { value, .. } => Some(value),
            _ => latest_battery(history.drop_last()),
        }
    }
}

/// The power state that was reported last.
pub open spec fn latest_power(history: Seq<(DeviceEvent, u64)>) -> Option<PowerState>
    decreases history.len(),
{
    if history.len() == 0 {
        None
    } else {
        match history.last().0 {
            DeviceEvent::Power { state, .. } => Some(state),
            _ => latest_power(history.drop_last()),
        }
    }
}

/// The button mask that was reported last, zero before the first.
pub open spec fn latest_mask(history: Seq<(DeviceEvent, u64)>) -> u16
    decreases history.len(),
{
    if history.len() == 0 {
        0
    } else {
        match history.last().0 {
            DeviceEvent::Buttons { mask, .. } => mask,
            _ => latest_mask(history.drop_last()),
        }
    }
}

/// The touch frame that was reported last.
pub open spec fn latest_touch(history: Seq<(DeviceEvent, u64)>) -> Option<TouchEvent>
    decreases history.len(),
{
    if history.len() == 0 {
        None
    } else {
        match history.last().0 {
            DeviceEvent::Touch { event, .. } => Some(event),
            _ => latest_touch(history.drop_last()),
        }
    }
}

/// Whatever events a dashboard has seen, it stays within its bounds and shows
/// the latest of each reading. Touch is active exactly while the latest frame
/// holds a finger, and there is a trail only then.
pub proof fn law_state_follows_events(
    selection: SelectionView,
    calibration: Calibration,
    start: u64,
    history: Seq<(DeviceEvent, u64)>,
)
    ensures
        ({
            let state = events_applied(fresh(selection, calibration, start), history);
            &&& within_bounds(state)
            &&& state.battery == latest_battery(history)
            &&& state.power == latest_power(history)
            &&& state.buttons_mask == latest_mask(history)
            &&& state.last_touch == latest_touch(history)
            &&& state.touch_active == touches(latest_touch(history))
            &&& state.touch_trail.len() > 0 ==> state.touch_active
        }),
    decreases history.len(),
{
    if history.len() > 0 {
        law_state_follows_events(selection, calibration, start, history.drop_last());
        let before = events_applied(fresh(selection, calibration, start), history.drop_last());
        let (ev, now) = history.last();
        if let DeviceEvent::Buttons { pressed, released, .. } = ev {
            lemma_glow_bits(before.button_afterglow, pressed, released, now, 16);
        }
    }
}

/// A button report without transitions leaves no line in the log.
pub proof fn law_refresh_logs_nothing(state: AppView, ev: DeviceEvent, now: u64)
    requires
        ev matches DeviceEvent::Buttons { pressed, released, .. } && pressed == 0 && released == 0,
    ensures
        event_applied(state, ev, now).events == state.events,
{
}

/// The log is bounded and ends in the newest line; nothing is lost while there
/// is room, and then the oldest line goes first.
pub proof fn law_log_bounded(log: Seq<EventLineView>, line: EventLineView)
    requires
        log.len() <= EVENT_LOG_CAP,
    ensures
        log_after(log, line).len() <= EVENT_LOG_CAP,
        log_after(log, line).last() == line,
        log.len() < EVENT_LOG_CAP ==> log_after(log, line) == log.push(line),
        log.len() == EVENT_LOG_CAP ==> log_after(log, line) == log.drop_first().push(line),
{
}

/// The trail is bounded, and a touch leaves its newest sample at the end; when
/// the trail is full the oldest goes first.
pub proof fn law_trail_bounded(
    trail: Seq<TrailPoint>,
    slot: u8,
    finger: Option<FingerData>,
    now: u64,
)
    requires
        trail.len() <= TRAIL_CAP,
    ensures
        traced(trail, slot, finger, now).len() <= TRAIL_CAP,
        finger matches Some(f) ==> traced(trail, slot, finger, now).last() == (TrailPoint {
            slot,
            x: f.x,
            y: f.y,
            stamp: now,
        }),
        finger is Some && trail.len() == TRAIL_CAP ==> traced(trail, slot, finger, now).drop_last()
            == trail.drop_first(),
        finger is Some && trail.len() < TRAIL_CAP ==> traced(trail, slot, finger, now).drop_last()
            == trail,
        finger is None ==> traced(trail, slot, finger, now) == trail,
{
}

/// The last line of the log after something was logged: when, from where, and
/// what. Nothing else changes.
pub proof fn law_line_is_logged(state: AppView, source: EventSource, text: Seq<char>, now: u64)
    ensures
        logged(state, source, text, now).events.len() > 0,
        logged(state, source, text, now).events.last() == (EventLineView {
            stamp: now,
            source,
            text,
        }),
        logged(state, source, text, now) == (AppView {
            events: logged(state, source, text, now).events,
            ..state
        }),
{
}

/// What a battery or power event changes: its reading, and the log by one line
/// that tells it.
pub proof fn law_readings_are_shown(state: AppView, ev: DeviceEvent, now: u64)
    ensures
        ev matches DeviceEvent::Battery { value, .. } ==> {
            let after = event_applied(state, ev, now);
            &&& after.battery == Some(value)
            &&& after == (AppView { battery: Some(value), events: after.events, ..state })
            &&& after.events.last() == (EventLineView {
                stamp: now,
                source: EventSource::Battery,
                text: "battery="@ + dec(value as nat) + "%"@,
            })
        },
        ev matches DeviceEvent::Power { state: power, .. } ==> {
            let after = event_applied(state, ev, now);
            &&& after.power == Some(power)
            &&& after == (AppView { power: Some(power), events: after.events, ..state })
            &&& after.events.last().source is Power
            &&& after.events.last().stamp == now
            &&& power is Charging ==> after.events.last().text == "power="@ + "charging"@
            &&& power is Discharging ==> after.events.last().text == "power="@ + "discharging"@
            &&& power is PluggedIn ==> after.events.last().text == "power="@ + "plugged-in"@
            &&& power is Unknown ==> after.events.last().text == "power="@ + "unknown"@
        },
        ev matches DeviceEvent::UnknownInput { report_id, payload } ==> {
            let after = event_applied(state, ev, now);
            &&& after == (AppView { events: after.events, ..state })
            &&& after.events.last() == (EventLineView {
                stamp: now,
                source: EventSource::Raw,
                text: "report_id=0x"@ + hex2_upper(report_id) + " len="@ + dec(payload@.len()),
            })
        },
        ev matches DeviceEvent::UnknownOther { uuid, payload } ==> {
            let after = event_applied(state, ev, now);
            &&& after == (AppView { events: after.events, ..state })
            &&& after.events.last() == (EventLineView {
                stamp: now,
                source: EventSource::Raw,
                text: "uuid="@ + uuid_form(uuid) + " len="@ + dec(payload@.len()),
            })
        },
{
}

/// What a button event changes: the mask, the afterglow, and the log where
/// something went down or up.
pub proof fn law_buttons_are_shown(
    state: AppView,
    ev: DeviceEvent,
    now: u64,
    mask: u16,
    pressed: u16,
    released: u16,
)
    requires
        ev matches DeviceEvent::Buttons { mask: m, pressed: p, released: r, .. } && m == mask && p
            == pressed && r == released,
    ensures
        ({
            let after = event_applied(state, ev, now);
            &&& after.buttons_mask == mask
            &&& after == (AppView {
                buttons_mask: mask,
                button_afterglow: after.button_afterglow,
                events: after.events,
                ..state
            })
            &&& after.button_afterglow == glow_after(
                state.button_afterglow,
                pressed,
                released,
                now,
                16,
            )
            &&& pressed != 0 || released != 0 ==> after.events.last() == (EventLineView {
                stamp: now,
                source: EventSource::Buttons,
                text: "mask=0x"@ + hex4_upper(mask) + " pressed=0x"@ + hex4_upper(pressed)
                    + " released=0x"@ + hex4_upper(released),
            })
        }),
{
}

/// What a touch changes: a frame with fingers leaves a sample of each at its
/// place, slot 1 before slot 2; one without clears the trail.
pub proof fn law_touches_are_traced(state: AppView, ev: DeviceEvent, now: u64)
    requires
        state.touch_trail.len() + 2 <= TRAIL_CAP,
    ensures
        ev matches DeviceEvent::Touch { event, .. } ==> {
            let after = event_applied(state, ev, now);
            let trail = state.touch_trail;
            let (a, b) = (event.points@[0], event.points@[1]);
            &&& after == (AppView {
                touch_active: after.touch_active,
                touch_trail: after.touch_trail,
                last_touch: Some(event),
                ..state
            })
            &&& after.touch_active <==> a is Some || b is Some
            &&& a is None && b is None ==> after.touch_trail.len() == 0
            &&& a is Some && b is None ==> after.touch_trail == trail.push(
                TrailPoint { slot: 1, x: (a->0).x, y: (a->0).y, stamp: now },
            )
            &&& a is None && b is Some ==> after.touch_trail == trail.push(
                TrailPoint { slot: 2, x: (b->0).x, y: (b->0).y, stamp: now },
            )
            &&& a is Some && b is Some ==> after.touch_trail == trail.push(
                TrailPoint { slot: 1, x: (a->0).x, y: (a->0).y, stamp: now },
            ).push(TrailPoint { slot: 2, x: (b->0).x, y: (b->0).y, stamp: now })
        },
{
}

/// A button glows until its deadline, and ticks take nothing else away.
pub proof fn law_tick_keeps_what_glows(glow: Map<u16, u64>, now: u64, bit: u16)
    ensures
        still_glowing(glow, now).dom().contains(bit) <==> glow.dom().contains(bit) && glow[bit]
            > now,
        still_glowing(glow, now).dom().contains(bit) ==> still_glowing(glow, now)[bit] == glow[bit],
{
}

/// Warnings and errors stand out in the log; other records are the system's.
pub proof fn law_warnings_stand_out(level: Level)
    ensures
        level is Warn || level is Error ==> log_source(level) is Warning,
        level is Info || level is Debug || level is Trace ==> log_source(level) is System,
{
}

/// A fresh dashboard is connecting and has no reading yet.
pub proof fn law_fresh_dashboard(selection: SelectionView, calibration: Calibration, now: u64)
    ensures
        ({
            let s = fresh(selection, calibration, now);
            &&& s.connection == (ConnView::Connecting { since: now })
            &&& s.selection == selection && s.calibration == calibration
            &&& s.battery is None && s.power is None && s.buttons_mask == 0
            &&& s.touch_trail.len() == 0 && !s.touch_active && s.last_touch is None
            &&& s.events.len() == 0 && s.calibration_session is None
            &&& s.button_afterglow == Map::<u16, u64>::empty()
        }),
{
}

} // verus!
