//! Translation of remote events into input events.
//!
//! Callers own the list of input events and clear it per frame. Each method
//! only adds components that actually changed, so a stationary finger or a
//! repeated button mask produces an empty batch and no kernel write.
//!
//! Shaping a deflection of the stick takes real numbers and is left to the
//! caller: a touch frame that moves the stick says from where to where, and
//! [`PadState::deflect`] takes the outcome.

use vstd::prelude::*;

use crate::calibration::Calibration;
use crate::contact::{frame_of, Contact, ContactFrame};
use crate::gamepad::config::{GamepadConfig, HatDir, StickMode, Target};
use crate::gamepad::pad::{
    law_pad_keys_ascend, InputEvent, ABS_HAT0X, ABS_HAT0Y, ABS_X, ABS_Y, EV_ABS, EV_KEY, PAD_KEYS,
};
use crate::session::DeviceEvent;

verus! {

// -- Buttons ------------------------------------------------------------------

/// Whether the mask holds down a button that drives the key.
pub open spec fn key_down(buttons: Seq<(u16, Target)>, mask: u16, code: u16) -> bool {
    exists|i: int|
        0 <= i < buttons.len() && mask & (#[trigger] buttons[i]).0 != 0 && buttons[i].1
            == Target::Key(code)
}

/// How far one target pushes the hat sideways.
pub open spec fn push_x(target: Target) -> int {
    match target {
        Target::Hat(HatDir::Left) => -1,
        Target::Hat(HatDir::Right) => 1,
        _ => 0,
    }
}

/// How far one target pushes the hat downwards.
pub open spec fn push_y(target: Target) -> int {
    match target {
        Target::Hat(HatDir::Up) => -1,
        Target::Hat(HatDir::Down) => 1,
        _ => 0,
    }
}

/// The pushes of the held buttons among the first `n`, added up.
pub open spec fn pushes(
    buttons: Seq<(u16, Target)>,
    mask: u16,
    n: int,
    push: spec_fn(Target) -> int,
) -> int
    decreases n,
{
    if n <= 0 {
        0
    } else {
        pushes(buttons, mask, n - 1, push) + if mask & buttons[n - 1].0 != 0 {
            push(buttons[n - 1].1)
        } else {
            0
        }
    }
}

/// A sum limited to -1, 0 or 1.
pub open spec fn sign(sum: int) -> int {
    if sum < -1 {
        -1
    } else if sum > 1 {
        1
    } else {
        sum
    }
}

/// Where the mask puts the hat. Opposite directions cancel.
pub open spec fn hat_for(buttons: Seq<(u16, Target)>, mask: u16) -> (i32, i32) {
    (
        sign(pushes(buttons, mask, buttons.len() as int, |t: Target| push_x(t))) as i32,
        sign(pushes(buttons, mask, buttons.len() as int, |t: Target| push_y(t))) as i32,
    )
}

/// Which keys of the pad the mask holds down.
pub open spec fn keys_for(buttons: Seq<(u16, Target)>, mask: u16) -> Seq<bool> {
    Seq::new(11, |i: int| key_down(buttons, mask, PAD_KEYS@[i]))
}

// -- Changes ------------------------------------------------------------------

/// A key event.
pub open spec fn key_event(code: u16, down: bool) -> InputEvent {
    InputEvent {
        event_type: EV_KEY,
        code,
        value: if down {
            1
        } else {
            0
        },
    }
}

/// An axis event.
pub open spec fn axis_event(code: u16, value: i32) -> InputEvent {
    InputEvent { event_type: EV_ABS, code, value }
}

/// One event for each of the first `n` keys that changed, in order.
pub open spec fn key_changes(before: Seq<bool>, after: Seq<bool>, n: int) -> Seq<InputEvent>
    decreases n,
{
    if n <= 0 {
        seq![]
    } else {
        let earlier = key_changes(before, after, n - 1);
        if before[n - 1] != after[n - 1] {
            earlier.push(key_event(PAD_KEYS@[n - 1], after[n - 1]))
        } else {
            earlier
        }
    }
}

/// One event for each of two axes that changed.
pub open spec fn axis_changes(
    code_x: u16,
    code_y: u16,
    before: (i32, i32),
    after: (i32, i32),
) -> Seq<InputEvent> {
    (if before.0 != after.0 {
        seq![axis_event(code_x, after.0)]
    } else {
        seq![]
    }) + (if before.1 != after.1 {
        seq![axis_event(code_y, after.1)]
    } else {
        seq![]
    })
}

// -- Touch --------------------------------------------------------------------

/// A point of the pad, counted from its bottom left corner, or the spans of
/// the pad.
#[derive(Clone, Copy, Debug, PartialEq, Eq, Structural)]
pub struct PadPoint {
    pub x: i64,
    pub y: i64,
}

/// A value held within `0..=span`.
pub open spec fn within(value: int, span: int) -> int {
    if value < 0 {
        0
    } else if value > span {
        span
    } else {
        value
    }
}

/// Whether the calibration spans an area.
pub open spec fn has_area(cal: Calibration) -> bool {
    cal.x_max > cal.x_min && cal.y_max > cal.y_min
}

/// The spans of the pad.
pub open spec fn span_of(cal: Calibration) -> PadPoint {
    PadPoint { x: (cal.x_max - cal.x_min) as i64, y: (cal.y_max - cal.y_min) as i64 }
}

/// Where on the pad a contact lies. A contact beyond the calibrated area counts
/// as on its edge: the stick never goes past full scale.
pub open spec fn point_of(contact: Contact, cal: Calibration) -> PadPoint {
    PadPoint {
        x: within(contact.x - cal.x_min, cal.x_max - cal.x_min) as i64,
        y: within(contact.y - cal.y_min, cal.y_max - cal.y_min) as i64,
    }
}

fn hold_within(value: i64, span: i64) -> (v: i64)
    requires
        span >= 0,
    ensures
        v == within(value as int, span as int),
{
    if value < 0 {
        0
    } else if value > span {
        span
    } else {
        value
    }
}

fn normalize(contact: &Contact, cal: &Calibration) -> (point: Option<PadPoint>)
    ensures
        point == if has_area(*cal) {
            Some(point_of(*contact, *cal))
        } else {
            None
        },
{
    let xs: i64 = cal.x_max as i64 - cal.x_min as i64;
    let ys: i64 = cal.y_max as i64 - cal.y_min as i64;
    if xs <= 0 || ys <= 0 {
        return None;
    }
    Some(
        PadPoint {
            x: hold_within(contact.x as i64 - cal.x_min as i64, xs),
            y: hold_within(contact.y as i64 - cal.y_min as i64, ys),
        },
    )
}

/// What a touch frame asks of the stick.
#[derive(Clone, Copy, Debug, PartialEq, Eq, Structural)]
pub enum StickMotion {
    /// Nothing more: the stick was centred, or holds its place.
    Settled,
    /// The position on the pad, as a share of the spans, is the deflection.
    At { point: PadPoint, span: PadPoint },
    /// The displacement from the origin, as a share of the spans and over the
    /// stick radius, is the deflection.
    Displaced { origin: PadPoint, point: PadPoint, span: PadPoint },
}

/// The contact that moves the stick: the finger in slot 1 unless it hovers. A
/// hover frame is not contact: taking it as one would capture the origin before
/// the finger lands. Slot 2 is ignored.
pub open spec fn steering(frame: ContactFrame) -> Option<Contact> {
    match frame.points@[0] {
        Some(c) if !c.hover => Some(c),
        _ => None,
    }
}

/// The origin after a touch frame: in relative mode the point of touch-down,
/// until the finger leaves.
pub open spec fn origin_after(
    frame: ContactFrame,
    mode: StickMode,
    cal: Calibration,
    before: Option<PadPoint>,
) -> Option<PadPoint> {
    match steering(frame) {
        Some(c) => if has_area(cal) && mode is Relative && before is None {
            Some(point_of(c, cal))
        } else {
            before
        },
        None => None,
    }
}

/// What a touch frame asks of the stick.
pub open spec fn motion_for(
    frame: ContactFrame,
    mode: StickMode,
    cal: Calibration,
    before: Option<PadPoint>,
) -> StickMotion {
    match steering(frame) {
        Some(c) if has_area(cal) => match mode {
            StickMode::Absolute => StickMotion::At { point: point_of(c, cal), span: span_of(cal) },
            StickMode::Relative => StickMotion::Displaced {
                origin: origin_after(frame, mode, cal, before)->0,
                point: point_of(c, cal),
                span: span_of(cal),
            },
        },
        _ => StickMotion::Settled,
    }
}

/// Whether a pad has taken a button mask: its keys and hat follow the mask, and
/// all else is as before.
pub open spec fn buttons_taken(before: PadView, mask: u16, after: PadView) -> bool {
    after == (PadView {
        keys: keys_for(before.cfg.buttons@, mask),
        hat: hat_for(before.cfg.buttons@, mask),
        ..before
    })
}

/// Whether a pad has taken a touch frame: the stick is centred where nothing
/// steers it, the origin follows the touch, and all else is as before.
pub open spec fn touch_taken(
    before: PadView,
    frame: ContactFrame,
    motion: StickMotion,
    after: PadView,
) -> bool {
    &&& motion == motion_for(frame, before.cfg.stick_mode, before.cal, before.origin)
    &&& after == (PadView {
        origin: origin_after(frame, before.cfg.stick_mode, before.cal, before.origin),
        axes: if steering(frame) is None {
            (0, 0)
        } else {
            before.axes
        },
        ..before
    })
}

// -- The translator -----------------------------------------------------------

/// What the virtual pad was last told, so unchanged frames produce an empty
/// batch, and the origin of a touch in relative mode.
pub struct PadState {
    cfg: GamepadConfig,
    cal: Calibration,
    origin: Option<PadPoint>,
    axes: (i32, i32),
    hat: (i32, i32),
    keys: [bool; 11],
}

/// What a [`PadState`] holds.
pub struct PadView {
    pub cfg: GamepadConfig,
    pub cal: Calibration,
    pub origin: Option<PadPoint>,
    pub axes: (i32, i32),
    pub hat: (i32, i32),
    pub keys: Seq<bool>,
}

impl View for PadState {
    type V = PadView;

    closed spec fn view(&self) -> PadView {
        PadView {
            cfg: self.cfg,
            cal: self.cal,
            origin: self.origin,
            axes: self.axes,
            hat: self.hat,
            keys: self.keys@,
        }
    }
}

/// A pad at rest: no key down, hat and stick centred, no touch.
pub open spec fn at_rest(cfg: GamepadConfig, cal: Calibration) -> PadView {
    PadView {
        cfg,
        cal,
        origin: None,
        axes: (0, 0),
        hat: (0, 0),
        keys: Seq::new(11, |i: int| false),
    }
}

/// Index of a key in [`PAD_KEYS`].
fn index_of(k: u16) -> (index: Option<usize>)
    ensures
        match index {
            Some(i) => i < 11 && PAD_KEYS@[i as int] == k,
            None => forall|i: int| 0 <= i < 11 ==> #[trigger] PAD_KEYS@[i] != k,
        },
{
    let mut i: usize = 0;
    while i < 11
        invariant
            i <= 11,
            forall|j: int| 0 <= j < i ==> #[trigger] PAD_KEYS@[j] != k,
        decreases 11 - i,
    {
        if PAD_KEYS[i] == k {
            return Some(i);
        }
        i = i + 1;
    }
    None
}

fn limit_to_sign(sum: i32) -> (v: i32)
    ensures
        v == sign(sum as int),
{
    if sum < -1 {
        -1
    } else if sum > 1 {
        1
    } else {
        sum
    }
}

impl PadState {
    /// A translator for a pad at rest.
    pub fn new(cfg: GamepadConfig, cal: Calibration) -> (st: Self)
        ensures
            st@ == at_rest(cfg, cal),
    {
        let st = Self {
            cfg,
            cal,
            origin: None,
            axes: (0, 0),
            hat: (0, 0),
            keys: [false; 11],
        };
        assert(st@.keys =~= Seq::new(11, |i: int| false));
        st
    }

    /// Which keys a mask holds down.
    fn wanted_keys(&self, mask: u16) -> (want: [bool; 11])
        ensures
            want@ == keys_for(self@.cfg.buttons@, mask),
    {
        let mut want: [bool; 11] = [false; 11];
        let ghost buttons = self.cfg.buttons@;
        let mut n: usize = 0;
        while n < 13
            invariant
                n <= 13,
                buttons == self.cfg.buttons@,
                want@.len() == 11,
                forall|k: int|
                    0 <= k < 11 ==> #[trigger] want@[k] == key_down(
                        buttons.take(n as int),
                        mask,
                        PAD_KEYS@[k],
                    ),
            decreases 13 - n,
        {
            let (bit, target) = self.cfg.buttons[n];
            let ghost shorter = buttons.take(n as int);
            let ghost longer = buttons.take(n + 1);
            let ghost before = want@;
            proof {
                assert(longer[n as int] == (bit, target));
                assert forall|code: u16| #[trigger] key_down(longer, mask, code) == (key_down(
                    shorter,
                    mask,
                    code,
                ) || (mask & bit != 0 && target == Target::Key(code))) by {
                    if key_down(shorter, mask, code) {
                        let i = choose|i: int|
                            0 <= i < shorter.len() && mask & (#[trigger] shorter[i]).0 != 0
                                && shorter[i].1 == Target::Key(code);
                        assert(longer[i] == shorter[i]);
                    }
                    if key_down(longer, mask, code) {
                        let i = choose|i: int|
                            0 <= i < longer.len() && mask & (#[trigger] longer[i]).0 != 0
                                && longer[i].1 == Target::Key(code);
                        if i < n {
                            assert(shorter[i] == longer[i]);
                        }
                    }
                }
            }
            if mask & bit != 0 {
                if let Target::Key(code) = target {
                    // Two bits may share a key, so a key once wanted stays so.
                    if let Some(i) = index_of(code) {
                        want[i] = true;
                        proof {
                            assert forall|k: int| 0 <= k < 11 implies #[trigger] want@[k]
                                == key_down(longer, mask, PAD_KEYS@[k]) by {
                                if k < i {
                                    law_pad_keys_ascend(k, i as int);
                                } else if k > i {
                                    law_pad_keys_ascend(i as int, k);
                                }
                                assert(key_down(longer, mask, PAD_KEYS@[k]) == (key_down(
                                    shorter,
                                    mask,
                                    PAD_KEYS@[k],
                                ) || PAD_KEYS@[k] == code));
                                assert(before[k] == key_down(shorter, mask, PAD_KEYS@[k]));
                            }
                        }
                    }
                }
            }
            n = n + 1;
        }
        assert(buttons.take(13) =~= buttons);
        assert(want@ =~= keys_for(buttons, mask));
        want
    }

    /// Where a mask puts the hat.
    fn wanted_hat(&self, mask: u16) -> (hat: (i32, i32))
        ensures
            hat == hat_for(self@.cfg.buttons@, mask),
    {
        let mut hx: i32 = 0;
        let mut hy: i32 = 0;
        let mut n: usize = 0;
        while n < 13
            invariant
                n <= 13,
                -n <= hx <= n,
                -n <= hy <= n,
                hx == pushes(self.cfg.buttons@, mask, n as int, |t: Target| push_x(t)),
                hy == pushes(self.cfg.buttons@, mask, n as int, |t: Target| push_y(t)),
            decreases 13 - n,
        {
            let (bit, target) = self.cfg.buttons[n];
            if mask & bit != 0 {
                match target {
                    Target::Hat(HatDir::Up) => {
                        hy = hy - 1;
                    },
                    Target::Hat(HatDir::Down) => {
                        hy = hy + 1;
                    },
                    Target::Hat(HatDir::Left) => {
                        hx = hx - 1;
                    },
                    Target::Hat(HatDir::Right) => {
                        hx = hx + 1;
                    },
                    _ => {},
                }
            }
            n = n + 1;
        }
        (limit_to_sign(hx), limit_to_sign(hy))
    }

    /// Fold one report-0xFB button mask into `out`.
    ///
    /// The full desired state is computed from `mask`: a button event also
    /// carries what was pressed and released, but both are zero on a
    /// state-refresh packet, so only `mask` is reliable.
    pub fn on_buttons(&mut self, mask: u16, out: &mut Vec<InputEvent>)
        ensures
            final(self)@ == (PadView {
                keys: keys_for(old(self)@.cfg.buttons@, mask),
                hat: hat_for(old(self)@.cfg.buttons@, mask),
                ..old(self)@
            }),
            final(out)@ == old(out)@ + key_changes(
                old(self)@.keys,
                keys_for(old(self)@.cfg.buttons@, mask),
                11,
            ) + axis_changes(
                ABS_HAT0X,
                ABS_HAT0Y,
                old(self)@.hat,
                hat_for(old(self)@.cfg.buttons@, mask),
            ),
            buttons_taken(old(self)@, mask, final(self)@),
    {
        let want = self.wanted_keys(mask);
        let (hx, hy) = self.wanted_hat(mask);
        self.push_keys(want, out);
        self.push_hat(hx, hy, out);
    }

    /// Fold one report-0xFC touch frame into `out`. A frame without contact
    /// centres the stick; on a degenerate calibration it holds its place. Any
    /// other frame says what deflection to compute and hand to
    /// [`Self::deflect`].
    pub fn on_touch(&mut self, frame: &ContactFrame, out: &mut Vec<InputEvent>) -> (motion:
        StickMotion)
        ensures
            motion == motion_for(
                *frame,
                old(self)@.cfg.stick_mode,
                old(self)@.cal,
                old(self)@.origin,
            ),
            final(self)@ == (PadView {
                origin: origin_after(
                    *frame,
                    old(self)@.cfg.stick_mode,
                    old(self)@.cal,
                    old(self)@.origin,
                ),
                axes: if steering(*frame) is None {
                    (0, 0)
                } else {
                    old(self)@.axes
                },
                ..old(self)@
            }),
            final(out)@ == old(out)@ + axis_changes(
                ABS_X,
                ABS_Y,
                old(self)@.axes,
                final(self)@.axes,
            ),
            touch_taken(old(self)@, *frame, motion, final(self)@),
    {
        let contact = match frame.points[0] {
            Some(c) => {
                if c.hover {
                    None
                } else {
                    Some(c)
                }
            },
            None => None,
        };
        match contact {
            Some(c) => {
                let point = match normalize(&c, &self.cal) {
                    Some(point) => point,
                    None => {
                        return StickMotion::Settled;
                    },
                };
                let span = PadPoint {
                    x: self.cal.x_max as i64 - self.cal.x_min as i64,
                    y: self.cal.y_max as i64 - self.cal.y_min as i64,
                };
                match self.cfg.stick_mode {
                    StickMode::Absolute => StickMotion::At { point, span },
                    StickMode::Relative => {
                        let origin = match self.origin {
                            Some(origin) => origin,
                            None => {
                                self.origin = Some(point);
                                point
                            },
                        };
                        StickMotion::Displaced { origin, point, span }
                    },
                }
            },
            None => {
                self.origin = None;
                self.deflect(0, 0, out);
                StickMotion::Settled
            },
        }
    }

    /// Fold one device event into `out`. Returns what a touch asks of the
    /// stick; events other than buttons and touches change nothing.
    pub fn on_event(&mut self, ev: &DeviceEvent, out: &mut Vec<InputEvent>) -> (motion: StickMotion)
        ensures
            match ev {
                DeviceEvent::Buttons { mask, .. } => {
                    &&& motion is Settled
                    &&& buttons_taken(old(self)@, *mask, final(self)@)
                    &&& final(self)@ == (PadView {
                        keys: keys_for(old(self)@.cfg.buttons@, *mask),
                        hat: hat_for(old(self)@.cfg.buttons@, *mask),
                        ..old(self)@
                    })
                    &&& final(out)@ == old(out)@ + key_changes(
                        old(self)@.keys,
                        final(self)@.keys,
                        11,
                    ) + axis_changes(ABS_HAT0X, ABS_HAT0Y, old(self)@.hat, final(self)@.hat)
                },
                DeviceEvent::Touch { event, .. } => {
                    &&& touch_taken(old(self)@, frame_of(*event), motion, final(self)@)
                    &&& motion == motion_for(
                        frame_of(*event),
                        old(self)@.cfg.stick_mode,
                        old(self)@.cal,
                        old(self)@.origin,
                    )
                    &&& final(self)@ == (PadView {
                        origin: origin_after(
                            frame_of(*event),
                            old(self)@.cfg.stick_mode,
                            old(self)@.cal,
                            old(self)@.origin,
                        ),
                        axes: final(self)@.axes,
                        ..old(self)@
                    })
                    &&& final(self)@.axes == if steering(frame_of(*event)) is None {
                        (0i32, 0i32)
                    } else {
                        old(self)@.axes
                    }
                    &&& final(out)@ == old(out)@ + axis_changes(
                        ABS_X,
                        ABS_Y,
                        old(self)@.axes,
                        final(self)@.axes,
                    )
                },
                _ => {
                    &&& motion is Settled
                    &&& final(self)@ == old(self)@
                    &&& final(out)@ == old(out)@
                },
            },
    {
        match ev {
            DeviceEvent::Buttons { mask, .. } => {
                self.on_buttons(*mask, out);
                StickMotion::Settled
            },
            DeviceEvent::Touch { event, .. } => {
                let frame = ContactFrame::of(event);
                self.on_touch(&frame, out)
            },
            _ => StickMotion::Settled,
        }
    }

    /// Release everything and centre the sticks (link dropped).
    pub fn neutral(&mut self, out: &mut Vec<InputEvent>)
        ensures
            final(self)@ == at_rest(old(self)@.cfg, old(self)@.cal),
            final(out)@ == old(out)@ + key_changes(
                old(self)@.keys,
                at_rest(old(self)@.cfg, old(self)@.cal).keys,
                11,
            ) + axis_changes(ABS_HAT0X, ABS_HAT0Y, old(self)@.hat, (0, 0)) + axis_changes(
                ABS_X,
                ABS_Y,
                old(self)@.axes,
                (0, 0),
            ),
    {
        let none: [bool; 11] = [false; 11];
        assert(none@ =~= at_rest(self@.cfg, self@.cal).keys);
        self.push_keys(none, out);
        self.push_hat(0, 0, out);
        self.deflect(0, 0, out);
        self.origin = None;
    }

    /// Take the keys to a wanted state.
    fn push_keys(&mut self, want: [bool; 11], out: &mut Vec<InputEvent>)
        ensures
            final(self)@ == (PadView { keys: want@, ..old(self)@ }),
            final(out)@ == old(out)@ + key_changes(old(self)@.keys, want@, 11),
    {
        let mut i: usize = 0;
        while i < 11
            invariant
                i <= 11,
                self@ == (PadView { keys: self@.keys, ..old(self)@ }),
                self@.keys == self.keys@,
                self@.keys.len() == 11,
                old(self)@.keys.len() == 11,
                forall|j: int| 0 <= j < i ==> #[trigger] self@.keys[j] == want@[j],
                forall|j: int| i <= j < 11 ==> #[trigger] self@.keys[j] == old(self)@.keys[j],
                out@ == old(out)@ + key_changes(old(self)@.keys, want@, i as int),
            decreases 11 - i,
        {
            let w: bool = want[i];
            if w != self.keys[i] {
                out.push(
                    InputEvent {
                        event_type: EV_KEY,
                        code: PAD_KEYS[i],
                        value: if w {
                            1
                        } else {
                            0
                        },
                    },
                );
                self.keys[i] = w;
            }
            i = i + 1;
        }
        assert(self@.keys =~= want@);
    }

    /// Take the stick to a deflection.
    pub fn deflect(&mut self, x: i32, y: i32, out: &mut Vec<InputEvent>)
        ensures
            final(self)@ == (PadView { axes: (x, y), ..old(self)@ }),
            final(out)@ == old(out)@ + axis_changes(ABS_X, ABS_Y, old(self)@.axes, (x, y)),
    {
        if x != self.axes.0 {
            out.push(InputEvent { event_type: EV_ABS, code: ABS_X, value: x });
            self.axes.0 = x;
        }
        if y != self.axes.1 {
            out.push(InputEvent { event_type: EV_ABS, code: ABS_Y, value: y });
            self.axes.1 = y;
        }
    }

    fn push_hat(&mut self, x: i32, y: i32, out: &mut Vec<InputEvent>)
        ensures
            final(self)@ == (PadView { hat: (x, y), ..old(self)@ }),
            final(out)@ == old(out)@ + axis_changes(ABS_HAT0X, ABS_HAT0Y, old(self)@.hat, (x, y)),
    {
        if x != self.hat.0 {
            out.push(InputEvent { event_type: EV_ABS, code: ABS_HAT0X, value: x });
            self.hat.0 = x;
        }
        if y != self.hat.1 {
            out.push(InputEvent { event_type: EV_ABS, code: ABS_HAT0Y, value: y });
            self.hat.1 = y;
        }
    }
}

// -- Laws ---------------------------------------------------------------------

/// The keys as a consumer of the events sees them.
pub open spec fn keys_seen(keys: Seq<bool>, events: Seq<InputEvent>) -> Seq<bool>
    decreases events.len(),
{
    if events.len() == 0 {
        keys
    } else {
        let before = keys_seen(keys, events.drop_last());
        let e = events.last();
        Seq::new(
            before.len(),
            |i: int|
                if e.event_type == EV_KEY && e.code == PAD_KEYS@[i] {
                    e.value == 1
                } else {
                    before[i]
                },
        )
    }
}

/// The events tell the whole change: a consumer that had the keys right before
/// has them right after.
pub proof fn law_key_events_complete(before: Seq<bool>, after: Seq<bool>)
    requires
        before.len() == 11,
        after.len() == 11,
    ensures
        keys_seen(before, key_changes(before, after, 11)) == after,
{
    lemma_keys_seen(before, after, 11);
    assert(keys_seen(before, key_changes(before, after, 11)) =~= after);
}

proof fn lemma_keys_seen(before: Seq<bool>, after: Seq<bool>, n: int)
    requires
        before.len() == 11,
        after.len() == 11,
        0 <= n <= 11,
    ensures
        keys_seen(before, key_changes(before, after, n)).len() == 11,
        forall|i: int|
            0 <= i < 11 ==> #[trigger] keys_seen(before, key_changes(before, after, n))[i] == if i
                < n {
                after[i]
            } else {
                before[i]
            },
    decreases n,
{
    if n > 0 {
        lemma_keys_seen(before, after, n - 1);
        let earlier = key_changes(before, after, n - 1);
        let events = key_changes(before, after, n);
        if before[n - 1] != after[n - 1] {
            assert(events.drop_last() =~= earlier);
            assert forall|i: int| 0 <= i < 11 implies #[trigger] keys_seen(before, events)[i]
                == if i < n {
                after[i]
            } else {
                before[i]
            } by {
                assert(keys_seen(before, earlier)[i] == if i < n - 1 {
                    after[i]
                } else {
                    before[i]
                });
                if i < n - 1 {
                    law_pad_keys_ascend(i, n - 1);
                } else if i > n - 1 {
                    law_pad_keys_ascend(n - 1, i);
                }
            }
        }
    }
}

/// A state that stays gives no events: a repeated mask, a stationary stick, and
/// a pad that is released twice produce an empty batch.
pub proof fn law_no_change_no_events(keys: Seq<bool>, axes: (i32, i32), x: u16, y: u16, n: int)
    ensures
        key_changes(keys, keys, n) == Seq::<InputEvent>::empty(),
        axis_changes(x, y, axes, axes) == Seq::<InputEvent>::empty(),
    decreases n,
{
    if n > 0 {
        law_no_change_no_events(keys, axes, x, y, n - 1);
    }
    assert(axis_changes(x, y, axes, axes) =~= Seq::<InputEvent>::empty());
}

/// A repeated mask re-emits nothing, and a second release of everything has
/// nothing left to release.
pub proof fn law_repetition_is_silent(cfg: GamepadConfig, cal: Calibration, mask: u16)
    ensures
        ({
            let keys = keys_for(cfg.buttons@, mask);
            let hat = hat_for(cfg.buttons@, mask);
            key_changes(keys, keys, 11) + axis_changes(ABS_HAT0X, ABS_HAT0Y, hat, hat)
        }) == Seq::<InputEvent>::empty(),
        ({
            let rest = at_rest(cfg, cal);
            key_changes(rest.keys, rest.keys, 11) + axis_changes(
                ABS_HAT0X,
                ABS_HAT0Y,
                rest.hat,
                (0, 0),
            ) + axis_changes(ABS_X, ABS_Y, rest.axes, (0, 0))
        }) == Seq::<InputEvent>::empty(),
{
    let hat = hat_for(cfg.buttons@, mask);
    let rest = at_rest(cfg, cal);
    law_no_change_no_events(keys_for(cfg.buttons@, mask), hat, ABS_HAT0X, ABS_HAT0Y, 11);
    law_no_change_no_events(rest.keys, (0, 0), ABS_HAT0X, ABS_HAT0Y, 11);
    law_no_change_no_events(rest.keys, (0, 0), ABS_X, ABS_Y, 11);
    let none = Seq::<InputEvent>::empty();
    assert(none + none =~= none);
    assert(none + none + none =~= none);
}

/// How many of the first `n` buttons the mask holds down on a direction.
pub open spec fn held_on(buttons: Seq<(u16, Target)>, mask: u16, dir: HatDir, n: int) -> int
    decreases n,
{
    if n <= 0 {
        0
    } else {
        held_on(buttons, mask, dir, n - 1) + if mask & buttons[n - 1].0 != 0 && buttons[n - 1].1
            == Target::Hat(dir) {
            1int
        } else {
            0
        }
    }
}

/// Opposite directions cancel: each axis of the hat is the surplus of one
/// direction over the other, limited to one.
pub proof fn law_opposites_cancel(buttons: Seq<(u16, Target)>, mask: u16)
    ensures
        ({
            let n = buttons.len() as int;
            let held = |dir: HatDir| held_on(buttons, mask, dir, n);
            &&& hat_for(buttons, mask).0 == sign(held(HatDir::Right) - held(HatDir::Left))
            &&& hat_for(buttons, mask).1 == sign(held(HatDir::Down) - held(HatDir::Up))
        }),
{
    lemma_pushes_are_surplus(buttons, mask, buttons.len() as int);
}

proof fn lemma_pushes_are_surplus(buttons: Seq<(u16, Target)>, mask: u16, n: int)
    ensures
        pushes(buttons, mask, n, |t: Target| push_x(t)) == held_on(
            buttons,
            mask,
            HatDir::Right,
            n,
        ) - held_on(buttons, mask, HatDir::Left, n),
        pushes(buttons, mask, n, |t: Target| push_y(t)) == held_on(
            buttons,
            mask,
            HatDir::Down,
            n,
        ) - held_on(buttons, mask, HatDir::Up, n),
    decreases n,
{
    if n > 0 {
        lemma_pushes_are_surplus(buttons, mask, n - 1);
    }
}

/// The hat has three positions per axis, and with nothing held it is centred.
pub proof fn law_hat_three_states(buttons: Seq<(u16, Target)>, mask: u16)
    ensures
        -1 <= hat_for(buttons, mask).0 <= 1,
        -1 <= hat_for(buttons, mask).1 <= 1,
        hat_for(buttons, 0) == (0i32, 0i32),
{
    lemma_no_pushes(buttons, buttons.len() as int, |t: Target| push_x(t));
    lemma_no_pushes(buttons, buttons.len() as int, |t: Target| push_y(t));
}

proof fn lemma_no_pushes(buttons: Seq<(u16, Target)>, n: int, push: spec_fn(Target) -> int)
    ensures
        pushes(buttons, 0, n, push) == 0,
    decreases n,
{
    if n > 0 {
        lemma_no_pushes(buttons, n - 1, push);
        let bit = buttons[n - 1].0;
        assert(0u16 & bit == 0) by (bit_vector);
    }
}

/// With nothing held no key is down.
pub proof fn law_no_buttons_no_keys(buttons: Seq<(u16, Target)>, code: u16)
    ensures
        !key_down(buttons, 0, code),
{
    assert forall|i: int| 0 <= i < buttons.len() implies 0u16 & (#[trigger] buttons[i]).0 == 0 by {
        let bit = buttons[i].0;
        assert(0u16 & bit == 0) by (bit_vector);
    }
}

/// A contact never leaves the pad, so the stick never goes past full scale.
pub proof fn law_point_on_pad(contact: Contact, cal: Calibration)
    requires
        has_area(cal),
    ensures
        0 <= point_of(contact, cal).x <= span_of(cal).x,
        0 <= point_of(contact, cal).y <= span_of(cal).y,
        span_of(cal).x > 0,
        span_of(cal).y > 0,
{
}

/// The first frame of a touch captures the origin without deflecting, wherever
/// it lands; later frames of that touch keep the origin.
pub proof fn law_touch_down_is_centred(
    first: ContactFrame,
    later: ContactFrame,
    cal: Calibration,
)
    requires
        has_area(cal),
        steering(first) is Some,
        steering(later) is Some,
    ensures
        motion_for(first, StickMode::Relative, cal, None) matches StickMotion::Displaced {
            origin,
            point,
            ..
        } && origin == point,
        origin_after(
            later,
            StickMode::Relative,
            cal,
            origin_after(first, StickMode::Relative, cal, None),
        ) == origin_after(first, StickMode::Relative, cal, None),
{
}

/// A frame without contact ends the touch: the next one starts afresh.
pub proof fn law_release_forgets_origin(
    frame: ContactFrame,
    mode: StickMode,
    cal: Calibration,
    before: Option<PadPoint>,
)
    requires
        steering(frame) is None,
    ensures
        origin_after(frame, mode, cal, before) is None,
        motion_for(frame, mode, cal, before) is Settled,
{
}

/// The second finger does not count.
pub proof fn law_slot_two_ignored(
    a: ContactFrame,
    b: ContactFrame,
    mode: StickMode,
    cal: Calibration,
    before: Option<PadPoint>,
)
    requires
        a.points@[0] == b.points@[0],
    ensures
        motion_for(a, mode, cal, before) == motion_for(b, mode, cal, before),
        origin_after(a, mode, cal, before) == origin_after(b, mode, cal, before),
{
}

/// The finger in slot 1 steers, unless it hovers.
pub proof fn law_first_finger_steers(frame: ContactFrame)
    ensures
        steering(frame) is None <==> frame.points@[0] is None || (frame.points@[0]->0).hover,
        steering(frame) is Some ==> steering(frame) == frame.points@[0],
{
}

/// In relative mode a steering contact gives its own place on the pad, held
/// within the calibrated area in either direction, whatever the origin is; the
/// origin is the one before, or that place where there was none.
pub proof fn law_relative_motion(
    frame: ContactFrame,
    c: Contact,
    cal: Calibration,
    before: Option<PadPoint>,
)
    requires
        frame.points@[0] == Some(c),
        !c.hover,
        cal.x_min < cal.x_max,
        cal.y_min < cal.y_max,
    ensures
        motion_for(frame, StickMode::Relative, cal, before) matches StickMotion::Displaced {
            origin,
            point,
            span,
        } && {
            &&& c.x <= cal.x_min ==> point.x == 0
            &&& cal.x_min <= c.x <= cal.x_max ==> point.x == c.x - cal.x_min
            &&& c.x >= cal.x_max ==> point.x == cal.x_max - cal.x_min
            &&& c.y <= cal.y_min ==> point.y == 0
            &&& cal.y_min <= c.y <= cal.y_max ==> point.y == c.y - cal.y_min
            &&& c.y >= cal.y_max ==> point.y == cal.y_max - cal.y_min
            &&& span.x == cal.x_max - cal.x_min && span.y == cal.y_max - cal.y_min
            &&& before is Some ==> origin == before->0
            &&& before is None ==> origin == point
            &&& origin_after(frame, StickMode::Relative, cal, before) == Some(origin)
        },
{
}

/// In absolute mode a steering contact gives its own place on the pad, held
/// within the calibrated area, and no origin is captured.
pub proof fn law_absolute_motion(
    frame: ContactFrame,
    c: Contact,
    cal: Calibration,
    before: Option<PadPoint>,
)
    requires
        frame.points@[0] == Some(c),
        !c.hover,
        cal.x_min < cal.x_max,
        cal.y_min < cal.y_max,
    ensures
        motion_for(frame, StickMode::Absolute, cal, before) matches StickMotion::At {
            point,
            span,
        } && {
            &&& c.x <= cal.x_min ==> point.x == 0
            &&& cal.x_min <= c.x <= cal.x_max ==> point.x == c.x - cal.x_min
            &&& c.x >= cal.x_max ==> point.x == cal.x_max - cal.x_min
            &&& c.y <= cal.y_min ==> point.y == 0
            &&& cal.y_min <= c.y <= cal.y_max ==> point.y == c.y - cal.y_min
            &&& c.y >= cal.y_max ==> point.y == cal.y_max - cal.y_min
            &&& span.x == cal.x_max - cal.x_min && span.y == cal.y_max - cal.y_min
        },
        origin_after(frame, StickMode::Absolute, cal, before) == before,
{
}

/// The stick follows the finger: within one touch in relative mode, on the
/// calibrated area, the displacement is how far the finger has moved since it
/// landed, in both directions.
pub proof fn law_displacement_follows_finger(
    landed: ContactFrame,
    moved: ContactFrame,
    from: Contact,
    to: Contact,
    cal: Calibration,
)
    requires
        landed.points@[0] == Some(from),
        moved.points@[0] == Some(to),
        !from.hover,
        !to.hover,
        cal.x_min < cal.x_max,
        cal.y_min < cal.y_max,
        cal.x_min <= from.x <= cal.x_max,
        cal.y_min <= from.y <= cal.y_max,
        cal.x_min <= to.x <= cal.x_max,
        cal.y_min <= to.y <= cal.y_max,
    ensures
        motion_for(
            moved,
            StickMode::Relative,
            cal,
            origin_after(landed, StickMode::Relative, cal, None),
        ) matches StickMotion::Displaced { origin, point, .. } && point.x - origin.x == to.x
            - from.x && point.y - origin.y == to.y - from.y,
{
    law_relative_motion(landed, from, cal, None);
    law_relative_motion(moved, to, cal, origin_after(landed, StickMode::Relative, cal, None));
}

/// Without a calibrated area the stick holds its place and the origin stays.
pub proof fn law_no_area_no_motion(
    frame: ContactFrame,
    mode: StickMode,
    cal: Calibration,
    before: Option<PadPoint>,
)
    requires
        cal.x_max <= cal.x_min || cal.y_max <= cal.y_min,
        steering(frame) is Some,
    ensures
        motion_for(frame, mode, cal, before) is Settled,
        origin_after(frame, mode, cal, before) == before,
{
}

/// A key is down exactly while the mask holds some button that is mapped to it.
pub proof fn law_keys_follow_buttons(buttons: Seq<(u16, Target)>, mask: u16, i: int, j: int)
    requires
        0 <= i < 11,
    ensures
        keys_for(buttons, mask).len() == 11,
        0 <= j < buttons.len() && mask & buttons[j].0 != 0 && buttons[j].1 == Target::Key(
            PAD_KEYS@[i],
        ) ==> keys_for(buttons, mask)[i],
        (forall|k: int|
            0 <= k < buttons.len() && (#[trigger] buttons[k]).1 == Target::Key(PAD_KEYS@[i])
                ==> mask & buttons[k].0 == 0) ==> !keys_for(buttons, mask)[i],
{
}

/// The hat points to the side on which more buttons are held: right and down
/// count up, left and up count down, and neither wins a tie.
pub proof fn law_hat_follows_buttons(buttons: Seq<(u16, Target)>, mask: u16)
    ensures
        ({
            let n = buttons.len() as int;
            let left = held_on(buttons, mask, HatDir::Left, n);
            let right = held_on(buttons, mask, HatDir::Right, n);
            let up = held_on(buttons, mask, HatDir::Up, n);
            let down = held_on(buttons, mask, HatDir::Down, n);
            &&& right > left ==> hat_for(buttons, mask).0 == 1
            &&& right < left ==> hat_for(buttons, mask).0 == -1
            &&& right == left ==> hat_for(buttons, mask).0 == 0
            &&& down > up ==> hat_for(buttons, mask).1 == 1
            &&& down < up ==> hat_for(buttons, mask).1 == -1
            &&& down == up ==> hat_for(buttons, mask).1 == 0
        }),
{
    lemma_pushes_are_surplus(buttons, mask, buttons.len() as int);
}

/// Each key that changed gives one event, with 1 for down and 0 for up, by
/// ascending code; no other key gives any.
pub proof fn law_one_event_per_key(before: Seq<bool>, after: Seq<bool>, n: int)
    requires
        before.len() == 11,
        after.len() == 11,
        0 <= n <= 11,
    ensures
        forall|k: int|
            0 <= k < key_changes(before, after, n).len() ==> is_key_change(
                #[trigger] key_changes(before, after, n)[k],
                before,
                after,
                n,
            ),
        forall|j: int, k: int|
            0 <= j < k < key_changes(before, after, n).len() ==> (#[trigger] key_changes(
                before,
                after,
                n,
            )[j]).code < (#[trigger] key_changes(before, after, n)[k]).code,
        forall|i: int|
            0 <= i < n && before[i] != after[i] ==> exists|k: int|
                0 <= k < key_changes(before, after, n).len() && (#[trigger] key_changes(
                    before,
                    after,
                    n,
                )[k]).code == #[trigger] PAD_KEYS@[i],
    decreases n,
{
    if n > 0 {
        law_one_event_per_key(before, after, n - 1);
        let earlier = key_changes(before, after, n - 1);
        let all = key_changes(before, after, n);
        assert forall|k: int| 0 <= k < all.len() implies is_key_change(
            #[trigger] all[k],
            before,
            after,
            n,
        ) by {
            if k < earlier.len() {
                assert(all[k] == earlier[k]);
                let i = choose|i: int|
                    0 <= i < n - 1 && before[i] != after[i] && earlier[k].code
                        == #[trigger] PAD_KEYS@[i] && earlier[k].value == (if after[i] {
                        1int
                    } else {
                        0
                    });
                assert(all[k].code == PAD_KEYS@[i]);
            } else {
                assert(all[k].code == PAD_KEYS@[n - 1]);
            }
        }
        assert forall|j: int, k: int| 0 <= j < k < all.len() implies (#[trigger] all[j]).code < (
        #[trigger] all[k]).code by {
            assert(all[j] == earlier[j]);
            if k < earlier.len() {
                assert(all[k] == earlier[k]);
            } else {
                assert(is_key_change(earlier[j], before, after, n - 1));
                let i = choose|i: int|
                    0 <= i < n - 1 && before[i] != after[i] && earlier[j].code
                        == #[trigger] PAD_KEYS@[i] && earlier[j].value == (if after[i] {
                        1int
                    } else {
                        0
                    });
                law_pad_keys_ascend(i, n - 1);
            }
        }
        assert forall|i: int| 0 <= i < n && before[i] != after[i] implies exists|k: int|
            0 <= k < all.len() && (#[trigger] all[k]).code == #[trigger] PAD_KEYS@[i] by {
            if i < n - 1 {
                let k = choose|k: int|
                    0 <= k < earlier.len() && (#[trigger] earlier[k]).code == PAD_KEYS@[i];
                assert(all[k].code == PAD_KEYS@[i]);
            } else {
                assert(all[all.len() - 1].code == PAD_KEYS@[i]);
            }
        }
    }
}

/// Whether an event tells of a change of one of the first `n` keys.
pub open spec fn is_key_change(
    event: InputEvent,
    before: Seq<bool>,
    after: Seq<bool>,
    n: int,
) -> bool {
    event.event_type == 1 && exists|i: int|
        0 <= i < n && before[i] != after[i] && event.code == #[trigger] PAD_KEYS@[i] && event.value
            == (if after[i] {
            1int
        } else {
            0
        })
}

/// An axis that changed gives one event with its new value, the first axis
/// before the second; one that did not gives none.
pub proof fn law_axis_events(x: u16, y: u16, before: (i32, i32), after: (i32, i32))
    ensures
        ({
            let events = axis_changes(x, y, before, after);
            let moved_x = before.0 != after.0;
            let moved_y = before.1 != after.1;
            &&& events.len() == (if moved_x {
                1int
            } else {
                0
            }) + (if moved_y {
                1int
            } else {
                0
            })
            &&& moved_x ==> events[0].event_type == 3 && events[0].code == x && events[0].value
                == after.0
            &&& moved_y ==> events.last().event_type == 3 && events.last().code == y
                && events.last().value == after.1
        }),
{
}

/// A pad at rest has no key down, the hat and the stick centred, and no origin.
pub proof fn law_rest(cfg: GamepadConfig, cal: Calibration, i: int)
    requires
        0 <= i < 11,
    ensures
        !at_rest(cfg, cal).keys[i],
        at_rest(cfg, cal).keys.len() == 11,
        at_rest(cfg, cal).hat == (0i32, 0i32),
        at_rest(cfg, cal).axes == (0i32, 0i32),
        at_rest(cfg, cal).origin is None,
        at_rest(cfg, cal).cfg == cfg,
        at_rest(cfg, cal).cal == cal,
{
}

/// A mask drives keys and hat alone: each key by the buttons mapped to it, each
/// hat axis by the directions held; stick, origin and mapping stay.
pub proof fn law_mask_drives_keys_and_hat(before: PadView, mask: u16, after: PadView, i: int)
    requires
        buttons_taken(before, mask, after),
        0 <= i < 11,
    ensures
        after.keys.len() == 11,
        after.keys[i] <==> exists|j: int|
            0 <= j < 13 && mask & (#[trigger] before.cfg.buttons@[j]).0 != 0
                && before.cfg.buttons@[j].1 == Target::Key(PAD_KEYS@[i]),
        ({
            let held = |dir: HatDir| held_on(before.cfg.buttons@, mask, dir, 13);
            &&& after.hat.0 == 1 <==> held(HatDir::Right) > held(HatDir::Left)
            &&& after.hat.0 == -1 <==> held(HatDir::Right) < held(HatDir::Left)
            &&& after.hat.1 == 1 <==> held(HatDir::Down) > held(HatDir::Up)
            &&& after.hat.1 == -1 <==> held(HatDir::Down) < held(HatDir::Up)
        }),
        after.axes == before.axes && after.origin == before.origin,
        after.cfg == before.cfg && after.cal == before.cal,
{
    law_hat_follows_buttons(before.cfg.buttons@, mask);
    law_hat_three_states(before.cfg.buttons@, mask);
}

/// Releasing everything lets go: after an empty mask no key is down and the hat
/// is centred, whatever was held before.
pub proof fn law_empty_mask_lets_go(before: PadView, after: PadView, i: int)
    requires
        buttons_taken(before, 0, after),
        0 <= i < 11,
    ensures
        !after.keys[i],
        after.hat == (0i32, 0i32),
{
    law_no_buttons_no_keys(before.cfg.buttons@, PAD_KEYS@[i]);
    law_hat_three_states(before.cfg.buttons@, 0);
}

/// A touch drives the stick alone. Lifting the finger centres it and forgets
/// the origin; a finger in contact, on a calibrated pad, reports where it is.
pub proof fn law_touch_drives_the_stick(
    before: PadView,
    frame: ContactFrame,
    motion: StickMotion,
    after: PadView,
)
    requires
        touch_taken(before, frame, motion, after),
    ensures
        after.keys == before.keys && after.hat == before.hat,
        after.cfg == before.cfg && after.cal == before.cal,
        frame.points@[0] is None || (frame.points@[0]->0).hover ==> motion is Settled && after.axes
            == (0i32, 0i32) && after.origin is None,
        frame.points@[0] is Some && !(frame.points@[0]->0).hover ==> after.axes == before.axes,
        frame.points@[0] is Some && !(frame.points@[0]->0).hover && before.cal.x_min
            < before.cal.x_max && before.cal.y_min < before.cal.y_max ==> {
            let c = frame.points@[0]->0;
            let (point, span) = match motion {
                StickMotion::At { point, span } => (point, span),
                StickMotion::Displaced { point, span, .. } => (point, span),
                StickMotion::Settled => (PadPoint { x: 0, y: 0 }, PadPoint { x: 0, y: 0 }),
            };
            &&& motion is At <==> before.cfg.stick_mode is Absolute
            &&& motion is Displaced <==> before.cfg.stick_mode is Relative
            &&& before.cal.x_min <= c.x <= before.cal.x_max ==> point.x == c.x - before.cal.x_min
            &&& before.cal.y_min <= c.y <= before.cal.y_max ==> point.y == c.y - before.cal.y_min
            &&& c.x < before.cal.x_min ==> point.x == 0
            &&& c.y < before.cal.y_min ==> point.y == 0
            &&& c.x > before.cal.x_max ==> point.x == span.x
            &&& c.y > before.cal.y_max ==> point.y == span.y
            &&& span.x == before.cal.x_max - before.cal.x_min
            &&& span.y == before.cal.y_max - before.cal.y_min
        },
{
}

} // verus!
