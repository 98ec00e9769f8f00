//! What the dashboard shows: the layout of the screen in cells, the colours of
//! the controls, and the texts of the panels. Tracing shapes on the canvas is
//! left to the caller.

use std::collections::VecDeque;

use vstd::prelude::*;
use vstd::std_specs::hash::group_hash_axioms;

use crate::contact::{angle_tenths_of, frame_of, Contact, ContactFrame};
use crate::decoder::{fingers_in, held_names, BUTTON_NAMES};
use crate::session::{flag_text, PowerState};
use crate::text::{
    debug_quoted, debug_text, dec, dec_signed, hex2_upper, hex4_upper, join, push_dec,
    push_dec_signed, push_hex2_upper, push_hex4_upper,
};
use crate::view::state::{
    power_label, power_label_text, AppState, AppView, CalibrationSession, ConnState, ConnView,
    EventSource, TrailPoint, BUTTON_AFTERGLOW,
};

verus! {

pub const MIN_COLS: u16 = 70;

pub const MIN_ROWS: u16 = 24;

/// Minimum width (in cells) for the remote column. Below this the silhouette
/// degrades into an unreadable mess.
pub const REMOTE_MIN_COLS: u16 = 18;

/// Minimum width (in cells) reserved for the side panel.
pub const PANEL_MIN_COLS: u16 = 40;

/// Trail samples older than this are not shown: 600 ms.
pub const TRAIL_MAX_AGE: u64 = 600_000_000;

/// The colours that the dashboard uses.
#[derive(Clone, Copy, Debug, PartialEq, Eq, Structural)]
pub enum Color {
    White,
    Gray,
    DarkGray,
    Yellow,
    LightYellow,
    Green,
    Red,
    LightRed,
    Blue,
    Cyan,
    LightCyan,
    Magenta,
    LightMagenta,
}

// -- Layout -------------------------------------------------------------------

/// An area of the screen in cells.
#[derive(Clone, Copy, Debug, PartialEq, Eq, Structural)]
pub struct Rect {
    pub x: u16,
    pub y: u16,
    pub width: u16,
    pub height: u16,
}

/// The complaint about a terminal that is too small, if it is.
pub fn too_small(width: u16, height: u16) -> (message: Option<String>)
    ensures
        message is Some <==> width < MIN_COLS || height < MIN_ROWS,
        message matches Some(m) ==> m@
            == "Terminal too small. Need at least 70 cols × 24 rows; have "@ + dec(width as nat)
            + "×"@ + dec(height as nat) + "."@,
{
    if width >= MIN_COLS && height >= MIN_ROWS {
        return None;
    }
    let mut message = "Terminal too small. Need at least 70 cols × 24 rows; have ".to_owned();
    push_dec(&mut message, width as u64);
    message.append("×");
    push_dec(&mut message, height as u64);
    message.append(".");
    Some(message)
}

/// The width of the remote column: what a canvas of one to three needs at the
/// given height, but no less than [`REMOTE_MIN_COLS`] and, beyond that, no more
/// than leaves [`PANEL_MIN_COLS`] to the panel.
///
/// Canvas dots are roughly square (two per cell across, four down), so an inner
/// area reads as one to three when its rows are three halves of its columns.
pub open spec fn remote_width(width: int, height: int) -> int {
    let desired = (if height > 2 {
        height - 2
    } else {
        0
    }) * 2 / 3 + 2;
    let room = if width - PANEL_MIN_COLS > REMOTE_MIN_COLS {
        width - PANEL_MIN_COLS
    } else {
        REMOTE_MIN_COLS as int
    };
    if desired < REMOTE_MIN_COLS {
        REMOTE_MIN_COLS as int
    } else if desired > room {
        room
    } else {
        desired
    }
}

/// The width of the remote column.
pub fn remote_columns(width: u16, height: u16) -> (columns: u16)
    ensures
        columns == remote_width(width as int, height as int),
{
    let inner: u32 = if height > 2 {
        height as u32 - 2
    } else {
        0
    };
    let desired: u32 = inner * 2 / 3 + 2;
    let room: u32 = if width as u32 > PANEL_MIN_COLS as u32 + REMOTE_MIN_COLS as u32 {
        width as u32 - PANEL_MIN_COLS as u32
    } else {
        REMOTE_MIN_COLS as u32
    };
    if desired < REMOTE_MIN_COLS as u32 {
        REMOTE_MIN_COLS
    } else if desired > room {
        room as u16
    } else {
        desired as u16
    }
}

/// A product that stops at the largest 16-bit value.
pub open spec fn capped(v: int) -> int {
    if v > 65535 {
        65535
    } else {
        v
    }
}

/// The size of the largest canvas of undistorted aspect inside an area.
pub open spec fn canvas_size(inner: Rect) -> (int, int) {
    let rows = capped(inner.width * 3) / 2;
    if rows <= inner.height {
        (inner.width as int, rows)
    } else {
        (capped(inner.height * 2) / 3, inner.height as int)
    }
}

/// The largest canvas of undistorted aspect, in the middle of the area.
pub open spec fn inscribed(inner: Rect) -> Rect {
    if inner.width == 0 || inner.height == 0 {
        inner
    } else {
        let (cols, rows) = canvas_size(inner);
        Rect {
            x: (inner.x + (inner.width - cols) / 2) as u16,
            y: (inner.y + (inner.height - rows) / 2) as u16,
            width: cols as u16,
            height: rows as u16,
        }
    }
}

/// Return the largest sub-rect of `inner` whose cell aspect renders the
/// canvas without distortion, centered within `inner`.
pub fn inscribe_remote_canvas(inner: Rect) -> (canvas: Rect)
    requires
        inner.x + inner.width <= 65535,
        inner.y + inner.height <= 65535,
    ensures
        canvas == inscribed(inner),
{
    if inner.width == 0 || inner.height == 0 {
        return inner;
    }
    let tripled: u32 = inner.width as u32 * 3;
    let height_from_width: u16 = (if tripled > 65535 {
        65535
    } else {
        tripled
    } / 2) as u16;
    let (cols, rows): (u16, u16) = if height_from_width <= inner.height {
        (inner.width, height_from_width)
    } else {
        let doubled: u32 = inner.height as u32 * 2;
        let width_from_height: u16 = (if doubled > 65535 {
            65535
        } else {
            doubled
        } / 3) as u16;
        (width_from_height, inner.height)
    };
    let x: u16 = inner.x + (inner.width - cols) / 2;
    let y: u16 = inner.y + (inner.height - rows) / 2;
    Rect { x, y, width: cols, height: rows }
}

// -- Controls -----------------------------------------------------------------

/// The colour of one button: yellow while held and for the whole afterglow,
/// which starts bright; plain otherwise.
pub open spec fn bit_color(state: AppView, bit: u16, now: u64) -> Color {
    if state.buttons_mask & bit != 0 {
        Color::Yellow
    } else if state.button_afterglow.dom().contains(bit) && state.button_afterglow[bit] >= now {
        // Full afterglow is 150 ms; the step is at 66 % of it.
        if state.button_afterglow[bit] - now > 99_000_000 {
            Color::LightYellow
        } else {
            Color::Yellow
        }
    } else {
        Color::White
    }
}

/// Resolve the colour for one button-mask bit.
pub fn style_for_bit(state: &AppState, bit: u16, now: u64) -> (color: Color)
    ensures
        color == bit_color(state@, bit, now),
{
    broadcast use group_hash_axioms;

    if state.buttons_mask & bit != 0 {
        return Color::Yellow;
    }
    match state.button_afterglow.get(&bit) {
        Some(deadline) => {
            if *deadline < now {
                return Color::White;
            }
            let remaining: u64 = *deadline - now;
            if remaining > 99_000_000 {
                Color::LightYellow
            } else {
                Color::Yellow
            }
        },
        None => Color::White,
    }
}

/// The colour of the touchpad ring: that of the Select button, where it is not
/// plain.
pub fn ring_color(state: &AppState, now: u64) -> (color: Color)
    ensures
        color == if bit_color(state@, 0x0008, now) is White {
            Color::Gray
        } else {
            bit_color(state@, 0x0008, now)
        },
{
    let select = style_for_bit(state, 0x0008, now);
    match select {
        Color::White => Color::Gray,
        _ => select,
    }
}

/// The colour of a contact ellipse: that of its slot, or dim while the finger
/// only hovers.
pub fn contact_color(slot: usize, contact: &Contact) -> (color: Color)
    ensures
        color == if contact.hover {
            Color::DarkGray
        } else if slot == 0 {
            Color::LightCyan
        } else {
            Color::LightMagenta
        },
{
    if contact.hover {
        Color::DarkGray
    } else if slot == 0 {
        Color::LightCyan
    } else {
        Color::LightMagenta
    }
}

// -- Trail --------------------------------------------------------------------

/// The fade level of a sample, 0 for the newest to 3 for the oldest; `None` for
/// one that is not shown.
pub open spec fn fade_level(point: TrailPoint, now: u64) -> Option<int> {
    let age = if now > point.stamp {
        now - point.stamp
    } else {
        0
    };
    if age > TRAIL_MAX_AGE {
        None
    } else if age == TRAIL_MAX_AGE {
        Some(3)
    } else {
        Some(age * 4 / TRAIL_MAX_AGE as int)
    }
}

/// The row of colours of a sample: the first for slot 1, the second for any
/// other.
pub open spec fn slot_row(point: TrailPoint) -> int {
    if point.slot <= 1 {
        0
    } else {
        1
    }
}

/// The colour of a layer of the trail.
pub open spec fn layer_color(row: int, level: int) -> Color {
    if level == 3 {
        Color::DarkGray
    } else if level == 2 {
        if row == 0 {
            Color::Cyan
        } else {
            Color::Magenta
        }
    } else if level == 1 {
        if row == 0 {
            Color::LightCyan
        } else {
            Color::LightMagenta
        }
    } else {
        Color::White
    }
}

/// The samples of one layer among the first `n`, oldest first.
pub open spec fn layer_points(
    trail: Seq<TrailPoint>,
    row: int,
    level: int,
    now: u64,
    n: int,
) -> Seq<TrailPoint>
    decreases n,
{
    if n <= 0 {
        seq![]
    } else {
        let before = layer_points(trail, row, level, now, n - 1);
        let point = trail[n - 1];
        if slot_row(point) == row && fade_level(point, now) == Some(level) {
            before.push(point)
        } else {
            before
        }
    }
}

/// Samples of the trail that are drawn in one colour.
pub struct TrailLayer {
    pub color: Color,
    pub points: Vec<TrailPoint>,
}

/// What a [`TrailLayer`] says.
pub struct TrailLayerView {
    pub color: Color,
    pub points: Seq<TrailPoint>,
}

impl View for TrailLayer {
    type V = TrailLayerView;

    open spec fn view(&self) -> TrailLayerView {
        TrailLayerView { color: self.color, points: self.points@ }
    }
}

/// The row and the level of the layer that is drawn as number `k`: the first
/// row before the second, old samples before new ones.
pub open spec fn layer_at(k: int) -> (int, int) {
    (k / 4, 3 - k % 4)
}

/// The first `k` layers in drawing order, without the empty ones.
pub open spec fn layers(trail: Seq<TrailPoint>, now: u64, k: int) -> Seq<TrailLayerView>
    decreases k,
{
    if k <= 0 {
        seq![]
    } else {
        let before = layers(trail, now, k - 1);
        let (row, level) = layer_at(k - 1);
        let points = layer_points(trail, row, level, now, trail.len() as int);
        if points.len() == 0 {
            before
        } else {
            before.push(TrailLayerView { color: layer_color(row, level), points })
        }
    }
}

/// What each layer says.
pub open spec fn layer_views(layers: Seq<TrailLayer>) -> Seq<TrailLayerView> {
    Seq::new(layers.len(), |i: int| layers[i]@)
}

fn level_of(point: &TrailPoint, now: u64) -> (level: Option<u64>)
    ensures
        match level {
            Some(l) => fade_level(*point, now) == Some(l as int),
            None => fade_level(*point, now) is None,
        },
{
    let age: u64 = if now > point.stamp {
        now - point.stamp
    } else {
        0
    };
    if age > TRAIL_MAX_AGE {
        None
    } else if age == TRAIL_MAX_AGE {
        Some(3)
    } else {
        Some(age * 4 / TRAIL_MAX_AGE)
    }
}

fn points_of(trail: &VecDeque<TrailPoint>, row: u64, level: u64, now: u64) -> (points: Vec<
    TrailPoint,
>)
    ensures
        points@ == layer_points(trail@, row as int, level as int, now, trail@.len() as int),
{
    let mut points: Vec<TrailPoint> = Vec::new();
    let mut i: usize = 0;
    while i < trail.len()
        invariant
            i <= trail@.len(),
            points@ == layer_points(trail@, row as int, level as int, now, i as int),
        decreases trail@.len() - i,
    {
        let point: TrailPoint = trail[i];
        let its_row: u64 = if point.slot <= 1 {
            0
        } else {
            1
        };
        if let Some(l) = level_of(&point, now) {
            if its_row == row && l == level {
                points.push(point);
            }
        }
        i = i + 1;
    }
    points
}

/// Group the trail by slot and fade level, in drawing order, so that the
/// freshest layer ends up on top.
pub fn trail_layers(trail: &VecDeque<TrailPoint>, now: u64) -> (out: Vec<TrailLayer>)
    ensures
        layer_views(out@) == layers(trail@, now, 8),
{
    let mut out: Vec<TrailLayer> = Vec::new();
    let mut k: u64 = 0;
    while k < 8
        invariant
            k <= 8,
            layer_views(out@) == layers(trail@, now, k as int),
        decreases 8 - k,
    {
        let row: u64 = k / 4;
        let level: u64 = 3 - k % 4;
        let points = points_of(trail, row, level, now);
        if points.len() > 0 {
            let color = if level == 3 {
                Color::DarkGray
            } else if level == 2 {
                if row == 0 {
                    Color::Cyan
                } else {
                    Color::Magenta
                }
            } else if level == 1 {
                if row == 0 {
                    Color::LightCyan
                } else {
                    Color::LightMagenta
                }
            } else {
                Color::White
            };
            let ghost before = out@;
            let layer = TrailLayer { color, points };
            let ghost added = layer@;
            out.push(layer);
            assert(layer_views(out@) =~= layer_views(before).push(added));
        }
        k = k + 1;
    }
    out
}

/// The newest sample of the trail and the colour of its dot.
pub fn trail_head(trail: &VecDeque<TrailPoint>) -> (head: Option<(TrailPoint, Color)>)
    ensures
        match head {
            Some((point, color)) => {
                &&& trail@.len() > 0 && point == trail@.last()
                &&& color == if point.slot == 2 {
                    Color::LightMagenta
                } else {
                    Color::LightCyan
                }
            },
            None => trail@.len() == 0,
        },
{
    if trail.len() == 0 {
        return None;
    }
    let point: TrailPoint = trail[trail.len() - 1];
    Some(
        (
            point,
            if point.slot == 2 {
                Color::LightMagenta
            } else {
                Color::LightCyan
            },
        ),
    )
}

/// Two opposite corners of the area that a running calibration has covered;
/// `None` while it has none.
pub fn calibration_area(session: &Option<CalibrationSession>) -> (corners: Option<
    ((i32, i32), (i32, i32)),
>)
    ensures
        match session {
            Some(s) => if s.samples > 0 && s.x_max > s.x_min && s.y_max > s.y_min {
                corners == Some(((s.x_min, s.y_min), (s.x_max, s.y_max)))
            } else {
                corners is None
            },
            None => corners is None,
        },
{
    match session {
        Some(s) => {
            if s.samples == 0 || s.x_max <= s.x_min || s.y_max <= s.y_min {
                None
            } else {
                Some(((s.x_min, s.y_min), (s.x_max, s.y_max)))
            }
        },
        None => None,
    }
}

// -- Status panel -------------------------------------------------------------

/// A number below one hundred with two digits.
pub open spec fn two_digits(n: nat) -> Seq<char> {
    if n < 10 {
        "0"@ + dec(n)
    } else {
        dec(n)
    }
}

/// A span of seconds in short: `7s`, `3m07s`, `2h05m`.
pub open spec fn elapsed_text(secs: nat) -> Seq<char> {
    if secs < 60 {
        dec(secs) + "s"@
    } else if secs < 3600 {
        dec(secs / 60) + "m"@ + two_digits(secs % 60) + "s"@
    } else {
        dec(secs / 3600) + "h"@ + two_digits(secs % 3600 / 60) + "m"@
    }
}

fn push_two_digits(out: &mut String, n: u64)
    ensures
        final(out)@ == old(out)@ + two_digits(n as nat),
{
    if n < 10 {
        out.append("0");
    }
    push_dec(out, n);
    assert(out@ =~= old(out)@ + two_digits(n as nat));
}

/// Render a span of seconds in short.
pub fn short_elapsed(secs: u64) -> (out: String)
    ensures
        out@ == elapsed_text(secs as nat),
{
    let mut out = String::new();
    if secs < 60 {
        push_dec(&mut out, secs);
        out.append("s");
    } else if secs < 3600 {
        push_dec(&mut out, secs / 60);
        out.append("m");
        push_two_digits(&mut out, secs % 60);
        out.append("s");
    } else {
        push_dec(&mut out, secs / 3600);
        out.append("h");
        push_two_digits(&mut out, secs % 3600 / 60);
        out.append("m");
    }
    assert(out@ =~= elapsed_text(secs as nat));
    out
}

/// How many of ten cells a charge fills, rounded to the nearest.
pub open spec fn filled_cells(pct: u8) -> int {
    ((if pct > 100 {
        100
    } else {
        pct as int
    }) * 10 + 50) / 100
}

/// A charge as a bar of ten cells.
pub open spec fn bar_text(pct: u8) -> Seq<char> {
    seq!['['] + Seq::new(
        10,
        |i: int|
            if i < filled_cells(pct) {
                '█'
            } else {
                '·'
            },
    ) + seq![']']
}

/// Render a charge as a bar of ten cells.
pub fn battery_bar(pct: u8) -> (out: String)
    ensures
        out@ == bar_text(pct),
{
    let held: u64 = if pct > 100 {
        100
    } else {
        pct as u64
    };
    let filled: u64 = (held * 10 + 50) / 100;
    let mut out = String::new();
    out.push('[');
    let ghost cells = Seq::new(
        10,
        |i: int|
            if i < filled_cells(pct) {
                '█'
            } else {
                '·'
            },
    );
    let mut i: u64 = 0;
    while i < 10
        invariant
            i <= 10,
            filled == filled_cells(pct),
            cells == Seq::new(
                10,
                |i: int|
                    if i < filled_cells(pct) {
                        '█'
                    } else {
                        '·'
                    },
            ),
            out@ == seq!['['] + cells.take(i as int),
        decreases 10 - i,
    {
        if i < filled {
            out.push('█');
        } else {
            out.push('·');
        }
        assert(out@ =~= seq!['['] + cells.take(i + 1));
        i = i + 1;
    }
    out.push(']');
    assert(cells.take(10) =~= cells);
    assert(out@ =~= bar_text(pct));
    out
}

/// Whole seconds between two times.
pub open spec fn secs_since(since: u64, now: u64) -> nat {
    if now > since {
        ((now - since) / 1_000_000_000) as nat
    } else {
        0
    }
}

fn elapsed_since(since: u64, now: u64) -> (out: String)
    ensures
        out@ == elapsed_text(secs_since(since, now)),
{
    let secs: u64 = if now > since {
        (now - since) / 1_000_000_000
    } else {
        0
    };
    short_elapsed(secs)
}

/// The words on the link.
pub open spec fn connection_text(connection: ConnView, now: u64) -> Seq<char> {
    match connection {
        ConnView::Connecting { since } => "connecting… ("@ + elapsed_text(secs_since(since, now))
            + ")"@,
        ConnView::Connected { since } => "connected ("@ + elapsed_text(secs_since(since, now))
            + ")"@,
        ConnView::Reconnecting { reason, since } => "reconnecting… "@ + reason + " ("@
            + elapsed_text(secs_since(since, now)) + ")"@,
        ConnView::Pairing { since } => "pairing-mode scan ("@ + elapsed_text(
            secs_since(since, now),
        ) + ")"@,
    }
}

/// The colour of the words on the link.
pub open spec fn connection_color(connection: ConnView) -> Color {
    match connection {
        ConnView::Connecting { .. } => Color::Yellow,
        ConnView::Connected { .. } => Color::Green,
        ConnView::Reconnecting { .. } => Color::Red,
        ConnView::Pairing { .. } => Color::Magenta,
    }
}

/// The line on signal and battery.
pub open spec fn level_text(state: AppView) -> Seq<char> {
    (match state.selection.rssi {
        Some(r) => "rssi="@ + dec_signed(r as int) + " "@,
        None => seq![],
    }) + (match state.battery {
        Some(v) => "battery="@ + dec(v as nat) + "% "@ + bar_text(v),
        None => "battery=?"@,
    })
}

/// The status panel.
pub struct StatusText {
    pub connection: String,
    pub color: Color,
    /// A live link is set in bold.
    pub bold: bool,
    pub identity: String,
    pub level: String,
    pub power: String,
}

/// Compose the status panel.
pub fn status_text(state: &AppState, now: u64) -> (status: StatusText)
    ensures
        status.connection@ == connection_text(state@.connection, now),
        status.color == connection_color(state@.connection),
        status.bold == (state@.connection is Connected),
        status.identity@ == "name="@ + debug_quoted(state@.selection.name) + " addr="@
            + state@.selection.address,
        status.level@ == level_text(state@),
        status.power@ == match state@.power {
            Some(p) => "power="@ + power_label_text(p),
            None => "power=?"@,
        },
{
    let mut connection = String::new();
    let color = match &state.connection {
        ConnState::Connecting { since } => {
            connection.append("connecting… (");
            connection.append(elapsed_since(*since, now).as_str());
            Color::Yellow
        },
        ConnState::Connected { since } => {
            connection.append("connected (");
            connection.append(elapsed_since(*since, now).as_str());
            Color::Green
        },
        ConnState::Reconnecting { reason, since } => {
            connection.append("reconnecting… ");
            connection.append(reason.as_str());
            connection.append(" (");
            connection.append(elapsed_since(*since, now).as_str());
            Color::Red
        },
        ConnState::Pairing { since } => {
            connection.append("pairing-mode scan (");
            connection.append(elapsed_since(*since, now).as_str());
            Color::Magenta
        },
    };
    connection.append(")");
    assert(connection@ =~= connection_text(state@.connection, now));
    let bold = match &state.connection {
        ConnState::Connected { .. } => true,
        _ => false,
    };
    let mut identity = "name=".to_owned();
    identity.append(debug_text(state.selection.name.as_str()).as_str());
    identity.append(" addr=");
    identity.append(state.selection.address.as_str());
    let mut level = String::new();
    if let Some(rssi) = state.selection.rssi {
        level.append("rssi=");
        push_dec_signed(&mut level, rssi as i64);
        level.append(" ");
    }
    match state.battery {
        Some(v) => {
            level.append("battery=");
            push_dec(&mut level, v as u64);
            level.append("% ");
            level.append(battery_bar(v).as_str());
        },
        None => level.append("battery=?"),
    }
    assert(level@ =~= level_text(state@));
    let mut power = "power=".to_owned();
    match state.power {
        Some(p) => power.append(power_label(p)),
        None => {
            power = "power=?".to_owned();
        },
    }
    StatusText { connection, color, bold, identity, level, power }
}

// -- Touch panel --------------------------------------------------------------

/// The names of the held buttons; a dash where none is held.
pub open spec fn pretty_text(mask: u16) -> Seq<char> {
    if mask == 0 {
        "—"@
    } else {
        join(held_names(mask, 13), " + "@)
    }
}

/// List the held buttons.
pub fn pretty_button_list(mask: u16) -> (out: String)
    ensures
        out@ == pretty_text(mask),
{
    if mask == 0 {
        return "—".to_owned();
    }
    let mut out = String::new();
    let mut any = false;
    let mut i: usize = 0;
    while i < 13
        invariant
            i <= 13,
            any == (held_names(mask, i as int).len() > 0),
            out@ == join(held_names(mask, i as int), " + "@),
        decreases 13 - i,
    {
        let (bit, name) = BUTTON_NAMES[i];
        if mask & bit != 0 {
            let ghost before = held_names(mask, i as int);
            if any {
                out.append(" + ");
            }
            out.append(name);
            any = true;
            assert(held_names(mask, i + 1).drop_last() =~= before);
            assert(out@ =~= join(held_names(mask, i + 1), " + "@));
        }
        i = i + 1;
    }
    out
}

/// The line of one contact.
pub open spec fn contact_text(slot_no: nat, c: Contact) -> Seq<char> {
    "  slot "@ + dec(slot_no) + ": x="@ + dec_signed(c.x as int) + " y="@ + dec_signed(c.y as int)
        + " pressure=0x"@ + hex2_upper(c.pressure) + " flags=0x"@ + hex2_upper(c.flags)
        + " hover="@ + flag_text(c.hover) + " angle="@ + dec(
        (angle_tenths_of(c.angle_idx) / 10) as nat,
    ) + "."@ + dec((angle_tenths_of(c.angle_idx) % 10) as nat) + "° major="@ + dec(c.major as nat)
        + " minor="@ + dec(c.minor as nat)
}

fn contact_line(slot_no: u64, c: &Contact) -> (out: String)
    ensures
        out@ == contact_text(slot_no as nat, *c),
{
    let tenths: u64 = c.angle_tenths() as u64;
    let mut out = "  slot ".to_owned();
    push_dec(&mut out, slot_no);
    out.append(": x=");
    push_dec_signed(&mut out, c.x as i64);
    out.append(" y=");
    push_dec_signed(&mut out, c.y as i64);
    out.append(" pressure=0x");
    push_hex2_upper(&mut out, c.pressure);
    out.append(" flags=0x");
    push_hex2_upper(&mut out, c.flags);
    out.append(" hover=");
    if c.hover {
        out.append("true");
    } else {
        out.append("false");
    }
    out.append(" angle=");
    push_dec(&mut out, tenths / 10);
    out.append(".");
    push_dec(&mut out, tenths % 10);
    out.append("° major=");
    push_dec(&mut out, c.major as u64);
    out.append(" minor=");
    push_dec(&mut out, c.minor as u64);
    assert(out@ =~= contact_text(slot_no as nat, *c));
    out
}

/// The lines on the touchpad: what the last frame held, or that it is idle.
pub open spec fn touch_lines_text(state: AppView) -> Seq<Seq<char>> {
    match state.last_touch {
        None => seq!["touch: idle"@],
        Some(ev) => {
            let frame = frame_of(ev);
            let head = "touch: fingers="@ + dec(fingers_in(ev.points@) as nat) + " seq=0x"@
                + hex4_upper(frame.seq) + " header=0x"@ + hex2_upper(frame.header);
            seq![head] + (match frame.points@[0] {
                Some(c) => seq![contact_text(1, c)],
                None => seq![],
            }) + (match frame.points@[1] {
                Some(c) => seq![contact_text(2, c)],
                None => seq![],
            })
        },
    }
}

/// Compose the lines on the touchpad.
pub fn touch_lines(state: &AppState) -> (lines: Vec<String>)
    ensures
        crate::text::texts(lines@) == touch_lines_text(state@),
{
    let mut lines: Vec<String> = Vec::new();
    match &state.last_touch {
        None => {
            lines.push("touch: idle".to_owned());
        },
        Some(ev) => {
            let frame = ContactFrame::of(ev);
            let mut head = "touch: fingers=".to_owned();
            push_dec(&mut head, ev.finger_count() as u64);
            head.append(" seq=0x");
            push_hex4_upper(&mut head, frame.seq);
            head.append(" header=0x");
            push_hex2_upper(&mut head, frame.header);
            lines.push(head);
            if let Some(c) = &frame.points[0] {
                lines.push(contact_line(1, c));
            }
            if let Some(c) = &frame.points[1] {
                lines.push(contact_line(2, c));
            }
        },
    }
    assert(crate::text::texts(lines@) =~= touch_lines_text(state@));
    lines
}

/// A range of raw coordinates.
pub open spec fn range_text(low: i32, high: i32) -> Seq<char> {
    "["@ + dec_signed(low as int) + ".."@ + dec_signed(high as int) + "]"@
}

fn push_range(out: &mut String, low: i32, high: i32)
    ensures
        final(out)@ == old(out)@ + range_text(low, high),
{
    out.append("[");
    push_dec_signed(out, low as i64);
    out.append("..");
    push_dec_signed(out, high as i64);
    out.append("]");
    assert(out@ =~= old(out)@ + range_text(low, high));
}

/// The lines on a running calibration: what to do, what it has covered, and
/// what is in use.
pub open spec fn calibration_lines_text(state: AppView, session: CalibrationSession) -> Seq<
    Seq<char>,
> {
    let covered = if session.samples == 0 {
        "x: [--..--]  y: [--..--]  samples=0"@
    } else {
        "x: "@ + range_text(session.x_min, session.x_max) + "  y: "@ + range_text(
            session.y_min,
            session.y_max,
        ) + "  samples="@ + dec(session.samples as nat)
    };
    let saved = state.calibration;
    seq![
        "trace a circle on the touchpad"@,
        "press c to finish · Esc to cancel"@,
        covered,
        "saved: x="@ + range_text(saved.x_min, saved.x_max) + " y="@ + range_text(
            saved.y_min,
            saved.y_max,
        ),
    ]
}

/// Compose the lines on a running calibration.
pub fn calibration_lines(state: &AppState, session: &CalibrationSession) -> (lines: Vec<String>)
    ensures
        crate::text::texts(lines@) == calibration_lines_text(state@, *session),
{
    let mut lines: Vec<String> = Vec::new();
    lines.push("trace a circle on the touchpad".to_owned());
    lines.push("press c to finish · Esc to cancel".to_owned());
    if session.samples == 0 {
        lines.push("x: [--..--]  y: [--..--]  samples=0".to_owned());
    } else {
        let mut covered = "x: ".to_owned();
        push_range(&mut covered, session.x_min, session.x_max);
        covered.append("  y: ");
        push_range(&mut covered, session.y_min, session.y_max);
        covered.append("  samples=");
        push_dec(&mut covered, session.samples as u64);
        lines.push(covered);
    }
    let mut saved = "saved: x=".to_owned();
    push_range(&mut saved, state.calibration.x_min, state.calibration.x_max);
    saved.append(" y=");
    push_range(&mut saved, state.calibration.y_min, state.calibration.y_max);
    lines.push(saved);
    assert(crate::text::texts(lines@) =~= calibration_lines_text(state@, *session));
    lines
}

// -- Events panel -------------------------------------------------------------

/// The first log line to show: the newest ones fill the panel.
pub fn first_shown(lines: usize, capacity: usize) -> (start: usize)
    ensures
        start == if lines > capacity {
            lines - capacity
        } else {
            0
        },
{
    if lines > capacity {
        lines - capacity
    } else {
        0
    }
}

/// The tag of a log line, eight cells wide.
pub open spec fn tag_text(source: EventSource) -> Seq<char> {
    match source {
        EventSource::Buttons => "buttons "@,
        EventSource::Battery => "battery "@,
        EventSource::Power => "  power "@,
        EventSource::Raw => "    raw "@,
        EventSource::System => " system "@,
        EventSource::Warning => "   warn "@,
    }
}

/// The colour of a tag.
pub open spec fn tag_color(source: EventSource) -> Color {
    match source {
        EventSource::Buttons => Color::Yellow,
        EventSource::Battery => Color::Green,
        EventSource::Power => Color::Green,
        EventSource::Raw => Color::Blue,
        EventSource::System => Color::Magenta,
        EventSource::Warning => Color::LightRed,
    }
}

/// The tag of a log line and its colour.
pub fn event_tag(source: EventSource) -> (tag: (&'static str, Color))
    ensures
        tag.0@ == tag_text(source),
        tag.1 == tag_color(source),
{
    match source {
        EventSource::Buttons => ("buttons ", Color::Yellow),
        EventSource::Battery => ("battery ", Color::Green),
        EventSource::Power => ("  power ", Color::Green),
        EventSource::Raw => ("    raw ", Color::Blue),
        EventSource::System => (" system ", Color::Magenta),
        EventSource::Warning => ("   warn ", Color::LightRed),
    }
}

/// A symbol for a power state.
pub fn power_glyph(state: PowerState) -> (glyph: &'static str)
    ensures
        glyph@ == match state {
            PowerState::Charging | PowerState::PluggedIn => "⚡"@,
            PowerState::Discharging => "🔋"@,
            PowerState::Unknown(_) => "?"@,
        },
{
    match state {
        PowerState::Charging | PowerState::PluggedIn => "⚡",
        PowerState::Discharging => "🔋",
        PowerState::Unknown(_) => "?",
    }
}

// -- Laws ---------------------------------------------------------------------

/// The canvas never leaves its area, keeps its aspect, and is centred to the
/// cell.
pub proof fn law_canvas_inside(inner: Rect)
    requires
        inner.x + inner.width <= 65535,
        inner.y + inner.height <= 65535,
    ensures
        ({
            let c = inscribed(inner);
            &&& inner.x <= c.x && c.x + c.width <= inner.x + inner.width
            &&& inner.y <= c.y && c.y + c.height <= inner.y + inner.height
            &&& inner.width > 0 && inner.height > 0 && inner.width <= 21845 ==> c.height == c.width
                * 3 / 2 || c.width == c.height * 2 / 3
            &&& -1 <= (c.x - inner.x) - ((inner.x + inner.width) - (c.x + c.width)) <= 0
            &&& -1 <= (c.y - inner.y) - ((inner.y + inner.height) - (c.y + c.height)) <= 0
        }),
{
}

/// On a terminal that is large enough both columns get their minimum.
pub proof fn law_columns_fit(width: int, height: int)
    requires
        width >= MIN_COLS,
        height >= MIN_ROWS,
    ensures
        remote_width(width, height) >= REMOTE_MIN_COLS,
        width - remote_width(width, height) >= PANEL_MIN_COLS,
{
}

/// A button that has just been released glows at its brightest, never brightens
/// while it fades, stays highlighted for the whole afterglow and is plain after
/// it.
pub proof fn law_glow_fades(state: AppView, bit: u16, earlier: u64, later: u64)
    requires
        state.buttons_mask & bit == 0,
        earlier <= later,
    ensures
        bit_color(state, bit, later) is LightYellow ==> bit_color(state, bit, earlier)
            is LightYellow,
        state.button_afterglow.dom().contains(bit) && state.button_afterglow[bit] == earlier
            + BUTTON_AFTERGLOW ==> bit_color(state, bit, earlier) is LightYellow,
        state.button_afterglow.dom().contains(bit) && state.button_afterglow[bit] >= later
            ==> bit_color(state, bit, later) is LightYellow || bit_color(state, bit, later)
            is Yellow,
        state.button_afterglow.dom().contains(bit) && state.button_afterglow[bit] < later
            ==> bit_color(state, bit, later) is White,
{
}

/// The battery bar is twelve characters wide, fills from the left, empties at
/// no charge and is full from 95 % on.
pub proof fn law_bar_shape(pct: u8, more: u8)
    requires
        pct <= more,
    ensures
        bar_text(pct).len() == 12,
        0 <= filled_cells(pct) <= filled_cells(more) <= 10,
        pct < 5 ==> filled_cells(pct) == 0,
        pct >= 95 ==> filled_cells(pct) == 10,
{
}

/// Each shown sample belongs to exactly one of the four fade levels, and older
/// samples are no brighter than newer ones.
pub proof fn law_fade_levels(a: TrailPoint, b: TrailPoint, now: u64)
    requires
        a.stamp <= b.stamp,
        fade_level(a, now) is Some,
    ensures
        0 <= fade_level(a, now)->0 <= 3,
        fade_level(b, now) is Some,
        fade_level(b, now)->0 <= fade_level(a, now)->0,
{
}

/// The remote's column keeps the aspect of its canvas, two columns for three
/// rows inside the border, but leaves the panel its room and is never too
/// narrow.
pub proof fn law_column_width(width: int, height: int)
    requires
        width >= 70,
        height >= 24,
    ensures
        ({
            let w = remote_width(width, height);
            let desired = (height - 2) * 2 / 3 + 2;
            &&& w >= 18
            &&& w <= width - 40
            &&& w <= if desired < 18 {
                18
            } else {
                desired
            }
            &&& w == desired || w == 18 || w == width - 40
            &&& desired < 18 ==> w == 18
            &&& 18 <= desired <= width - 40 ==> w == desired
            &&& desired > width - 40 ==> w == width - 40
        }),
{
}

/// The canvas is as large as its aspect allows: it fills the area in one
/// direction, and the other follows from that.
pub proof fn law_canvas_is_largest(inner: Rect)
    requires
        0 < inner.width <= 21845,
        0 < inner.height <= 32767,
        inner.x + inner.width <= 65535,
        inner.y + inner.height <= 65535,
    ensures
        ({
            let c = inscribed(inner);
            &&& inner.width * 3 / 2 <= inner.height ==> c.width == inner.width && c.height
                == inner.width * 3 / 2
            &&& inner.width * 3 / 2 > inner.height ==> c.height == inner.height && c.width
                == inner.height * 2 / 3
            &&& c.x == inner.x + (inner.width - c.width) / 2
            &&& c.y == inner.y + (inner.height - c.height) / 2
        }),
{
}

/// A held button is yellow; one that is neither held nor glowing is white; the
/// afterglow is bright down to 99 ms before its end.
pub proof fn law_button_colours(state: AppView, bit: u16, now: u64)
    ensures
        state.buttons_mask & bit != 0 ==> bit_color(state, bit, now) is Yellow,
        state.buttons_mask & bit == 0 && !state.button_afterglow.dom().contains(bit) ==> bit_color(
            state,
            bit,
            now,
        ) is White,
        state.buttons_mask & bit == 0 && state.button_afterglow.dom().contains(bit) ==> {
            let deadline = state.button_afterglow[bit];
            &&& deadline < now ==> bit_color(state, bit, now) is White
            &&& now <= deadline <= now + 99_000_000 ==> bit_color(state, bit, now) is Yellow
            &&& deadline > now + 99_000_000 ==> bit_color(state, bit, now) is LightYellow
        },
{
}

/// A sample fades in four steps of 150 ms and is gone after 600 ms.
pub proof fn law_fade_steps(point: TrailPoint, now: u64)
    ensures
        now <= point.stamp + 149_999_999 ==> fade_level(point, now) == Some(0int),
        point.stamp + 150_000_000 <= now <= point.stamp + 299_999_999 ==> fade_level(point, now)
            == Some(1int),
        point.stamp + 300_000_000 <= now <= point.stamp + 449_999_999 ==> fade_level(point, now)
            == Some(2int),
        point.stamp + 450_000_000 <= now <= point.stamp + 600_000_000 ==> fade_level(point, now)
            == Some(3int),
        now > point.stamp + 600_000_000 ==> fade_level(point, now) is None,
{
}

/// A layer holds the samples of its slot and age, in the order of the trail:
/// sample by sample, those that belong and no other.
pub proof fn law_layer_samples(trail: Seq<TrailPoint>, row: int, level: int, now: u64, n: int)
    requires
        0 <= n < trail.len(),
        row == 0 || row == 1,
    ensures
        layer_points(trail, row, level, now, 0).len() == 0,
        ({
            let belongs = (row == 0 <==> trail[n].slot <= 1) && fade_level(trail[n], now) == Some(
                level,
            );
            &&& belongs ==> layer_points(trail, row, level, now, n + 1) == layer_points(
                trail,
                row,
                level,
                now,
                n,
            ).push(trail[n])
            &&& !belongs ==> layer_points(trail, row, level, now, n + 1) == layer_points(
                trail,
                row,
                level,
                now,
                n,
            )
        }),
{
}

/// Layers are drawn slot by slot and from the oldest samples to the newest, and
/// only where they have samples.
pub proof fn law_layers_in_order(trail: Seq<TrailPoint>, now: u64, slot: int, age: int)
    requires
        0 <= slot < 2,
        0 <= age < 4,
    ensures
        layers(trail, now, 0).len() == 0,
        ({
            let k = 4 * slot + (3 - age);
            let points = layer_points(trail, slot, age, now, trail.len() as int);
            &&& points.len() == 0 ==> layers(trail, now, k + 1) == layers(trail, now, k)
            &&& points.len() > 0 ==> layers(trail, now, k + 1) == layers(trail, now, k).push(
                TrailLayerView { color: layer_color(slot, age), points },
            )
        }),
{
}

/// Old samples are gray and new ones white; in between slot 1 is cyan and slot 2
/// magenta, the lighter the newer.
pub proof fn law_layer_colours(row: int)
    requires
        row == 0 || row == 1,
    ensures
        layer_color(row, 3) is DarkGray,
        layer_color(row, 0) is White,
        row == 0 ==> layer_color(row, 2) is Cyan && layer_color(row, 1) is LightCyan,
        row == 1 ==> layer_color(row, 2) is Magenta && layer_color(row, 1) is LightMagenta,
{
}

/// Elapsed time in seconds, in minutes and seconds, or in hours and minutes; the
/// second part has two digits.
pub proof fn law_elapsed_forms(h: nat, m: nat, s: nat)
    requires
        m < 60,
        s < 60,
    ensures
        elapsed_text(s) == dec(s) + "s"@,
        m > 0 ==> elapsed_text(60 * m + s) == dec(m) + "m"@ + two_digits(s) + "s"@,
        h > 0 ==> elapsed_text(3600 * h + 60 * m + s) == dec(h) + "h"@ + two_digits(m) + "m"@,
        s < 10 ==> two_digits(s) == "0"@ + dec(s),
        s >= 10 ==> two_digits(s) == dec(s),
{
    assert((3600 * h + 60 * m + s) / 3600 == h);
    assert((3600 * h + 60 * m + s) % 3600 / 60 == m);
}

/// The bar fills one cell for each ten percent, rounded to the nearest.
pub proof fn law_bar_rounds(pct: u8, i: int)
    ensures
        pct <= 100 ==> 10 * filled_cells(pct) - 5 <= pct < 10 * filled_cells(pct) + 5,
        pct > 100 ==> filled_cells(pct) == 10,
        bar_text(pct)[0] == '[' && bar_text(pct)[11] == ']',
        1 <= i <= filled_cells(pct) ==> bar_text(pct)[i] == '█',
        filled_cells(pct) < i <= 10 ==> bar_text(pct)[i] == '·',
{
}

/// The time since something is counted in whole seconds.
pub proof fn law_seconds_since(since: u64, now: u64)
    ensures
        now <= since ==> secs_since(since, now) == 0,
        now >= since ==> secs_since(since, now) * 1_000_000_000 <= now - since < (secs_since(
            since,
            now,
        ) + 1) * 1_000_000_000,
{
}

/// The status line tells the state of the connection and since when.
pub proof fn law_status_line(connection: ConnView, now: u64)
    ensures
        connection matches ConnView::Connecting { since } ==> connection_text(connection, now)
            == "connecting… ("@ + elapsed_text(secs_since(since, now)) + ")"@ && connection_color(
            connection,
        ) is Yellow,
        connection matches ConnView::Connected { since } ==> connection_text(connection, now)
            == "connected ("@ + elapsed_text(secs_since(since, now)) + ")"@ && connection_color(
            connection,
        ) is Green,
        connection matches ConnView::Reconnecting { reason, since } ==> connection_text(
            connection,
            now,
        ) == "reconnecting… "@ + reason + " ("@ + elapsed_text(secs_since(since, now)) + ")"@
            && connection_color(connection) is Red,
        connection matches ConnView::Pairing { since } ==> connection_text(connection, now)
            == "pairing-mode scan ("@ + elapsed_text(secs_since(since, now)) + ")"@
            && connection_color(connection) is Magenta,
{
}

/// The level line tells signal strength and battery, each where it is known.
pub proof fn law_level_line(state: AppView)
    ensures
        state.selection.rssi matches Some(r) ==> state.battery matches Some(v) ==> level_text(state)
            == ("rssi="@ + dec_signed(r as int) + " "@) + ("battery="@ + dec(v as nat) + "% "@
            + bar_text(v)),
        state.selection.rssi matches Some(r) ==> state.battery is None ==> level_text(state) == (
        "rssi="@ + dec_signed(r as int) + " "@) + "battery=?"@,
        state.battery matches Some(v) ==> state.selection.rssi is None ==> level_text(state)
            == "battery="@ + dec(v as nat) + "% "@ + bar_text(v),
        state.selection.rssi is None && state.battery is None ==> level_text(state)
            == "battery=?"@,
{
    assert(Seq::<char>::empty() + "battery=?"@ =~= "battery=?"@);
    if let Some(v) = state.battery {
        let level = "battery="@ + dec(v as nat) + "% "@ + bar_text(v);
        assert(Seq::<char>::empty() + level =~= level);
    }
}

/// The panel tells what is held, and of each contact its place, pressure, flags
/// and ellipse.
pub proof fn law_panel_lines(mask: u16, slot_no: nat, c: Contact)
    ensures
        pretty_text(0) == "—"@,
        mask != 0 ==> pretty_text(mask) == join(held_names(mask, 13), " + "@),
        contact_text(slot_no, c) == "  slot "@ + dec(slot_no) + ": x="@ + dec_signed(c.x as int)
            + " y="@ + dec_signed(c.y as int) + " pressure=0x"@ + hex2_upper(c.pressure)
            + " flags=0x"@ + hex2_upper(c.flags) + " hover="@ + flag_text(c.hover) + " angle="@
            + dec(((c.angle_idx + 1) % 8 * 225 / 10) as nat) + "."@ + dec(
            ((c.angle_idx + 1) % 8 * 225 % 10) as nat,
        ) + "° major="@ + dec(c.major as nat) + " minor="@ + dec(c.minor as nat),
{
}

/// The touch panel is idle before the first frame; after it, a head line and one
/// line per finger.
pub proof fn law_touch_panel(state: AppView)
    ensures
        state.last_touch is None ==> touch_lines_text(state) == seq!["touch: idle"@],
        state.last_touch matches Some(ev) ==> {
            let lines = touch_lines_text(state);
            &&& lines.len() == 1 + fingers_in(ev.points@)
            &&& lines[0] == "touch: fingers="@ + dec(fingers_in(ev.points@) as nat) + " seq=0x"@
                + hex4_upper(ev.seq) + " header=0x"@ + hex2_upper(ev.finger_mask)
            &&& ev.points@[0] is Some ==> lines[1] == contact_text(1, frame_of(ev).points@[0]->0)
            &&& ev.points@[1] is Some ==> lines.last() == contact_text(
                2,
                frame_of(ev).points@[1]->0,
            )
        },
{
}

/// The calibration panel tells the range that the samples cover and the one that
/// is saved.
pub proof fn law_calibration_panel(state: AppView, session: CalibrationSession)
    ensures
        calibration_lines_text(state, session).len() == 4,
        session.samples > 0 ==> calibration_lines_text(state, session)[2] == "x: "@ + range_text(
            session.x_min,
            session.x_max,
        ) + "  y: "@ + range_text(session.y_min, session.y_max) + "  samples="@ + dec(
            session.samples as nat,
        ),
        session.samples == 0 ==> calibration_lines_text(state, session)[2]
            == "x: [--..--]  y: [--..--]  samples=0"@,
        calibration_lines_text(state, session)[3] == "saved: x="@ + range_text(
            state.calibration.x_min,
            state.calibration.x_max,
        ) + " y="@ + range_text(state.calibration.y_min, state.calibration.y_max),
        range_text(session.x_min, session.x_max) == "["@ + dec_signed(session.x_min as int) + ".."@
            + dec_signed(session.x_max as int) + "]"@,
{
}

/// Log lines are tagged by where they come from, in its own colour, all to one
/// width.
pub proof fn law_tags(source: EventSource)
    ensures
        tag_text(source).len() == 8,
        source is Buttons ==> tag_text(source) == "buttons "@ && tag_color(source) is Yellow,
        source is Battery ==> tag_text(source) == "battery "@ && tag_color(source) is Green,
        source is Power ==> tag_text(source) == "  power "@ && tag_color(source) is Green,
        source is Raw ==> tag_text(source) == "    raw "@ && tag_color(source) is Blue,
        source is System ==> tag_text(source) == " system "@ && tag_color(source) is Magenta,
        source is Warning ==> tag_text(source) == "   warn "@ && tag_color(source) is LightRed,
{
    reveal_strlit("buttons ");
    reveal_strlit("battery ");
    reveal_strlit("  power ");
    reveal_strlit("    raw ");
    reveal_strlit(" system ");
    reveal_strlit("   warn ");
}

} // verus!
