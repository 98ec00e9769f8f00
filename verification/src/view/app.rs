//! How the dashboard reacts to what reaches it while a link is up, and while it
//! waits for one.

use vstd::prelude::*;

use crate::logger::LogRecord;
use crate::session::DeviceEvent;
use crate::view::state::{
    event_applied, log_source, logged, still_glowing, AppState, AppView, BUTTON_AFTERGLOW,
};

verus! {

/// Outcome of one connected-session run. The reconnect loop uses this to decide
/// whether to retry the link or exit the process.
#[derive(Clone, Copy, Debug, PartialEq, Eq, Structural)]
pub enum AppOutcome {
    /// User asked to quit (`q`, `Esc`, or `Ctrl-C`).
    Quit,
    /// Underlying session ended.
    Disconnected,
}

/// Outcome of a wait during which the dashboard stays responsive.
pub enum WaitOutcome<T> {
    Ready(T),
    Quit,
}

/// A key of the terminal.
#[derive(Clone, Copy, Debug, PartialEq, Eq, Structural)]
pub enum Key {
    Char(char),
    Esc,
    Other,
}

/// Whether a key press asks to quit: `q`, `Esc`, or `Ctrl-C`.
pub open spec fn is_quit(key: Key, control: bool) -> bool {
    key == Key::Char('q') || key is Esc || (key == Key::Char('c') && control)
}

/// Whether a key press asks to quit.
pub fn should_quit(key: Key, control: bool) -> (r: bool)
    ensures
        r == is_quit(key, control),
{
    match key {
        Key::Esc => true,
        Key::Char(c) => c == 'q' || (c == 'c' && control),
        Key::Other => false,
    }
}

/// What came from the terminal.
pub enum Terminal {
    /// A key press, with whether Control was down.
    Pressed(Key, bool),
    /// Anything else, or an event that could not be read.
    Ignored,
    /// The terminal is gone.
    Closed,
}

/// Whether what came from the terminal ends the program.
pub open spec fn ends_program(terminal: Terminal) -> bool {
    match terminal {
        Terminal::Pressed(key, control) => is_quit(key, control),
        Terminal::Ignored => false,
        Terminal::Closed => true,
    }
}

fn terminal_ends(terminal: &Terminal) -> (r: bool)
    ensures
        r == ends_program(*terminal),
{
    match terminal {
        Terminal::Pressed(key, control) => should_quit(*key, *control),
        Terminal::Ignored => false,
        Terminal::Closed => true,
    }
}

/// What reaches the dashboard while a link is up.
pub enum UiEvent {
    /// The next event of the session; `None` when it has ended.
    Session(Option<DeviceEvent>),
    Terminal(Terminal),
    /// Time to redraw.
    Tick,
    Log(LogRecord),
}

/// What the dashboard does next.
#[derive(Clone, Copy, Debug, PartialEq, Eq, Structural)]
pub enum UiStep {
    /// Draw the state and go on.
    Redraw,
    /// Go on.
    Continue,
    /// The session is over.
    Finish(AppOutcome),
}

/// The state after the dashboard has dealt with something.
pub open spec fn ui_applied(state: AppView, event: UiEvent, now: u64) -> AppView {
    match event {
        UiEvent::Session(Some(ev)) => event_applied(state, ev, now),
        UiEvent::Tick => AppView {
            button_afterglow: still_glowing(state.button_afterglow, now),
            ..state
        },
        UiEvent::Log(record) => logged(state, log_source(record.level), record.message@, now),
        _ => state,
    }
}

/// What the dashboard does next.
pub open spec fn ui_next(event: UiEvent) -> UiStep {
    match event {
        UiEvent::Session(None) => UiStep::Finish(AppOutcome::Disconnected),
        UiEvent::Terminal(t) => if ends_program(t) {
            UiStep::Finish(AppOutcome::Quit)
        } else {
            UiStep::Continue
        },
        _ => UiStep::Redraw,
    }
}

/// Deal with what reaches the dashboard while a link is up.
pub fn run_session(state: &mut AppState, event: UiEvent, now: u64) -> (step: UiStep)
    requires
        old(state).wf(),
        now + BUTTON_AFTERGLOW <= u64::MAX,
    ensures
        final(state).wf(),
        final(state)@ == ui_applied(old(state)@, event, now),
        step == ui_next(event),
{
    match event {
        UiEvent::Session(None) => UiStep::Finish(AppOutcome::Disconnected),
        UiEvent::Session(Some(ev)) => {
            state.on_event(ev, now);
            UiStep::Redraw
        },
        UiEvent::Terminal(terminal) => {
            if terminal_ends(&terminal) {
                UiStep::Finish(AppOutcome::Quit)
            } else {
                UiStep::Continue
            }
        },
        UiEvent::Tick => {
            state.tick_afterglow(now);
            UiStep::Redraw
        },
        UiEvent::Log(record) => {
            state.on_log(record, now);
            UiStep::Redraw
        },
    }
}

/// What reaches the dashboard while it waits for something.
pub enum WaitEvent<T> {
    /// What it waits for has come.
    Ready(T),
    Terminal(Terminal),
    Tick,
    Log(LogRecord),
    /// The state could not be drawn.
    DrawFailed,
}

/// What the waiting dashboard does next.
pub enum WaitStep<T> {
    Redraw,
    Continue,
    Finish(WaitOutcome<T>),
}

/// Deal with what reaches the dashboard while it waits for something.
pub fn wait_with_ui<T>(state: &mut AppState, event: WaitEvent<T>, now: u64) -> (step: WaitStep<T>)
    requires
        old(state).wf(),
    ensures
        final(state).wf(),
        match event {
            WaitEvent::Ready(v) => {
                &&& step == WaitStep::Finish(WaitOutcome::Ready(v))
                &&& final(state)@ == old(state)@
            },
            WaitEvent::Terminal(t) => {
                &&& step == if ends_program(t) {
                    WaitStep::Finish(WaitOutcome::<T>::Quit)
                } else {
                    WaitStep::<T>::Continue
                }
                &&& final(state)@ == old(state)@
            },
            WaitEvent::Tick => {
                &&& step is Redraw
                &&& final(state)@ == (AppView {
                    button_afterglow: still_glowing(old(state)@.button_afterglow, now),
                    ..old(state)@
                })
            },
            WaitEvent::Log(record) => {
                &&& step is Redraw
                &&& final(state)@ == logged(
                    old(state)@,
                    log_source(record.level),
                    record.message@,
                    now,
                )
            },
            WaitEvent::DrawFailed => {
                &&& step == WaitStep::Finish(WaitOutcome::<T>::Quit)
                &&& final(state)@ == old(state)@
            },
        },
{
    match event {
        WaitEvent::Ready(v) => WaitStep::Finish(WaitOutcome::Ready(v)),
        WaitEvent::Terminal(terminal) => {
            if terminal_ends(&terminal) {
                WaitStep::Finish(WaitOutcome::Quit)
            } else {
                WaitStep::Continue
            }
        },
        WaitEvent::Tick => {
            state.tick_afterglow(now);
            WaitStep::Redraw
        },
        WaitEvent::Log(record) => {
            state.on_log(record, now);
            WaitStep::Redraw
        },
        WaitEvent::DrawFailed => WaitStep::Finish(WaitOutcome::Quit),
    }
}

// -- Laws ---------------------------------------------------------------------

/// The keys that end the program: q, Esc, and c with Control.
pub proof fn law_quit_keys(key: Key, control: bool)
    ensures
        is_quit(key, control) <==> {
            ||| key is Esc
            ||| key == Key::Char('q')
            ||| control && key == Key::Char('c')
        },
        ends_program(Terminal::Pressed(key, control)) <==> is_quit(key, control),
        ends_program(Terminal::Closed),
        !ends_program(Terminal::Ignored),
{
}

/// What the dashboard does with what reaches it: the session's end ends it, a
/// quit key quits, anything else from the terminal is passed over, and all else
/// is shown.
pub proof fn law_dashboard_steps(state: AppView, event: UiEvent, now: u64)
    ensures
        event matches UiEvent::Session(None) ==> ui_next(event) == UiStep::Finish(
            AppOutcome::Disconnected,
        ) && ui_applied(state, event, now) == state,
        event matches UiEvent::Session(Some(ev)) ==> ui_next(event) is Redraw && ui_applied(
            state,
            event,
            now,
        ) == event_applied(state, ev, now),
        event matches UiEvent::Terminal(t) ==> ui_applied(state, event, now) == state && (
        ends_program(t) ==> ui_next(event) == UiStep::Finish(AppOutcome::Quit)) && (!ends_program(t)
            ==> ui_next(event) is Continue),
        event is Tick ==> ui_next(event) is Redraw && ui_applied(state, event, now) == (AppView {
            button_afterglow: still_glowing(state.button_afterglow, now),
            ..state
        }),
        event matches UiEvent::Log(r) ==> ui_next(event) is Redraw && ui_applied(
            state,
            event,
            now,
        ).events.last().text == r.message@ && ui_applied(state, event, now).events.last().stamp
            == now,
{
}

} // verus!
