//! The start/stop timer: which input signals are taken, and what each one does.

use vstd::prelude::*;

verus! {

/// Signals closer than this to the last accepted one, in microseconds, are
/// ignored, so that one key press and its release count once.
pub const DEBOUNCE_MICROS: u64 = 250_000;

/// An input signal.
#[derive(PartialEq, Eq, Structural, Clone, Copy, Debug)]
pub enum Key {
    /// Starts an idle timer, or stops a running one.
    Space,
    /// Cancels: stops a running timer without recording, and clears the display.
    Escape,
    /// Any other key: it counts for the debounce and does nothing else.
    Other,
}

/// What an input signal did.
#[derive(PartialEq, Eq, Structural, Clone, Copy, Debug)]
pub enum Action {
    /// The signal came too soon after the last accepted one.
    Ignored,
    /// The timer started.
    Started,
    /// The timer stopped after this many microseconds.
    Stopped(u64),
    /// The timer was cancelled.
    Cancelled,
    /// The signal was taken and changed nothing but the debounce.
    Accepted,
}

/// Timer state; instants are microseconds since the Unix epoch.
#[derive(PartialEq, Eq, Structural, Clone, Copy, Debug)]
pub struct Timer {
    pub running: bool,
    pub start: u64,
    pub debounce: u64,
}

/// Whether a signal at `now` is far enough from the last accepted one.
pub open spec fn accepts(t: Timer, now: u64) -> bool {
    now >= t.debounce && now - t.debounce > DEBOUNCE_MICROS
}

/// The time from `start` to `now`; zero where the clock went back.
pub open spec fn elapsed_between(start: u64, now: u64) -> u64 {
    if now >= start {
        (now - start) as u64
    } else {
        0
    }
}

/// The timer after a signal, and what the signal did.
pub open spec fn timer_step(t: Timer, key: Key, now: u64) -> (Timer, Action) {
    if !accepts(t, now) {
        (t, Action::Ignored)
    } else {
        match key {
            Key::Space => if t.running {
                (
                    Timer { running: false, start: t.start, debounce: now },
                    Action::Stopped(elapsed_between(t.start, now)),
                )
            } else {
                (Timer { running: true, start: now, debounce: now }, Action::Started)
            },
            Key::Escape => (
                Timer { running: false, start: t.start, debounce: now },
                Action::Cancelled,
            ),
            Key::Other => (Timer { running: t.running, start: t.start, debounce: now }, Action::Accepted),
        }
    }
}

/// Whether an action changed the timer's state.
pub open spec fn is_transition(a: Action) -> bool {
    match a {
        Action::Started | Action::Stopped(_) | Action::Cancelled => true,
        _ => false,
    }
}

impl Timer {
    /// An idle timer that takes the first signal whenever it comes.
    pub fn new() -> (r: Self)
        ensures
            !r.running,
            r.start == 0,
            r.debounce == 0,
    {
        Timer { running: false, start: 0, debounce: 0 }
    }

    /// Handles a signal that came at `now`.
    pub fn on_key(&mut self, key: Key, now: u64) -> (r: Action)
        ensures
            (*final(self), r) == timer_step(*old(self), key, now),
    {
        if now < self.debounce || now - self.debounce <= DEBOUNCE_MICROS {
            return Action::Ignored;
        }
        self.debounce = now;
        match key {
            Key::Space => {
                if self.running {
                    self.running = false;
                    let elapsed = if now >= self.start {
                        now - self.start
                    } else {
                        0
                    };
                    Action::Stopped(elapsed)
                } else {
                    self.running = true;
                    self.start = now;
                    Action::Started
                }
            },
            Key::Escape => {
                self.running = false;
                Action::Cancelled
            },
            Key::Other => Action::Accepted,
        }
    }

    /// How long the timer has been running at `now`.
    pub fn elapsed(&self, now: u64) -> (r: u64)
        ensures
            r == elapsed_between(self.start, now),
    {
        if now >= self.start {
            now - self.start
        } else {
            0
        }
    }
}

/// Two start signals less than the debounce interval apart make at most one
/// transition: once the first is taken, the second is ignored and changes
/// nothing.
pub proof fn lemma_debounce(t: Timer, first: u64, second: u64)
    requires
        first <= second,
        second - first < DEBOUNCE_MICROS,
    ensures
        !(is_transition(timer_step(t, Key::Space, first).1) && is_transition(
            timer_step(timer_step(t, Key::Space, first).0, Key::Space, second).1,
        )),
        timer_step(t, Key::Space, first).1 != Action::Ignored ==> timer_step(
            timer_step(t, Key::Space, first).0,
            Key::Space,
            second,
        ) == (timer_step(t, Key::Space, first).0, Action::Ignored),
{
}

} // verus!
