//! The decisions of the interactive loop.
//!
//! A [`Session`] owns one [`Countdown`] and one [`Logger`]. Each loop
//! iteration first calls [`Session::observe`] (tick, then log the resulting
//! state) and stops once that returns `Finished`; otherwise it hands the at
//! most one byte read from the input to [`Session::command`], and the
//! returned [`Action`] tells the caller what remains to be done outside the
//! library: quit, ring the bell and render, or just render. The caller owns
//! the terminal, the sleep between iterations, and the shutdown bells; the
//! named constants here are their documented defaults.

use vstd::prelude::*;

use crate::clock;
use crate::events::Formatted;
use crate::events::Logger;
use crate::events::LoggerView;
use crate::events::spec_format;
use crate::events::spec_log;
use crate::events::spec_log_time;
use crate::timer::Countdown;
use crate::timer::CountdownView;
use crate::timer::State;
use crate::timer::spec_elapsed;
use crate::timer::spec_finish;
use crate::timer::spec_tick;
use crate::timer::spec_toggle;

verus! {

/// How long the loop sleeps between iterations, in milliseconds. This paces
/// redraw and input latency only; timing correctness comes entirely from
/// the countdown's wall-clock sampling.
pub const TICK_INTERVAL_MS: u64 = 100;

/// How many bells ring when the session ends.
pub const FINISH_BELL_COUNT: u64 = 5;

/// The delay between those closing bells, in milliseconds.
pub const FINISH_BELL_DELAY_MS: u64 = 300;

/// The key that quits the session: the byte of `q`.
pub const KEY_QUIT: u8 = 113;

/// The key that toggles pause: the byte of the space bar.
pub const KEY_TOGGLE: u8 = 32;

/// What the loop's caller should do after one command dispatch.
#[derive(Clone, Copy, Debug, PartialEq, Eq, Structural)]
pub enum Action {
    /// The user quit: skip the render and go straight to the next
    /// observation, which will see `Finished`.
    Quit,
    /// The pause state flipped: ring the bell once, then render.
    Toggled,
    /// Nothing happened: render as usual.
    Idle,
}

/// The abstract value of a [`Session`].
#[verifier::ext_equal]
pub ghost struct SessionView {
    pub current: CountdownView,
    pub logger: LoggerView,
}

impl SessionView {
    /// Both halves well-formed.
    pub open spec fn wf(self) -> bool {
        self.current.wf() && self.logger.wf()
    }
}

/// One observation at the wall-clock sample `now`: tick the countdown, then
/// log the state the tick returned.
pub open spec fn spec_observe(s: SessionView, now: u64) -> SessionView {
    let c = spec_tick(s.current, spec_elapsed(s.current, now));
    SessionView { current: c, logger: spec_log(s.logger, c.state, spec_log_time(s.logger, now)) }
}

/// One command dispatch: the quit key finishes the countdown, the toggle
/// key flips pause, any other byte (or none at all) changes nothing.
pub open spec fn spec_command(s: SessionView, key: Option<u8>) -> (SessionView, Action) {
    if key == Some(KEY_QUIT) {
        (SessionView { current: spec_finish(s.current), ..s }, Action::Quit)
    } else if key == Some(KEY_TOGGLE) {
        (SessionView { current: spec_toggle(s.current), ..s }, Action::Toggled)
    } else {
        (s, Action::Idle)
    }
}

/// One timing session: the countdown and its event log, created together.
pub struct Session {
    current: Countdown,
    logger: Logger,
}

impl View for Session {
    type V = SessionView;

    closed spec fn view(&self) -> SessionView {
        SessionView { current: self.current@, logger: self.logger@ }
    }
}

impl Session {
    /// A session from an already-built countdown and log.
    pub fn new(counter: Countdown, logger: Logger) -> (s: Session)
        ensures
            s@.current == counter@,
            s@.logger == logger@,
    {
        Session { current: counter, logger }
    }

    /// A fresh session: a running countdown over `target_millis` and an
    /// empty log, both labelled `name`.
    pub fn from_parts(name: &str, target_millis: u64) -> (s: Session)
        ensures
            s@.wf(),
            s@.current.state is Running,
            s@.current.target == target_millis,
            s@.current.running == 0,
            s@.current.paused == 0,
            s@.current.title == name@,
            s@.logger.title == name@,
            s@.logger.events.len() == 0,
    {
        let counter = Countdown::new(target_millis, name);
        let logger = Logger::new(name);
        Session::new(counter, logger)
    }

    /// One observation against a given wall-clock sample, per
    /// [`spec_observe`]. This is the whole per-iteration bookkeeping;
    /// [`Self::observe`] merely feeds it the clock.
    pub fn observe_at(&mut self, now_millis: u64) -> (r: State)
        requires
            old(self)@.wf(),
        ensures
            final(self)@ == spec_observe(old(self)@, now_millis),
            r == final(self)@.current.state,
            final(self)@.wf(),
    {
        let e = self.current.elapsed_at(now_millis);
        let st = self.current.tick_at(e);
        self.logger.log_at(st, now_millis);
        st
    }

    /// One observation against the wall clock. The clock's value is out of
    /// anyone's hands, so the contract promises exactly this: the new
    /// session is [`spec_observe`] of the old at some sample.
    pub fn observe(&mut self) -> (r: State)
        requires
            old(self)@.wf(),
        ensures
            final(self)@.wf(),
            exists|now: u64|
                final(self)@ == spec_observe(old(self)@, now) && r
                    == final(self)@.current.state,
    {
        let now = clock::now_unix_millis();
        let r = self.observe_at(now);
        proof {
            assert(final(self)@ == spec_observe(old(self)@, now) && r
                == final(self)@.current.state);
        }
        r
    }

    /// Dispatch the at most one byte read from the input, per
    /// [`spec_command`].
    pub fn command(&mut self, key: Option<u8>) -> (a: Action)
        ensures
            final(self)@ == spec_command(old(self)@, key).0,
            a == spec_command(old(self)@, key).1,
    {
        match key {
            Some(b) => {
                if b == KEY_QUIT {
                    self.current.finish();
                    Action::Quit
                } else if b == KEY_TOGGLE {
                    self.current.toggle();
                    Action::Toggled
                } else {
                    Action::Idle
                }
            },
            None => Action::Idle,
        }
    }

    /// The shutdown report derived from the session's log.
    pub fn format(&self) -> (f: Formatted)
        requires
            self@.wf(),
        ensures
            f@ == spec_format(self@.logger),
    {
        self.logger.format()
    }

    /// The countdown, for rendering.
    pub fn countdown(&self) -> (c: &Countdown)
        ensures
            c@ == self@.current,
    {
        &self.current
    }
}

} // verus!
