//! The pause-aware countdown state machine.
//!
//! A [`Countdown`] owns a target duration and two accumulators, one for time
//! spent running and one for time spent paused. Each tick recomputes the
//! accumulator of the current state from a single fresh elapsed-time sample,
//! so the accounting never drifts: after every tick taken in a non-finished
//! state, `running + paused` equals the elapsed sample exactly.

use vstd::prelude::*;
use vstd::string::StringExecFns;

use crate::clock;
use crate::digits::dec_chars;
use crate::digits::format_two_digits;
use crate::digits::format_u64;
use crate::digits::two_digit_chars;

verus! {

/// The three phases of a countdown. `Finished` is terminal: no transition
/// leaves it.
#[derive(Clone, Copy, Debug, PartialEq, Eq, Structural)]
pub enum State {
    Running,
    Paused,
    Finished,
}

/// The abstract value of a [`Countdown`]. All times are whole milliseconds;
/// `start` is a wall-clock sample taken at construction, `running` and
/// `paused` are the accumulators, `target` the requested duration.
#[verifier::ext_equal]
pub ghost struct CountdownView {
    pub state: State,
    pub start: u64,
    pub target: u64,
    pub running: u64,
    pub paused: u64,
    pub title: Seq<char>,
}

impl CountdownView {
    /// The accumulators together always fit in a `u64`: their sum is the
    /// elapsed sample of the most recent tick (or 0 before the first one).
    pub open spec fn wf(self) -> bool {
        self.running + self.paused <= u64::MAX
    }
}

/// One tick of the state machine, given the elapsed milliseconds since the
/// countdown started: the accumulator of the current state is recomputed so
/// that the two sum to `elapsed_millis`, then the countdown finishes if the
/// running accumulator has reached the target.
pub open spec fn spec_tick(c: CountdownView, elapsed_millis: u64) -> CountdownView
    recommends
        c.wf(),
        !(c.state is Finished) ==> c.running + c.paused <= elapsed_millis,
{
    let c1 = match c.state {
        State::Running => CountdownView { running: (elapsed_millis - c.paused) as u64, ..c },
        State::Paused => CountdownView { paused: (elapsed_millis - c.running) as u64, ..c },
        State::Finished => c,
    };
    if c1.running >= c1.target {
        CountdownView { state: State::Finished, ..c1 }
    } else {
        c1
    }
}

/// Swap `Running` and `Paused`; a finished countdown is left exactly as it
/// is.
pub open spec fn spec_toggle(c: CountdownView) -> CountdownView {
    match c.state {
        State::Running => CountdownView { state: State::Paused, ..c },
        State::Paused => CountdownView { state: State::Running, ..c },
        State::Finished => c,
    }
}

/// Force the terminal state; everything else is untouched.
pub open spec fn spec_finish(c: CountdownView) -> CountdownView {
    CountdownView { state: State::Finished, ..c }
}

/// The elapsed sample a countdown derives from the wall-clock time
/// `now_millis`: the time since `start`, raised to the accumulators' sum so
/// that a clock that jumped backwards can never make a tick's subtraction
/// underflow.
pub open spec fn spec_elapsed(c: CountdownView, now_millis: u64) -> u64
    recommends
        c.wf(),
{
    let raw: int = if now_millis >= c.start {
        now_millis - c.start
    } else {
        0
    };
    let sum: int = c.running + c.paused;
    if raw >= sum {
        raw as u64
    } else {
        sum as u64
    }
}

/// Time left until the target, or `None` once the running accumulator has
/// passed it.
pub open spec fn spec_remaining(c: CountdownView) -> Option<u64> {
    if c.running <= c.target {
        Some((c.target - c.running) as u64)
    } else {
        None
    }
}

/// The whole-second count a clock face shows for `remaining_millis` left:
/// rounded up while more than 150ms of a second remain, so the face does not
/// flicker down to the next integer one tick early, and 0 only once the
/// countdown is truly at its end.
pub open spec fn spec_display_seconds(remaining_millis: u64) -> u64 {
    if remaining_millis / 1000 > 0 || remaining_millis % 1000 > 150 {
        (remaining_millis / 1000 + 1) as u64
    } else {
        0
    }
}

/// What a clock face shows: hours are only present when the target itself
/// was at least an hour.
#[derive(Clone, Copy, Debug, PartialEq, Eq, Structural)]
pub struct ClockFace {
    pub show_hours: bool,
    pub hours: u64,
    pub minutes: u64,
    pub seconds: u64,
}

/// The face for a countdown, or `None` once it has expired (the renderer
/// then leaves the digits out rather than showing an underflowed value).
pub open spec fn spec_face(c: CountdownView) -> Option<ClockFace> {
    match spec_remaining(c) {
        Some(rem) => {
            let d = spec_display_seconds(rem);
            Some(
                ClockFace {
                    show_hours: c.target / 1000 >= 3600,
                    hours: (d / 3600) as u64,
                    minutes: ((d % 3600) / 60) as u64,
                    seconds: (d % 60) as u64,
                },
            )
        },
        None => None,
    }
}

/// The face as text: `H:MM:SS` when hours are shown, `MM:SS` otherwise.
pub open spec fn spec_face_chars(c: CountdownView) -> Option<Seq<char>> {
    match spec_face(c) {
        Some(f) => {
            let hours_part = if f.show_hours {
                dec_chars(f.hours as int).push(':')
            } else {
                Seq::<char>::empty()
            };
            Some(
                hours_part + two_digit_chars(f.minutes as int) + seq![':'] + two_digit_chars(
                    f.seconds as int,
                ),
            )
        },
        None => None,
    }
}

/// THE TERMINAL-STATE LAW: a finished countdown is frozen. Ticking changes
/// nothing, whatever the clock says: neither the state nor the accumulators
/// nor the target move again.
pub proof fn lemma_finished_is_absorbing(c: CountdownView, elapsed_millis: u64)
    requires
        c.state is Finished,
    ensures
        spec_tick(c, elapsed_millis) == c,
{
}

/// THE ACCOUNTING LAW: however the countdown got into a non-finished state
/// (any number of toggles, in any rhythm), a single tick restores
/// `running + paused == elapsed` exactly.
pub proof fn lemma_tick_accounting(c: CountdownView, elapsed_millis: u64)
    requires
        c.wf(),
        !(c.state is Finished),
        c.running + c.paused <= elapsed_millis,
    ensures
        spec_tick(c, elapsed_millis).running + spec_tick(c, elapsed_millis).paused
            == elapsed_millis,
{
}

/// Toggling never touches the accumulators, so it cannot disturb the
/// accounting law.
pub proof fn lemma_toggle_keeps_accumulators(c: CountdownView)
    ensures
        spec_toggle(c).running == c.running,
        spec_toggle(c).paused == c.paused,
        spec_toggle(c).target == c.target,
{
}

/// Toggling a finished countdown changes nothing at all.
pub proof fn lemma_toggle_noop_when_finished(c: CountdownView)
    requires
        c.state is Finished,
    ensures
        spec_toggle(c) == c,
{
}

/// The countdown proper. Its fields are private; contracts speak of the
/// [`CountdownView`] reached through `@`.
pub struct Countdown {
    state: State,
    start: u64,
    target: u64,
    running: u64,
    paused: u64,
    title: String,
}

impl View for Countdown {
    type V = CountdownView;

    closed spec fn view(&self) -> CountdownView {
        CountdownView {
            state: self.state,
            start: self.start,
            target: self.target,
            running: self.running,
            paused: self.paused,
            title: self.title@,
        }
    }
}

impl Countdown {
    /// A fresh countdown: running, with both accumulators at zero and the
    /// start instant sampled from the wall clock.
    pub fn new(target_millis: u64, title: &str) -> (c: Countdown)
        ensures
            c@.state is Running,
            c@.target == target_millis,
            c@.running == 0,
            c@.paused == 0,
            c@.title == title@,
            c@.wf(),
    {
        Countdown {
            state: State::Running,
            start: clock::now_unix_millis(),
            target: target_millis,
            running: 0,
            paused: 0,
            title: title.to_owned(),
        }
    }

    /// One tick against a given elapsed sample (milliseconds since the
    /// countdown started). This is the whole state machine; [`Self::tick`]
    /// merely feeds it the wall clock.
    pub fn tick_at(&mut self, elapsed_millis: u64) -> (r: State)
        requires
            old(self)@.wf(),
            !(old(self)@.state is Finished) ==> old(self)@.running + old(self)@.paused
                <= elapsed_millis,
        ensures
            final(self)@ == spec_tick(old(self)@, elapsed_millis),
            r == final(self)@.state,
            final(self)@.wf(),
    {
        match self.state {
            State::Running => {
                self.running = elapsed_millis - self.paused;
            },
            State::Paused => {
                self.paused = elapsed_millis - self.running;
            },
            State::Finished => {},
        }
        if self.running >= self.target {
            self.state = State::Finished;
        }
        self.state
    }

    /// The elapsed sample derived from a wall-clock time, per
    /// [`spec_elapsed`].
    pub fn elapsed_at(&self, now_millis: u64) -> (e: u64)
        requires
            self@.wf(),
        ensures
            e == spec_elapsed(self@, now_millis),
    {
        let raw = if now_millis >= self.start {
            now_millis - self.start
        } else {
            0
        };
        let sum = self.running + self.paused;
        if raw >= sum {
            raw
        } else {
            sum
        }
    }

    /// One tick against the wall clock. The clock's value is out of anyone's
    /// hands, so the contract promises exactly this: the new state is
    /// [`spec_tick`] of the old at some elapsed sample at least as large as
    /// the accumulators' sum.
    pub fn tick(&mut self) -> (r: State)
        requires
            old(self)@.wf(),
        ensures
            final(self)@.wf(),
            exists|now: u64|
                final(self)@ == spec_tick(old(self)@, spec_elapsed(old(self)@, now)) && r
                    == final(self)@.state,
    {
        let now = clock::now_unix_millis();
        let e = self.elapsed_at(now);
        let r = self.tick_at(e);
        proof {
            assert(final(self)@ == spec_tick(old(self)@, spec_elapsed(old(self)@, now)) && r
                == final(self)@.state);
        }
        r
    }

    /// Swap `Running` and `Paused`; a no-op once finished.
    pub fn toggle(&mut self)
        ensures
            final(self)@ == spec_toggle(old(self)@),
    {
        self.state = match self.state {
            State::Running => State::Paused,
            State::Paused => State::Running,
            State::Finished => State::Finished,
        };
    }

    /// Force the terminal state from wherever the countdown stands; the
    /// accumulators keep whatever the last tick computed.
    pub fn finish(&mut self)
        ensures
            final(self)@ == spec_finish(old(self)@),
    {
        self.state = State::Finished;
    }

    /// Time left until the target, or `None` once expired.
    pub fn remaining(&self) -> (r: Option<u64>)
        ensures
            r == spec_remaining(self@),
    {
        self.target.checked_sub(self.running)
    }

    /// The digits a clock face shows for this countdown, or `None` once it
    /// has expired.
    pub fn face(&self) -> (r: Option<ClockFace>)
        ensures
            r == spec_face(self@),
    {
        match self.remaining() {
            Some(rem) => {
                let d = display_seconds(rem);
                Some(
                    ClockFace {
                        show_hours: self.target / 1000 >= 3600,
                        hours: d / 3600,
                        minutes: (d % 3600) / 60,
                        seconds: d % 60,
                    },
                )
            },
            None => None,
        }
    }

    /// The face as text, `H:MM:SS` or `MM:SS`, or `None` once expired.
    pub fn face_text(&self) -> (r: Option<String>)
        ensures
            match r {
                Some(s) => spec_face_chars(self@) == Some(s@),
                None => spec_face_chars(self@) is None,
            },
    {
        proof {
            reveal_strlit(":");
        }
        match self.face() {
            Some(f) => {
                let mut s = if f.show_hours {
                    let mut h = format_u64(f.hours);
                    h.append(":");
                    h
                } else {
                    String::new()
                };
                s.append(format_two_digits(f.minutes).as_str());
                s.append(":");
                s.append(format_two_digits(f.seconds).as_str());
                proof {
                    assert(Some(s@) =~~= spec_face_chars(self@));
                }
                Some(s)
            },
            None => None,
        }
    }

    /// The session label this countdown was created with.
    pub fn title(&self) -> (t: &str)
        ensures
            t@ == self@.title,
    {
        self.title.as_str()
    }

    /// The current state, without ticking.
    pub fn state(&self) -> (s: State)
        ensures
            s == self@.state,
    {
        self.state
    }

    /// The target duration in milliseconds.
    pub fn target_millis(&self) -> (t: u64)
        ensures
            t == self@.target,
    {
        self.target
    }

    /// The running-time accumulator in milliseconds.
    pub fn running_millis(&self) -> (t: u64)
        ensures
            t == self@.running,
    {
        self.running
    }

    /// The paused-time accumulator in milliseconds.
    pub fn paused_millis(&self) -> (t: u64)
        ensures
            t == self@.paused,
    {
        self.paused
    }
}

impl Default for Countdown {
    /// The fallback countdown: an empty title and a zero target, already
    /// due on its first tick.
    fn default() -> (c: Countdown)
        ensures
            c@.state is Running,
            c@.target == 0,
            c@.running == 0,
            c@.paused == 0,
            c@.title.len() == 0,
            c@.wf(),
    {
        proof {
            reveal_strlit("");
        }
        Countdown::new(0, "")
    }
}

/// The whole-second count shown for `remaining_millis` left, per
/// [`spec_display_seconds`].
pub fn display_seconds(remaining_millis: u64) -> (r: u64)
    ensures
        r == spec_display_seconds(remaining_millis),
{
    let secs = remaining_millis / 1000;
    let subsec = remaining_millis % 1000;
    if secs > 0 || subsec > 150 {
        secs + 1
    } else {
        0
    }
}

impl State {
    /// The state's name, as the shutdown report spells it.
    pub fn name(&self) -> (s: &'static str)
        ensures
            s@ == match *self {
                State::Running => "Running"@,
                State::Paused => "Paused"@,
                State::Finished => "Finished"@,
            },
    {
        match self {
            State::Running => "Running",
            State::Paused => "Paused",
            State::Finished => "Finished",
        }
    }
}

} // verus!

