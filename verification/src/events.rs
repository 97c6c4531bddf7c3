//! The state-change event log and the span report derived from it.
//!
//! A [`Logger`] appends an [`Event`] only when the observed state differs
//! from the last entry's, so the log holds exactly the boundaries between
//! states. [`Logger::format`] turns each adjacent pair of events into a
//! [`Span`]: the state that was active, tagged with how long it lasted. The
//! interval from the last event to the end of the program is deliberately
//! not captured: no closing timestamp is synthesized.

use vstd::prelude::*;
use vstd::string::StringExecFns;

use crate::clock;
use crate::digits::dec_chars;
use crate::digits::digit_char;
use crate::digits::digit_str;
use crate::digits::format_u64;
use crate::timer::State;

verus! {

/// One logged state change: which state was entered, and when, as a
/// wall-clock sample in milliseconds since the Unix epoch.
#[derive(Clone, Copy, Debug, PartialEq, Eq, Structural)]
pub struct Event {
    pub state: State,
    pub at_millis: u64,
}

/// The abstract value of a [`Logger`].
#[verifier::ext_equal]
pub ghost struct LoggerView {
    pub title: Seq<char>,
    pub events: Seq<Event>,
}

impl LoggerView {
    /// Event timestamps never decrease, so every adjacent pair yields a
    /// well-defined span.
    pub open spec fn wf(self) -> bool {
        forall|i: int|
            0 <= i < self.events.len() - 1 ==> #[trigger] self.events[i].at_millis
                <= self.events[i + 1].at_millis
    }
}

/// What logging `s` at time `t` does: append `{s, t}` iff the log is empty
/// or its last entry's state differs from `s`.
pub open spec fn spec_log(l: LoggerView, s: State, t: u64) -> LoggerView {
    if l.events.len() == 0 || l.events.last().state != s {
        LoggerView { events: l.events.push(Event { state: s, at_millis: t }), ..l }
    } else {
        l
    }
}

/// The timestamp actually recorded for a wall-clock sample `now`: raised to
/// the last event's time if the clock jumped backwards, so that [`LoggerView::wf`]
/// is kept.
pub open spec fn spec_log_time(l: LoggerView, now: u64) -> u64 {
    if l.events.len() > 0 && l.events.last().at_millis > now {
        l.events.last().at_millis
    } else {
        now
    }
}

/// THE DEDUPLICATION LAW: logging a state that is already the log's last
/// entry changes nothing, at whatever time it happens. Repeated `log` calls
/// under an unchanged state therefore append exactly one event in total.
pub proof fn lemma_log_dedup(l: LoggerView, s: State, t1: u64, t2: u64)
    ensures
        spec_log(spec_log(l, s, t1), s, t2) == spec_log(l, s, t1),
{
    let l1 = spec_log(l, s, t1);
    assert(l1.events.len() > 0 && l1.events.last().state == s);
}

/// One span of the report: the state that was active between two adjacent
/// events, and for how long, as text of the form `<seconds>.<tenths>`.
pub struct Span {
    pub state: State,
    pub duration: String,
}

/// The abstract value of a [`Span`].
#[verifier::ext_equal]
pub ghost struct SpanView {
    pub state: State,
    pub duration: Seq<char>,
}

impl View for Span {
    type V = SpanView;

    open spec fn view(&self) -> SpanView {
        SpanView { state: self.state, duration: self.duration@ }
    }
}

/// `<seconds>.<tenths>` for a duration in milliseconds.
pub open spec fn spec_duration_chars(d: u64) -> Seq<char> {
    dec_chars((d / 1000) as int).push('.').push(digit_char(((d % 1000) / 100) as int))
}

/// The span between two adjacent events: the first one's state, lasting up
/// to the second one's timestamp.
pub open spec fn spec_span(a: Event, b: Event) -> SpanView
    recommends
        a.at_millis <= b.at_millis,
{
    SpanView { state: a.state, duration: spec_duration_chars((b.at_millis - a.at_millis) as u64) }
}

impl Span {
    /// The span from `start` to `end`.
    pub fn from(start: &Event, end: &Event) -> (sp: Span)
        requires
            start.at_millis <= end.at_millis,
        ensures
            sp@ == spec_span(*start, *end),
    {
        proof {
            reveal_strlit(".");
        }
        let d = end.at_millis - start.at_millis;
        let mut duration = format_u64(d / 1000);
        duration.append(".");
        duration.append(digit_str((d % 1000) / 100));
        proof {
            assert(duration@ =~= spec_duration_chars(d));
        }
        Span { state: start.state, duration }
    }
}

/// The state-change log of one session.
pub struct Logger {
    title: String,
    events: Vec<Event>,
}

impl View for Logger {
    type V = LoggerView;

    closed spec fn view(&self) -> LoggerView {
        LoggerView { title: self.title@, events: self.events@ }
    }
}

impl Logger {
    /// An empty log for a session with the given label.
    pub fn new(title: &str) -> (l: Logger)
        ensures
            l@.title == title@,
            l@.events.len() == 0,
            l@.wf(),
    {
        Logger { title: title.to_owned(), events: Vec::new() }
    }

    /// Record that `state` was observed at the wall-clock sample
    /// `now_millis`: an event is appended exactly when the state changed,
    /// with the sample raised to the last event's time if the clock jumped
    /// backwards.
    pub fn log_at(&mut self, state: State, now_millis: u64)
        requires
            old(self)@.wf(),
        ensures
            final(self)@ == spec_log(old(self)@, state, spec_log_time(old(self)@, now_millis)),
            final(self)@.wf(),
    {
        let n = self.events.len();
        if n == 0 {
            self.events.push(Event { state, at_millis: now_millis });
        } else {
            let last = self.events[n - 1];
            if last.state != state {
                let at = if last.at_millis > now_millis {
                    last.at_millis
                } else {
                    now_millis
                };
                self.events.push(Event { state, at_millis: at });
            }
        }
        proof {
            assert(final(self)@.wf());
        }
    }

    /// Record that `state` was observed now, against the wall clock. The
    /// clock's value is out of anyone's hands, so the contract promises
    /// exactly this: the new log is [`spec_log`] of the old at some time no
    /// earlier than the last event's.
    pub fn log(&mut self, state: State)
        requires
            old(self)@.wf(),
        ensures
            final(self)@.wf(),
            exists|now: u64|
                final(self)@ == spec_log(old(self)@, state, spec_log_time(old(self)@, now)),
    {
        let now = clock::now_unix_millis();
        self.log_at(state, now);
        proof {
            assert(final(self)@ == spec_log(old(self)@, state, spec_log_time(old(self)@, now)));
        }
    }

    /// How many boundary events the log holds.
    pub fn event_count(&self) -> (n: usize)
        ensures
            n == self@.events.len(),
    {
        self.events.len()
    }

    /// The `i`-th logged event.
    pub fn event_at(&self, i: usize) -> (e: Event)
        requires
            i < self@.events.len(),
        ensures
            e == self@.events[i as int],
    {
        self.events[i]
    }

    /// The derived report: one span per adjacent pair of events.
    pub fn format(&self) -> (f: Formatted)
        requires
            self@.wf(),
        ensures
            f@ == spec_format(self@),
    {
        Formatted::from(self)
    }
}

/// The abstract value of a [`Formatted`] report.
#[verifier::ext_equal]
pub ghost struct FormattedView {
    pub title: Seq<char>,
    pub events: Seq<SpanView>,
}

/// The report derived from a log: its title, and the span of every adjacent
/// pair of events, in order. An n-event log yields exactly n-1 spans; the
/// terminal event opens no span.
pub open spec fn spec_format(l: LoggerView) -> FormattedView {
    FormattedView {
        title: l.title,
        events: Seq::new(
            if l.events.len() == 0 {
                0
            } else {
                (l.events.len() - 1) as nat
            },
            |i: int| spec_span(l.events[i], l.events[i + 1]),
        ),
    }
}

/// The report written at shutdown: the session title and the derived spans.
pub struct Formatted {
    pub title: String,
    pub events: Vec<Span>,
}

impl View for Formatted {
    type V = FormattedView;

    open spec fn view(&self) -> FormattedView {
        FormattedView {
            title: self.title@,
            events: Seq::new(self.events@.len(), |i: int| self.events@[i]@),
        }
    }
}

impl Formatted {
    /// The report for a log, per [`spec_format`].
    pub fn from(logger: &Logger) -> (f: Formatted)
        requires
            logger@.wf(),
        ensures
            f@ == spec_format(logger@),
    {
        let n = logger.events.len();
        let mut events: Vec<Span> = Vec::new();
        let mut i: usize = 0;
        while i + 1 < n
            invariant
                logger@.wf(),
                n == logger@.events.len(),
                n > 0 ==> i <= n - 1,
                n == 0 ==> i == 0,
                events@.len() == i,
                forall|j: int|
                    0 <= j < i ==> #[trigger] events@[j]@ == spec_span(
                        logger@.events[j],
                        logger@.events[j + 1],
                    ),
            decreases n - i,
        {
            events.push(Span::from(&logger.events[i], &logger.events[i + 1]));
            i += 1;
        }
        let f = Formatted { title: logger.title.clone(), events };
        proof {
            assert(f@ =~~= spec_format(logger@));
        }
        f
    }
}

} // verus!
