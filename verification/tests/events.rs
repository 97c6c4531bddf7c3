use pomo::events::Event;
use pomo::events::Formatted;
use pomo::events::Logger;
use pomo::events::Span;
use pomo::timer::State;

#[test]
fn repeated_state_appends_exactly_one_event() {
    let mut l = Logger::new("t");
    l.log_at(State::Running, 0);
    l.log_at(State::Running, 100);
    l.log_at(State::Running, 5_000);
    l.log_at(State::Running, 60_000);
    assert_eq!(l.event_count(), 1);
    assert_eq!(l.event_at(0).at_millis, 0);
}

#[test]
fn alternating_states_append_one_event_each() {
    let mut l = Logger::new("t");
    l.log_at(State::Running, 0);
    l.log_at(State::Paused, 10_000);
    l.log_at(State::Running, 15_000);
    l.log_at(State::Finished, 25_000);
    assert_eq!(l.event_count(), 4);
}

#[test]
fn duplicates_between_changes_are_dropped() {
    let mut l = Logger::new("t");
    l.log_at(State::Running, 0);
    l.log_at(State::Running, 100);
    l.log_at(State::Paused, 10_000);
    l.log_at(State::Paused, 10_100);
    l.log_at(State::Paused, 10_200);
    l.log_at(State::Running, 15_000);
    assert_eq!(l.event_count(), 3);
    assert_eq!(l.event_at(0).state, State::Running);
    assert_eq!(l.event_at(1).state, State::Paused);
    assert_eq!(l.event_at(2).state, State::Running);
}

#[test]
fn format_derives_one_span_per_adjacent_pair() {
    let mut l = Logger::new("session");
    l.log_at(State::Running, 0);
    l.log_at(State::Paused, 10_000);
    l.log_at(State::Running, 15_000);
    l.log_at(State::Finished, 25_000);
    let f = l.format();
    assert_eq!(f.title, "session");
    assert_eq!(f.events.len(), 3);
    assert_eq!(f.events[0].state, State::Running);
    assert_eq!(f.events[0].duration, "10.0");
    assert_eq!(f.events[1].state, State::Paused);
    assert_eq!(f.events[1].duration, "5.0");
    assert_eq!(f.events[2].state, State::Running);
    assert_eq!(f.events[2].duration, "10.0");
}

#[test]
fn format_of_empty_log_has_no_spans() {
    let l = Logger::new("t");
    let f = l.format();
    assert_eq!(f.title, "t");
    assert_eq!(f.events.len(), 0);
}

#[test]
fn format_of_single_event_has_no_spans() {
    // The interval from the last event to program end is not captured.
    let mut l = Logger::new("t");
    l.log_at(State::Running, 0);
    assert_eq!(l.format().events.len(), 0);
}

#[test]
fn formatted_from_matches_format() {
    let mut l = Logger::new("t");
    l.log_at(State::Running, 1_000);
    l.log_at(State::Finished, 3_500);
    let f = Formatted::from(&l);
    assert_eq!(f.events.len(), 1);
    assert_eq!(f.events[0].state, State::Running);
    assert_eq!(f.events[0].duration, "2.5");
}

#[test]
fn span_duration_is_seconds_dot_tenths() {
    let a = Event { state: State::Running, at_millis: 1_500 };
    let b = Event { state: State::Paused, at_millis: 3_700 };
    let sp = Span::from(&a, &b);
    assert_eq!(sp.state, State::Running);
    assert_eq!(sp.duration, "2.2");
}

#[test]
fn span_duration_truncates_below_a_tenth() {
    let a = Event { state: State::Paused, at_millis: 0 };
    let b = Event { state: State::Paused, at_millis: 999 };
    assert_eq!(Span::from(&a, &b).duration, "0.9");
    let c = Event { state: State::Paused, at_millis: 10_099 };
    assert_eq!(Span::from(&a, &c).duration, "10.0");
}

#[test]
fn span_of_zero_duration() {
    let a = Event { state: State::Running, at_millis: 42 };
    let b = Event { state: State::Running, at_millis: 42 };
    assert_eq!(Span::from(&a, &b).duration, "0.0");
}

#[test]
fn backwards_clock_sample_is_raised_to_the_last_event() {
    let mut l = Logger::new("t");
    l.log_at(State::Running, 1_000);
    l.log_at(State::Paused, 500);
    assert_eq!(l.event_count(), 2);
    assert_eq!(l.event_at(1).at_millis, 1_000);
}

#[test]
fn wall_clock_log_dedups_too() {
    let mut l = Logger::new("t");
    l.log(State::Running);
    l.log(State::Running);
    assert_eq!(l.event_count(), 1);
    l.log(State::Paused);
    assert_eq!(l.event_count(), 2);
}
