use pomo::pomo::Action;
use pomo::pomo::Session;
use pomo::pomo::FINISH_BELL_COUNT;
use pomo::pomo::FINISH_BELL_DELAY_MS;
use pomo::pomo::KEY_QUIT;
use pomo::pomo::KEY_TOGGLE;
use pomo::pomo::TICK_INTERVAL_MS;
use pomo::timer::State;

#[test]
fn keys_and_defaults_are_documented_values() {
    assert_eq!(KEY_QUIT, b'q');
    assert_eq!(KEY_TOGGLE, b' ');
    assert_eq!(TICK_INTERVAL_MS, 100);
    assert_eq!(FINISH_BELL_COUNT, 5);
    assert_eq!(FINISH_BELL_DELAY_MS, 300);
}

#[test]
fn a_session_observes_toggles_quits_and_reports() {
    let mut s = Session::from_parts("writing", 600_000);
    assert_eq!(s.observe(), State::Running);
    assert_eq!(s.command(None), Action::Idle);
    assert_eq!(s.command(Some(b'x')), Action::Idle);
    assert_eq!(s.command(Some(KEY_TOGGLE)), Action::Toggled);
    assert_eq!(s.observe(), State::Paused);
    assert_eq!(s.command(Some(KEY_QUIT)), Action::Quit);
    assert_eq!(s.observe(), State::Finished);
    let f = s.format();
    assert_eq!(f.title, "writing");
    assert_eq!(f.events.len(), 2);
    assert_eq!(f.events[0].state, State::Running);
    assert_eq!(f.events[1].state, State::Paused);
}

#[test]
fn observing_an_unchanged_state_logs_once() {
    let mut s = Session::from_parts("", 600_000);
    for _ in 0..5 {
        assert_eq!(s.observe(), State::Running);
    }
    // One Running event only: the derived report has no spans yet.
    assert_eq!(s.format().events.len(), 0);
}

#[test]
fn quit_takes_effect_at_the_next_observation() {
    let mut s = Session::from_parts("", 600_000);
    assert_eq!(s.observe(), State::Running);
    assert_eq!(s.command(Some(KEY_QUIT)), Action::Quit);
    // The countdown is already finished; the next observation sees it.
    assert_eq!(s.countdown().state(), State::Finished);
    assert_eq!(s.observe(), State::Finished);
    assert_eq!(s.observe(), State::Finished);
    let f = s.format();
    assert_eq!(f.events.len(), 1);
    assert_eq!(f.events[0].state, State::Running);
}

#[test]
fn toggling_twice_returns_to_running() {
    let mut s = Session::from_parts("", 600_000);
    s.observe();
    assert_eq!(s.command(Some(KEY_TOGGLE)), Action::Toggled);
    assert_eq!(s.observe(), State::Paused);
    assert_eq!(s.command(Some(KEY_TOGGLE)), Action::Toggled);
    assert_eq!(s.observe(), State::Running);
}

#[test]
fn a_zero_target_session_finishes_immediately() {
    let mut s = Session::from_parts("", 0);
    assert_eq!(s.observe(), State::Finished);
    // The loop breaks before any command; only the one event is logged.
    assert_eq!(s.format().events.len(), 0);
}

#[test]
fn session_countdown_is_the_one_it_was_built_from() {
    let s = Session::from_parts("label", 25 * 60 * 1000);
    assert_eq!(s.countdown().title(), "label");
    assert_eq!(s.countdown().target_millis(), 1_500_000);
    assert_eq!(s.countdown().state(), State::Running);
}
