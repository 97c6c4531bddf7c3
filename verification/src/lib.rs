//! A pause-aware countdown timer library.
//!
//! The crate models a single timing session: a [`timer::Countdown`] that
//! accounts elapsed wall-clock time exactly across pause/resume cycles, an
//! [`events::Logger`] that records state-change events and derives per-state
//! spans from them, a [`parser`] for `[[HH:]MM:]SS` duration strings, and a
//! [`pomo::Session`] that makes the per-iteration decisions of the
//! interactive loop. All durations are whole milliseconds.

pub mod card;
mod clock;
pub mod digits;
pub mod events;
pub mod parser;
pub mod pomo;
pub mod timer;
