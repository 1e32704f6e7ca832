//! Core of a habit-tracking application: a cursor-addressed text buffer,
//! a modal input state machine, a streak engine over completion dates,
//! an effort aggregator bucketing logged hours by timeframe, and a
//! calendar classifier, together with an in-memory model of the habit
//! store. Terminal rendering, keyboard capture and the persistent
//! database live outside this crate and talk to it through plain values.

pub mod keys;
pub mod input_mode;
pub mod text_input;
pub mod streak;
pub mod dates;
pub mod habits;
pub mod hours;
pub mod store;
pub mod session;
pub mod date_styler;
