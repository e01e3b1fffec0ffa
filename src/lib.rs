//! Core of a speedcubing timer: solve records with penalties, trimmed rolling
//! averages over the solve history, the debounced start/stop timer and the
//! session that ties them together, random scrambles, and solutions found by
//! cubesim.
//!
//! Durations are whole microseconds; text shows them as seconds.

pub mod decimal;
pub mod record;
pub mod stats;
pub mod timer;
pub mod scramble;
pub mod session;
pub mod solver;
