//! A second-precision, never-negative span of time, built for
//! "hours:minutes:seconds" bookkeeping.

pub mod duration;
pub mod text;
pub mod clock;
pub mod laws;

pub use duration::{Duration, DurationError};
