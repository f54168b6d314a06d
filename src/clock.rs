use crate::duration::Duration;
use std::time::{SystemTime, SystemTimeError};
use vstd::prelude::*;

verus! {

/// std's wall-clock reading, carried through as an opaque value.
#[verifier::external_type_specification]
#[verifier::external_body]
pub struct ExSystemTime(SystemTime);

/// The error std returns when the later reading precedes the earlier one.
#[verifier::external_type_specification]
#[verifier::external_body]
pub struct ExSystemTimeError(SystemTimeError);

/// What `SystemTime::duration_since` returns for two readings: a function of
/// the two readings alone.
pub uninterp spec fn since_of(this: SystemTime, earlier: SystemTime) -> Result<
    core::time::Duration,
    SystemTimeError,
>;

/// What `core::time::Duration::as_secs` returns for a span: a function of the
/// span alone.
pub uninterp spec fn secs_of(d: core::time::Duration) -> u64;

/// Relies on `SystemTime::duration_since`: the span from `earlier` to
/// `self`, or an error when `earlier` is the later one; the result depends
/// on the two readings alone. It does not panic.
pub assume_specification[ SystemTime::duration_since ](
    this: &SystemTime,
    earlier: SystemTime,
) -> (r: Result<core::time::Duration, SystemTimeError>)
    ensures
        r == since_of(*this, earlier),
;

/// Relies on `core::time::Duration::as_secs`: the whole seconds of a span,
/// which depend on the span alone. It does not panic.
pub assume_specification[ core::time::Duration::as_secs ](this: &core::time::Duration) -> (r: u64)
    ensures
        r == secs_of(*this),
;

impl Duration {
    /// The duration of an elapsed span given in whole seconds, or none when
    /// there is no span (the end came before the start).
    pub fn from_elapsed_secs(elapsed: Option<u64>) -> (r: Option<Duration>)
        ensures
            match elapsed {
                Some(n) => r matches Some(d) && d.secs() == n,
                None => r is None,
            },
    {
        match elapsed {
            Some(n) => Some(Duration::from_seconds(n)),
            None => None,
        }
    }

    /// The whole seconds from `start` to `end` as read by the host clock, or
    /// none when `end` precedes `start`.
    pub fn from_system_time_diff(start: SystemTime, end: SystemTime) -> (r: Option<Duration>)
        ensures
            match since_of(end, start) {
                Ok(span) => r matches Some(d) && d.secs() == secs_of(span),
                Err(_) => r is None,
            },
    {
        let elapsed = match end.duration_since(start) {
            Ok(span) => Some(span.as_secs()),
            Err(_) => None,
        };
        Duration::from_elapsed_secs(elapsed)
    }
}

} // verus!
