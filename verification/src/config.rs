//! Resolved configuration values for the connection loop.

use vstd::prelude::*;
use crate::parsable_duration::ParsableDuration;

verus! {

/// How long to keep retrying the initial connection.
#[derive(PartialEq, Eq, Structural, Clone, Copy, Debug)]
pub struct I3Timeout(pub ParsableDuration);

impl Default for I3Timeout {
    /// Three seconds.
    fn default() -> (t: I3Timeout)
        ensures
            t.0.millis == 3000,
    {
        I3Timeout(ParsableDuration { millis: 3000 })
    }
}

/// How long to wait between two connection attempts.
#[derive(PartialEq, Eq, Structural, Clone, Copy, Debug)]
pub struct I3Interval(pub ParsableDuration);

impl Default for I3Interval {
    /// Three milliseconds.
    fn default() -> (t: I3Interval)
        ensures
            t.0.millis == 3,
    {
        I3Interval(ParsableDuration { millis: 3 })
    }
}

} // verus!
