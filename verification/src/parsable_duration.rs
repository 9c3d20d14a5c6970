//! A duration as configuration data, held as whole milliseconds.
//!
//! Parsing the textual form ("10s", "250ms") is the configuration
//! front end's concern; the engine only consumes the resolved value.

use vstd::prelude::*;

verus! {

/// A duration resolved from configuration, in milliseconds.
#[derive(PartialEq, Eq, Structural, Clone, Copy, Debug)]
pub struct ParsableDuration {
    pub millis: u64,
}

impl ParsableDuration {
    pub fn from_millis(millis: u64) -> (d: ParsableDuration)
        ensures
            d.millis == millis,
    {
        ParsableDuration { millis }
    }

    pub fn from_secs(secs: u64) -> (d: ParsableDuration)
        requires
            secs <= 0xffff_ffff,
        ensures
            d.millis == secs * 1000,
    {
        ParsableDuration { millis: secs * 1000 }
    }

    pub fn as_millis(&self) -> (m: u64)
        ensures
            m == self.millis,
    {
        self.millis
    }
}

} // verus!
