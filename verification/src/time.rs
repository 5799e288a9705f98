//! Timestamp layout shared with the system clock interface.

use vstd::prelude::*;

verus! {

/// Seconds and nanoseconds of one point in time.
#[derive(Clone, Copy, PartialEq, Eq, Structural, Debug)]
pub struct TimeSpec {
    pub tv_sec: i64,
    pub tv_nsec: i32,
}

} // verus!
