//! The server's clock.
//!
//! Timestamps are plain values throughout the library: seconds, counted as in
//! a Unix timestamp, of the server's local wall-clock time.  Only this module
//! reads the clock; everything downstream of it takes the reading as an
//! argument and is verified for every value of it.

use vstd::prelude::*;

verus! {

/// Relies on `chrono::Local::now` for the wall-clock time, converted to the
/// seconds of its local naive date and time (`naive_local`, `and_utc`,
/// `timestamp`).  Nothing is assumed of the value: the clock may read
/// anything, and two consecutive readings may even go backwards.
#[verifier::external_body]
pub(crate) fn now_seconds() -> i64 {
    chrono::Local::now().naive_local().and_utc().timestamp()
}

} // verus!
