//! The current time, for callers of the handlers, which take `now` as an
//! argument.

use vstd::prelude::*;

verus! {

/// Relies on chrono's Utc::now / timestamp: the current civil time in
/// seconds since the Unix epoch. Nothing is assumed of the value.
#[verifier::external_body]
fn now_timestamp() -> i64 {
    chrono::Utc::now().timestamp()
}

/// The current time in seconds since the Unix epoch; a clock that reads
/// before the epoch is clamped to 0. Nothing more is known of the value.
pub fn current_unix_seconds() -> u64 {
    let t = now_timestamp();
    if t < 0 {
        0
    } else {
        t as u64
    }
}

} // verus!
