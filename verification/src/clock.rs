//! The two sources of values that no argument determines: the wall clock and
//! the generator of fresh identifiers.
use vstd::prelude::*;

verus! {

/// Calls `chrono::Local::now().timestamp_millis()`: the wall clock in
/// milliseconds since the Unix epoch. Nothing is claimed of the value: the
/// clock may stand still or step back between two calls. The call panics
/// where the system clock stands before the epoch.
#[verifier::external_body]
pub(crate) fn now_millis() -> i64 {
    chrono::Local::now().timestamp_millis()
}

/// Calls `uuid::Uuid::new_v4()` and renders the result with its `Display`
/// impl. Nothing is claimed of the text: it is random, and two calls may
/// return the same one.
#[verifier::external_body]
pub(crate) fn fresh_id() -> String {
    uuid::Uuid::new_v4().to_string()
}

} // verus!
