//! Wall-clock time in milliseconds.

use vstd::prelude::*;

verus! {

/// The UTC clock.
pub struct Utc;

/// A reading handle of the clock; the time is taken when it is asked for.
pub struct Now;

impl Utc {
    /// A handle on the present moment.
    pub fn now() -> Now {
        Now
    }
}

/// Trusted: reads `SystemTime::now()` and gives the milliseconds since
/// the Unix epoch, zero where the clock stands before it. Nothing is
/// claimed of the value: two readings may differ in either direction.
#[verifier::external_body]
fn system_millis() -> i64 {
    let since = std::time::SystemTime::now().duration_since(std::time::UNIX_EPOCH);
    since.unwrap_or_default().as_millis() as i64
}

impl Now {
    /// The time in milliseconds since the Unix epoch.
    pub fn timestamp_millis(&self) -> i64 {
        system_millis()
    }
}

/// The current time in milliseconds since the Unix epoch.
pub fn now_ms() -> i64 {
    Utc::now().timestamp_millis()
}

} // verus!
