//! The wall clock.

use vstd::prelude::*;

verus! {

/// Wall-clock milliseconds since the Unix epoch; zero where the clock reads
/// earlier than that.
///
/// Calls `web_time::SystemTime::now` and measures from `web_time::UNIX_EPOCH`.
/// Nothing is claimed of the reading: it is the machine's.
#[verifier::external_body]
pub fn now_ms() -> (now: u64) {
    match web_time::SystemTime::now().duration_since(web_time::UNIX_EPOCH) {
        Ok(elapsed) => elapsed.as_millis() as u64,
        Err(_) => 0,
    }
}

} // verus!
