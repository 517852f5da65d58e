//! The wall clock.
use vstd::prelude::*;

use crate::event::Instant;

verus! {

/// Relies on `chrono::Utc::now` and `DateTime::timestamp_micros`: the current instant, as
/// microseconds since the Unix epoch. Nothing is promised of its value.
#[verifier::external_body]
pub(crate) fn now() -> (r: Instant) {
    Instant { micros: chrono::Utc::now().timestamp_micros() }
}

} // verus!
