use vstd::prelude::*;

verus! {

/// A point in time, as microseconds since the Unix epoch (UTC).
#[derive(Clone, Copy, Debug, PartialEq, Eq, Structural, Hash)]
pub struct Timestamp {
    pub micros: i64,
}

/// Microseconds in one day.
pub const MICROS_PER_DAY: i64 = 86_400_000_000;

/// Days covered by a sync that names no starting point.
pub const DEFAULT_SYNC_WINDOW_DAYS: i64 = 365;

impl Timestamp {
    pub open spec fn value(self) -> int {
        self.micros as int
    }

    pub fn from_micros(micros: i64) -> (r: Timestamp)
        ensures
            r.micros == micros,
    {
        Timestamp { micros }
    }
}

/// The start of the default sync window ending at `now`, clamped to the
/// earliest representable instant.
pub open spec fn window_start(now: int) -> int {
    let start = now - DEFAULT_SYNC_WINDOW_DAYS * MICROS_PER_DAY;
    if start < i64::MIN { i64::MIN as int } else { start }
}

/// The instant one default window before `now`.
pub fn default_since(now: Timestamp) -> (r: Timestamp)
    ensures
        r.value() == window_start(now.value()),
{
    let span: i64 = DEFAULT_SYNC_WINDOW_DAYS * MICROS_PER_DAY;
    if now.micros < i64::MIN + span {
        Timestamp { micros: i64::MIN }
    } else {
        Timestamp { micros: now.micros - span }
    }
}

/// Relies on chrono::Utc::now and DateTime::timestamp_micros: the current
/// wall-clock time. Nothing is known of the value returned.
#[verifier::external_body]
pub(crate) fn current_time() -> (r: Timestamp) {
    Timestamp { micros: chrono::Utc::now().timestamp_micros() }
}

} // verus!
