//! Instants in time, held as seconds and nanoseconds since the Unix epoch.
use vstd::prelude::*;

verus! {

/// An instant: whole seconds since 1970-01-01T00:00:00Z and the nanoseconds
/// past that second (a leap second shows as `nanos >= 1_000_000_000`).
#[derive(Debug, Clone, Copy, PartialEq, Eq, Structural, Hash, PartialOrd, Ord)]
pub struct Timestamp {
    pub secs: i64,
    pub nanos: u32,
}

pub const NANOS_PER_SEC: i64 = 1_000_000_000;

impl Timestamp {
    /// Chronological order: by seconds, then by nanoseconds.
    pub open spec fn spec_le(self, other: Timestamp) -> bool {
        self.secs < other.secs || (self.secs == other.secs && self.nanos <= other.nanos)
    }

    /// Nanoseconds since the epoch, as a mathematical integer.
    pub open spec fn spec_total_nanos(self) -> int {
        self.secs * 1_000_000_000 + self.nanos
    }

    pub fn le(&self, other: &Timestamp) -> (r: bool)
        ensures
            r == self.spec_le(*other),
    {
        self.secs < other.secs || (self.secs == other.secs && self.nanos <= other.nanos)
    }

    /// Nanoseconds since the epoch, or `None` where that count does not fit
    /// in an `i64`.
    pub fn nanos_since_epoch(&self) -> (r: Option<i64>)
        ensures
            r.is_some() <==> i64::MIN <= self.spec_total_nanos() <= i64::MAX,
            r.is_some() ==> r.unwrap() == self.spec_total_nanos(),
    {
        let secs = self.secs as i128;
        proof {
            let s = secs as int;
            assert(-0x8000_0000_0000_0000 <= s < 0x8000_0000_0000_0000);
            assert(-0x8000_0000_0000_0000 * 1_000_000_000 <= s * 1_000_000_000
                <= 0x8000_0000_0000_0000 * 1_000_000_000) by (nonlinear_arith)
                requires
                    -0x8000_0000_0000_0000 <= s < 0x8000_0000_0000_0000,
            ;
        }
        let total: i128 = secs * (NANOS_PER_SEC as i128) + (self.nanos as i128);
        if (i64::MIN as i128) <= total && total <= (i64::MAX as i128) {
            Some(total as i64)
        } else {
            None
        }
    }
}

/// Relies on `chrono::Utc::now`, `DateTime::timestamp` and
/// `DateTime::timestamp_subsec_nanos`: the current instant. Nothing is
/// promised of its value.
#[verifier::external_body]
pub fn now() -> (r: Timestamp) {
    let t = chrono::Utc::now();
    Timestamp { secs: t.timestamp(), nanos: t.timestamp_subsec_nanos() }
}

} // verus!
