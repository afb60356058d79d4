//! Wall-clock time as the registry keeps it, the staleness rule, and the
//! calls into `chrono` that read the clock and write a time out.

use vstd::prelude::*;

verus! {

/// Nanoseconds without a heartbeat after which an online record is stale.
pub const STALE_AFTER_NANOS: i128 = 10_000_000_000;

/// A point of wall-clock time: whole seconds since the Unix epoch and the
/// nanoseconds past them.
#[derive(Clone, Copy, Debug, PartialEq, Eq, Structural)]
pub struct Timestamp {
    pub secs: i64,
    pub nanos: u32,
}

impl Timestamp {
    /// The point as nanoseconds since the Unix epoch.
    pub open spec fn as_nanos(self) -> int {
        self.secs * 1_000_000_000 + self.nanos
    }

    /// `self` is not after `other`.
    pub open spec fn not_after(self, other: Timestamp) -> bool {
        self.as_nanos() <= other.as_nanos()
    }

    /// The later of the two points; `other` where both are the same instant.
    pub open spec fn later_of(self, other: Timestamp) -> Timestamp {
        if self.as_nanos() <= other.as_nanos() {
            other
        } else {
            self
        }
    }

    /// More than ten seconds lie between `self` and the later point `now`.
    pub open spec fn stale_at(self, now: Timestamp) -> bool {
        now.as_nanos() - self.as_nanos() > STALE_AFTER_NANOS
    }

    pub fn new(secs: i64, nanos: u32) -> (t: Timestamp)
        ensures
            t.secs == secs,
            t.nanos == nanos,
    {
        Timestamp { secs, nanos }
    }

    /// The point as nanoseconds since the Unix epoch.
    pub fn total_nanos(&self) -> (n: i128)
        ensures
            n == self.as_nanos(),
    {
        let s: i128 = self.secs as i128;
        let f: i128 = self.nanos as i128;
        s * 1_000_000_000 + f
    }

    /// Whether `self` is not after `other`.
    pub fn is_not_after(&self, other: &Timestamp) -> (r: bool)
        ensures
            r == self.not_after(*other),
    {
        self.total_nanos() <= other.total_nanos()
    }

    /// The later of the two points.
    pub fn later(self, other: Timestamp) -> (t: Timestamp)
        ensures
            t == self.later_of(other),
    {
        if self.is_not_after(&other) {
            other
        } else {
            self
        }
    }

    /// Whether a heartbeat last seen at `self` is stale at `now`.
    pub fn is_stale_at(&self, now: &Timestamp) -> (r: bool)
        ensures
            r == self.stale_at(*now),
    {
        now.total_nanos() - self.total_nanos() > STALE_AFTER_NANOS
    }
}

/// The RFC 3339 text that `chrono` writes for the UTC time `secs` seconds and
/// `nanos` nanoseconds after the Unix epoch, where `chrono` can hold that time.
pub uninterp spec fn rfc3339_text(secs: i64, nanos: u32) -> Option<Seq<char>>;

/// Reads the system clock with `chrono::Utc::now`, and the seconds and
/// nanoseconds of what it returns with `DateTime::timestamp` and
/// `DateTime::timestamp_subsec_nanos`. That function builds its result from
/// a duration since the Unix epoch, so the nanoseconds stay below one
/// second; nothing else is known of the value.
#[verifier::external_body]
pub(crate) fn wall_clock() -> (t: Timestamp)
    ensures
        t.nanos < 1_000_000_000,
{
    let now = chrono::Utc::now();
    Timestamp { secs: now.timestamp(), nanos: now.timestamp_subsec_nanos() }
}

/// Writes `t` as RFC 3339 text: `chrono::DateTime::from_timestamp` followed by
/// `DateTime::to_rfc3339`. The first returns nothing for a time outside the
/// calendar that `chrono` covers; the text depends on `t` alone.
#[verifier::external_body]
pub(crate) fn rfc3339(t: Timestamp) -> (r: Option<String>)
    ensures
        r.is_some() == rfc3339_text(t.secs, t.nanos).is_some(),
        r matches Some(s) ==> s@ == rfc3339_text(t.secs, t.nanos).unwrap(),
{
    chrono::DateTime::from_timestamp(t.secs, t.nanos).map(|d| d.to_rfc3339())
}

} // verus!
