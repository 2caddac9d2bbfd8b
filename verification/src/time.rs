use vstd::prelude::*;

verus! {

/// A point in time (UTC), as whole seconds since the Unix epoch and the
/// nanoseconds within that second.
#[derive(Clone, Copy, Debug, PartialEq, Eq, Structural)]
pub struct Timestamp {
    pub secs: i64,
    pub nanos: u32,
}

/// Nanoseconds in one second.
pub const NANOS_PER_SEC: u32 = 1_000_000_000;

/// The point in time as a number of nanoseconds since the epoch.
pub open spec fn total_nanos(t: Timestamp) -> int {
    t.secs * 1_000_000_000 + t.nanos
}

/// Signed number of nanoseconds that pass from `from` to `to`.
pub open spec fn nanos_between(from: Timestamp, to: Timestamp) -> int {
    total_nanos(to) - total_nanos(from)
}

/// What `to_utc_text` gives for a timestamp: the text that `chrono` writes for
/// the UTC date and time, or nothing where `chrono` cannot represent it.
pub uninterp spec fn utc_text_of(secs: i64, nanos: u32) -> Option<Seq<char>>;

/// Reads the system clock through `chrono::Utc::now`.
///
/// Trusted: `Utc::now` builds its value from `SystemTime` since the epoch, so
/// the seconds are not negative and the nanoseconds stay below one second
/// (chrono's source). The value itself is whatever the clock says; it panics
/// (in chrono) if the clock is set before 1970, which no argument can exclude.
#[verifier::external_body]
fn utc_now() -> (t: Timestamp)
    ensures
        t.secs >= 0,
        t.nanos < NANOS_PER_SEC,
{
    let now = chrono::Utc::now();
    Timestamp { secs: now.timestamp(), nanos: now.timestamp_subsec_nanos() }
}

/// Formats a timestamp with chrono's `Display` for `DateTime<Utc>`.
///
/// Trusted: `DateTime::from_timestamp` yields nothing for values chrono cannot
/// represent; otherwise the text is chrono's rendering, named `utc_text_of`.
#[verifier::external_body]
fn utc_text(secs: i64, nanos: u32) -> (r: Option<String>)
    ensures
        match r {
            Some(s) => utc_text_of(secs, nanos) == Some(s@),
            None => utc_text_of(secs, nanos) is None,
        },
{
    match chrono::DateTime::from_timestamp(secs, nanos) {
        Some(d) => Some(d.to_string()),
        None => None,
    }
}

impl Timestamp {
    /// The current time, read from the system clock.
    pub fn now() -> (t: Timestamp)
        ensures
            t.secs >= 0,
            t.nanos < NANOS_PER_SEC,
    {
        utc_now()
    }

    /// The date and time as chrono writes it, e.g. `2021-05-01 10:00:00 UTC`.
    pub fn to_utc_text(&self) -> (r: Option<String>)
        ensures
            match r {
                Some(s) => utc_text_of(self.secs, self.nanos) == Some(s@),
                None => utc_text_of(self.secs, self.nanos) is None,
            },
    {
        utc_text(self.secs, self.nanos)
    }

    /// Whether fewer than `limit_nanos` nanoseconds have passed from `self` to `now`
    /// (a negative span counts as fewer).
    pub fn is_within(&self, now: &Timestamp, limit_nanos: i128) -> (r: bool)
        ensures
            r == (nanos_between(*self, *now) < limit_nanos),
    {
        let secs_diff: i128 = (now.secs as i128) - (self.secs as i128);
        let nanos_diff: i128 = (now.nanos as i128) - (self.nanos as i128);
        secs_diff * 1_000_000_000 + nanos_diff < limit_nanos
    }
}

} // verus!
