//! Timestamps with timezone normalized to UTC, used as the ordering key of
//! the reconciliation rule.
//!
//! A timestamp is held as plain integers (seconds since the Unix epoch and
//! nanoseconds within the second); parsing and rendering of the RFC 3339
//! wire format are delegated to chrono behind trusted wrappers.

use vstd::prelude::*;

verus! {

/// A point in time, held as seconds since the Unix epoch together with the
/// nanoseconds within that second.
#[derive(Clone, Copy, PartialEq, Eq, Structural, Debug)]
pub struct Timestamp {
    pub secs: i64,
    pub nanos: u32,
}

impl Timestamp {
    /// A timestamp is well formed when its nanosecond part stays below two
    /// seconds (one second or more represents a leap second) and its seconds
    /// lie in the span that a four-digit-year RFC 3339 string can denote,
    /// widened a little at both ends for the permitted UTC offsets.
    pub open spec fn wf(self) -> bool {
        &&& self.nanos < 2_000_000_000
        &&& -62_200_000_000 <= self.secs <= 253_500_000_000
    }

    /// `self` is strictly earlier than `other`: seconds first, then
    /// nanoseconds.
    pub open spec fn spec_lt(self, other: Timestamp) -> bool {
        self.secs < other.secs || (self.secs == other.secs && self.nanos < other.nanos)
    }

    /// `self` is strictly earlier than `other`.
    pub fn is_before(&self, other: &Timestamp) -> (r: bool)
        ensures
            r == self.spec_lt(*other),
    {
        self.secs < other.secs || (self.secs == other.secs && self.nanos < other.nanos)
    }

    /// The sentinel value, 1900-01-01T00:00:00Z, as seconds before the epoch.
    pub open spec fn spec_sentinel() -> Timestamp {
        Timestamp { secs: -2208988800i64, nanos: 0 }
    }

    /// The sentinel far in the past substituted when a record carries no
    /// usable modification time: 1900-01-01T00:00:00Z.
    pub fn sentinel() -> (r: Timestamp)
        ensures
            r == Timestamp::spec_sentinel(),
            r.wf(),
    {
        Timestamp { secs: -2208988800i64, nanos: 0 }
    }
}

/// The instant denoted by a string in RFC 3339 form, normalized to UTC, or
/// `None` where the string is not a valid RFC 3339 date-and-time.
pub uninterp spec fn rfc3339_instant(s: Seq<char>) -> Option<Timestamp>;

/// The RFC 3339 rendering of an instant, in UTC with a numeric offset.
pub uninterp spec fn rfc3339_text(t: Timestamp) -> Seq<char>;

/// Relies on chrono's `DateTime::parse_from_rfc3339`, whose result depends on
/// the characters alone, and on `timestamp` / `timestamp_subsec_nanos` to read
/// the parsed instant out as plain integers. A successful parse is well
/// formed: the year has exactly four digits, the offset at most ±23:59, and
/// the nanosecond part exceeds 999,999,999 only on a leap second.
#[verifier::external_body]
pub(crate) fn parse_rfc3339(s: &str) -> (r: Option<Timestamp>)
    ensures
        r == rfc3339_instant(s@),
        r matches Some(t) ==> t.wf(),
{
    match chrono::DateTime::parse_from_rfc3339(s) {
        Ok(dt) => Some(Timestamp { secs: dt.timestamp(), nanos: dt.timestamp_subsec_nanos() }),
        Err(_) => None,
    }
}

/// Relies on chrono's `DateTime::<Utc>::from_timestamp`, which accepts every
/// well-formed timestamp (its documented range is far wider), and on
/// `to_rfc3339`, whose result depends on the instant alone.
#[verifier::external_body]
pub(crate) fn format_rfc3339(t: &Timestamp) -> (r: String)
    requires
        t.wf(),
    ensures
        r@ == rfc3339_text(*t),
{
    match chrono::DateTime::<chrono::Utc>::from_timestamp(t.secs, t.nanos) {
        Some(dt) => dt.to_rfc3339(),
        None => String::new(),
    }
}

} // verus!
