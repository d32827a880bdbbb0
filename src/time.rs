//! The modification-time column: recent entries show the time of day, older ones
//! the year.

use vstd::prelude::*;
use chrono::DateTime;

verus! {

/// Seconds in the window, 180 days, within which an entry counts as recent.
pub const RECENT_WINDOW: i64 = 15_552_000;

/// The zone in which times are shown.
#[derive(Clone, Copy, Debug, PartialEq, Eq, Structural)]
pub enum TimeZonePolicy {
    /// Africa/Casablanca, with its daylight-saving rules.
    Casablanca,
    /// Coordinated universal time.
    Utc,
}

/// The text chrono gives for the instant `secs` in Africa/Casablanca under the
/// strftime `pattern`, or `None` when the instant is out of chrono's range.
pub uninterp spec fn casablanca_stamp(secs: int, pattern: Seq<char>) -> Option<Seq<char>>;

/// The same in UTC.
pub uninterp spec fn utc_stamp(secs: int, pattern: Seq<char>) -> Option<Seq<char>>;

/// The pattern for recent entries: month, day, hour and minute.
pub open spec fn recent_pattern() -> Seq<char> {
    "%b %e %H:%M"@
}

/// The pattern for older entries: month, day and year.
pub open spec fn old_pattern() -> Seq<char> {
    "%b %e  %Y"@
}

/// Relies on chrono's `DateTime::from_timestamp`, `with_timezone` with chrono-tz's
/// `Africa::Casablanca`, and `format(..).to_string()`; the text depends on the
/// instant and the pattern alone.
#[verifier::external_body]
fn format_casablanca(secs: i64, pattern: &str) -> (r: Option<String>)
    requires
        pattern@ == recent_pattern() || pattern@ == old_pattern(),
    ensures
        r matches Some(s) ==> casablanca_stamp(secs as int, pattern@) == Some(s@),
        r is None ==> casablanca_stamp(secs as int, pattern@) is None,
{
    match DateTime::from_timestamp(secs, 0) {
        Some(t) => Some(t.with_timezone(&chrono_tz::Africa::Casablanca).format(pattern).to_string()),
        None => None,
    }
}

/// Relies on chrono's `DateTime::from_timestamp` and `format(..).to_string()`, in UTC.
#[verifier::external_body]
fn format_utc(secs: i64, pattern: &str) -> (r: Option<String>)
    requires
        pattern@ == recent_pattern() || pattern@ == old_pattern(),
    ensures
        r matches Some(s) ==> utc_stamp(secs as int, pattern@) == Some(s@),
        r is None ==> utc_stamp(secs as int, pattern@) is None,
{
    match DateTime::from_timestamp(secs, 0) {
        Some(t) => Some(t.format(pattern).to_string()),
        None => None,
    }
}

/// Whether an entry modified at `mtime` is recent at `now`: later than 180 days
/// before it (entries from the future count as recent).
pub open spec fn recent(mtime: int, now: int) -> bool {
    mtime > now - RECENT_WINDOW
}

/// Whether the entry modified at `mtime` is recent at `now`.
pub fn is_recent(mtime: i64, now: i64) -> (r: bool)
    ensures
        r == recent(mtime as int, now as int),
{
    (mtime as i128) > (now as i128) - (RECENT_WINDOW as i128)
}

/// The pattern for an entry modified at `mtime`, seen at `now`.
pub open spec fn pattern_for(mtime: int, now: int) -> Seq<char> {
    if recent(mtime, now) {
        recent_pattern()
    } else {
        old_pattern()
    }
}

/// The strftime pattern of the time column: time of day for recent entries, the
/// year for older ones.
pub fn time_pattern(mtime: i64, now: i64) -> (r: &'static str)
    ensures
        r@ == pattern_for(mtime as int, now as int),
{
    proof {
        reveal_strlit("%b %e %H:%M");
        reveal_strlit("%b %e  %Y");
    }
    if is_recent(mtime, now) {
        "%b %e %H:%M"
    } else {
        "%b %e  %Y"
    }
}

/// The stamp the policy's zone gives.
pub open spec fn zone_stamp(zone: TimeZonePolicy, secs: int, pattern: Seq<char>) -> Option<
    Seq<char>,
> {
    match zone {
        TimeZonePolicy::Casablanca => casablanca_stamp(secs, pattern),
        TimeZonePolicy::Utc => utc_stamp(secs, pattern),
    }
}

/// The text shown when no time can be given.
pub open spec fn invalid_time() -> Seq<char> {
    "<invalid time>"@
}

/// The modification-time column.
pub open spec fn modified_text(mtime: Option<i64>, now: i64, zone: TimeZonePolicy) -> Seq<char> {
    match mtime {
        None => invalid_time(),
        Some(t) => {
            match zone_stamp(zone, t as int, pattern_for(t as int, now as int)) {
                Some(s) => s,
                None => invalid_time(),
            }
        },
    }
}

/// The modification-time column of an entry modified at `mtime`, seen at `now`.
pub fn get_modified_at(mtime: Option<i64>, now: i64, zone: TimeZonePolicy) -> (r: String)
    ensures
        r@ == modified_text(mtime, now, zone),
{
    let invalid = "<invalid time>";
    proof {
        reveal_strlit("<invalid time>");
    }
    match mtime {
        None => invalid.to_string(),
        Some(t) => {
            let pattern = time_pattern(t, now);
            let stamp = match zone {
                TimeZonePolicy::Casablanca => format_casablanca(t, pattern),
                TimeZonePolicy::Utc => format_utc(t, pattern),
            };
            match stamp {
                Some(s) => s,
                None => invalid.to_string(),
            }
        },
    }
}

} // verus!
