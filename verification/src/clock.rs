//! The wall clock.
use vstd::prelude::*;

verus! {

/// Reads `SystemTime::now().duration_since(UNIX_EPOCH)` in whole seconds, or nothing where the
/// clock stands before the epoch. Nothing is promised of the moment.
#[verifier::external_body]
fn seconds_since_epoch() -> Option<u64> {
    std::time::SystemTime::now().duration_since(std::time::UNIX_EPOCH).ok().map(|d| d.as_secs())
}

/// The seconds that a reading of the clock gives: zero where it failed.
pub open spec fn moment(seconds: Option<u64>) -> u64 {
    match seconds {
        Some(s) => s,
        None => 0,
    }
}

/// The seconds that a reading of the clock gives.
pub fn reading(seconds: Option<u64>) -> (r: u64)
    ensures
        r == moment(seconds),
{
    match seconds {
        Some(s) => s,
        None => 0,
    }
}

/// The moment at which a reading of the clock has sessions looked at: where it failed, the last
/// one, at which everything has expired.
pub open spec fn session_moment(seconds: Option<u64>) -> i64 {
    match seconds {
        Some(s) => s as i64,
        None => i64::MAX,
    }
}

/// The moment at which a reading of the clock has sessions looked at.
pub fn signed_reading(seconds: Option<u64>) -> (r: i64)
    ensures
        r == session_moment(seconds),
{
    match seconds {
        Some(s) => s as i64,
        None => i64::MAX,
    }
}

/// The current Unix second.
pub fn now_secs() -> (r: u64)
    ensures
        exists|seconds: Option<u64>| r == #[trigger] moment(seconds),
{
    reading(seconds_since_epoch())
}

/// The current Unix second, for the lifetimes of sessions.
pub fn session_now() -> (r: i64)
    ensures
        exists|seconds: Option<u64>| r == #[trigger] session_moment(seconds),
{
    signed_reading(seconds_since_epoch())
}

/// The moment that an RFC 3339 timestamp names, in nanoseconds since the Unix epoch, as the
/// `time` crate reads it; none where the text is no such timestamp.
pub uninterp spec fn rfc3339_nanos(s: Seq<char>) -> Option<i128>;

/// Calls `OffsetDateTime::parse` with the format `Rfc3339`, and `unix_timestamp_nanos` on what it
/// gives. Which texts are timestamps, and of which moments, is left to the name.
#[verifier::external_body]
pub(crate) fn parse_rfc3339(s: &str) -> (r: Option<i128>)
    ensures
        r == rfc3339_nanos(s@),
{
    time::OffsetDateTime::parse(s, &time::format_description::well_known::Rfc3339).ok().map(
        |t| t.unix_timestamp_nanos(),
    )
}

/// The first moment of the year 0 in UTC, in nanoseconds since the Unix epoch.
pub const FIRST_STAMPED: i128 = -62_167_219_200_000_000_000;

/// The last moment of the year 9999 in UTC, in nanoseconds since the Unix epoch.
pub const LAST_STAMPED: i128 = 253_402_300_799_999_999_999;

/// The moment, in nanoseconds since the Unix epoch, stands in the years 0 to 9999, for which there
/// are timestamps.
pub open spec fn has_stamp(nanos: i128) -> bool {
    FIRST_STAMPED <= nanos <= LAST_STAMPED
}

/// The RFC 3339 timestamp in UTC of a moment in nanoseconds since the Unix epoch, as the `time`
/// crate writes it.
pub uninterp spec fn rfc3339_text(nanos: i128) -> Seq<char>;

/// Calls `OffsetDateTime::from_unix_timestamp_nanos`, and formats what it gives with the format
/// `Rfc3339`. There is a text for the moments of the years 0 to 9999, and for no other. It ends in
/// the `Z` of UTC, and `OffsetDateTime::parse` reads the moment back from it to the nanosecond.
/// What else stands in it is left to the name.
#[verifier::external_body]
fn format_rfc3339(nanos: i128) -> (r: Option<String>)
    ensures
        r is Some == has_stamp(nanos),
        (r matches Some(t) ==> {
            &&& t@ == rfc3339_text(nanos)
            &&& rfc3339_nanos(t@) == Some(nanos)
            &&& t@.len() > 0
            &&& t@.last() == 'Z'
        }),
{
    let moment = time::OffsetDateTime::from_unix_timestamp_nanos(nanos).ok()?;
    moment.format(&time::format_description::well_known::Rfc3339).ok()
}

/// Reads `OffsetDateTime::now_utc()` in nanoseconds since the Unix epoch. Nothing is promised of
/// the moment.
#[verifier::external_body]
fn nanos_since_epoch() -> i128 {
    time::OffsetDateTime::now_utc().unix_timestamp_nanos()
}

/// The moment of the years 0 to 9999 that is next to `nanos`: `nanos` itself where it is one.
pub open spec fn stamped_moment(nanos: i128) -> i128 {
    if nanos < FIRST_STAMPED {
        FIRST_STAMPED
    } else if nanos > LAST_STAMPED {
        LAST_STAMPED
    } else {
        nanos
    }
}

/// `s` is the RFC 3339 timestamp in UTC of a moment, from which the moment can be read back.
pub open spec fn is_stamp_of(nanos: i128, s: Seq<char>) -> bool {
    &&& has_stamp(nanos)
    &&& s == rfc3339_text(nanos)
    &&& rfc3339_nanos(s) == Some(nanos)
    &&& s.len() > 0
    &&& s.last() == 'Z'
}

/// The RFC 3339 timestamp in UTC, as it is stored, of a moment in nanoseconds since the Unix
/// epoch. A moment outside the years 0 to 9999 has none, and gets that of the one next to it.
pub fn rfc3339_at(nanos: i128) -> (s: String)
    ensures
        is_stamp_of(stamped_moment(nanos), s@),
{
    let stamped: i128 = if nanos < FIRST_STAMPED {
        FIRST_STAMPED
    } else if nanos > LAST_STAMPED {
        LAST_STAMPED
    } else {
        nanos
    };
    format_rfc3339(stamped).unwrap()
}

/// The current moment as an RFC 3339 timestamp in UTC, as it is stored. It can always be read back.
pub fn now_rfc3339() -> (s: String)
    ensures
        exists|nanos: i128| has_stamp(nanos) && #[trigger] is_stamp_of(nanos, s@),
{
    let nanos: i128 = nanos_since_epoch();
    let s = rfc3339_at(nanos);
    assert(is_stamp_of(stamped_moment(nanos), s@));
    s
}

/// A clock that can be read gives its seconds; one that cannot gives zero for what counts from the
/// start, and the last moment of all for sessions, at which each has expired.
pub proof fn what_a_reading_gives(seconds: u64)
    ensures
        moment(Some(seconds)) == seconds,
        moment(None) == 0,
        seconds <= 0x7fff_ffff_ffff_ffff ==> session_moment(Some(seconds)) as int == seconds as int,
        session_moment(None) == 0x7fff_ffff_ffff_ffff,
{
}

/// A moment that has a timestamp gets its own; any other that of the nearest that has one.
pub proof fn timestamps_are_of_the_nearest_moment(nanos: i128, other: i128)
    ensures
        has_stamp(stamped_moment(nanos)),
        has_stamp(nanos) ==> stamped_moment(nanos) == nanos,
        has_stamp(other) && nanos < stamped_moment(nanos) ==> stamped_moment(nanos) <= other,
        has_stamp(other) && nanos > stamped_moment(nanos) ==> stamped_moment(nanos) >= other,
{
}

/// A timestamp is that of one moment only, which is read back from it.
pub proof fn timestamps_tell_moments_apart(a: i128, b: i128, s: Seq<char>)
    requires
        is_stamp_of(a, s),
        is_stamp_of(b, s),
    ensures
        a == b,
        rfc3339_nanos(s) == Some(a),
        s.last() == 'Z',
{
}

/// There are timestamps from the first moment of the year 0, 719528 days before the epoch, to the
/// last nanosecond of the year 9999, 2932897 days after it.
pub proof fn which_moments_have_timestamps(nanos: i128)
    ensures
        has_stamp(nanos) <==> -719_528 * 86_400 * 1_000_000_000 <= nanos as int && (nanos as int)
            < 2_932_897 * 86_400 * 1_000_000_000,
{
}

} // verus!
