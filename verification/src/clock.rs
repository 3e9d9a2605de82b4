//! Time tags as instants: nanoseconds since 1970-01-01 00:00 UTC.

use vstd::prelude::*;
use crate::packet::OscTime;

verus! {

/// The seconds from 1900-01-01, where time tags begin to count, to 1970-01-01.
pub const UNIX_OFFSET: u32 = 2_208_988_800;

/// The instant that the codec gives for a time tag that is not before 1970.
pub uninterp spec fn timetag_unix_nanos(seconds: u32, fractional: u32) -> int;

/// Calls `rosc`'s conversion from `OscTime` to `SystemTime`, and `time`'s from
/// there to `OffsetDateTime`, whose `unix_timestamp_nanos` is handed back. The
/// result is a function of the tag, named `timetag_unix_nanos`. The conversion
/// counts the tag's seconds from 1970 and adds the fraction as nanoseconds,
/// rounded, which are a full second at most. A tag before 1970 is kept out:
/// the conversion does not return on it.
#[verifier::external_body]
fn timetag_nanos(seconds: u32, fractional: u32) -> (nanos: i128)
    requires
        seconds >= UNIX_OFFSET,
    ensures
        nanos == timetag_unix_nanos(seconds, fractional),
        whole_seconds(seconds) <= nanos <= whole_seconds(seconds) + 1_000_000_000,
{
    let at = std::time::SystemTime::from(rosc::OscTime { seconds, fractional });
    time::OffsetDateTime::from(at).unix_timestamp_nanos()
}

/// Calls `time::OffsetDateTime::now_utc`: the instant of the call, of which
/// nothing is known beforehand.
#[verifier::external_body]
fn now_nanos() -> (nanos: i128)
{
    time::OffsetDateTime::now_utc().unix_timestamp_nanos()
}

/// The instant of the full second `seconds` of a time tag, without its fraction.
pub open spec fn whole_seconds(seconds: u32) -> int {
    (seconds - UNIX_OFFSET) * 1_000_000_000
}

/// The instant at which a bundle with the tag `tag` is due. From 1970 on it is
/// the codec's conversion of the tag; before, the tag's seconds and the whole
/// nanoseconds of its fraction, counted back from 1970.
pub open spec fn release_time(tag: OscTime) -> int {
    if tag.seconds >= UNIX_OFFSET {
        timetag_unix_nanos(tag.seconds, tag.fractional)
    } else {
        (tag.seconds - UNIX_OFFSET) * 1_000_000_000 + (tag.fractional * 1_000_000_000) / 4_294_967_296
    }
}

/// Whether a bundle with the tag `tag` is to be applied at the instant `now`:
/// the tag asks for it at once, or its time has come.
pub open spec fn is_due(tag: OscTime, now: int) -> bool {
    tag.is_immediate() || release_time(tag) <= now
}

/// The instant at which a bundle with the tag `tag` is due. It lies in the
/// second that the tag's seconds name, or at its end.
pub fn release_of(tag: OscTime) -> (at: i128)
    ensures
        at == release_time(tag),
        whole_seconds(tag.seconds) <= at <= whole_seconds(tag.seconds) + 1_000_000_000,
{
    if tag.seconds >= UNIX_OFFSET {
        timetag_nanos(tag.seconds, tag.fractional)
    } else {
        let seconds: i128 = tag.seconds as i128 - UNIX_OFFSET as i128;
        let part: i128 = (tag.fractional as i128 * 1_000_000_000) / 4_294_967_296;
        seconds * 1_000_000_000 + part
    }
}

/// Whether a bundle with the tag `tag` is to be applied at the instant `now`.
pub fn due(tag: OscTime, now: i128) -> (yes: bool)
    ensures
        yes == is_due(tag, now as int),
{
    if tag.seconds == 0 && tag.fractional == 1 {
        true
    } else {
        release_of(tag) <= now
    }
}

/// The instant of the call.
pub fn now() -> (nanos: i128)
{
    now_nanos()
}

} // verus!
