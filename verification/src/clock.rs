use vstd::prelude::*;

verus! {

/// Latest second count the wire codec renders: 9999-12-31T23:59:59 UTC.
pub const MAX_TIMESTAMP: i64 = 253402300799;

/// Relies on std::time::SystemTime::now and chrono's From<SystemTime>
/// conversion, which by design handles a clock set before the Unix epoch
/// (no panic path); nothing is promised of the value.
#[verifier::external_body]
fn now_seconds_raw() -> i64 {
    chrono::DateTime::<chrono::Utc>::from(std::time::SystemTime::now()).timestamp()
}

/// Reads the clock and clamps the reading into the range that the
/// RFC 3339 renderer accepts.
pub fn current_timestamp() -> (t: i64)
    ensures
        0 <= t <= MAX_TIMESTAMP,
{
    let raw = now_seconds_raw();
    if raw < 0 {
        0
    } else if raw > MAX_TIMESTAMP {
        MAX_TIMESTAMP
    } else {
        raw
    }
}

/// The RFC 3339 rendering of a second count since the Unix epoch, as
/// chrono produces it: a function of the second count alone.
pub uninterp spec fn rfc3339_of(t: int) -> Seq<u8>;

/// Relies on chrono::DateTime::from_timestamp and chrono::DateTime::to_rfc3339:
/// the rendering depends on the second count alone, and every second count
/// admitted here lies inside the range chrono can represent.
#[verifier::external_body]
pub fn format_rfc3339(t: i64) -> (r: Vec<u8>)
    requires
        0 <= t <= MAX_TIMESTAMP,
    ensures
        r@ == rfc3339_of(t as int),
{
    chrono::DateTime::from_timestamp(t, 0).unwrap().to_rfc3339().into_bytes()
}

} // verus!
