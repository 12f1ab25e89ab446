//! Reading the system clock. Nothing is stated of the times read: they
//! depend on when the call is made.
use vstd::prelude::*;

verus! {

/// A UTC time: seconds since the Unix epoch and the nanoseconds within the
/// second.
#[derive(Debug, Clone, Copy, PartialEq, Eq, Structural)]
pub struct UtcTime {
    pub secs: i64,
    pub nanos: u32,
}

/// The time since the Unix epoch as whole seconds and the nanoseconds
/// within the second, read by `std::time::SystemTime::now` and
/// `duration_since(UNIX_EPOCH)`; `None` when the clock reads earlier than
/// the epoch. The nanoseconds are below one second, as `Duration`
/// documents for `subsec_nanos`.
#[verifier::external_body]
pub(crate) fn system_since_epoch() -> (r: Option<(u64, u32)>)
    ensures
        r matches Some((_, n)) ==> n < 1_000_000_000,
{
    match std::time::SystemTime::now().duration_since(std::time::UNIX_EPOCH) {
        Ok(d) => Some((d.as_secs(), d.subsec_nanos())),
        Err(_) => None,
    }
}

/// The whole seconds of a clock reading, 0 for a reading before the epoch.
pub fn secs_of_reading(reading: Option<(u64, u32)>) -> (secs: u64)
    ensures
        secs == match reading {
            Some((s, _)) => s,
            None => 0,
        },
{
    match reading {
        Some((s, _)) => s,
        None => 0,
    }
}

/// Seconds since the Unix epoch, 0 when the clock reads earlier.
pub fn unix_secs() -> u64 {
    secs_of_reading(system_since_epoch())
}

/// The milliseconds of a reading of `s` seconds and `n` nanoseconds, cut
/// to 64 bits.
pub open spec fn reading_millis(s: u64, n: u32) -> int {
    (s * 1000 + n / 1_000_000) % 0x1_0000_0000_0000_0000
}

/// The milliseconds of a clock reading cut to 64 bits, 0 for a reading
/// before the epoch.
pub fn millis_of_reading(reading: Option<(u64, u32)>) -> (ms: u64)
    ensures
        ms == match reading {
            Some((s, n)) => reading_millis(s, n),
            None => 0,
        },
{
    match reading {
        Some((s, n)) => {
            let total: u128 = (s as u128) * 1000 + (n / 1_000_000) as u128;
            let cut: u64 = total as u64;
            assert(cut == total % 0x1_0000_0000_0000_0000) by (bit_vector)
                requires cut == total as u64;
            cut
        },
        None => 0,
    }
}

/// Milliseconds since the Unix epoch cut to 64 bits, 0 when the clock
/// reads earlier.
pub fn unix_millis() -> u64 {
    millis_of_reading(system_since_epoch())
}

/// A UTC time of `secs` seconds since the Unix epoch and `nanos`
/// nanoseconds, made by `chrono::DateTime::from_timestamp` and read back by
/// `timestamp` and `timestamp_subsec_nanos`. chrono gives back the seconds
/// and nanoseconds it was given; it refuses (`None`) seconds outside its
/// range of dates and an invalid nanosecond count. Which inputs it refuses
/// is not stated here.
#[verifier::external_body]
fn utc_from_timestamp(secs: i64, nanos: u32) -> (r: Option<(i64, u32)>)
    ensures
        r matches Some((s, n)) ==> s == secs && n == nanos,
{
    match chrono::DateTime::from_timestamp(secs, nanos) {
        Some(t) => Some((t.timestamp(), t.timestamp_subsec_nanos())),
        None => None,
    }
}

/// The current UTC time as seconds since the Unix epoch and the
/// nanoseconds within the second; `None` when the clock reads before the
/// epoch or past the dates chrono can hold.
pub(crate) fn utc_now() -> (r: Option<(i64, u32)>)
    ensures
        r matches Some((s, n)) ==> s >= 0 && n < 1_000_000_000,
{
    match system_since_epoch() {
        Some((s, n)) => {
            if s <= i64::MAX as u64 {
                utc_from_timestamp(s as i64, n)
            } else {
                None
            }
        },
        None => None,
    }
}

/// The current UTC time, or the epoch itself when [`utc_now`] reads none.
pub(crate) fn utc_now_or_epoch() -> (r: (i64, u32))
    ensures
        r.0 >= 0 && r.1 < 1_000_000_000,
{
    match utc_now() {
        Some(t) => t,
        None => (0, 0),
    }
}

/// `v` held to the range of `i64`.
pub open spec fn clamp_i64(v: int) -> int {
    if v < i64::MIN { i64::MIN as int } else if v > i64::MAX { i64::MAX as int } else { v }
}

/// The milliseconds since the Unix epoch of a UTC time of `secs` seconds
/// and `nanos` nanoseconds, held to the range of `i64`.
pub fn utc_millis(secs: i64, nanos: u32) -> (ms: i64)
    ensures
        ms == clamp_i64(secs * 1000 + nanos / 1_000_000),
{
    let total: i128 = (secs as i128) * 1000 + (nanos / 1_000_000) as i128;
    if total < i64::MIN as i128 {
        i64::MIN
    } else if total > i64::MAX as i128 {
        i64::MAX
    } else {
        total as i64
    }
}

/// The current UTC time in milliseconds since the Unix epoch; 0 (the epoch)
/// when the clock reads before the epoch or past the dates chrono can hold.
pub fn utc_now_millis() -> i64 {
    let (s, n) = utc_now_or_epoch();
    utc_millis(s, n)
}

} // verus!
