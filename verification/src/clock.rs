//! The wall clock, read through one trusted item. It is the library's only
//! clock: the time-dependent operations also come as `_at` functions that
//! take the time as an argument, for callers with a clock of their own.

use vstd::prelude::*;

verus! {

/// Reads `SystemTime::now()` and its distance from the Unix epoch, as whole
/// seconds and the sub-second nanoseconds; `None` when the clock is before
/// the epoch. Nothing is promised of the reading itself.
#[verifier::external_body]
pub fn time_since_epoch() -> (r: Option<(u64, u32)>)
    ensures
        r matches Some((_, n)) ==> n < 1_000_000_000,
{
    std::time::SystemTime::now()
        .duration_since(std::time::UNIX_EPOCH)
        .ok()
        .map(|d| (d.as_secs(), d.subsec_nanos()))
}

/// Current Unix time in seconds (0 when the clock is before the epoch).
pub fn unix_timestamp_secs() -> u64 {
    match time_since_epoch() {
        Some((secs, _)) => secs,
        None => 0,
    }
}

/// Microseconds of a reading, as `Duration::as_micros() as i64` gives them.
pub open spec fn micros_of(secs: u64, nanos: u32) -> i64 {
    ((secs as int * 1_000_000 + nanos as int / 1000) as u128) as i64
}

/// Microseconds of a clock reading: whole seconds times a million plus the
/// sub-second microseconds, truncated to 64 bits as a signed value.
pub fn micros_from_reading(reading: Option<(u64, u32)>) -> (r: i64)
    ensures
        r == match reading {
            Some((s, n)) => micros_of(s, n),
            None => 0,
        },
{
    match reading {
        Some((secs, nanos)) => {
            let m: u128 = (secs as u128) * 1_000_000 + (nanos as u128) / 1000;
            m as i64
        },
        None => 0,
    }
}

/// Current Unix time in microseconds (0 when the clock is before the epoch).
pub fn unix_timestamp_micros() -> i64 {
    micros_from_reading(time_since_epoch())
}

/// Milliseconds of a reading: whole seconds times a thousand plus the
/// sub-second milliseconds, saturating at `u64::MAX`.
pub fn millis_from_reading(reading: Option<(u64, u32)>) -> (r: u64)
    ensures
        r == match reading {
            Some((s, n)) => if s as int * 1000 + n as int / 1_000_000 <= u64::MAX {
                (s as int * 1000 + n as int / 1_000_000) as u64
            } else {
                u64::MAX
            },
            None => 0u64,
        },
{
    match reading {
        Some((secs, nanos)) => {
            let m: u128 = (secs as u128) * 1000 + (nanos as u128) / 1_000_000;
            if m <= u64::MAX as u128 {
                m as u64
            } else {
                u64::MAX
            }
        },
        None => 0,
    }
}

/// The library's clock in milliseconds since the Unix epoch.
pub fn now_millis() -> u64 {
    millis_from_reading(time_since_epoch())
}

} // verus!
