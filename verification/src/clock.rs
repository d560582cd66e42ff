//! The clock, read in whole seconds since the Unix epoch.
use vstd::prelude::*;
use crate::foreign::{system_time_now, time_since_epoch};

verus! {

/// The latest second the library counts, a little over 2^43 seconds: times
/// further from the epoch, either way, are read as this many seconds after or
/// before it.
pub const LAST_SECOND: i64 = 0x7ff_ffff_ffff;

/// Whole seconds since the Unix epoch, rounded down, of a reading that is
/// `Ok` with the seconds and nanoseconds after the epoch or `Err` with the
/// seconds and nanoseconds before it.
pub open spec fn floor_seconds(since: Result<(u64, u32), (u64, u32)>) -> int {
    match since {
        Ok(d) => d.0 as int,
        Err(d) => if d.1 > 0 {
            -(d.0 as int) - 1
        } else {
            -(d.0 as int)
        },
    }
}

/// `t` held within `LAST_SECOND` of the epoch.
pub open spec fn held_in_range(t: int) -> int {
    if t > LAST_SECOND {
        LAST_SECOND as int
    } else if t < -LAST_SECOND {
        -LAST_SECOND
    } else {
        t
    }
}

/// The timestamp of a clock reading: its whole seconds since the epoch,
/// rounded down (negative before the epoch), held within `LAST_SECOND`.
pub fn timestamp_from(since: Result<(u64, u32), (u64, u32)>) -> (t: i64)
    ensures
        t == held_in_range(floor_seconds(since)),
{
    match since {
        Ok(d) => {
            if d.0 > LAST_SECOND as u64 {
                LAST_SECOND
            } else {
                d.0 as i64
            }
        },
        Err(d) => {
            if d.0 >= LAST_SECOND as u64 {
                -LAST_SECOND
            } else if d.1 > 0 {
                -(d.0 as i64) - 1
            } else {
                -(d.0 as i64)
            }
        },
    }
}

/// The current time in whole seconds since the Unix epoch, as
/// `timestamp_from` makes it of the system clock's reading.
pub fn current_timestamp() -> (t: i64)
    ensures
        -0x800_0000_0000 < t < 0x800_0000_0000,
{
    let now = system_time_now();
    timestamp_from(time_since_epoch(&now))
}

} // verus!
