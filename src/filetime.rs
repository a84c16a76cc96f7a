//! File timestamps: 100-nanosecond ticks since 1601-01-01 (UTC).
use vstd::prelude::*;

verus! {

/// Ticks in one second.
pub const TICKS_PER_SECOND: u64 = 10_000_000;

/// Seconds from 1601-01-01 to 1970-01-01.
pub const UNIX_EPOCH_SECONDS: u64 = 11_644_473_600;

/// The low and high 32-bit halves of a tick count.
pub fn file_time_parts(time: u64) -> (r: (u32, u32))
    ensures
        r.0 == time % 0x1_0000_0000,
        r.1 == time / 0x1_0000_0000,
{
    ((time % 0x1_0000_0000) as u32, (time / 0x1_0000_0000) as u32)
}

/// A tick count as whole seconds relative to 1970-01-01 and the remaining
/// nanoseconds.
pub fn file_time_to_unix(time: u64) -> (r: (i64, u32))
    ensures
        r.0 == (time / TICKS_PER_SECOND) as int - UNIX_EPOCH_SECONDS as int,
        r.1 == (time % TICKS_PER_SECOND) * 100,
        r.1 < 1_000_000_000,
{
    let secs = (time / TICKS_PER_SECOND) as i64 - UNIX_EPOCH_SECONDS as i64;
    let nanos = ((time % TICKS_PER_SECOND) * 100) as u32;
    (secs, nanos)
}

} // verus!
