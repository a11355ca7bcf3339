use vstd::prelude::*;

verus! {

/// Offset of Japan Standard Time from UTC, in milliseconds (+09:00, no daylight saving).
pub const JST_OFFSET_MS: i64 = 32_400_000;

/// Length of one civil day in milliseconds.
pub const DAY_MS: i64 = 86_400_000;

/// One second in milliseconds.
pub const SECOND_MS: i64 = 1_000;

/// One minute in milliseconds.
pub const MINUTE_MS: i64 = 60_000;

/// One hour in milliseconds.
pub const HOUR_MS: i64 = 3_600_000;

/// The JST midnight (00:00:00+09:00) that starts the civil day holding instant `t`
/// (milliseconds since the Unix epoch).
pub open spec fn day_start(t: int) -> int {
    t - (t + JST_OFFSET_MS) % (DAY_MS as int)
}

/// The JST midnight that ends the civil day holding instant `t`.
pub open spec fn next_day_start(t: int) -> int {
    day_start(t) + DAY_MS
}

/// Midnight of the JST civil day that holds `t`, which may lie before the earliest `i64`
/// instant.
pub fn today_midnight_wide(t: i64) -> (m: i128)
    ensures
        m as int == day_start(t as int),
        m <= t < m + DAY_MS,
{
    let x: i128 = t as i128 + JST_OFFSET_MS as i128;
    let mut r: i128 = x % (DAY_MS as i128);
    if r < 0 {
        r = r + DAY_MS as i128;
    }
    assert(r == (t as int + JST_OFFSET_MS) % (DAY_MS as int));
    t as i128 - r
}

/// Midnight of the JST civil day that holds `t`.
pub fn today_midnight(t: i64) -> (m: i64)
    requires
        t >= i64::MIN + DAY_MS,
    ensures
        m as int == day_start(t as int),
        m <= t < m + DAY_MS,
{
    today_midnight_wide(t) as i64
}

/// Midnight of the JST civil day that follows the one holding `t`.
pub fn next_midnight(t: i64) -> (m: i64)
    requires
        i64::MIN + DAY_MS <= t <= i64::MAX - DAY_MS,
    ensures
        m as int == next_day_start(t as int),
        t < m <= t + DAY_MS,
{
    today_midnight(t) + DAY_MS
}

} // verus!
