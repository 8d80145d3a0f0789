//! Apple timestamps in chat.db and their Unix-millisecond equivalents.
//!
//! chat.db stores dates as a count from January 1, 2001 00:00:00 UTC; the
//! raw value divided by `MULTIPLIER` is the millisecond offset from that epoch.
use vstd::prelude::*;

verus! {

/// Unix timestamp (ms) of January 1, 2001 00:00:00 UTC.
pub const APPLE_EPOCH_MS: i64 = 978_307_200_000;

/// Raw chat.db value per millisecond.
pub const MULTIPLIER: i64 = 1_000_000;

/// Unix milliseconds for a raw chat.db date; none when the raw value is 0 or negative.
pub open spec fn apple_ms(raw: int) -> Option<int> {
    if raw <= 0 {
        None
    } else {
        Some(APPLE_EPOCH_MS + raw / (MULTIPLIER as int))
    }
}

/// Raw chat.db date for Unix milliseconds.
pub open spec fn apple_raw(ms: int) -> int {
    (ms - APPLE_EPOCH_MS) * (MULTIPLIER as int)
}

/// Convert a raw Apple timestamp from chat.db to Unix epoch milliseconds.
pub fn apple_to_unix_ms(raw: i64) -> (r: Option<i64>)
    ensures
        r matches Some(v) ==> apple_ms(raw as int) == Some(v as int),
        r is None <==> apple_ms(raw as int) is None,
{
    if raw <= 0 {
        return None;
    }
    Some(APPLE_EPOCH_MS + (raw / MULTIPLIER))
}

/// Convert Unix epoch milliseconds to a raw Apple timestamp for chat.db queries.
pub fn unix_ms_to_apple(ms: i64) -> (r: i64)
    requires
        i64::MIN <= apple_raw(ms as int) <= i64::MAX,
    ensures
        r == apple_raw(ms as int),
{
    proof {
        if ms < APPLE_EPOCH_MS + i64::MIN {
            assert((ms - APPLE_EPOCH_MS) * (MULTIPLIER as int) < i64::MIN) by (nonlinear_arith)
                requires
                    ms - APPLE_EPOCH_MS < i64::MIN as int,
            ;
        }
        assert(i64::MIN <= ms - APPLE_EPOCH_MS) by (nonlinear_arith)
            requires
                i64::MIN <= (ms - APPLE_EPOCH_MS) * 1_000_000,
        ;
    }
    (ms - APPLE_EPOCH_MS) * MULTIPLIER
}

/// Converting Unix milliseconds after the Apple epoch to a raw chat.db date and
/// back gives the same milliseconds.
pub proof fn law_apple_date_roundtrip(ms: int)
    requires
        ms > APPLE_EPOCH_MS,
    ensures
        apple_raw(ms) > 0,
        apple_ms(apple_raw(ms)) == Some(ms),
{
    let d = ms - APPLE_EPOCH_MS;
    assert(d * 1_000_000 > 0 && (d * 1_000_000) / 1_000_000 == d) by (nonlinear_arith)
        requires
            d > 0,
    ;
}

/// Every raw date maps to at most one millisecond value, and later raw dates
/// never map to earlier milliseconds.
pub proof fn law_apple_ms_monotonic(a: int, b: int)
    requires
        0 < a <= b,
    ensures
        apple_ms(a).unwrap() <= apple_ms(b).unwrap(),
{
    assert(a / 1_000_000 <= b / 1_000_000) by (nonlinear_arith)
        requires
            0 < a <= b,
    ;
}

} // verus!
