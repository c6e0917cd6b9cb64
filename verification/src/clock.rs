//! Time since boot.

use vstd::prelude::*;

verus! {

/// Milliseconds of a microsecond counter, in 32 bits: the count starts over after about 49 days.
pub fn now_ms(us: i64) -> (r: u32)
    requires
        us >= 0,
    ensures
        r == (us / 1000) % 0x1_0000_0000,
{
    ((us / 1000) % 0x1_0000_0000) as u32
}

/// Milliseconds of a microsecond counter.
pub fn millis(us: i64) -> (r: u64)
    requires
        us >= 0,
    ensures
        r == us / 1000,
{
    (us / 1000) as u64
}

/// Milliseconds from `then` to `now` on the 32-bit clock.
pub open spec fn since(now: u32, then: u32) -> int {
    (now - then) % 0x1_0000_0000
}

/// `t` is still ahead on the 32-bit clock: it is nearer going forward than going back.
pub open spec fn ahead(now: u32, t: u32) -> bool {
    since(now, t) > 0x7FFF_FFFF
}

/// The time `ms` from now on the 32-bit clock.
pub open spec fn later(now: u32, ms: int) -> u32 {
    ((now + ms) % 0x1_0000_0000) as u32
}

/// Milliseconds from `then` to `now`.
pub fn ms_since(now: u32, then: u32) -> (r: u32)
    ensures
        r == since(now, then),
{
    now.wrapping_sub(then)
}

/// Whether `t` is still ahead.
pub fn is_ahead(now: u32, t: u32) -> (r: bool)
    ensures
        r == ahead(now, t),
{
    now.wrapping_sub(t) > 0x7FFF_FFFF
}

/// The time `ms` from now.
pub fn ms_later(now: u32, ms: u32) -> (r: u32)
    ensures
        r == later(now, ms as int),
{
    now.wrapping_add(ms)
}

/// A time that was set `ms` ahead stays ahead until just that many milliseconds have passed, also
/// where the clock starts over in between.
pub proof fn law_deadline_holds(start: u32, ms: int, elapsed: int)
    requires
        0 < ms < 0x8000_0000,
        0 <= elapsed <= 0x8000_0000 - 1,
    ensures
        ahead(later(start, elapsed), later(start, ms)) <==> elapsed < ms,
{
}

} // verus!
