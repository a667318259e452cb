//! Frame pacing: elapsed-time accounting and the minimum-interval rule.
//!
//! The render loop never presents more often than a configured minimum
//! interval. A tick that arrives too early is planned to sleep for the
//! remainder of the interval and is accounted as having happened exactly one
//! interval after the previous tick.

use vstd::prelude::*;
use crate::fixed::FP;

verus! {

/// The timestamp a tick is accounted at: pushed to one minimum interval after
/// the previous tick when it arrives early, its own arrival time otherwise.
pub open spec fn effective_tick(last: int, now: int, min_interval: int) -> int {
    if now - last < min_interval {
        last + min_interval
    } else {
        now
    }
}

/// What a tick should do: sleep, then treat `effective_now` as the tick's
/// timestamp and `delta` as the elapsed time since the previous tick.
pub struct TickPlan {
    pub sleep_for: u64,
    pub effective_now: u64,
    pub delta: u64,
}

/// Plan one tick of the render loop against the previous tick's timestamp.
pub fn plan_tick(last: u64, now: u64, min_interval: u64) -> (r: TickPlan)
    requires
        last <= now,
        last + min_interval <= u64::MAX,
    ensures
        r.effective_now == effective_tick(last as int, now as int, min_interval as int),
        r.effective_now == last + r.delta,
        r.delta >= min_interval,
        now - last < min_interval ==> r.sleep_for == min_interval - (now - last) && r.delta
            == min_interval,
        now - last >= min_interval ==> r.sleep_for == 0 && r.delta == now - last,
{
    let delta = now - last;
    if delta < min_interval {
        TickPlan {
            sleep_for: min_interval - delta,
            effective_now: last + min_interval,
            delta: min_interval,
        }
    } else {
        TickPlan { sleep_for: 0, effective_now: now, delta }
    }
}

/// Frame pacing law: two consecutive ticks are never accounted closer than
/// the minimum interval, and a tick that arrives within the minimum interval
/// of the previous one is delayed to exactly one interval after it.
pub proof fn lemma_frame_pacing(last: int, now: int, min_interval: int)
    requires
        last <= now,
    ensures
        effective_tick(last, now, min_interval) - last >= min_interval,
        now - last < min_interval ==> effective_tick(last, now, min_interval) == last
            + min_interval,
{
}

/// Convert an elapsed time in milliseconds to fixed-point seconds. The
/// conversion is exact up to the representable band of one movement step
/// (about four and a half hours), and saturates only there.
pub fn dt_fixed(delta_ms: u64) -> (r: i64)
    ensures
        0 <= r <= 0x4000_0000,
        delta_ms <= 16384000 ==> r as int == (delta_ms as int * FP as int) / 1000,
        delta_ms > 16384000 ==> r == 0x4000_0000,
{
    if delta_ms > 16384000 {
        0x4000_0000
    } else {
        ((delta_ms * 65536) / 1000) as i64
    }
}

} // verus!
