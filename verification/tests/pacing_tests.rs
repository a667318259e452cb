use raycast::{dt_fixed, plan_tick, FP};

// A tick that arrives before the minimum interval has elapsed is delayed to
// exactly one interval after the previous tick.
#[test]
fn early_tick_is_delayed() {
    let p = plan_tick(100, 104, 10);
    assert_eq!(p.sleep_for, 6);
    assert_eq!(p.effective_now, 110);
    assert_eq!(p.delta, 10);
}

// A tick that arrives on time is not delayed.
#[test]
fn late_tick_runs_at_once() {
    let p = plan_tick(100, 125, 10);
    assert_eq!(p.sleep_for, 0);
    assert_eq!(p.effective_now, 125);
    assert_eq!(p.delta, 25);
}

// Two consecutive ticks are never accounted closer than the minimum
// interval.
#[test]
fn consecutive_ticks_respect_interval() {
    let first = plan_tick(0, 3, 10);
    let second = plan_tick(first.effective_now, first.effective_now + 4, 10);
    assert!(second.effective_now - first.effective_now >= 10);
}

// Millisecond-to-fixed-point conversion: exact values and saturation.
#[test]
fn dt_conversion() {
    assert_eq!(dt_fixed(0), 0);
    assert_eq!(dt_fixed(500), FP / 2);
    assert_eq!(dt_fixed(1000), FP);
    assert_eq!(dt_fixed(50000), 50 * FP);
    assert_eq!(dt_fixed(u64::MAX), 0x4000_0000);
}
