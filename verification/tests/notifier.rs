use mouse_battery::notifier::{NotificationPolicy, Notifications};

fn no_fire() -> Notifications {
    Notifications { low: false, full: false }
}

#[test]
fn fires_low_at_threshold() {
    let mut p = NotificationPolicy::new();
    assert_eq!(p.update(10), Notifications { low: true, full: false });
}

#[test]
fn fires_low_below_threshold() {
    let mut p = NotificationPolicy::new();
    assert_eq!(p.update(7), Notifications { low: true, full: false });
}

#[test]
fn does_not_fire_low_above_threshold() {
    let mut p = NotificationPolicy::new();
    assert_eq!(p.update(11), no_fire());
    assert_eq!(p.update(50), no_fire());
}

#[test]
fn fires_low_only_once_while_low() {
    let mut p = NotificationPolicy::new();
    assert_eq!(p.update(10).low, true);
    assert_eq!(p.update(9), no_fire());
    assert_eq!(p.update(8), no_fire());
}

#[test]
fn low_does_not_rearm_in_hysteresis_band() {
    let mut p = NotificationPolicy::new();
    assert_eq!(p.update(10).low, true);
    // Recovers into the 11–20 band: must NOT re-arm.
    assert_eq!(p.update(15), no_fire());
    assert_eq!(p.update(10), no_fire());
}

#[test]
fn low_rearms_after_recovery_above_rearm_threshold() {
    let mut p = NotificationPolicy::new();
    assert_eq!(p.update(10).low, true);
    assert_eq!(p.update(21), no_fire());
    assert_eq!(p.update(10).low, true);
}

#[test]
fn fires_full_at_100() {
    let mut p = NotificationPolicy::new();
    assert_eq!(p.update(100), Notifications { low: false, full: true });
}

#[test]
fn fires_full_only_once_while_full() {
    let mut p = NotificationPolicy::new();
    assert_eq!(p.update(100).full, true);
    assert_eq!(p.update(100), no_fire());
    assert_eq!(p.update(100), no_fire());
}

#[test]
fn full_does_not_rearm_on_jitter_near_full() {
    let mut p = NotificationPolicy::new();
    assert_eq!(p.update(100).full, true);
    // 99↔100 jitter near end of charge must not re-fire.
    assert_eq!(p.update(99), no_fire());
    assert_eq!(p.update(100), no_fire());
    assert_eq!(p.update(97), no_fire());
    assert_eq!(p.update(100), no_fire());
}

#[test]
fn full_rearms_after_dropping_below_rearm_threshold() {
    let mut p = NotificationPolicy::new();
    assert_eq!(p.update(100).full, true);
    assert_eq!(p.update(94), no_fire());
    assert_eq!(p.update(100).full, true);
}

#[test]
fn reset_rearms_both() {
    let mut p = NotificationPolicy::new();
    assert_eq!(p.update(10).low, true);
    p.reset();
    assert_eq!(p.update(10).low, true);

    let mut p = NotificationPolicy::new();
    assert_eq!(p.update(100).full, true);
    p.reset();
    assert_eq!(p.update(100).full, true);
}

#[test]
fn drain_then_charge_full_cycle() {
    let mut p = NotificationPolicy::new();
    // Draining: 50 → 10 fires low once.
    assert_eq!(p.update(50), no_fire());
    assert_eq!(p.update(25), no_fire());
    assert_eq!(p.update(10).low, true);
    assert_eq!(p.update(9), no_fire());
    // Plugged in, charging up (status irrelevant — percentage only).
    assert_eq!(p.update(30), no_fire());
    assert_eq!(p.update(80), no_fire());
    // Hits full: fires full once.
    assert_eq!(p.update(100).full, true);
    assert_eq!(p.update(100), no_fire());
    // Unplugged, drains again: low fires again at threshold.
    assert_eq!(p.update(60), no_fire());
    assert_eq!(p.update(10).low, true);
}

#[test]
fn low_and_full_never_fire_together() {
    for pct in 0..=255u8 {
        let mut p = NotificationPolicy::new();
        let n = p.update(pct);
        assert!(!(n.low && n.full));
    }
}

#[test]
fn full_fires_above_100_too() {
    let mut p = NotificationPolicy::new();
    assert_eq!(p.update(120), Notifications { low: false, full: true });
}

#[test]
fn low_rearm_boundary_is_exclusive() {
    let mut p = NotificationPolicy::new();
    assert_eq!(p.update(10).low, true);
    assert_eq!(p.update(20), no_fire());
    assert_eq!(p.update(10), no_fire());
}

#[test]
fn full_rearm_boundary_is_exclusive() {
    let mut p = NotificationPolicy::new();
    assert_eq!(p.update(100).full, true);
    assert_eq!(p.update(95), no_fire());
    assert_eq!(p.update(100), no_fire());
}
