use mouse_battery::hid::{BatteryReading, BatteryStatus};
use mouse_battery::monitor::{record_estimate, BatteryState, Estimate, Monitor};
use mouse_battery::predictor::{BatteryPredictor, Calibration, VoltageFit};

const SEC: u64 = 1_000_000;

fn reading(percentage: u8, voltage_mv: u16, status: BatteryStatus, cable: bool) -> BatteryReading {
    BatteryReading { percentage, status, voltage_mv, cable_connected: cable }
}

#[test]
fn empty_predictor_knows_nothing() {
    let p = BatteryPredictor::new();
    assert_eq!(p.cable_is_charging(), None);
    assert!(!p.has_min_history());
    assert_eq!(p.latest_percentage(), None);
}

#[test]
fn fit_is_exact_least_squares() {
    let mut p = BatteryPredictor::new();
    let first = p.push(50, 3800, BatteryStatus::Discharging, 0);
    assert_eq!(first.fit, None);
    assert_eq!(first.calibration, None);
    assert!(!first.window_reset);
    let second = p.push(50, 3790, BatteryStatus::Discharging, 10 * SEC);
    // n = 2, t = [0, 1e7], v = [3800, 3790]
    // num = 2*(1e7*3790) - 1e7*7590 = -1e8 ; den = 2*1e14 - 1e14 = 1e14
    assert_eq!(second.fit, Some(VoltageFit { numerator: -100_000_000, denominator: 100_000_000_000_000 }));
}

#[test]
fn no_fit_under_one_second() {
    let mut p = BatteryPredictor::new();
    p.push(50, 3800, BatteryStatus::Discharging, 0);
    assert_eq!(p.push(50, 3790, BatteryStatus::Discharging, SEC - 1).fit, None);
    assert!(p.push(50, 3780, BatteryStatus::Discharging, SEC).fit.is_some());
}

#[test]
fn calibration_needs_agreeing_directions() {
    let mut p = BatteryPredictor::new();
    p.push(50, 3800, BatteryStatus::Discharging, 0);
    // percentage unchanged: no calibration
    assert_eq!(p.push(50, 3790, BatteryStatus::Discharging, SEC).calibration, None);
    // percentage down 2, voltage down 14: 14 mV over 2 %
    assert_eq!(
        p.push(48, 3786, BatteryStatus::Discharging, 2 * SEC).calibration,
        Some(Calibration { delta_mv: 14, delta_pct: 2 })
    );
    // percentage down, voltage up: disagree
    assert_eq!(p.push(47, 3805, BatteryStatus::Discharging, 3 * SEC).calibration, None);
}

#[test]
fn direction_change_restarts_the_window() {
    let mut p = BatteryPredictor::new();
    p.push(50, 3800, BatteryStatus::Discharging, 0);
    p.push(50, 3700, BatteryStatus::Discharging, SEC);
    assert_eq!(p.cable_is_charging(), Some(false));
    let out = p.push(51, 3900, BatteryStatus::Charging, 2 * SEC);
    assert!(out.window_reset);
    assert_eq!(out.calibration, None);
    assert_eq!(p.cable_is_charging(), None);
    assert_eq!(p.latest_percentage(), Some(51));
}

#[test]
fn cable_check_allows_30_mv_of_noise() {
    let mut p = BatteryPredictor::new();
    p.push(60, 4000, BatteryStatus::Charging, 0);
    p.push(60, 3970, BatteryStatus::Charging, SEC);
    assert_eq!(p.cable_is_charging(), Some(true));
    p.push(60, 3969, BatteryStatus::Charging, 2 * SEC);
    assert_eq!(p.cable_is_charging(), Some(false));
}

#[test]
fn window_keeps_the_last_720_readings() {
    let mut p = BatteryPredictor::new();
    for i in 0..721u64 {
        let v = if i == 0 { 4100 } else { 4000 };
        p.push(80, v, BatteryStatus::Discharging, i * 5 * SEC);
    }
    // the 4100 mV reading has been dropped, so the voltage is flat
    assert_eq!(p.cable_is_charging(), Some(true));
}

#[test]
fn two_minutes_of_history_needed() {
    let mut p = BatteryPredictor::new();
    p.push(80, 4000, BatteryStatus::Discharging, 0);
    p.push(80, 4000, BatteryStatus::Discharging, 119 * SEC);
    assert!(!p.has_min_history());
    p.push(80, 4000, BatteryStatus::Discharging, 120 * SEC);
    assert!(p.has_min_history());
}

#[test]
fn initial_state_is_unknown() {
    let s = BatteryState::initial();
    assert_eq!(s.device_name, "Unknown");
    assert_eq!(s.status, "unknown");
    assert!(!s.is_present);
}

#[test]
fn first_reading_announces_and_names_the_device() {
    let mut m = Monitor::new();
    let mut s = BatteryState::initial();
    let out = m.on_reading(&mut s, reading(40, 3784, BatteryStatus::Discharging, false), 0);
    assert!(out.device_added);
    assert_eq!(out.status, BatteryStatus::Discharging);
    assert_eq!(out.estimate, Estimate::TimeToEmpty);
    assert_eq!(s.device_name, "TUF GAMING MINI WL MOUSE MIKU");
    assert_eq!(s.percentage, 40);
    assert_eq!(s.status, "discharging");
    assert_eq!(s.voltage_mv, 3784);
    assert!(s.is_present);
    let again = m.on_reading(&mut s, reading(40, 3784, BatteryStatus::Discharging, false), 5 * SEC);
    assert!(!again.device_added);
}

#[test]
fn custom_name_is_kept() {
    let mut m = Monitor::new();
    let mut s = BatteryState::initial();
    s.device_name = "My mouse".to_string();
    m.on_reading(&mut s, reading(40, 3784, BatteryStatus::Discharging, false), 0);
    assert_eq!(s.device_name, "My mouse");
}

#[test]
fn weak_cable_is_reported_as_discharging() {
    let mut m = Monitor::new();
    let mut s = BatteryState::initial();
    // first reading with the cable: trusted optimistically
    let a = m.on_reading(&mut s, reading(60, 4000, BatteryStatus::Charging, true), 0);
    assert_eq!(a.status, BatteryStatus::Charging);
    assert!(!a.weak_cable);
    let b = m.on_reading(&mut s, reading(60, 3950, BatteryStatus::Charging, true), 5 * SEC);
    assert_eq!(b.status, BatteryStatus::Charging);
    // now the window shows a 50 mV drop
    let c = m.on_reading(&mut s, reading(59, 3940, BatteryStatus::Charging, true), 10 * SEC);
    assert!(c.weak_cable);
    assert_eq!(c.status, BatteryStatus::Discharging);
    assert!(!c.push.window_reset);
    assert_eq!(c.estimate, Estimate::TimeToEmpty);
    assert_eq!(s.status, "discharging");
    // the window keeps its history, so the cable stays judged weak
    let d = m.on_reading(&mut s, reading(59, 3930, BatteryStatus::Charging, true), 15 * SEC);
    assert!(d.weak_cable);
    assert_eq!(d.status, BatteryStatus::Discharging);
    assert_eq!(s.status, "discharging");
}

#[test]
fn notifications_follow_percentage() {
    let mut m = Monitor::new();
    let mut s = BatteryState::initial();
    let low = m.on_reading(&mut s, reading(10, 3600, BatteryStatus::Discharging, false), 0);
    assert!(low.notifications.low);
    let again = m.on_reading(&mut s, reading(9, 3590, BatteryStatus::Discharging, false), SEC);
    assert!(!again.notifications.low);
    let full = m.on_reading(&mut s, reading(100, 4200, BatteryStatus::Charging, true), 2 * SEC);
    assert!(full.notifications.full);
}

#[test]
fn failure_marks_absent_and_rearms() {
    let mut m = Monitor::new();
    let mut s = BatteryState::initial();
    assert!(!m.on_query_failed(&mut s));
    assert_eq!(s.status, "unknown");
    m.on_reading(&mut s, reading(10, 3600, BatteryStatus::Discharging, false), 0);
    record_estimate(&mut s, Estimate::TimeToEmpty, 3600);
    assert!(m.on_query_failed(&mut s));
    assert!(!s.is_present);
    assert_eq!(s.status, "unknown");
    assert_eq!(s.time_to_empty, 0);
    assert_eq!(s.percentage, 10);
    assert!(!m.on_query_failed(&mut s));
    let back = m.on_reading(&mut s, reading(10, 3600, BatteryStatus::Discharging, false), SEC);
    assert!(back.device_added);
    assert!(back.notifications.low);
}

#[test]
fn estimates_go_to_the_matching_field() {
    let mut s = BatteryState::initial();
    record_estimate(&mut s, Estimate::TimeToFull, 1200);
    assert_eq!((s.time_to_empty, s.time_to_full), (0, 1200));
    record_estimate(&mut s, Estimate::TimeToEmpty, 7200);
    assert_eq!((s.time_to_empty, s.time_to_full), (7200, 0));
    record_estimate(&mut s, Estimate::Neither, 99);
    assert_eq!((s.time_to_empty, s.time_to_full), (0, 0));
}

#[test]
fn fully_charged_calls_for_no_estimate() {
    let mut m = Monitor::new();
    let mut s = BatteryState::initial();
    let out = m.on_reading(&mut s, reading(100, 4200, BatteryStatus::FullyCharged, false), 0);
    assert_eq!(out.estimate, Estimate::Neither);
    assert_eq!(s.status, "fully-charged");
}

#[test]
fn weak_cable_falling_40_mv_per_poll_is_discharging_from_the_third_poll() {
    let mut m = Monitor::new();
    let mut s = BatteryState::initial();
    let mut published = Vec::new();
    for k in 0..8u64 {
        let v = 4100 - 40 * k as u16;
        m.on_reading(&mut s, reading(70, v, BatteryStatus::Charging, true), k * 5 * SEC);
        published.push(s.status.clone());
    }
    assert_eq!(published[0], "charging");
    assert_eq!(published[1], "charging");
    for st in &published[2..] {
        assert_eq!(st, "discharging");
    }
}

#[test]
fn sleep_and_wake_keep_the_window() {
    let mut p = BatteryPredictor::new();
    p.push(50, 3800, BatteryStatus::Discharging, 0);
    p.push(50, 3700, BatteryStatus::Discharging, SEC);
    let out = p.push(50, 3690, BatteryStatus::Unknown, 2 * SEC);
    assert!(!out.window_reset);
    let back = p.push(50, 3680, BatteryStatus::Discharging, 3 * SEC);
    assert!(!back.window_reset);
    assert_eq!(p.cable_is_charging(), Some(false));
    // a real flip to charging does restart it
    assert!(p.push(51, 3900, BatteryStatus::Charging, 4 * SEC).window_reset);
    assert_eq!(p.cable_is_charging(), None);
}

#[test]
fn alerts_rearm_after_a_failed_query() {
    let mut m = Monitor::new();
    let mut s = BatteryState::initial();
    assert!(m.on_reading(&mut s, reading(100, 4200, BatteryStatus::FullyCharged, false), 0).notifications.full);
    assert!(!m.on_reading(&mut s, reading(100, 4200, BatteryStatus::FullyCharged, false), SEC).notifications.full);
    m.on_query_failed(&mut s);
    assert!(m.on_reading(&mut s, reading(100, 4200, BatteryStatus::FullyCharged, false), 2 * SEC).notifications.full);
}

#[test]
fn fit_is_unchanged_by_a_voltage_offset() {
    let mut a = BatteryPredictor::new();
    let mut b = BatteryPredictor::new();
    let mut fa = None;
    let mut fb = None;
    for (k, v) in [3900u16, 3890, 3885, 3870].iter().enumerate() {
        fa = a.push(60, *v, BatteryStatus::Discharging, k as u64 * 7 * SEC).fit;
        fb = b.push(60, *v + 100, BatteryStatus::Discharging, k as u64 * 7 * SEC).fit;
    }
    assert_eq!(fa, fb);
    assert!(fa.is_some());
}

#[test]
fn window_is_one_fresh_sample_only_after_a_flip() {
    let mut p = BatteryPredictor::new();
    p.push(50, 3800, BatteryStatus::Discharging, 0);
    p.push(50, 3790, BatteryStatus::FullyCharged, SEC);
    // no flip: the window keeps both readings
    assert!(p.cable_is_charging().is_some());
    p.push(51, 3795, BatteryStatus::Charging, 2 * SEC);
    assert!(p.cable_is_charging().is_some());
}
