use ipmi_fans::anomaly::AnomalyDetector;
use ipmi_fans::control::ControlLoop;
use ipmi_fans::curve::fan_curve;
use ipmi_fans::history::RateHistory;
use ipmi_fans::smoother::smooth;
use ipmi_fans::temperature::parse_temperature;
use ipmi_fans::temperature::read_temperature;
use ipmi_fans::temperature::TempError;

#[test]
fn rate_history_works() {
    let mut history = RateHistory::default();
    assert_eq!(Vec::<u8>::default(), history.rates());
    history.push(0);
    assert_eq!(vec![0], history.rates());
    history.push(1);
    assert_eq!(vec![0, 1], history.rates());
    history.push(2);
    history.push(3);
    assert_eq!(false, history.full());
    history.push(4);
    assert_eq!(true, history.full());
    history.push(5);
    assert_eq!(vec![1, 2, 3, 4, 5], history.rates());
    assert_eq!(true, history.full());
    history.push(6);
    assert_eq!(vec![2, 3, 4, 5, 6], history.rates());
}

#[test]
fn history_last_tracks_newest() {
    let mut history = RateHistory::new();
    assert_eq!(None, history.last());
    history.push(10);
    assert_eq!(Some(10), history.last());
    for v in 11..17 {
        history.push(v);
    }
    assert_eq!(Some(16), history.last());
    assert_eq!(vec![12, 13, 14, 15, 16], history.rates());
}

#[test]
fn curve_hits_calibration_points() {
    assert_eq!(15, fan_curve(35_000));
    assert_eq!(100, fan_curve(65_000));
    assert_eq!(57, fan_curve(50_000));
}

#[test]
fn curve_is_monotonic_between_points() {
    let mut previous = fan_curve(35_000);
    let mut temp = 35_000;
    while temp <= 65_000 {
        let duty = fan_curve(temp);
        assert!(duty >= previous);
        previous = duty;
        temp += 500;
    }
}

#[test]
fn curve_saturates_for_extreme_inputs() {
    assert_eq!(255, fan_curve(i32::MAX));
    assert_eq!(255, fan_curve(120_000));
    assert_eq!(0, fan_curve(i32::MIN));
    assert_eq!(0, fan_curve(20_000));
}

#[test]
fn smoother_first_tick_takes_target_clamped() {
    assert_eq!(40, smooth(None, 40));
    assert_eq!(15, smooth(None, 5));
    assert_eq!(100, smooth(None, 200));
}

#[test]
fn smoother_drags_and_clamps() {
    // Small changes are swallowed.
    assert_eq!(50, smooth(Some(50), 52));
    assert_eq!(50, smooth(Some(50), 46));
    // Larger changes are reduced by exactly the drag.
    assert_eq!(56, smooth(Some(50), 60));
    assert_eq!(38, smooth(Some(50), 30));
    assert_eq!(96, smooth(Some(50), 100));
    // The result never leaves the operating band.
    assert_eq!(15, smooth(Some(16), 0));
    assert_eq!(100, smooth(Some(99), 120));
    assert_eq!(23, smooth(Some(255), 15));
}

#[test]
fn anomaly_commanded_high_spinning_low_triggers_reset() {
    let mut history = RateHistory::new();
    for _ in 0..5 {
        history.push(85);
    }
    let mut detector = AnomalyDetector::new();
    let rpms = [5_000u64; 8];
    assert!(detector.evaluate(&history, &rpms));
    assert_eq!(15, detector.lockout);
    // The immediately following tick: lockout still in force, no
    // reset whatever is read.
    detector.tick();
    assert_eq!(14, detector.lockout);
    assert!(!detector.evaluate(&history, &rpms));
    assert_eq!(14, detector.lockout);
}

#[test]
fn anomaly_commanded_low_spinning_high_triggers_reset() {
    let mut history = RateHistory::new();
    for _ in 0..5 {
        history.push(20);
    }
    let mut detector = AnomalyDetector::new();
    let rpms = [12_000u64; 8];
    assert!(detector.evaluate(&history, &rpms));
    assert_eq!(15, detector.lockout);
}

#[test]
fn anomaly_needs_full_window_and_all_entries_extreme() {
    let mut detector = AnomalyDetector::new();
    let low_rpms = [5_000u64; 8];

    // Not full: no reset even with extreme readings.
    let mut short = RateHistory::new();
    for _ in 0..4 {
        short.push(100);
    }
    assert!(!detector.evaluate(&short, &low_rpms));
    assert_eq!(0, detector.lockout);

    // One moderate entry in the window breaks the condition.
    let mut mixed = RateHistory::new();
    for _ in 0..4 {
        mixed.push(100);
    }
    mixed.push(60);
    assert!(!detector.evaluate(&mixed, &low_rpms));
    assert_eq!(0, detector.lockout);

    // Substituted all-zero readings do not fire the
    // commanded-low/spinning-high condition.
    let mut low = RateHistory::new();
    for _ in 0..5 {
        low.push(20);
    }
    assert!(!detector.evaluate(&low, &[0u64; 8]));
    assert_eq!(0, detector.lockout);
}

#[test]
fn steady_temperature_converges_to_floor_duty() {
    let mut ctl = ControlLoop::new();
    for _ in 0..6 {
        assert_eq!(15, ctl.duty_for_tick(Some(35_000)));
    }
}

#[test]
fn temperature_jump_is_drag_limited() {
    let mut ctl = ControlLoop::new();
    assert_eq!(15, ctl.duty_for_tick(Some(35_000)));
    // Target leaps to the curve end (100); the commanded duty rises
    // by the leaky-drag-limited step, not instantly to 100.
    assert_eq!(96, ctl.duty_for_tick(Some(65_000)));
    // A remaining gap no larger than the drag is swallowed: the duty
    // settles at 96.
    assert_eq!(96, ctl.duty_for_tick(Some(65_000)));
}

#[test]
fn failed_read_commands_failsafe_then_recovers() {
    let mut ctl = ControlLoop::new();
    assert_eq!(15, ctl.duty_for_tick(Some(35_000)));
    // Read failure: full speed, bypassing curve and smoother.
    assert_eq!(255, ctl.duty_for_tick(None));
    // The next valid tick smooths against 255 as the previous value.
    assert_eq!(23, ctl.duty_for_tick(Some(35_000)));
}

#[test]
fn lockout_counts_down_then_evaluation_resumes() {
    let mut full = RateHistory::new();
    for _ in 0..5 {
        full.push(85);
    }
    let mut ctl = ControlLoop { history: full, detector: AnomalyDetector { lockout: 3 } };
    let rpms = [5_000u64; 8];
    for expected in [2u8, 1, 0] {
        assert!(!ctl.should_check());
        assert!(!ctl.observe(&rpms));
        ctl.end_tick();
        assert_eq!(expected, ctl.detector.lockout);
    }
    // The tick after the counter reaches zero evaluates again.
    assert!(ctl.should_check());
    assert!(ctl.observe(&rpms));
    assert_eq!(15, ctl.detector.lockout);
}

#[test]
fn parse_accepts_plain_readings() {
    assert_eq!(Ok(36_000), parse_temperature(b"36000\n"));
    assert_eq!(Ok(36_000), parse_temperature(b"36000"));
    assert_eq!(Ok(36_000), parse_temperature(b"+36000\n"));
    assert_eq!(Ok(36_000), parse_temperature(b"36000\ngarbage"));
    assert_eq!(Ok(2_147_483_647), parse_temperature(b"2147483647\n"));
}

#[test]
fn parse_rejects_malformed_readings() {
    assert_eq!(Err(TempError::Malformed), parse_temperature(b""));
    assert_eq!(Err(TempError::Malformed), parse_temperature(b"\n36000"));
    assert_eq!(Err(TempError::Malformed), parse_temperature(b"abc\n"));
    assert_eq!(Err(TempError::Malformed), parse_temperature(b"36 00\n"));
    assert_eq!(Err(TempError::Malformed), parse_temperature(b"-\n"));
    assert_eq!(Err(TempError::Malformed), parse_temperature(b"2147483648\n"));
    assert_eq!(Err(TempError::Malformed), parse_temperature(b"99999999999999\n"));
}

#[test]
fn parse_rejects_readings_below_sanity_floor() {
    assert_eq!(Err(TempError::OutOfRange), parse_temperature(b"19999\n"));
    assert_eq!(Err(TempError::OutOfRange), parse_temperature(b"0\n"));
    assert_eq!(Err(TempError::OutOfRange), parse_temperature(b"-5000\n"));
}

#[test]
fn read_temperature_averages_both_sensors() {
    assert_eq!(Ok(32_500), read_temperature(b"30000\n", b"35001\n"));
    assert_eq!(Ok(36_000), read_temperature(b"36000\n", b"36000\n"));
    assert_eq!(Err(TempError::Malformed), read_temperature(b"oops\n", b"36000\n"));
    assert_eq!(Err(TempError::OutOfRange), read_temperature(b"36000\n", b"100\n"));
}
