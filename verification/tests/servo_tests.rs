use butterfly::config::{SERVO2_CMD_MAX, SERVO2_CMD_NEUTRAL};
use butterfly::servo::{
    angle_to_pulse_us, clamp_angle, clamp_cmd, cmd_to_pulse_us, pulse_to_duty, ContinuousServoService, ServoService,
};

#[test]
fn cmd_pulse_mapping_matches_continuous_convention() {
    assert_eq!(cmd_to_pulse_us(0), 500);
    assert_eq!(cmd_to_pulse_us(SERVO2_CMD_NEUTRAL), 1500);
    assert_eq!(cmd_to_pulse_us(SERVO2_CMD_MAX), 2500);
}

#[test]
fn angle_pulse_mapping_matches_servo_range() {
    assert_eq!(angle_to_pulse_us(0), 500);
    assert_eq!(angle_to_pulse_us(150), 1500);
    assert_eq!(angle_to_pulse_us(300), 2500);
}

#[test]
fn angle_is_clamped() {
    assert_eq!(angle_to_pulse_us(999), 2500);
    assert_eq!(angle_to_pulse_us(0), 500);
}

#[test]
fn cmd_is_clamped() {
    assert_eq!(cmd_to_pulse_us(500), 2500);
    assert_eq!(clamp_cmd(181), 180);
    assert_eq!(clamp_angle(301), 300);
    assert_eq!(clamp_angle(77), 77);
}

#[test]
fn pulse_mapping_rounds_down() {
    // 2000 * 100 / 300 = 666.67
    assert_eq!(angle_to_pulse_us(100), 1166);
    // 2000 * 45 / 180 = 500
    assert_eq!(cmd_to_pulse_us(45), 1000);
}

#[test]
fn pulse_mapping_is_monotonic_on_samples() {
    let mut last = 0;
    for a in 0..=320u16 {
        let p = angle_to_pulse_us(a);
        assert!(p >= last);
        assert!((500..=2500).contains(&p));
        last = p;
    }
    let mut last = 0;
    for c in 0..=200u16 {
        let p = cmd_to_pulse_us(c);
        assert!(p >= last);
        last = p;
    }
}

#[test]
fn duty_for_pulse_over_period() {
    // 12-bit timer: full scale 4095; 1500 us of 20000 us.
    assert_eq!(pulse_to_duty(1500, 4095), 307);
    assert_eq!(pulse_to_duty(500, 4096), 102);
    // the product saturates at u32::MAX before the division
    assert_eq!(pulse_to_duty(2500, u32::MAX), u32::MAX / 20_000);
}

#[test]
fn servo_records_angle_only_on_success() {
    let mut s = ServoService::new(4095);
    assert_eq!(s.get_angle(), 90);
    assert_eq!(s.initial_duty(), pulse_to_duty(angle_to_pulse_us(90), 4095));
    let mut seen = 0u32;
    let r = s.set_angle(400, |d| {
        seen = d;
        Ok(())
    });
    assert!(r.is_ok());
    assert_eq!(seen, pulse_to_duty(2500, 4095));
    assert_eq!(s.get_angle(), 300);
    let r = s.set_angle(10, |_| Err("Failed to set servo duty".to_string()));
    assert_eq!(r, Err("Failed to set servo duty".to_string()));
    assert_eq!(s.get_angle(), 300);
}

#[test]
fn continuous_servo_starts_neutral() {
    let mut s = ContinuousServoService::new(4095);
    assert_eq!(s.get_angle(), 90);
    assert_eq!(s.initial_duty(), pulse_to_duty(1500, 4095));
    let r = s.set_angle(120, |d| {
        assert_eq!(d, pulse_to_duty(cmd_to_pulse_us(120), 4095));
        Ok(())
    });
    assert!(r.is_ok());
    assert_eq!(s.get_angle(), 120);
}
