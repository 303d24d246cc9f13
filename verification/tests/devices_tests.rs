use butterfly::motor::{soft_pwm_timing, MotorCycle, MotorDirection, MotorService};
use butterfly::sensor::{vl53l0x_distance, vl53l1x_update};

#[test]
fn motor_direction_names() {
    assert_eq!(MotorDirection::Coast.as_str(), "coast");
    assert_eq!(MotorDirection::Forward.as_str(), "forward");
    assert_eq!(MotorDirection::Reverse.as_str(), "reverse");
    assert_eq!(MotorDirection::Brake.as_str(), "brake");
}

#[test]
fn motor_speed_is_limited() {
    let mut m = MotorService::new();
    assert_eq!(m.get_speed(), 0);
    assert_eq!(m.get_direction(), MotorDirection::Coast);
    assert_eq!(m.set(150, MotorDirection::Forward), Ok(()));
    assert_eq!(m.get_speed(), 100);
    assert_eq!(m.get_direction(), MotorDirection::Forward);
    assert_eq!(m.set(40, MotorDirection::Reverse), Ok(()));
    assert_eq!(m.get_speed(), 40);
}

#[test]
fn motor_pwm_cycle() {
    assert_eq!(soft_pwm_timing(0), (0, 2000));
    assert_eq!(soft_pwm_timing(25), (500, 1500));
    assert_eq!(soft_pwm_timing(255), (2000, 0));
    let mut m = MotorService::new();
    assert_eq!(m.cycle(), MotorCycle::Hold { in1_high: false, in2_high: false, hold_ms: 10 });
    let _ = m.set(50, MotorDirection::Reverse);
    assert_eq!(m.cycle(), MotorCycle::Pulse { pulse_in1: false, on_us: 1000, off_us: 1000 });
    let _ = m.set(50, MotorDirection::Brake);
    assert_eq!(m.cycle(), MotorCycle::Hold { in1_high: true, in2_high: true, hold_ms: 10 });
}

#[test]
fn distance_readings() {
    assert_eq!(vl53l0x_distance(8190), 0);
    assert_eq!(vl53l0x_distance(8191), 0);
    assert_eq!(vl53l0x_distance(8189), 8189);
    assert_eq!(vl53l0x_distance(55), 55);
    assert_eq!(vl53l1x_update(10, true, true, Some(42)), 42);
    assert_eq!(vl53l1x_update(10, true, false, Some(42)), 10);
    assert_eq!(vl53l1x_update(10, false, true, Some(42)), 10);
    assert_eq!(vl53l1x_update(10, true, true, None), 10);
}
