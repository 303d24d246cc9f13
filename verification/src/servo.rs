//! Servo pulse arithmetic and the state of the two servos.
//!
//! The positional servo maps angles `0..=300` linearly onto pulses of
//! `500..=2500` microseconds; the continuous-rotation servo maps commands
//! `0..=180` onto the same pulse range, with `90` (1500 us) standing still.
//! Pulses become LEDC duty values over the 20 ms period of a 50 Hz signal.

use vstd::prelude::*;
use crate::config::{
    SERVO2_CMD_MAX, SERVO2_CMD_MIN, SERVO2_CMD_NEUTRAL, SERVO_ANGLE_MAX, SERVO_ANGLE_MIN,
    SERVO_PULSE_MAX_US, SERVO_PULSE_MIN_US,
};

verus! {

/// Period of the 50 Hz servo signal in microseconds.
pub const SERVO_PERIOD_US: u32 = 20_000;

/// Angle the positional servo takes when created.
pub const SERVO_INITIAL_ANGLE: u16 = 90;

/// `x` limited to `lo..=hi`.
pub open spec fn clamp(x: int, lo: int, hi: int) -> int {
    if x < lo {
        lo
    } else if x > hi {
        hi
    } else {
        x
    }
}

/// Pulse width (us) for a positional-servo angle.
pub open spec fn angle_pulse(angle: int) -> int {
    500 + 2000 * clamp(angle, 0, 300) / 300
}

/// Pulse width (us) for a continuous-servo command.
pub open spec fn cmd_pulse(cmd: int) -> int {
    500 + 2000 * (clamp(cmd, 0, 180) - 0) / 180
}

/// LEDC duty for a pulse: `max_duty * pulse` saturated to `u32`, over the period.
pub open spec fn pulse_duty(pulse_us: int, max_duty: int) -> int {
    let prod = max_duty * pulse_us;
    (if prod > u32::MAX { u32::MAX as int } else { prod }) / 20_000
}

/// Law: a larger angle (or command) never gives a shorter pulse, and every
/// pulse lies within `500..=2500` us.
pub proof fn law_pulse_monotonic(a: int, b: int)
    requires
        a <= b,
    ensures
        angle_pulse(a) <= angle_pulse(b),
        cmd_pulse(a) <= cmd_pulse(b),
        500 <= angle_pulse(a) <= 2500,
        500 <= cmd_pulse(a) <= 2500,
{
    let (ca, cb) = (clamp(a, 0, 300), clamp(b, 0, 300));
    assert(2000 * ca <= 2000 * cb) by (nonlinear_arith)
        requires
            ca <= cb,
    ;
    vstd::arithmetic::div_mod::lemma_div_is_ordered(2000 * ca, 2000 * cb, 300);
    vstd::arithmetic::div_mod::lemma_div_is_ordered(0, 2000 * ca, 300);
    vstd::arithmetic::div_mod::lemma_div_is_ordered(2000 * ca, 600000int, 300);
    let (da, db) = (clamp(a, 0, 180), clamp(b, 0, 180));
    assert(2000 * da <= 2000 * db) by (nonlinear_arith)
        requires
            da <= db,
    ;
    vstd::arithmetic::div_mod::lemma_div_is_ordered(2000 * da, 2000 * db, 180);
    vstd::arithmetic::div_mod::lemma_div_is_ordered(0, 2000 * da, 180);
    vstd::arithmetic::div_mod::lemma_div_is_ordered(2000 * da, 360000int, 180);
}

/// Limits a positional-servo angle to the accepted range.
pub fn clamp_angle(angle: u16) -> (r: u16)
    ensures
        r == clamp(angle as int, 0, 300),
{
    if angle < SERVO_ANGLE_MIN {
        SERVO_ANGLE_MIN
    } else if angle > SERVO_ANGLE_MAX {
        SERVO_ANGLE_MAX
    } else {
        angle
    }
}

/// Limits a continuous-servo command to the accepted range.
pub fn clamp_cmd(cmd: u16) -> (r: u16)
    ensures
        r == clamp(cmd as int, 0, 180),
{
    if cmd < SERVO2_CMD_MIN {
        SERVO2_CMD_MIN
    } else if cmd > SERVO2_CMD_MAX {
        SERVO2_CMD_MAX
    } else {
        cmd
    }
}

/// Pulse width in microseconds for a positional-servo angle (clamped first).
pub fn angle_to_pulse_us(angle: u16) -> (p: u32)
    ensures
        p == angle_pulse(angle as int),
        500 <= p <= 2500,
{
    let a = clamp_angle(angle) as u32;
    let range = (SERVO_ANGLE_MAX - SERVO_ANGLE_MIN) as u32;
    let range = if range < 1 { 1 } else { range };
    let pulse_span = SERVO_PULSE_MAX_US - SERVO_PULSE_MIN_US;
    assert(pulse_span * a <= 2000 * 300) by (nonlinear_arith)
        requires
            pulse_span == 2000,
            a <= 300,
    ;
    assert((pulse_span * a) as int / (range as int) <= 2000) by (nonlinear_arith)
        requires
            pulse_span * a <= 2000 * 300,
            range == 300,
    ;
    SERVO_PULSE_MIN_US + (pulse_span * a / range)
}

/// Pulse width in microseconds for a continuous-servo command (clamped first).
pub fn cmd_to_pulse_us(cmd: u16) -> (p: u32)
    ensures
        p == cmd_pulse(cmd as int),
        500 <= p <= 2500,
{
    let c = clamp_cmd(cmd) as u32;
    let range = (SERVO2_CMD_MAX - SERVO2_CMD_MIN) as u32;
    let range = if range < 1 { 1 } else { range };
    let pulse_span = SERVO_PULSE_MAX_US - SERVO_PULSE_MIN_US;
    let offset = c - SERVO2_CMD_MIN as u32;
    assert(pulse_span * offset <= 2000 * 180) by (nonlinear_arith)
        requires
            pulse_span == 2000,
            offset <= 180,
    ;
    assert((pulse_span * offset) as int / (range as int) <= 2000) by (nonlinear_arith)
        requires
            pulse_span * offset <= 2000 * 180,
            range == 180,
    ;
    SERVO_PULSE_MIN_US + (pulse_span * offset / range)
}

/// LEDC duty value that produces a pulse of `pulse_us` microseconds when the
/// timer's full scale is `max_duty`.
pub fn pulse_to_duty(pulse_us: u32, max_duty: u32) -> (d: u32)
    ensures
        d == pulse_duty(pulse_us as int, max_duty as int),
{
    let prod = match max_duty.checked_mul(pulse_us) {
        Some(v) => v,
        None => u32::MAX,
    };
    prod / SERVO_PERIOD_US
}

/// Duty for a positional-servo angle.
pub open spec fn angle_duty(angle: int, max_duty: int) -> int {
    pulse_duty(angle_pulse(angle), max_duty)
}

/// Duty for a continuous-servo command.
pub open spec fn cmd_duty(cmd: int, max_duty: int) -> int {
    pulse_duty(cmd_pulse(cmd), max_duty)
}

/// Positional servo: the angle last applied and the PWM full scale.
pub struct ServoService {
    angle: u16,
    max_duty: u32,
}

impl ServoService {
    /// Angle last applied successfully.
    pub closed spec fn angle_spec(&self) -> u16 {
        self.angle
    }

    /// Full-scale duty of the PWM channel driving the servo.
    pub closed spec fn max_duty_spec(&self) -> u32 {
        self.max_duty
    }

    /// A servo on a PWM channel whose full scale is `max_duty`, at its
    /// initial angle of 90 degrees.
    pub fn new(max_duty: u32) -> (s: Self)
        ensures
            s.angle_spec() == SERVO_INITIAL_ANGLE,
            s.max_duty_spec() == max_duty,
    {
        ServoService { angle: SERVO_INITIAL_ANGLE, max_duty }
    }

    /// Duty to program when the servo is created.
    pub fn initial_duty(&self) -> (d: u32)
        ensures
            d == angle_duty(SERVO_INITIAL_ANGLE as int, self.max_duty_spec() as int),
    {
        pulse_to_duty(angle_to_pulse_us(SERVO_INITIAL_ANGLE), self.max_duty)
    }

    /// Moves the servo: clamps `angle` to `0..=300`, hands the matching duty
    /// to `set_duty` (which programs the PWM channel) and, when that
    /// succeeds, records the clamped angle. The result is the one
    /// `set_duty` returned.
    pub fn set_angle<F: FnOnce(u32) -> Result<(), String>>(&mut self, angle: u16, set_duty: F) -> (r: Result<(), String>)
        requires
            call_requires(set_duty, (angle_duty(angle as int, old(self).max_duty_spec() as int) as u32,)),
        ensures
            call_ensures(set_duty, (angle_duty(angle as int, old(self).max_duty_spec() as int) as u32,), r),
            final(self).max_duty_spec() == old(self).max_duty_spec(),
            r is Ok ==> final(self).angle_spec() == clamp(angle as int, 0, 300),
            r is Err ==> final(self).angle_spec() == old(self).angle_spec(),
    {
        let clamped = clamp_angle(angle);
        let pulse = angle_to_pulse_us(clamped);
        let duty = pulse_to_duty(pulse, self.max_duty);
        let r = set_duty(duty);
        if r.is_ok() {
            self.angle = clamped;
        }
        r
    }

    /// Angle last applied.
    pub fn get_angle(&self) -> (a: u16)
        ensures
            a == self.angle_spec(),
    {
        self.angle
    }
}

/// Continuous-rotation servo: the command last applied and the PWM full scale.
pub struct ContinuousServoService {
    cmd: u16,
    max_duty: u32,
}

impl ContinuousServoService {
    /// Command last applied successfully.
    pub closed spec fn cmd_spec(&self) -> u16 {
        self.cmd
    }

    /// Full-scale duty of the PWM channel driving the servo.
    pub closed spec fn max_duty_spec(&self) -> u32 {
        self.max_duty
    }

    /// A continuous servo on a PWM channel whose full scale is `max_duty`,
    /// standing still.
    pub fn new(max_duty: u32) -> (s: Self)
        ensures
            s.cmd_spec() == SERVO2_CMD_NEUTRAL,
            s.max_duty_spec() == max_duty,
    {
        ContinuousServoService { cmd: SERVO2_CMD_NEUTRAL, max_duty }
    }

    /// Duty to program when the servo is created.
    pub fn initial_duty(&self) -> (d: u32)
        ensures
            d == cmd_duty(SERVO2_CMD_NEUTRAL as int, self.max_duty_spec() as int),
    {
        pulse_to_duty(cmd_to_pulse_us(SERVO2_CMD_NEUTRAL), self.max_duty)
    }

    /// Sets the rotation command (`90` stops, farther from `90` turns
    /// faster): clamps to `0..=180`, hands the matching duty to `set_duty`
    /// and, when that succeeds, records the clamped command.
    pub fn set_angle<F: FnOnce(u32) -> Result<(), String>>(&mut self, cmd: u16, set_duty: F) -> (r: Result<(), String>)
        requires
            call_requires(set_duty, (cmd_duty(cmd as int, old(self).max_duty_spec() as int) as u32,)),
        ensures
            call_ensures(set_duty, (cmd_duty(cmd as int, old(self).max_duty_spec() as int) as u32,), r),
            final(self).max_duty_spec() == old(self).max_duty_spec(),
            r is Ok ==> final(self).cmd_spec() == clamp(cmd as int, 0, 180),
            r is Err ==> final(self).cmd_spec() == old(self).cmd_spec(),
    {
        let clamped = clamp_cmd(cmd);
        let pulse = cmd_to_pulse_us(clamped);
        let duty = pulse_to_duty(pulse, self.max_duty);
        let r = set_duty(duty);
        if r.is_ok() {
            self.cmd = clamped;
        }
        r
    }

    /// Command last applied.
    pub fn get_angle(&self) -> (c: u16)
        ensures
            c == self.cmd_spec(),
    {
        self.cmd
    }
}

} // verus!
