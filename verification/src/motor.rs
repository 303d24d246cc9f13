//! DRV8833 motor control state and the software-PWM cycle it implies.
//!
//! IN1 carries the speed PWM when driving forward, IN2 when driving in
//! reverse; both low lets the motor coast and both high brakes it.

use vstd::prelude::*;

verus! {

/// Length of one software-PWM period in microseconds.
pub const SOFT_PWM_PERIOD_US: u32 = 2000;

/// Highest speed, in percent.
pub const MOTOR_SPEED_MAX: u8 = 100;

/// What the motor driver does with the two inputs.
#[derive(Clone, Copy, Debug, PartialEq, Eq, Structural)]
pub enum MotorDirection {
    Coast,
    Forward,
    Reverse,
    Brake,
}

impl MotorDirection {
    /// Lower-case name of the direction.
    pub fn as_str(self) -> (s: &'static str)
        ensures
            self == MotorDirection::Coast ==> s@ == "coast"@,
            self == MotorDirection::Forward ==> s@ == "forward"@,
            self == MotorDirection::Reverse ==> s@ == "reverse"@,
            self == MotorDirection::Brake ==> s@ == "brake"@,
    {
        match self {
            MotorDirection::Coast => "coast",
            MotorDirection::Forward => "forward",
            MotorDirection::Reverse => "reverse",
            MotorDirection::Brake => "brake",
        }
    }
}

/// Requested motor speed (percent, at most 100) and direction.
pub struct MotorService {
    speed: u8,
    direction: MotorDirection,
}

/// One iteration of the software-PWM loop.
#[derive(Clone, Copy, Debug, PartialEq, Eq, Structural)]
pub enum MotorCycle {
    /// Hold both inputs at the given levels for `hold_ms` milliseconds.
    Hold { in1_high: bool, in2_high: bool, hold_ms: u32 },
    /// Keep the other input low and pulse IN1 (`pulse_in1`) or IN2: high
    /// for `on_us`, then low for `off_us`, then pause one millisecond.
    Pulse { pulse_in1: bool, on_us: u32, off_us: u32 },
}

/// High time of a software-PWM period for a speed in percent.
pub open spec fn pwm_on_us(speed: int) -> int {
    2000 * (if speed > 100 { 100 } else { speed }) / 100
}

impl MotorService {
    /// The stored speed never exceeds 100 percent.
    #[verifier::type_invariant]
    spec fn speed_in_range(&self) -> bool {
        self.speed <= 100
    }

    /// Current speed in percent.
    pub closed spec fn speed_spec(&self) -> u8 {
        self.speed
    }

    /// Current direction.
    pub closed spec fn direction_spec(&self) -> MotorDirection {
        self.direction
    }

    /// A stopped, coasting motor.
    pub fn new() -> (m: Self)
        ensures
            m.speed_spec() == 0,
            m.direction_spec() == MotorDirection::Coast,
    {
        MotorService { speed: 0, direction: MotorDirection::Coast }
    }

    /// Sets speed (limited to 100 percent) and direction.
    pub fn set(&mut self, speed: u8, direction: MotorDirection) -> (r: Result<(), String>)
        ensures
            r is Ok,
            final(self).speed_spec() == (if speed > 100 { 100 } else { speed }),
            final(self).direction_spec() == direction,
    {
        let clamped_speed = if speed > MOTOR_SPEED_MAX { MOTOR_SPEED_MAX } else { speed };
        self.speed = clamped_speed;
        self.direction = direction;
        Ok(())
    }

    /// Current speed in percent.
    pub fn get_speed(&self) -> (s: u8)
        ensures
            s == self.speed_spec(),
            s <= 100,
    {
        proof {
            use_type_invariant(self);
        }
        self.speed
    }

    /// Current direction.
    pub fn get_direction(&self) -> (d: MotorDirection)
        ensures
            d == self.direction_spec(),
    {
        self.direction
    }

    /// The next software-PWM iteration for the current speed and direction.
    pub fn cycle(&self) -> (c: MotorCycle)
        ensures
            c == motor_cycle(self.speed_spec() as int, self.direction_spec()),
    {
        let (on_us, off_us) = soft_pwm_timing(self.speed);
        match self.direction {
            MotorDirection::Coast => MotorCycle::Hold { in1_high: false, in2_high: false, hold_ms: 10 },
            MotorDirection::Brake => MotorCycle::Hold { in1_high: true, in2_high: true, hold_ms: 10 },
            MotorDirection::Forward => MotorCycle::Pulse { pulse_in1: true, on_us, off_us },
            MotorDirection::Reverse => MotorCycle::Pulse { pulse_in1: false, on_us, off_us },
        }
    }
}

/// The PWM iteration for a speed and a direction.
pub open spec fn motor_cycle(speed: int, direction: MotorDirection) -> MotorCycle {
    match direction {
        MotorDirection::Coast => MotorCycle::Hold { in1_high: false, in2_high: false, hold_ms: 10 },
        MotorDirection::Brake => MotorCycle::Hold { in1_high: true, in2_high: true, hold_ms: 10 },
        MotorDirection::Forward => MotorCycle::Pulse {
            pulse_in1: true,
            on_us: pwm_on_us(speed) as u32,
            off_us: (2000 - pwm_on_us(speed)) as u32,
        },
        MotorDirection::Reverse => MotorCycle::Pulse {
            pulse_in1: false,
            on_us: pwm_on_us(speed) as u32,
            off_us: (2000 - pwm_on_us(speed)) as u32,
        },
    }
}

/// High and low times (us) of one software-PWM period at `speed` percent;
/// speeds above 100 count as 100. The two always add up to the period.
pub fn soft_pwm_timing(speed: u8) -> (r: (u32, u32))
    ensures
        r.0 == pwm_on_us(speed as int),
        r.0 + r.1 == SOFT_PWM_PERIOD_US,
{
    let s: u32 = if speed > MOTOR_SPEED_MAX { MOTOR_SPEED_MAX as u32 } else { speed as u32 };
    assert(SOFT_PWM_PERIOD_US * s <= 200_000) by (nonlinear_arith)
        requires
            s <= 100,
    ;
    assert((SOFT_PWM_PERIOD_US * s) as int / 100 <= 2000) by (nonlinear_arith)
        requires
            SOFT_PWM_PERIOD_US * s <= 200_000,
    ;
    let on_us = SOFT_PWM_PERIOD_US * s / 100;
    let off_us = SOFT_PWM_PERIOD_US - on_us;
    (on_us, off_us)
}

} // verus!
