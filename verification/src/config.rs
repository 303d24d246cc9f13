//! Device-wide configuration constants.

use vstd::prelude::*;

verus! {

/// Octets of the soft-AP address on which every portal service listens.
pub const AP_IP_OCTETS: [u8; 4] = [192, 168, 71, 1];

/// Prefix of the soft-AP SSID; the rest is derived from the device MAC.
pub const WIFI_SSID_PREFIX: &'static str = "BF_";

/// Soft-AP Wi-Fi channel.
pub const WIFI_CHANNEL: u8 = 1;

/// Port of the captive DNS responder.
pub const DNS_PORT: u16 = 53;

/// Whether the captive DNS responder is started.
pub const ENABLE_DNS_CAPTIVE: bool = false;

/// Port of the HTTP server.
pub const HTTP_PORT: u16 = 80;

/// TCP port of the provisioning protocol spoken on the soft-AP.
pub const AP_TCP_PORT: u16 = 1234;

/// UDP port of station-mode announcements.
pub const STA_UDP_PORT: u16 = 12345;

/// TCP port of the station-mode control protocol.
pub const STA_TCP_PORT: u16 = 12345;

/// Soft-AP subnet prefix length.
pub const SUBNET_MASK: u8 = 24;

/// Distance-sensor I2C data pin (GPIO5).
pub const VL53L0X_SDA_PIN: u8 = 5;

/// Distance-sensor I2C clock pin (GPIO2).
pub const VL53L0X_SCL_PIN: u8 = 2;

/// Distance-sensor I2C bus frequency in Hz.
pub const VL53L0X_I2C_FREQUENCY: u32 = 400_000;

/// Signal pin of the positional servo.
pub const SERVO_PIN: u8 = 3;

/// Signal pin of the continuous-rotation servo.
pub const SERVO2_PIN: u8 = 4;

/// Lowest angle accepted by the positional servo.
pub const SERVO_ANGLE_MIN: u16 = 0;

/// Highest angle accepted by the positional servo.
pub const SERVO_ANGLE_MAX: u16 = 300;

/// Shortest servo pulse in microseconds.
pub const SERVO_PULSE_MIN_US: u32 = 500;

/// Longest servo pulse in microseconds.
pub const SERVO_PULSE_MAX_US: u32 = 2500;

/// Lowest command of the continuous-rotation servo.
pub const SERVO2_CMD_MIN: u16 = 0;

/// Highest command of the continuous-rotation servo.
pub const SERVO2_CMD_MAX: u16 = 180;

/// Command at which the continuous-rotation servo stands still.
pub const SERVO2_CMD_NEUTRAL: u16 = 90;

/// Below this distance (mm) the wings start flapping.
pub const TOF_THRESHOLD_START_MM: u16 = 110;

/// At or below this distance (mm) the wings flap at the fastest period.
pub const TOF_THRESHOLD_FAST_MM: u16 = 60;

/// Flap period (ms) just inside the trigger distance.
pub const TOF_PERIOD_SLOW_MS: u64 = 2000;

/// Fastest flap period (ms).
pub const TOF_PERIOD_FAST_MS: u64 = 300;

} // verus!
