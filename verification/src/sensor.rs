//! Time-of-flight distance readings.

use vstd::prelude::*;

verus! {

/// A distance sensor (VL53L0X or VL53L1X) read by a background task.
pub trait TofSensor: Send + Sync {
    /// Current distance in millimetres; 0 when there is no valid reading.
    fn get_distance(&self) -> u16;
}

/// Raw VL53L0X readings at or above this value mean "no object in range".
pub const VL53L0X_OUT_OF_RANGE_MM: u16 = 8190;

/// Distance stored for a VL53L0X reading: out-of-range codes become 0.
pub fn vl53l0x_distance(raw_mm: u16) -> (d: u16)
    ensures
        d == (if raw_mm >= 8190 { 0 } else { raw_mm }),
{
    if raw_mm >= VL53L0X_OUT_OF_RANGE_MM {
        0
    } else {
        raw_mm
    }
}

/// Distance stored after one VL53L1X poll: the new reading when data was
/// ready, the range status valid and the distance read; otherwise the
/// previous value stays.
pub fn vl53l1x_update(previous: u16, data_ready: bool, status_valid: bool, distance: Option<u16>) -> (d: u16)
    ensures
        d == (if data_ready && status_valid && distance is Some { distance->0 } else { previous }),
{
    if data_ready && status_valid {
        match distance {
            Some(mm) => mm,
            None => previous,
        }
    } else {
        previous
    }
}

} // verus!
