//! Supervisor configuration records: ambient sensors, ventilation relays and
//! supervised rigs.  The surrounding binary loads these from its
//! configuration file and hands them over as plain values.

use vstd::prelude::*;

verus! {

/// One ambient sensor: a unique identifier and the GPIO line it hangs on.
#[derive(Debug, Clone)]
pub struct TempSensorCfg {
    pub id: String,
    pub gpio: u8,
}

/// One ventilation relay: the sensors it subscribes to, hysteresis
/// thresholds for ambient and GPU temperatures (degrees Celsius), and its
/// GPIO line.
#[derive(Debug, Clone)]
pub struct VentCfg {
    pub sensors: Vec<String>,
    pub sensors_temp_on: isize,
    pub sensors_temp_off: isize,
    pub rig_temp_on: isize,
    pub rig_temp_off: isize,
    pub gpio: u8,
}

/// One supervised rig: its health endpoint, the power-LED sense line, the
/// power-button line, and an optional critical GPU temperature.
#[derive(Debug)]
pub struct RigCfg {
    pub uri: String,
    pub gpio_power: u8,
    pub gpio_switch: u8,
    pub critical_gpu_temp: Option<u32>,
}

/// The whole supervisor configuration.
#[derive(Debug)]
pub struct Settings {
    pub sensors: Vec<TempSensorCfg>,
    pub vents: Vec<VentCfg>,
    pub rigs: Vec<RigCfg>,
}

} // verus!
