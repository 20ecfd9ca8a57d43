use thorinpi::config::{TempSensorCfg, VentCfg};
use thorinpi::sensor::{format_temperature, TSensor};
use thorinpi::vent::Vent;

fn vent_cfg() -> VentCfg {
    VentCfg {
        sensors: vec!["amb0".to_string()],
        sensors_temp_on: 40,
        sensors_temp_off: 35,
        rig_temp_on: 75,
        rig_temp_off: 65,
        gpio: 5,
    }
}

#[test]
fn vent_hysteresis_sequence() {
    let ids = vec!["amb0".to_string()];
    let mut v = Vent::new(&vent_cfg(), &ids);
    assert!(!v.gpio_high);
    // (ambient, gpu): (30, 60) stays off.
    assert!(!v.handle(&vec![Some(30)], &vec![60]));
    // (41, 60) turns on via the ambient threshold.
    assert!(v.handle(&vec![Some(41)], &vec![60]));
    // (36, 60): neither off condition is met, the relay keeps running.
    assert!(v.handle(&vec![Some(36)], &vec![60]));
    // (34, 64): both sources below their off thresholds, off again.
    assert!(!v.handle(&vec![Some(34)], &vec![64]));
}

#[test]
fn vent_turns_on_from_gpu_heat_alone() {
    let ids = vec!["amb0".to_string()];
    let mut v = Vent::new(&vent_cfg(), &ids);
    assert!(v.handle(&vec![Some(20)], &vec![60, 76]));
    // GPU heat alone also keeps it on.
    assert!(v.handle(&vec![Some(20)], &vec![70]));
    assert!(!v.handle(&vec![Some(20)], &vec![60]));
}

#[test]
fn vent_with_no_readings_uses_sentinels() {
    let ids = vec!["amb0".to_string()];
    let mut v = Vent::new(&vent_cfg(), &ids);
    // All reads failed and no GPU reported anything: both maxima are the
    // sentinel, which sits below the off thresholds.
    assert!(!v.handle(&vec![None], &vec![]));
    assert!(v.handle(&vec![Some(50)], &vec![]));
    // A failed read does not turn the vent off while the other source is hot.
    assert!(v.handle(&vec![None], &vec![70]));
    assert!(!v.handle(&vec![None], &vec![10]));
}

#[test]
fn vent_subscribes_only_to_named_sensors() {
    let ids = vec!["amb0".to_string(), "amb1".to_string(), "amb2".to_string()];
    let cfg = VentCfg {
        sensors: vec!["amb2".to_string()],
        sensors_temp_on: 40,
        sensors_temp_off: 35,
        rig_temp_on: 75,
        rig_temp_off: 65,
        gpio: 6,
    };
    let mut v = Vent::new(&cfg, &ids);
    assert_eq!(v.sensor_idx, vec![2usize]);
    // A hot reading on an unsubscribed sensor does not move the relay.
    assert!(!v.handle(&vec![Some(90), Some(90), Some(20)], &vec![]));
    assert!(v.handle(&vec![Some(10), Some(10), Some(44)], &vec![]));
}

#[test]
fn sensor_starts_at_sentinel_and_keeps_identity() {
    let cfg = TempSensorCfg { id: "amb0".to_string(), gpio: 4 };
    let s = TSensor::new(&cfg);
    assert_eq!(s.cached_temp, -100);
    assert_eq!(s.pin, 4);
    assert_eq!(s.id().as_str(), "amb0");
}

#[test]
fn sensor_spike_sequence() {
    let cfg = TempSensorCfg { id: "amb0".to_string(), gpio: 4 };
    let mut s = TSensor::new(&cfg);
    // The sentinel is below any plausible reading, so the first reading
    // always replaces it.
    assert_eq!(s.check_temperature(28), 28);
    assert_eq!(s.check_temperature(27), 27);
    // A sudden exact zero while the cache is warm is the known fault mode.
    assert_eq!(s.check_temperature(0), 27);
    assert_eq!(s.cached_temp, 27);
    assert_eq!(s.check_temperature(26), 26);
}

#[test]
fn sensor_accepts_genuine_zero_when_already_cold() {
    let cfg = TempSensorCfg { id: "amb0".to_string(), gpio: 4 };
    let mut s = TSensor::new(&cfg);
    assert_eq!(s.check_temperature(4), 4);
    // From four degrees a zero is within the jump bound and is accepted.
    assert_eq!(s.check_temperature(0), 0);
    // Negative readings are never treated as the fault mode.
    assert_eq!(s.check_temperature(-7), -7);
}

#[test]
fn sensor_filter_is_idempotent_per_reading() {
    let cfg = TempSensorCfg { id: "amb0".to_string(), gpio: 4 };
    let mut s = TSensor::new(&cfg);
    s.check_temperature(30);
    let first = s.check_temperature(0);
    let second = s.check_temperature(0);
    assert_eq!(first, second);
    assert_eq!(s.cached_temp, 30);
}

#[test]
fn temperature_report_line() {
    assert_eq!(
        format_temperature(&vec![Some(30), None, Some(-2)]),
        "30C -2C "
    );
    assert_eq!(format_temperature(&vec![]), "");
    assert_eq!(format_temperature(&vec![None, None]), "");
}

#[test]
fn vent_settles_under_constant_input() {
    let ids = vec!["amb0".to_string()];
    let mut v = Vent::new(&vent_cfg(), &ids);
    // Between the thresholds from either side, a repeated input never
    // moves the relay a second time.
    for (ambient, gpu) in [(41isize, 60isize), (36, 60), (34, 64), (30, 80), (38, 70)] {
        let first = v.handle(&vec![Some(ambient)], &vec![gpu]);
        let second = v.handle(&vec![Some(ambient)], &vec![gpu]);
        assert_eq!(first, second, "input ({}, {}) did not settle", ambient, gpu);
    }
}
