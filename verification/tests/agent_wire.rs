use thorinpi::agent::{
    check_all, check_hw_errors, check_nw_temp, check_temp, hostname_from_output, is_active_output,
    parse_celsius, parse_milli_temp, CheckResult, Config,
};
use thorinpi::num::{fmt_i64, fmt_u64};
use thorinpi::rig::rig_check_from_wire;
use thorinpi::wire::{parse_check, serialize_check};

fn config(service: &str, gpus: usize) -> Config {
    Config { service: service.to_string(), gpus }
}

#[test]
fn empty_configuration_snapshot() {
    // No GPUs expected, no utilities installed: every probe degraded to its
    // neutral value, and the snapshot still comes out clean.
    let cfg = config("miner", 0);
    let r = check_all(&cfg, "undefined".to_string(), vec![], false, "");
    assert_eq!(r.hostname, "undefined");
    assert!(r.temp.is_empty());
    assert!(!r.service);
    assert!(!r.hw_errors);
}

#[test]
fn hw_errors_from_count_mismatch() {
    let cfg = config("miner", 2);
    assert!(check_hw_errors(&cfg, 1, ""));
    assert!(!check_hw_errors(&cfg, 2, ""));
    // A zero expectation disables the count check.
    assert!(!check_hw_errors(&config("miner", 0), 5, ""));
}

#[test]
fn hw_errors_from_each_log_pattern() {
    let cfg = config("miner", 0);
    let patterns = [
        "WATCHDOG: GPU error",
        "hangs in OpenCL call, exit",
        "GpuMiner kx failed",
        "cannot get current temperature, error",
        "are stopped. Restart attemp",
        "Thread exited with code",
        "Miner thread hangs",
        "need to restart miner!",
    ];
    for p in patterns {
        let logs = format!("noise before\n{}\nnoise after", p);
        assert!(check_hw_errors(&cfg, 0, &logs), "pattern not caught: {}", p);
    }
    assert!(!check_hw_errors(&cfg, 0, "all quiet on the mining front"));
    assert!(!check_hw_errors(&cfg, 0, ""));
}

#[test]
fn temperatures_concatenate_amd_first() {
    let all = check_temp(vec![55, 61], vec![70]);
    assert_eq!(all, vec![55, 61, 70]);
    assert_eq!(check_temp(vec![], vec![]), Vec::<i32>::new());
}

#[test]
fn nvidia_readings_keep_order_and_skip_failures() {
    let r = check_nw_temp(&vec![Some(60), None, Some(64)]);
    assert_eq!(r, vec![60, 64]);
    assert_eq!(check_nw_temp(&vec![]), Vec::<i32>::new());
}

#[test]
fn probe_line_parsing() {
    assert_eq!(parse_celsius("64"), Some(64));
    assert_eq!(parse_celsius(" 64\n"), Some(64));
    assert_eq!(parse_celsius("-3"), Some(-3));
    assert_eq!(parse_celsius(""), None);
    assert_eq!(parse_celsius("warm"), None);
    assert_eq!(parse_celsius("6 4"), None);
    assert_eq!(parse_celsius("99999999999"), None);
}

#[test]
fn milli_degree_parsing_truncates_toward_zero() {
    assert_eq!(parse_milli_temp("55123\n"), Some(55));
    assert_eq!(parse_milli_temp("999"), Some(0));
    assert_eq!(parse_milli_temp("-1500"), Some(-1));
    assert_eq!(parse_milli_temp("-999"), Some(0));
    assert_eq!(parse_milli_temp("nonsense"), None);
}

#[test]
fn service_activity_from_manager_output() {
    assert!(is_active_output("active\n"));
    assert!(is_active_output("active"));
    assert!(!is_active_output("inactive\n"));
    assert!(!is_active_output("failed"));
    assert!(!is_active_output(""));
}

#[test]
fn hostname_probe_trims_or_defaults() {
    assert_eq!(hostname_from_output(Some("rig-7\n")), "rig-7");
    assert_eq!(hostname_from_output(Some("  padded  ")), "padded");
    assert_eq!(hostname_from_output(None), "undefined");
}

#[test]
fn decimal_formatting() {
    assert_eq!(fmt_u64(0), "0");
    assert_eq!(fmt_u64(105), "105");
    assert_eq!(fmt_i64(-42), "-42");
    assert_eq!(fmt_i64(7), "7");
    assert_eq!(fmt_i64(-2147483648), "-2147483648");
}

#[test]
fn serialization_shape() {
    let c = CheckResult {
        hostname: "r1".to_string(),
        temp: vec![70, 80],
        service: true,
        hw_errors: false,
    };
    assert_eq!(
        serialize_check(&c),
        "hostname = \"r1\"\ntemp = [70, 80]\nservice = true\nhw_errors = false\n"
    );
    let empty = CheckResult {
        hostname: "undefined".to_string(),
        temp: vec![],
        service: false,
        hw_errors: true,
    };
    assert_eq!(
        serialize_check(&empty),
        "hostname = \"undefined\"\ntemp = []\nservice = false\nhw_errors = true\n"
    );
}

#[test]
fn round_trip_preserves_the_record() {
    let cases = vec![
        ("r1", vec![70, 80], true, false),
        ("undefined", vec![], false, false),
        ("cold-cellar", vec![-5, 0, 85], false, true),
        ("quote\"and\\slash", vec![1], true, true),
    ];
    for (host, temps, service, hw) in cases {
        let c = CheckResult {
            hostname: host.to_string(),
            temp: temps.clone(),
            service,
            hw_errors: hw,
        };
        let s = serialize_check(&c);
        let back = parse_check(&s).expect("round trip parse");
        assert_eq!(back.hostname, host);
        assert_eq!(back.temp, temps);
        assert_eq!(back.service, service);
        assert_eq!(back.hw_errors, hw);
    }
}

#[test]
fn parser_rejects_malformed_bodies() {
    assert!(parse_check("").is_none());
    assert!(parse_check("not a snapshot").is_none());
    assert!(parse_check("hostname = \"r1\"").is_none());
    assert!(parse_check("hostname = \"r1\"\ntemp = [70\nservice = true\nhw_errors = false\n")
        .is_none());
    assert!(parse_check("hostname = \"r1\"\ntemp = [70]\nservice = maybe\nhw_errors = false\n")
        .is_none());
    // Trailing bytes after the record are refused.
    assert!(parse_check("hostname = \"r1\"\ntemp = []\nservice = true\nhw_errors = false\nx")
        .is_none());
}

#[test]
fn wire_format_is_readable_by_a_toml_parser() {
    let c = CheckResult {
        hostname: "r1".to_string(),
        temp: vec![70, 80],
        service: true,
        hw_errors: false,
    };
    let s = serialize_check(&c);
    let v: toml::Value = toml::from_str(&s).expect("valid toml");
    assert_eq!(v["hostname"].as_str(), Some("r1"));
    assert_eq!(v["service"].as_bool(), Some(true));
    assert_eq!(v["hw_errors"].as_bool(), Some(false));
    let temps: Vec<i64> = v["temp"]
        .as_array()
        .unwrap()
        .iter()
        .map(|x| x.as_integer().unwrap())
        .collect();
    assert_eq!(temps, vec![70, 80]);
}

#[test]
fn widening_into_the_supervisor_record() {
    let c = CheckResult {
        hostname: "r1".to_string(),
        temp: vec![70, -3],
        service: true,
        hw_errors: false,
    };
    let r = rig_check_from_wire(c, Some(true));
    assert_eq!(r.hostname, "r1");
    assert_eq!(r.temp, vec![70isize, -3isize]);
    assert!(r.service);
    assert!(!r.hw_errors);
    assert_eq!(r.led_on, Some(true));
}

#[test]
fn snapshot_of_a_busy_rig() {
    let cfg = config("miner", 2);
    let temps = check_temp(vec![55], check_nw_temp(&vec![Some(61)]));
    let r = check_all(&cfg, "rig-3".to_string(), temps, true, "clean logs");
    assert_eq!(r.temp, vec![55, 61]);
    assert!(r.service);
    assert!(!r.hw_errors);
    let s = serialize_check(&r);
    assert_eq!(
        s,
        "hostname = \"rig-3\"\ntemp = [55, 61]\nservice = true\nhw_errors = false\n"
    );
}
