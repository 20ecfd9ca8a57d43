use thorinpi::config::RigCfg;
use thorinpi::rig::{
    press_plan, show_rig_check, Rig, RigAction, RigCheckResult, RigState, BOOT_WAIT_MS,
    POWER_OFF_HARD_MAX_MS, POWER_OFF_MS, POWER_OFF_WAIT_MS,
};

fn cfg(uri: &str) -> RigCfg {
    RigCfg {
        uri: uri.to_string(),
        gpio_power: 17,
        gpio_switch: 27,
        critical_gpu_temp: None,
    }
}

fn healthy(hostname: &str, temps: Vec<isize>) -> RigCheckResult {
    RigCheckResult {
        hostname: hostname.to_string(),
        temp: temps,
        service: true,
        hw_errors: false,
        led_on: None,
    }
}

#[test]
fn new_rig_starts_off_with_dwell_elapsed() {
    let now: u64 = 1_000_000;
    let r = Rig::new(&cfg("http://10.0.0.2:3000/"), now);
    assert_eq!(r.state, RigState::Off(now - POWER_OFF_MS));
    assert_eq!(r.hostname, "http://10.0.0.2:3000/");
    assert_eq!(r.uri, "http://10.0.0.2:3000/");
    assert_eq!(r.critical_temp, 85);
}

#[test]
fn new_rig_respects_configured_critical_temp() {
    let mut c = cfg("http://10.0.0.2:3000/");
    c.critical_gpu_temp = Some(90);
    let r = Rig::new(&c, 0);
    assert_eq!(r.critical_temp, 90);
    assert_eq!(r.state, RigState::Off(0));
}

#[test]
fn cold_start_healthy_rig() {
    // Off with dwell elapsed, LED high: the first tick reconciles to Boot.
    let now: u64 = 1_000_000;
    let mut r = Rig::new(&cfg("http://r1/"), now);
    let t1 = r.handle(now, Some(true), None);
    assert_eq!(r.state, RigState::Boot(now));
    assert_eq!(t1.action, RigAction::Nothing);
    assert!(t1.result.is_none());

    // Snapshot fetches fail during the whole boot window: state holds.
    let mid = now + BOOT_WAIT_MS;
    assert!(!r.wants_snapshot(mid, Some(true)));
    let t2 = r.handle(mid, Some(true), None);
    assert_eq!(r.state, RigState::Boot(now));
    assert_eq!(t2.action, RigAction::Nothing);

    // Past the boot deadline a healthy snapshot arrives: the rig is On.
    let late = now + BOOT_WAIT_MS + 1_000;
    assert!(r.wants_snapshot(late, Some(true)));
    let t3 = r.handle(late, Some(true), Some(healthy("r1", vec![70])));
    assert_eq!(r.state, RigState::On);
    assert_eq!(t3.action, RigAction::Nothing);
    let echoed = t3.result.expect("snapshot echoed");
    assert_eq!(echoed.hostname, "r1");
    assert_eq!(echoed.temp, vec![70]);
    assert_eq!(echoed.led_on, Some(true));
    assert_eq!(r.hostname, "r1");
}

#[test]
fn overheat_forces_soft_power_off() {
    let now: u64 = 5_000_000;
    let mut r = Rig::new(&cfg("http://r1/"), now);
    r.state = RigState::On;
    let t = r.handle(now, Some(true), Some(healthy("r1", vec![90])));
    assert_eq!(r.state, RigState::PowOff(now));
    assert_eq!(t.action, RigAction::ShortClick);
    // The snapshot is still echoed upward.
    assert!(t.result.is_some());
}

#[test]
fn hw_errors_force_soft_power_off() {
    let now: u64 = 5_000_000;
    let mut r = Rig::new(&cfg("http://r1/"), now);
    r.state = RigState::On;
    let snap = RigCheckResult {
        hostname: "r1".to_string(),
        temp: vec![60],
        service: true,
        hw_errors: true,
        led_on: None,
    };
    let t = r.handle(now, Some(true), Some(snap));
    assert_eq!(r.state, RigState::PowOff(now));
    assert_eq!(t.action, RigAction::ShortClick);
}

#[test]
fn stuck_off_escalates_to_hard_then_gives_up() {
    // The rig never leaves the PSU on state: soft off escalates to hard
    // off, and the hard off is abandoned for a boot attempt.
    let t0: u64 = 2_000_000;
    let mut r = Rig::new(&cfg("http://r1/"), t0);
    r.state = RigState::PowOff(t0);

    let t1 = t0 + POWER_OFF_WAIT_MS + 1_000;
    let tick1 = r.handle(t1, Some(true), None);
    assert_eq!(r.state, RigState::PowOffHard(t1));
    assert_eq!(tick1.action, RigAction::LongPress);

    // Still high within the hard window: the press is re-asserted.
    let t2 = t1 + 1_000;
    let tick2 = r.handle(t2, Some(true), None);
    assert_eq!(r.state, RigState::PowOffHard(t1));
    assert_eq!(tick2.action, RigAction::AssertHigh);

    // Still high past the hard window: give up, recovery click, boot path.
    let t3 = t1 + POWER_OFF_HARD_MAX_MS + 1_000;
    let tick3 = r.handle(t3, Some(true), None);
    assert_eq!(r.state, RigState::Boot(t3));
    assert_eq!(tick3.action, RigAction::RecoveryClick);
}

#[test]
fn hard_off_confirmed_by_dark_led() {
    let t0: u64 = 2_000_000;
    let mut r = Rig::new(&cfg("http://r1/"), t0);
    r.state = RigState::PowOffHard(t0);
    let tick = r.handle(t0 + 1_000, Some(false), None);
    assert_eq!(r.state, RigState::Off(t0 + 1_000));
    assert_eq!(tick.action, RigAction::SetLow);
}

#[test]
fn transient_service_flap_recovers_without_click() {
    let now: u64 = 7_000_000;
    let mut r = Rig::new(&cfg("http://r1/"), now);
    r.state = RigState::On;
    let down = RigCheckResult {
        hostname: "r1".to_string(),
        temp: vec![60],
        service: false,
        hw_errors: false,
        led_on: None,
    };
    let t1 = r.handle(now, Some(true), Some(down));
    assert_eq!(r.state, RigState::OnErr(now));
    assert_eq!(t1.action, RigAction::Nothing);

    let t2 = r.handle(now + 20_000, Some(true), Some(healthy("r1", vec![60])));
    assert_eq!(r.state, RigState::On);
    assert_eq!(t2.action, RigAction::Nothing);
}

#[test]
fn snapshot_error_escalates_after_grace() {
    let now: u64 = 9_000_000;
    let mut r = Rig::new(&cfg("http://r1/"), now);
    r.state = RigState::OnErr(now);
    // Within the grace period the state and its timestamp hold.
    let t1 = r.handle(now + 30_000, Some(true), None);
    assert_eq!(r.state, RigState::OnErr(now));
    assert_eq!(t1.action, RigAction::Nothing);
    // Past it the soft off begins.
    let t2 = r.handle(now + 31_000, Some(true), None);
    assert_eq!(r.state, RigState::PowOff(now + 31_000));
    assert_eq!(t2.action, RigAction::ShortClick);
}

#[test]
fn dark_led_on_live_state_means_off() {
    let now: u64 = 3_000_000;
    let mut r = Rig::new(&cfg("http://r1/"), now);
    r.state = RigState::On;
    let tick = r.handle(now, Some(false), None);
    assert_eq!(r.state, RigState::Off(now));
    assert_eq!(tick.action, RigAction::SetLow);
    assert!(tick.result.is_none());
}

#[test]
fn unreadable_led_holds_state() {
    let now: u64 = 3_000_000;
    let mut r = Rig::new(&cfg("http://r1/"), now);
    r.state = RigState::PowOff(now - 1);
    let tick = r.handle(now, None, None);
    assert_eq!(r.state, RigState::PowOff(now - 1));
    assert_eq!(tick.action, RigAction::Nothing);
}

#[test]
fn off_dwell_then_boot_click() {
    let t0: u64 = 4_000_000;
    let mut r = Rig::new(&cfg("http://r1/"), t0);
    r.state = RigState::Off(t0);
    // Within the dwell the rig stays off.
    let t1 = r.handle(t0 + POWER_OFF_MS, Some(false), None);
    assert_eq!(r.state, RigState::Off(t0));
    assert_eq!(t1.action, RigAction::Nothing);
    // Past it the boot click is issued.
    let t2 = r.handle(t0 + POWER_OFF_MS + 1_000, Some(false), None);
    assert_eq!(r.state, RigState::Boot(t0 + POWER_OFF_MS + 1_000));
    assert_eq!(t2.action, RigAction::ShortClick);
}

#[test]
fn hostname_updates_on_every_successful_snapshot() {
    let now: u64 = 6_000_000;
    let mut r = Rig::new(&cfg("http://10.0.0.2:3000/"), now);
    assert_eq!(r.hostname, "http://10.0.0.2:3000/");
    r.state = RigState::On;
    r.handle(now, Some(true), Some(healthy("alpha", vec![50])));
    assert_eq!(r.hostname, "alpha");
    r.handle(now + 1_000, Some(true), Some(healthy("beta", vec![50])));
    assert_eq!(r.hostname, "beta");
    // A failed fetch leaves the learned name in place.
    r.handle(now + 2_000, Some(true), None);
    assert_eq!(r.hostname, "beta");
}

#[test]
fn press_plans_end_with_the_line_low() {
    for action in [
        RigAction::ShortClick,
        RigAction::LongPress,
        RigAction::SetLow,
        RigAction::RecoveryClick,
    ] {
        let plan = press_plan(&action);
        assert!(!plan.is_empty());
        assert!(!plan.last().unwrap().high);
    }
    assert!(press_plan(&RigAction::Nothing).is_empty());
}

#[test]
fn press_plan_shapes() {
    let short = press_plan(&RigAction::ShortClick);
    assert_eq!(short.len(), 2);
    assert!(short[0].high);
    assert_eq!(short[0].hold_ms, 750);
    assert!(!short[1].high);

    let long = press_plan(&RigAction::LongPress);
    assert_eq!(long.len(), 2);
    assert!(long[0].high);
    assert_eq!(long[0].hold_ms, 6_000);
    assert!(!long[1].high);
    assert_eq!(long[1].hold_ms, 250);

    let recovery = press_plan(&RigAction::RecoveryClick);
    assert_eq!(recovery.len(), 3);
    assert!(!recovery[0].high);
    assert_eq!(recovery[0].hold_ms, 2_000);
    assert!(recovery[1].high);
    assert!(!recovery[2].high);
}

#[test]
fn show_rig_check_line() {
    let c = RigCheckResult {
        hostname: "r1".to_string(),
        temp: vec![70, 81],
        service: true,
        hw_errors: false,
        led_on: Some(true),
    };
    assert_eq!(
        show_rig_check(&c),
        "r1 led_on:true service:true errors:false temps:[70, 81]"
    );
    let d = RigCheckResult {
        hostname: "r2".to_string(),
        temp: vec![],
        service: false,
        hw_errors: true,
        led_on: None,
    };
    assert_eq!(
        show_rig_check(&d),
        "r2 led_on:false service:false errors:true temps:[]"
    );
}

#[test]
fn snapshot_wanted_only_where_the_table_consumes_one() {
    let now: u64 = 10_000_000;
    let mk = |state: RigState| {
        let mut r = Rig::new(&cfg("http://r1/"), now);
        r.state = state;
        r
    };
    assert!(mk(RigState::On).wants_snapshot(now, Some(true)));
    assert!(mk(RigState::OnErr(now)).wants_snapshot(now, Some(true)));
    assert!(!mk(RigState::Boot(now)).wants_snapshot(now, Some(true)));
    assert!(mk(RigState::Boot(now - BOOT_WAIT_MS - 1)).wants_snapshot(now, Some(true)));
    assert!(!mk(RigState::PowOff(now)).wants_snapshot(now, Some(true)));
    assert!(!mk(RigState::Off(now)).wants_snapshot(now, Some(false)));
    // An unreadable or dark LED means no fetch this tick.
    assert!(!mk(RigState::On).wants_snapshot(now, None));
    assert!(!mk(RigState::On).wants_snapshot(now, Some(false)));
}

#[test]
fn snapshot_ignored_while_powering_off() {
    let now: u64 = 12_000_000;
    let mut r = Rig::new(&cfg("http://r1/"), now);
    r.state = RigState::PowOff(now);
    let tick = r.handle(now + 1_000, Some(true), Some(healthy("r1", vec![70])));
    assert_eq!(r.state, RigState::PowOff(now));
    assert_eq!(tick.action, RigAction::Nothing);
    assert!(tick.result.is_none());
    // The hostname is only learned from a consumed snapshot.
    assert_eq!(r.hostname, "http://r1/");
}

#[test]
fn boot_deadline_with_dead_agent_degrades() {
    let t0: u64 = 15_000_000;
    let mut r = Rig::new(&cfg("http://r1/"), t0);
    r.state = RigState::Boot(t0);
    let late = t0 + BOOT_WAIT_MS + 1_000;
    let tick = r.handle(late, Some(true), None);
    assert_eq!(r.state, RigState::OnErr(late));
    assert_eq!(tick.action, RigAction::Nothing);
}
