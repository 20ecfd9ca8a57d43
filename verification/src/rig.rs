//! Per-rig power-cycle state machine.
//!
//! Each tick the supervisor reads the rig's power-LED line, optionally
//! fetches a health snapshot, and hands both to `Rig::handle`, which moves
//! the state machine and answers with the button action the tick calls for.
//! The surrounding binary owns the GPIO lines and performs the returned
//! press plan; time-based escalation is the machine's only liveness
//! guarantee.

use vstd::prelude::*;
use vstd::string::StringExecFns;
use crate::config::RigCfg;

verus! {

/// Time allowed from the boot click to the first successful snapshot.
pub const BOOT_WAIT_MS: u64 = 300_000;

/// Grace period after a soft-off click before escalating to a hard off.
pub const POWER_OFF_WAIT_MS: u64 = 120_000;

/// Minimum dwell in the off state before any re-on attempt.
pub const POWER_OFF_MS: u64 = 180_000;

/// Give up on a hard off after this long and try to bring the rig back.
pub const POWER_OFF_HARD_MAX_MS: u64 = 240_000;

/// Grace period in the degraded state before escalating to a soft off.
pub const ERR_RESOLVE_WAIT_MS: u64 = 30_000;

/// Critical GPU temperature when the configuration names none.
pub const DEFAULT_CRITICAL_GPU_TEMP: u32 = 85;

/// Hold time of a short click.
pub const SHORT_CLICK_HOLD_MS: u64 = 750;

/// Hold time of the PSU-level long press.
pub const LONG_PRESS_HOLD_MS: u64 = 6_000;

/// Rest after a long press before the LED is read back.
pub const HARD_OFF_CONFIRM_MS: u64 = 250;

/// Rest at low before the give-up recovery click.
pub const RECOVERY_REST_MS: u64 = 2_000;

/// Hard timeout on one snapshot fetch.
pub const HTTP_TIMEOUT_MS: u64 = 10_000;

/// The rig's runtime state; every variant but `On` carries the monotonic
/// moment it was entered, replaced only on a state change, never on
/// re-entry to the same state.
#[derive(Debug, Clone, Copy, PartialEq, Eq, Structural)]
pub enum RigState {
    On,
    OnErr(u64),
    Boot(u64),
    PowOff(u64),
    PowOffHard(u64),
    Off(u64),
}

/// What the switch line must do after a tick.
#[derive(Debug, Clone, Copy, PartialEq, Eq, Structural)]
pub enum RigAction {
    Nothing,
    ShortClick,
    LongPress,
    AssertHigh,
    SetLow,
    RecoveryClick,
}

/// One level of the switch line held for a duration.
#[derive(Debug, Clone, Copy, PartialEq, Eq, Structural)]
pub struct PressStep {
    pub high: bool,
    pub hold_ms: u64,
}

/// Health classification of a successful snapshot.
#[derive(Debug, Clone, Copy, PartialEq, Eq, Structural)]
pub enum Health {
    Critical,
    Degraded,
    Healthy,
}

/// A snapshot as the supervisor consumes it: the agent's wire record plus
/// the power-LED level observed this tick.
#[derive(Debug)]
pub struct RigCheckResult {
    pub hostname: String,
    pub temp: Vec<isize>,
    pub service: bool,
    pub hw_errors: bool,
    pub led_on: Option<bool>,
}

/// What one tick of `Rig::handle` decided: the switch action to perform
/// and, when a snapshot was consumed, the snapshot echoed upward.
pub struct RigTick {
    pub action: RigAction,
    pub result: Option<RigCheckResult>,
}

pub struct Rig {
    pub hostname: String,
    pub uri: String,
    pub state: RigState,
    pub critical_temp: u32,
}

/// Every timestamp the state carries lies at or before `now`.
pub open spec fn state_wf(st: RigState, now: u64) -> bool {
    match st {
        RigState::On => true,
        RigState::OnErr(t) => t <= now,
        RigState::Boot(t) => t <= now,
        RigState::PowOff(t) => t <= now,
        RigState::PowOffHard(t) => t <= now,
        RigState::Off(t) => t <= now,
    }
}

/// Classification the table applies to a successful snapshot: hardware
/// errors or an over-critical GPU are critical, a stopped service is
/// degraded, everything else healthy.
pub open spec fn spec_health(c: RigCheckResult, critical: int) -> Health {
    if c.hw_errors {
        Health::Critical
    } else if exists|m: int|
        0 <= m < c.temp@.len() && #[trigger] c.temp@.index(m) as int > critical {
        Health::Critical
    } else if !c.service {
        Health::Degraded
    } else {
        Health::Healthy
    }
}

pub open spec fn spec_snap_health(snap: Option<RigCheckResult>, critical: int) -> Option<Health> {
    match snap {
        Some(c) => Some(spec_health(c, critical)),
        None => None,
    }
}

/// Pre-transition reconciliation: a rig found drawing power while believed
/// off is treated as booting from this moment.
pub open spec fn spec_reconcile(pre: RigState, now: u64, led_high: bool) -> RigState {
    if led_high {
        match pre {
            RigState::Off(_) => RigState::Boot(now),
            _ => pre,
        }
    } else {
        pre
    }
}

/// State-specific behaviour after reconciliation.  The off state is only
/// reached here with the LED low, the hard-off state only with it high.
pub open spec fn spec_rig_dispatch(st: RigState, now: u64, h: Option<Health>) -> (RigState,
    RigAction) {
    match st {
        RigState::On => match h {
            Some(Health::Healthy) => (RigState::On, RigAction::Nothing),
            Some(Health::Degraded) => (RigState::OnErr(now), RigAction::Nothing),
            Some(Health::Critical) => (RigState::PowOff(now), RigAction::ShortClick),
            None => (RigState::OnErr(now), RigAction::Nothing),
        },
        RigState::OnErr(t) => match h {
            Some(Health::Healthy) => (RigState::On, RigAction::Nothing),
            Some(Health::Degraded) => (RigState::OnErr(t), RigAction::Nothing),
            Some(Health::Critical) => (RigState::PowOff(now), RigAction::ShortClick),
            None => if now - t > ERR_RESOLVE_WAIT_MS {
                (RigState::PowOff(now), RigAction::ShortClick)
            } else {
                (RigState::OnErr(t), RigAction::Nothing)
            },
        },
        RigState::Boot(t) => if now - t <= BOOT_WAIT_MS {
            (RigState::Boot(t), RigAction::Nothing)
        } else {
            match h {
                Some(Health::Healthy) => (RigState::On, RigAction::Nothing),
                Some(Health::Degraded) => (RigState::OnErr(now), RigAction::Nothing),
                Some(Health::Critical) => (RigState::PowOff(now), RigAction::ShortClick),
                None => (RigState::OnErr(now), RigAction::Nothing),
            }
        },
        RigState::PowOff(t) => if now - t > POWER_OFF_WAIT_MS {
            (RigState::PowOffHard(now), RigAction::LongPress)
        } else {
            (RigState::PowOff(t), RigAction::Nothing)
        },
        RigState::PowOffHard(t) => if now - t > POWER_OFF_HARD_MAX_MS {
            (RigState::Boot(now), RigAction::RecoveryClick)
        } else {
            (RigState::PowOffHard(t), RigAction::AssertHigh)
        },
        RigState::Off(t) => if now - t > POWER_OFF_MS {
            (RigState::Boot(now), RigAction::ShortClick)
        } else {
            (RigState::Off(t), RigAction::Nothing)
        },
    }
}

/// One tick of the state machine.  An unreadable LED holds the state; a
/// dark LED on a rig believed live means it died or was pulled, and the
/// tick ends in the off state with the switch line released.
pub open spec fn spec_rig_step(pre: RigState, now: u64, led: Option<bool>, h: Option<Health>) -> (
    RigState,
    RigAction,
) {
    match led {
        None => (pre, RigAction::Nothing),
        Some(l) => if !l && !(pre matches RigState::Off(_)) {
            (RigState::Off(now), RigAction::SetLow)
        } else {
            spec_rig_dispatch(spec_reconcile(pre, now, l), now, h)
        },
    }
}

/// Whether this tick consumes a snapshot: only the on, degraded, and
/// boot-deadline-passed states poll the agent.
pub open spec fn spec_wants(pre: RigState, now: u64, led: Option<bool>) -> bool {
    match led {
        None => false,
        Some(l) => if !l && !(pre matches RigState::Off(_)) {
            false
        } else {
            match spec_reconcile(pre, now, l) {
                RigState::On => true,
                RigState::OnErr(_) => true,
                RigState::Boot(t) => now - t > BOOT_WAIT_MS,
                _ => false,
            }
        },
    }
}

/// Saturating difference, for the startup state's back-dated timestamp.
pub open spec fn spec_sat_sub(a: u64, b: u64) -> u64 {
    if a >= b {
        (a - b) as u64
    } else {
        0
    }
}

fn classify(c: &RigCheckResult, critical: u32) -> (h: Health)
    ensures
        h == spec_health(*c, critical as int),
{
    if c.hw_errors {
        return Health::Critical;
    }
    let mut k: usize = 0;
    let mut over = false;
    while k < c.temp.len()
        invariant
            0 <= k <= c.temp@.len(),
            over == exists|m: int|
                0 <= m < k && #[trigger] c.temp@.index(m) as int > critical as int,
        decreases c.temp@.len() - k,
    {
        if c.temp[k] as i64 > critical as i64 {
            over = true;
            proof {
                assert(c.temp@.index(k as int) as int > critical as int);
            }
        }
        k = k + 1;
    }
    if over {
        Health::Critical
    } else if !c.service {
        Health::Degraded
    } else {
        Health::Healthy
    }
}

impl Rig {
    pub open spec fn wf(&self, now: u64) -> bool {
        state_wf(self.state, now)
    }

    /// Build a rig controller: the configured URI is the hostname
    /// placeholder until the first successful snapshot, and the machine
    /// starts off with the minimum dwell already elapsed, so the first tick
    /// reconciles from the LED.
    pub fn new(cfg: &RigCfg, now: u64) -> (r: Rig)
        ensures
            r.hostname@ == cfg.uri@,
            r.uri@ == cfg.uri@,
            r.state == RigState::Off(spec_sat_sub(now, POWER_OFF_MS)),
            r.critical_temp == (match cfg.critical_gpu_temp {
                Some(v) => v,
                None => DEFAULT_CRITICAL_GPU_TEMP,
            }),
            r.wf(now),
    {
        let since: u64 = if now >= POWER_OFF_MS {
            now - POWER_OFF_MS
        } else {
            0
        };
        let critical = match cfg.critical_gpu_temp {
            Some(v) => v,
            None => DEFAULT_CRITICAL_GPU_TEMP,
        };
        Rig {
            hostname: cfg.uri.clone(),
            uri: cfg.uri.clone(),
            state: RigState::Off(since),
            critical_temp: critical,
        }
    }

    /// Whether the supervisor should fetch a snapshot before calling
    /// `handle` with the same readings this tick.
    pub fn wants_snapshot(&self, now: u64, led: Option<bool>) -> (r: bool)
        requires
            self.wf(now),
        ensures
            r == spec_wants(self.state, now, led),
    {
        let l = match led {
            None => {
                return false;
            },
            Some(b) => b,
        };
        if !l {
            match self.state {
                RigState::Off(_) => {},
                _ => {
                    return false;
                },
            }
        }
        let st = match self.state {
            RigState::Off(_) => if l {
                RigState::Boot(now)
            } else {
                self.state
            },
            _ => self.state,
        };
        match st {
            RigState::On => true,
            RigState::OnErr(_) => true,
            RigState::Boot(t) => now - t > BOOT_WAIT_MS,
            _ => false,
        }
    }

    /// One tick: reconcile against the LED, consume the snapshot where the
    /// state asks for one, move the machine, learn the hostname, and
    /// return the action the switch line must perform together with the
    /// echoed snapshot.
    pub fn handle(&mut self, now: u64, led: Option<bool>, snap: Option<RigCheckResult>) -> (tick:
        RigTick)
        requires
            old(self).wf(now),
        ensures
            final(self).uri@ == old(self).uri@,
            final(self).critical_temp == old(self).critical_temp,
            (final(self).state, tick.action) == spec_rig_step(
                old(self).state,
                now,
                led,
                spec_snap_health(snap, old(self).critical_temp as int),
            ),
            final(self).wf(now),
            match snap {
                Some(c) => if spec_wants(old(self).state, now, led) {
                    final(self).hostname@ == c.hostname@
                } else {
                    final(self).hostname@ == old(self).hostname@
                },
                None => final(self).hostname@ == old(self).hostname@,
            },
            match snap {
                Some(c) => if spec_wants(old(self).state, now, led) {
                    tick.result matches Some(rc) && rc.hostname@ == c.hostname@ && rc.temp@
                        == c.temp@ && rc.service == c.service && rc.hw_errors == c.hw_errors
                        && rc.led_on == led
                } else {
                    tick.result is None
                },
                None => tick.result is None,
            },
    {
        let l: bool;
        match led {
            None => {
                return RigTick { action: RigAction::Nothing, result: None };
            },
            Some(b) => {
                l = b;
            },
        }
        if !l {
            let is_off = match self.state {
                RigState::Off(_) => true,
                _ => false,
            };
            if !is_off {
                self.state = RigState::Off(now);
                return RigTick { action: RigAction::SetLow, result: None };
            }
        } else {
            match self.state {
                RigState::Off(_) => {
                    self.state = RigState::Boot(now);
                },
                _ => {},
            }
        }
        let wants: bool = match self.state {
            RigState::On => true,
            RigState::OnErr(_) => true,
            RigState::Boot(t) => now - t > BOOT_WAIT_MS,
            _ => false,
        };
        let h: Option<Health> = if wants {
            match &snap {
                Some(c) => Some(classify(c, self.critical_temp)),
                None => None,
            }
        } else {
            None
        };
        let mut action = RigAction::Nothing;
        match self.state {
            RigState::On => match h {
                Some(Health::Healthy) => {},
                Some(Health::Degraded) => {
                    self.state = RigState::OnErr(now);
                },
                Some(Health::Critical) => {
                    self.state = RigState::PowOff(now);
                    action = RigAction::ShortClick;
                },
                None => {
                    self.state = RigState::OnErr(now);
                },
            },
            RigState::OnErr(t) => match h {
                Some(Health::Healthy) => {
                    self.state = RigState::On;
                },
                Some(Health::Degraded) => {},
                Some(Health::Critical) => {
                    self.state = RigState::PowOff(now);
                    action = RigAction::ShortClick;
                },
                None => {
                    if now - t > ERR_RESOLVE_WAIT_MS {
                        self.state = RigState::PowOff(now);
                        action = RigAction::ShortClick;
                    }
                },
            },
            RigState::Boot(t) => {
                if now - t > BOOT_WAIT_MS {
                    match h {
                        Some(Health::Healthy) => {
                            self.state = RigState::On;
                        },
                        Some(Health::Degraded) => {
                            self.state = RigState::OnErr(now);
                        },
                        Some(Health::Critical) => {
                            self.state = RigState::PowOff(now);
                            action = RigAction::ShortClick;
                        },
                        None => {
                            self.state = RigState::OnErr(now);
                        },
                    }
                }
            },
            RigState::PowOff(t) => {
                if now - t > POWER_OFF_WAIT_MS {
                    self.state = RigState::PowOffHard(now);
                    action = RigAction::LongPress;
                }
            },
            RigState::PowOffHard(t) => {
                if now - t > POWER_OFF_HARD_MAX_MS {
                    self.state = RigState::Boot(now);
                    action = RigAction::RecoveryClick;
                } else {
                    action = RigAction::AssertHigh;
                }
            },
            RigState::Off(t) => {
                if now - t > POWER_OFF_MS {
                    self.state = RigState::Boot(now);
                    action = RigAction::ShortClick;
                }
            },
        }
        let result: Option<RigCheckResult>;
        if wants {
            match snap {
                Some(mut c) => {
                    self.hostname = c.hostname.clone();
                    c.led_on = led;
                    result = Some(c);
                },
                None => {
                    result = None;
                },
            }
        } else {
            result = None;
        }
        RigTick { action, result }
    }
}

/// The switch-line plan of each action.  A short click powers on or asks
/// for a soft off; the long press forces a PSU-level off and rests before
/// the LED is read back; the recovery click rests low and then clicks after
/// a hard off was abandoned.
pub open spec fn spec_press_plan(a: RigAction) -> Seq<PressStep> {
    match a {
        RigAction::Nothing => Seq::empty(),
        RigAction::ShortClick => seq![
            PressStep { high: true, hold_ms: SHORT_CLICK_HOLD_MS },
            PressStep { high: false, hold_ms: 0 },
        ],
        RigAction::LongPress => seq![
            PressStep { high: true, hold_ms: LONG_PRESS_HOLD_MS },
            PressStep { high: false, hold_ms: HARD_OFF_CONFIRM_MS },
        ],
        RigAction::AssertHigh => seq![PressStep { high: true, hold_ms: 0 }],
        RigAction::SetLow => seq![PressStep { high: false, hold_ms: 0 }],
        RigAction::RecoveryClick => seq![
            PressStep { high: false, hold_ms: RECOVERY_REST_MS },
            PressStep { high: true, hold_ms: SHORT_CLICK_HOLD_MS },
            PressStep { high: false, hold_ms: 0 },
        ],
    }
}

/// The steps the switch line performs for an action, in order; the
/// surrounding binary sets the level and sleeps the hold after each step.
pub fn press_plan(a: &RigAction) -> (steps: Vec<PressStep>)
    ensures
        steps@ == spec_press_plan(*a),
{
    let mut v: Vec<PressStep> = Vec::new();
    match a {
        RigAction::Nothing => {},
        RigAction::ShortClick => {
            v.push(PressStep { high: true, hold_ms: SHORT_CLICK_HOLD_MS });
            v.push(PressStep { high: false, hold_ms: 0 });
        },
        RigAction::LongPress => {
            v.push(PressStep { high: true, hold_ms: LONG_PRESS_HOLD_MS });
            v.push(PressStep { high: false, hold_ms: HARD_OFF_CONFIRM_MS });
        },
        RigAction::AssertHigh => {
            v.push(PressStep { high: true, hold_ms: 0 });
        },
        RigAction::SetLow => {
            v.push(PressStep { high: false, hold_ms: 0 });
        },
        RigAction::RecoveryClick => {
            v.push(PressStep { high: false, hold_ms: RECOVERY_REST_MS });
            v.push(PressStep { high: true, hold_ms: SHORT_CLICK_HOLD_MS });
            v.push(PressStep { high: false, hold_ms: 0 });
        },
    }
    proof {
        assert(v@ =~= spec_press_plan(*a));
    }
    v
}

/// The edges of the transition table, reconciliation included: a pair of
/// states may only follow each other as the table allows, and a timestamp
/// is refreshed exactly on state change.
pub open spec fn spec_rig_edge(pre: RigState, post: RigState, now: u64) -> bool {
    match (pre, post) {
        (RigState::On, RigState::On) => true,
        (RigState::On, RigState::OnErr(u)) => u == now,
        (RigState::On, RigState::PowOff(u)) => u == now,
        (RigState::On, RigState::Off(u)) => u == now,
        (RigState::OnErr(t), RigState::OnErr(u)) => u == t,
        (RigState::OnErr(_), RigState::On) => true,
        (RigState::OnErr(_), RigState::PowOff(u)) => u == now,
        (RigState::OnErr(_), RigState::Off(u)) => u == now,
        (RigState::Boot(t), RigState::Boot(u)) => u == t,
        (RigState::Boot(_), RigState::On) => true,
        (RigState::Boot(_), RigState::OnErr(u)) => u == now,
        (RigState::Boot(_), RigState::PowOff(u)) => u == now,
        (RigState::Boot(_), RigState::Off(u)) => u == now,
        (RigState::PowOff(t), RigState::PowOff(u)) => u == t,
        (RigState::PowOff(_), RigState::PowOffHard(u)) => u == now,
        (RigState::PowOff(_), RigState::Off(u)) => u == now,
        (RigState::PowOffHard(t), RigState::PowOffHard(u)) => u == t,
        (RigState::PowOffHard(_), RigState::Off(u)) => u == now,
        (RigState::PowOffHard(_), RigState::Boot(u)) => u == now,
        (RigState::Off(t), RigState::Off(u)) => u == t,
        (RigState::Off(_), RigState::Boot(u)) => u == now,
        _ => false,
    }
}

/// Every tick follows an edge of the transition table: whatever the LED,
/// the snapshot and the clock say, the machine never jumps between states
/// the table does not connect.
pub proof fn lemma_rig_edges(pre: RigState, now: u64, led: Option<bool>, h: Option<Health>)
    ensures
        spec_rig_edge(pre, spec_rig_step(pre, now, led, h).0, now),
{
}

/// A snapshot reporting hardware errors forces an immediate soft power-off:
/// from the on, degraded, or boot-deadline-passed states, with the rig
/// drawing power, the next state is the power-off state entered now, and
/// the short click is issued.
pub proof fn lemma_hw_errors_force_pow_off(
    pre: RigState,
    now: u64,
    c: RigCheckResult,
    critical: int,
)
    requires
        c.hw_errors,
        match pre {
            RigState::On => true,
            RigState::OnErr(_) => true,
            RigState::Boot(t) => now - t > BOOT_WAIT_MS,
            _ => false,
        },
    ensures
        spec_rig_step(pre, now, Some(true), spec_snap_health(Some(c), critical)) == (
            RigState::PowOff(now),
            RigAction::ShortClick,
        ),
{
}

/// Every button-press sequence ends with the switch line low.  The hold
/// retry is the one action that is no complete press: it re-asserts an
/// ongoing long press and occurs only while the machine stays in the
/// hard-off state.
pub proof fn lemma_press_ends_low(a: RigAction)
    requires
        a != RigAction::AssertHigh,
        a != RigAction::Nothing,
    ensures
        spec_press_plan(a).len() > 0,
        !spec_press_plan(a).last().high,
{
}

/// The hold retry never moves the machine, and leaving the hard-off state
/// always performs a plan that releases the line: the hard press, however
/// long it was held, ends low.
pub proof fn lemma_hard_off_release(pre: RigState, now: u64, led: Option<bool>, h: Option<Health>)
    ensures
        ({
            let (post, act) = spec_rig_step(pre, now, led, h);
            &&& (act == RigAction::AssertHigh ==> post == pre && pre matches RigState::PowOffHard(
                _,
            ))
            &&& ((pre matches RigState::PowOffHard(_) && !(post matches RigState::PowOffHard(_)))
                ==> spec_press_plan(act).len() > 0 && !spec_press_plan(act).last().high)
        }),
{
    let (post, act) = spec_rig_step(pre, now, led, h);
    if pre matches RigState::PowOffHard(_) && !(post matches RigState::PowOffHard(_)) {
        assert(act == RigAction::SetLow || act == RigAction::RecoveryClick);
        assert(spec_press_plan(RigAction::SetLow).len() > 0);
        assert(!spec_press_plan(RigAction::SetLow).last().high);
        assert(spec_press_plan(RigAction::RecoveryClick).len() > 0);
        assert(!spec_press_plan(RigAction::RecoveryClick).last().high);
    }
}

/// The one-line summary the supervisor logs for a consumed snapshot.
pub open spec fn spec_show_rig_check(c: RigCheckResult) -> Seq<char> {
    c.hostname@ + " led_on:"@ + crate::wire::spec_fmt_bool(
        match c.led_on {
            Some(b) => b,
            None => false,
        },
    ) + " service:"@ + crate::wire::spec_fmt_bool(c.service) + " errors:"@
        + crate::wire::spec_fmt_bool(c.hw_errors) + " temps:["@ + crate::wire::spec_fmt_int_list(
        c.temp@.map_values(|v: isize| v as int),
    ) + "]"@
}

/// Render the log line for a consumed snapshot: hostname, the LED level,
/// the two flags, and the temperature vector.
pub fn show_rig_check(check: &RigCheckResult) -> (r: String)
    ensures
        r@ == spec_show_rig_check(*check),
{
    let mut out = String::new();
    out.append(check.hostname.as_str());
    out.append(" led_on:");
    let led = match check.led_on {
        Some(b) => b,
        None => false,
    };
    if led {
        out.append("true");
    } else {
        out.append("false");
    }
    out.append(" service:");
    if check.service {
        out.append("true");
    } else {
        out.append("false");
    }
    out.append(" errors:");
    if check.hw_errors {
        out.append("true");
    } else {
        out.append("false");
    }
    out.append(" temps:[");
    let ghost base = out@;
    let ghost m = check.temp@.map_values(|v: isize| v as int);
    let mut i: usize = 0;
    while i < check.temp.len()
        invariant
            0 <= i <= check.temp@.len(),
            m == check.temp@.map_values(|v: isize| v as int),
            out@ == base + crate::wire::spec_fmt_int_list(m.take(i as int)),
        decreases check.temp@.len() - i,
    {
        proof {
            assert(m.take(i + 1int).drop_last() =~= m.take(i as int));
            assert(m.take(i + 1int).last() == check.temp@.index(i as int) as int);
        }
        if i > 0 {
            out.append(", ");
        }
        let d = crate::num::fmt_i64(check.temp[i] as i64);
        out.append(d.as_str());
        proof {
            if i == 0 {
                assert(crate::wire::spec_fmt_int_list(m.take(1)) == crate::num::spec_fmt_int(
                    m.index(0),
                ));
                assert(out@ =~= base + crate::wire::spec_fmt_int_list(m.take(i + 1int)));
            } else {
                assert(out@ =~= base + crate::wire::spec_fmt_int_list(m.take(i + 1int)));
            }
        }
        i = i + 1;
    }
    proof {
        assert(m.take(m.len() as int) =~= m);
    }
    out.append("]");
    proof {
        assert(out@ =~= spec_show_rig_check(*check));
    }
    out
}

/// Widen an agent wire record into the supervisor's snapshot form, marking
/// the LED level observed this tick.
pub fn rig_check_from_wire(c: crate::agent::CheckResult, led_on: Option<bool>) -> (r:
    RigCheckResult)
    ensures
        r.hostname@ == c.hostname@,
        r.temp@.map_values(|v: isize| v as int) == c.temp@.map_values(|v: i32| v as int),
        r.service == c.service,
        r.hw_errors == c.hw_errors,
        r.led_on == led_on,
{
    let mut temp: Vec<isize> = Vec::new();
    let mut k: usize = 0;
    while k < c.temp.len()
        invariant
            0 <= k <= c.temp@.len(),
            temp@.len() == k,
            forall|i: int| 0 <= i < k ==> #[trigger] temp@.index(i) as int == c.temp@.index(
                i,
            ) as int,
        decreases c.temp@.len() - k,
    {
        temp.push(c.temp[k] as isize);
        k = k + 1;
    }
    proof {
        assert(temp@.map_values(|v: isize| v as int) =~= c.temp@.map_values(|v: i32| v as int));
    }
    RigCheckResult {
        hostname: c.hostname,
        temp,
        service: c.service,
        hw_errors: c.hw_errors,
        led_on,
    }
}

} // verus!
