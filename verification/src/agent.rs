//! Agent-side health snapshot assembly.
//!
//! The agent binary gathers raw material — the hostname utility's output,
//! GPU temperature probe outputs, the service manager's state, the service
//! log tail — and this module turns it into the wire record: which readings
//! count, what the hardware-error heuristic says, and how probe output text
//! is read.

use vstd::prelude::*;
use vstd::string::StrSliceExecFns;
use vstd::string::StringSliceAdditionalSpecFns;
use crate::strutil::{contains_bytes, is_sub_bytes, spec_trim, str_eq, trim_str};
use crate::num::{spec_parse_int, parse_int};

verus! {

/// Agent configuration: the managed service's name and the expected GPU
/// count (zero disables the count check).
#[derive(Debug)]
pub struct Config {
    pub service: String,
    pub gpus: usize,
}

/// The health snapshot the agent serves: hostname, one temperature per
/// detected GPU in discovery order, whether the service is active, and
/// whether the hardware-error heuristic fired.
#[derive(Debug)]
pub struct CheckResult {
    pub hostname: String,
    pub temp: Vec<i32>,
    pub service: bool,
    pub hw_errors: bool,
}

/// Mathematical shape of a snapshot.
#[verifier::ext_equal]
pub ghost struct CheckV {
    pub hostname: Seq<char>,
    pub temp: Seq<int>,
    pub service: bool,
    pub hw_errors: bool,
}

impl View for CheckResult {
    type V = CheckV;

    open spec fn view(&self) -> CheckV {
        CheckV {
            hostname: self.hostname@,
            temp: self.temp@.map_values(|v: i32| v as int),
            service: self.service,
            hw_errors: self.hw_errors,
        }
    }
}

/// The log substrings that indicate a hardware fault.
pub open spec fn spec_hw_patterns() -> Seq<Seq<u8>> {
    seq![
        "WATCHDOG: GPU error".spec_bytes(),
        "hangs in OpenCL call, exit".spec_bytes(),
        "GpuMiner kx failed".spec_bytes(),
        "cannot get current temperature, error".spec_bytes(),
        "are stopped. Restart attemp".spec_bytes(),
        "Thread exited with code".spec_bytes(),
        "Miner thread hangs".spec_bytes(),
        "need to restart miner!".spec_bytes(),
    ]
}

/// The hardware-error heuristic: a configured GPU count that the readings
/// miss, or any fault pattern in the service log tail.
pub open spec fn spec_hw_errors(gpus: int, temp_count: int, logs: &str) -> bool {
    (gpus > 0 && temp_count != gpus) || (logs.spec_bytes().len() > 0 && exists|k: int|
        0 <= k < spec_hw_patterns().len() && is_sub_bytes(
            logs.spec_bytes(),
            #[trigger] spec_hw_patterns().index(k),
        ))
}

/// Decide the `hw_errors` flag from the expected GPU count, the number of
/// temperature readings gathered, and the service log tail.
pub fn check_hw_errors(cfg: &Config, temp_readings_count: usize, logs: &str) -> (r: bool)
    ensures
        r == spec_hw_errors(cfg.gpus as int, temp_readings_count as int, logs),
{
    if cfg.gpus > 0 && temp_readings_count != cfg.gpus {
        return true;
    }
    let lb = logs.as_bytes();
    if lb.len() == 0 {
        return false;
    }
    let c0 = contains_bytes(lb, "WATCHDOG: GPU error".as_bytes());
    let c1 = contains_bytes(lb, "hangs in OpenCL call, exit".as_bytes());
    let c2 = contains_bytes(lb, "GpuMiner kx failed".as_bytes());
    let c3 = contains_bytes(lb, "cannot get current temperature, error".as_bytes());
    let c4 = contains_bytes(lb, "are stopped. Restart attemp".as_bytes());
    let c5 = contains_bytes(lb, "Thread exited with code".as_bytes());
    let c6 = contains_bytes(lb, "Miner thread hangs".as_bytes());
    let c7 = contains_bytes(lb, "need to restart miner!".as_bytes());
    let found = c0 || c1 || c2 || c3 || c4 || c5 || c6 || c7;
    proof {
        if found {
            assert(exists|k: int|
                0 <= k < spec_hw_patterns().len() && is_sub_bytes(
                    logs.spec_bytes(),
                    #[trigger] spec_hw_patterns().index(k),
                )) by {
                if c0 {
                    assert(is_sub_bytes(logs.spec_bytes(), spec_hw_patterns().index(0)));
                } else if c1 {
                    assert(is_sub_bytes(logs.spec_bytes(), spec_hw_patterns().index(1)));
                } else if c2 {
                    assert(is_sub_bytes(logs.spec_bytes(), spec_hw_patterns().index(2)));
                } else if c3 {
                    assert(is_sub_bytes(logs.spec_bytes(), spec_hw_patterns().index(3)));
                } else if c4 {
                    assert(is_sub_bytes(logs.spec_bytes(), spec_hw_patterns().index(4)));
                } else if c5 {
                    assert(is_sub_bytes(logs.spec_bytes(), spec_hw_patterns().index(5)));
                } else if c6 {
                    assert(is_sub_bytes(logs.spec_bytes(), spec_hw_patterns().index(6)));
                } else {
                    assert(is_sub_bytes(logs.spec_bytes(), spec_hw_patterns().index(7)));
                }
            }
        } else {
            assert forall|k: int|
                0 <= k < spec_hw_patterns().len() implies !is_sub_bytes(
                logs.spec_bytes(),
                #[trigger] spec_hw_patterns().index(k),
            ) by {
                if k == 0 {
                    assert(!is_sub_bytes(logs.spec_bytes(), spec_hw_patterns().index(0)));
                } else if k == 1 {
                    assert(!is_sub_bytes(logs.spec_bytes(), spec_hw_patterns().index(1)));
                } else if k == 2 {
                    assert(!is_sub_bytes(logs.spec_bytes(), spec_hw_patterns().index(2)));
                } else if k == 3 {
                    assert(!is_sub_bytes(logs.spec_bytes(), spec_hw_patterns().index(3)));
                } else if k == 4 {
                    assert(!is_sub_bytes(logs.spec_bytes(), spec_hw_patterns().index(4)));
                } else if k == 5 {
                    assert(!is_sub_bytes(logs.spec_bytes(), spec_hw_patterns().index(5)));
                } else if k == 6 {
                    assert(!is_sub_bytes(logs.spec_bytes(), spec_hw_patterns().index(6)));
                } else {
                    assert(!is_sub_bytes(logs.spec_bytes(), spec_hw_patterns().index(7)));
                }
            }
        }
    }
    found
}

/// Assemble the snapshot from the gathered probe results.  The caller
/// passes the hostname, the temperature readings in discovery order,
/// the service-active flag and the service log tail; the hardware-error
/// flag is computed here.
pub fn check_all(cfg: &Config, hostname: String, temps: Vec<i32>, service: bool, logs: &str) -> (r:
    CheckResult)
    ensures
        r.hostname@ == hostname@,
        r.temp@ == temps@,
        r.service == service,
        r.hw_errors == spec_hw_errors(cfg.gpus as int, temps@.len() as int, logs),
{
    let hw = check_hw_errors(cfg, temps.len(), logs);
    CheckResult { hostname, temp: temps, service, hw_errors: hw }
}

/// All GPU temperatures: the AMD readings first, the NVIDIA readings after.
pub fn check_temp(amd: Vec<i32>, nv: Vec<i32>) -> (r: Vec<i32>)
    ensures
        r@ == amd@ + nv@,
{
    let mut res = amd;
    let ghost amd0 = res@;
    let mut i: usize = 0;
    while i < nv.len()
        invariant
            0 <= i <= nv.len(),
            res@ == amd0 + nv@.take(i as int),
        decreases nv.len() - i,
    {
        res.push(nv[i]);
        proof {
            assert(nv@.take(i + 1int).drop_last() =~= nv@.take(i as int));
            assert(amd0 + nv@.take(i + 1int) =~= (amd0 + nv@.take(i as int)).push(nv@.index(
                i as int,
            )));
        }
        i = i + 1;
    }
    proof {
        assert(nv@.take(nv@.len() as int) =~= nv@);
    }
    res
}

/// The successfully probed values of `rs`, in order.
pub open spec fn spec_somes(rs: Seq<Option<i32>>) -> Seq<i32>
    decreases rs.len(),
{
    if rs.len() == 0 {
        Seq::empty()
    } else {
        spec_somes(rs.drop_last()) + (match rs.last() {
            Some(v) => seq![v],
            None => Seq::empty(),
        })
    }
}

/// Keep the NVIDIA probe readings that parsed, in GPU order.
pub fn check_nw_temp(readings: &Vec<Option<i32>>) -> (r: Vec<i32>)
    ensures
        r@ == spec_somes(readings@),
{
    let mut res: Vec<i32> = Vec::new();
    let mut i: usize = 0;
    while i < readings.len()
        invariant
            0 <= i <= readings.len(),
            res@ == spec_somes(readings@.take(i as int)),
        decreases readings.len() - i,
    {
        proof {
            assert(readings@.take(i + 1int).drop_last() =~= readings@.take(i as int));
            assert(readings@.take(i + 1int).last() == readings@.index(i as int));
        }
        match readings[i] {
            Some(v) => {
                res.push(v);
                proof {
                    assert(spec_somes(readings@.take(i + 1int)) =~= spec_somes(
                        readings@.take(i as int),
                    ).push(v));
                }
            },
            None => {
                proof {
                    assert(spec_somes(readings@.take(i + 1int)) =~= spec_somes(
                        readings@.take(i as int),
                    ));
                }
            },
        }
        i = i + 1;
    }
    proof {
        assert(readings@.take(readings@.len() as int) =~= readings@);
    }
    res
}

/// A probe line parsed as a whole trimmed decimal integer.
pub open spec fn spec_parse_celsius(t: Seq<char>) -> Option<int> {
    let u = spec_trim(t);
    match spec_parse_int(u, 0) {
        Some((v, j)) => if j == u.len() {
            Some(v)
        } else {
            None
        },
        None => None,
    }
}

/// Read one probe output line as a temperature in whole degrees Celsius.
pub fn parse_celsius(s: &str) -> (r: Option<i32>)
    ensures
        match spec_parse_celsius(s@) {
            Some(v) => r matches Some(rv) && rv as int == v,
            None => r is None,
        },
{
    let u = trim_str(s);
    match parse_int(u, 0) {
        Some((v, j)) => if j == u.unicode_len() {
            Some(v as i32)
        } else {
            None
        },
        None => None,
    }
}

/// Truncating division by 1000, as integer division of a reading in
/// milli-degrees behaves.
pub open spec fn spec_milli_to_celsius(v: int) -> int {
    if v >= 0 {
        v / 1000
    } else {
        -((-v) / 1000)
    }
}

/// Read a `hwmon` reading in milli-degrees Celsius and convert to whole
/// degrees.
pub fn parse_milli_temp(s: &str) -> (r: Option<i32>)
    ensures
        match spec_parse_celsius(s@) {
            Some(v) => r matches Some(rv) && rv as int == spec_milli_to_celsius(v),
            None => r is None,
        },
{
    let u = trim_str(s);
    match parse_int(u, 0) {
        Some((v, j)) => if j == u.unicode_len() {
            if v >= 0 {
                let q = (v as u64) / 1000;
                proof {
                    assert(q <= 0x7FFF_FFFF);
                }
                Some(q as i32)
            } else {
                let m = (-v) as u64;
                let q = m / 1000;
                proof {
                    assert(q <= 0x7FFF_FFFF);
                }
                Some(-(q as i32))
            }
        } else {
            None
        },
        None => None,
    }
}

/// The service counts as active exactly when the service manager's trimmed
/// answer is the word `active`.
pub fn is_active_output(s: &str) -> (r: bool)
    ensures
        r == (spec_trim(s@) == "active"@),
{
    let u = trim_str(s);
    str_eq(u, "active")
}

/// The hostname field: the utility's trimmed output, or the fixed
/// placeholder when the lookup failed.
pub fn hostname_from_output(out: Option<&str>) -> (r: String)
    ensures
        match out {
            Some(o) => r@ == spec_trim(o@),
            None => r@ == "undefined"@,
        },
{
    match out {
        Some(o) => {
            let t = trim_str(o);
            t.to_owned()
        },
        None => String::from_str("undefined"),
    }
}

} // verus!
