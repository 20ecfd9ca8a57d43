//! Ventilation relay control: hysteresis over the maximum of the subscribed
//! ambient readings and the maximum GPU temperature of the tick.
//!
//! The relay turns on when either heat source reaches its on threshold, and
//! turns off only when both are at or below their off thresholds; between
//! the thresholds the relay keeps its state.  The surrounding binary owns
//! the GPIO line and writes the returned state to it after every call.

use vstd::prelude::*;
use crate::config::VentCfg;
use crate::strutil::str_eq;

verus! {

/// Ambient sentinel when no subscribed sensor delivered a reading.
pub const NO_READING: isize = -100;

/// `id` stands among the subscription names.
pub open spec fn spec_contains_id(subs: Seq<Seq<char>>, id: Seq<char>) -> bool {
    exists|k: int| 0 <= k < subs.len() && subs.index(k) == id
}

/// Registry positions of the sensors a vent subscribes to, in registry
/// order.
pub open spec fn spec_subscribed(ids: Seq<Seq<char>>, subs: Seq<Seq<char>>) -> Seq<int>
    decreases ids.len(),
{
    if ids.len() == 0 {
        Seq::empty()
    } else {
        let prev = spec_subscribed(ids.drop_last(), subs);
        if spec_contains_id(subs, ids.last()) {
            prev.push(ids.len() - 1)
        } else {
            prev
        }
    }
}

/// Maximum of the readings the vent subscribes to, or the sentinel when
/// none of them delivered; positions outside the reading vector count as
/// no reading.
pub open spec fn spec_tmax(temps: Seq<Option<isize>>, idxs: Seq<usize>) -> int
    decreases idxs.len(),
{
    if idxs.len() == 0 {
        NO_READING as int
    } else {
        let prev = spec_tmax(temps, idxs.drop_last());
        let j = idxs.last() as int;
        if 0 <= j < temps.len() {
            match temps.index(j) {
                Some(t) => if t as int > prev {
                    t as int
                } else {
                    prev
                },
                None => prev,
            }
        } else {
            prev
        }
    }
}

/// Maximum GPU temperature of the tick, or the sentinel for an empty
/// vector.
pub open spec fn spec_gmax(ts: Seq<isize>) -> int
    decreases ts.len(),
{
    if ts.len() == 0 {
        NO_READING as int
    } else {
        let prev = spec_gmax(ts.drop_last());
        if ts.last() as int > prev {
            ts.last() as int
        } else {
            prev
        }
    }
}

/// The hysteresis rule: on when either source reaches its on threshold,
/// off only when both are at or below their off thresholds, otherwise
/// unchanged.  The on condition is checked first and shadows the off
/// condition, so one tick moves the relay at most once.
pub open spec fn spec_vent_next(
    relay: bool,
    tmax: int,
    gmax: int,
    s_on: int,
    s_off: int,
    r_on: int,
    r_off: int,
) -> bool {
    if tmax >= s_on || gmax >= r_on {
        true
    } else if tmax <= s_off && gmax <= r_off {
        false
    } else {
        relay
    }
}

pub struct Vent {
    pub cfg: VentCfg,
    pub gpio_high: bool,
    pub sensor_idx: Vec<usize>,
}

fn contains_id(subs: &Vec<String>, id: &String) -> (r: bool)
    ensures
        r == spec_contains_id(subs.deep_view(), id@),
{
    let mut k: usize = 0;
    while k < subs.len()
        invariant
            0 <= k <= subs.len(),
            forall|m: int| 0 <= m < k ==> subs.deep_view().index(m) != id@,
        decreases subs.len() - k,
    {
        if str_eq(subs[k].as_str(), id.as_str()) {
            proof {
                assert(subs.deep_view().index(k as int) == id@);
            }
            return true;
        }
        k = k + 1;
    }
    false
}

fn clone_strings(v: &Vec<String>) -> (r: Vec<String>)
    ensures
        r@ == v@,
{
    let mut out: Vec<String> = Vec::new();
    let mut k: usize = 0;
    while k < v.len()
        invariant
            0 <= k <= v.len(),
            out@ == v@.take(k as int),
        decreases v.len() - k,
    {
        out.push(v[k].clone());
        proof {
            assert(v@.take(k + 1int).drop_last() =~= v@.take(k as int));
            assert(out@ =~= v@.take(k + 1int));
        }
        k = k + 1;
    }
    proof {
        assert(v@.take(v@.len() as int) =~= v@);
    }
    out
}

impl Vent {
    /// Build a vent from its configuration and the registry's sensor
    /// identifiers: the relay starts off and the subscription positions are
    /// resolved once, in registry order.
    pub fn new(cfg: &VentCfg, sensor_ids: &Vec<String>) -> (v: Vent)
        ensures
            v.gpio_high == false,
            v.cfg.sensors@ == cfg.sensors@,
            v.cfg.sensors_temp_on == cfg.sensors_temp_on,
            v.cfg.sensors_temp_off == cfg.sensors_temp_off,
            v.cfg.rig_temp_on == cfg.rig_temp_on,
            v.cfg.rig_temp_off == cfg.rig_temp_off,
            v.cfg.gpio == cfg.gpio,
            v.sensor_idx@.map_values(|u: usize| u as int) == spec_subscribed(
                sensor_ids.deep_view(),
                cfg.sensors.deep_view(),
            ),
    {
        let mut idxs: Vec<usize> = Vec::new();
        let mut i: usize = 0;
        while i < sensor_ids.len()
            invariant
                0 <= i <= sensor_ids.len(),
                idxs@.map_values(|u: usize| u as int) == spec_subscribed(
                    sensor_ids.deep_view().take(i as int),
                    cfg.sensors.deep_view(),
                ),
            decreases sensor_ids.len() - i,
        {
            let ghost dv = sensor_ids.deep_view();
            proof {
                assert(dv.take(i + 1int).drop_last() =~= dv.take(i as int));
                assert(dv.take(i + 1int).last() == dv.index(i as int));
                assert(dv.index(i as int) == sensor_ids@.index(i as int)@);
            }
            if contains_id(&cfg.sensors, &sensor_ids[i]) {
                idxs.push(i);
                proof {
                    assert(idxs@.map_values(|u: usize| u as int) =~= spec_subscribed(
                        dv.take(i + 1int),
                        cfg.sensors.deep_view(),
                    ));
                }
            } else {
                proof {
                    assert(idxs@.map_values(|u: usize| u as int) =~= spec_subscribed(
                        dv.take(i + 1int),
                        cfg.sensors.deep_view(),
                    ));
                }
            }
            i = i + 1;
        }
        proof {
            assert(sensor_ids.deep_view().take(sensor_ids.deep_view().len() as int)
                =~= sensor_ids.deep_view());
        }
        Vent {
            cfg: VentCfg {
                sensors: clone_strings(&cfg.sensors),
                sensors_temp_on: cfg.sensors_temp_on,
                sensors_temp_off: cfg.sensors_temp_off,
                rig_temp_on: cfg.rig_temp_on,
                rig_temp_off: cfg.rig_temp_off,
                gpio: cfg.gpio,
            },
            gpio_high: false,
            sensor_idx: idxs,
        }
    }

    /// One tick: fuse the subscribed ambient readings and the GPU
    /// temperatures, apply the hysteresis rule, and report the relay state
    /// the physical line must now carry.
    pub fn handle(&mut self, sensor_temps: &Vec<Option<isize>>, gpus_temp: &Vec<isize>) -> (on:
        bool)
        ensures
            final(self).gpio_high == spec_vent_next(
                old(self).gpio_high,
                spec_tmax(sensor_temps@, old(self).sensor_idx@),
                spec_gmax(gpus_temp@),
                old(self).cfg.sensors_temp_on as int,
                old(self).cfg.sensors_temp_off as int,
                old(self).cfg.rig_temp_on as int,
                old(self).cfg.rig_temp_off as int,
            ),
            on == final(self).gpio_high,
            final(self).cfg == old(self).cfg,
            final(self).sensor_idx == old(self).sensor_idx,
    {
        let mut tmax: isize = NO_READING;
        let mut k: usize = 0;
        while k < self.sensor_idx.len()
            invariant
                0 <= k <= self.sensor_idx.len(),
                tmax as int == spec_tmax(sensor_temps@, self.sensor_idx@.take(k as int)),
            decreases self.sensor_idx.len() - k,
        {
            proof {
                assert(self.sensor_idx@.take(k + 1int).drop_last() =~= self.sensor_idx@.take(
                    k as int,
                ));
                assert(self.sensor_idx@.take(k + 1int).last() == self.sensor_idx@.index(k as int));
            }
            let j = self.sensor_idx[k];
            if j < sensor_temps.len() {
                match sensor_temps[j] {
                    Some(t) => if t > tmax {
                        tmax = t;
                    },
                    None => {},
                }
            }
            k = k + 1;
        }
        proof {
            assert(self.sensor_idx@.take(self.sensor_idx@.len() as int) =~= self.sensor_idx@);
        }
        let mut gmax: isize = NO_READING;
        let mut g: usize = 0;
        while g < gpus_temp.len()
            invariant
                0 <= g <= gpus_temp.len(),
                gmax as int == spec_gmax(gpus_temp@.take(g as int)),
            decreases gpus_temp.len() - g,
        {
            proof {
                assert(gpus_temp@.take(g + 1int).drop_last() =~= gpus_temp@.take(g as int));
                assert(gpus_temp@.take(g + 1int).last() == gpus_temp@.index(g as int));
            }
            if gpus_temp[g] > gmax {
                gmax = gpus_temp[g];
            }
            g = g + 1;
        }
        proof {
            assert(gpus_temp@.take(gpus_temp@.len() as int) =~= gpus_temp@);
        }
        if tmax >= self.cfg.sensors_temp_on || gmax >= self.cfg.rig_temp_on {
            self.gpio_high = true;
        } else if tmax <= self.cfg.sensors_temp_off && gmax <= self.cfg.rig_temp_off {
            self.gpio_high = false;
        }
        self.gpio_high
    }
}

/// With the off thresholds strictly below the on thresholds, the relay
/// moves at most once on a tick — the rule is one decision between three
/// outcomes — and a constant input settles it within one tick: a second
/// tick on the same input repeats the first tick's answer.
pub proof fn lemma_vent_settles(
    relay: bool,
    tmax: int,
    gmax: int,
    s_on: int,
    s_off: int,
    r_on: int,
    r_off: int,
)
    requires
        s_off < s_on,
        r_off < r_on,
    ensures
        spec_vent_next(
            spec_vent_next(relay, tmax, gmax, s_on, s_off, r_on, r_off),
            tmax,
            gmax,
            s_on,
            s_off,
            r_on,
            r_off,
        ) == spec_vent_next(relay, tmax, gmax, s_on, s_off, r_on, r_off),
{
}

} // verus!
