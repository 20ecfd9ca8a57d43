//! Ambient temperature sensor state: a cached reading with a spike filter.
//!
//! The DHT-type device occasionally reports a transient zero while the real
//! temperature is unchanged.  The filter keeps one cached reading and refuses
//! an exact-zero reading that drops more than five degrees below the cache;
//! every other reading replaces the cache.

use vstd::prelude::*;
use vstd::string::StringExecFns;

verus! {

/// Sentinel below any plausible ambient reading; the first accepted reading
/// always replaces it.
pub const TEMP_SENTINEL: isize = -100;

/// One step of the spike filter: the new cache after a raw reading `t`
/// arrives while `cached` is stored.
pub open spec fn spec_filter_step(cached: int, t: int) -> int {
    if cached - t > 5 && t == 0 {
        cached
    } else {
        t
    }
}

/// Cache values after each reading of `ts` is filtered, starting from `c0`.
pub open spec fn spec_filter_run(c0: int, ts: Seq<int>) -> Seq<int>
    decreases ts.len(),
{
    if ts.len() == 0 {
        Seq::empty()
    } else {
        let prev = spec_filter_run(c0, ts.drop_last());
        let cache = if ts.len() == 1 {
            c0
        } else {
            prev.last()
        };
        prev.push(spec_filter_step(cache, ts.last()))
    }
}

pub struct TSensor {
    pub id: String,
    pub pin: u8,
    pub cached_temp: isize,
}

impl TSensor {
    pub fn new(cfg: &crate::config::TempSensorCfg) -> (s: TSensor)
        ensures
            s.id@ == cfg.id@,
            s.pin == cfg.gpio,
            s.cached_temp == TEMP_SENTINEL,
    {
        TSensor { id: cfg.id.clone(), pin: cfg.gpio, cached_temp: TEMP_SENTINEL }
    }

    pub fn id(&self) -> (r: &String)
        ensures
            r@ == self.id@,
    {
        &self.id
    }

    /// Filter one raw reading: returns the cache after the spike filter ran.
    pub fn check_temperature(&mut self, t: isize) -> (r: isize)
        ensures
            final(self).cached_temp as int == spec_filter_step(
                old(self).cached_temp as int,
                t as int,
            ),
            r == final(self).cached_temp,
            final(self).id@ == old(self).id@,
            final(self).pin == old(self).pin,
    {
        if t == 0 && self.cached_temp as i128 - t as i128 > 5 {
            // Known transient fault mode: hold the cached value.
        } else {
            self.cached_temp = t;
        }
        self.cached_temp
    }
}

/// The periodic temperature report line: each delivered reading followed
/// by its unit, failed reads skipped.
pub open spec fn spec_format_temps(ts: Seq<Option<isize>>) -> Seq<char>
    decreases ts.len(),
{
    if ts.len() == 0 {
        Seq::empty()
    } else {
        spec_format_temps(ts.drop_last()) + (match ts.last() {
            Some(v) => crate::num::spec_fmt_int(v as int) + "C "@,
            None => Seq::<char>::empty(),
        })
    }
}

/// Render the periodic report of the ambient readings.
pub fn format_temperature(temps: &Vec<Option<isize>>) -> (r: String)
    ensures
        r@ == spec_format_temps(temps@),
{
    let mut out = String::new();
    let mut i: usize = 0;
    while i < temps.len()
        invariant
            0 <= i <= temps@.len(),
            out@ == spec_format_temps(temps@.take(i as int)),
        decreases temps@.len() - i,
    {
        proof {
            assert(temps@.take(i + 1int).drop_last() =~= temps@.take(i as int));
            assert(temps@.take(i + 1int).last() == temps@.index(i as int));
        }
        match temps[i] {
            Some(v) => {
                let d = crate::num::fmt_i64(v as i64);
                out.append(d.as_str());
                out.append("C ");
                proof {
                    assert(out@ =~= spec_format_temps(temps@.take(i + 1int)));
                }
            },
            None => {
                proof {
                    assert(out@ =~= spec_format_temps(temps@.take(i + 1int)));
                }
            },
        }
        i = i + 1;
    }
    proof {
        assert(temps@.take(temps@.len() as int) =~= temps@);
    }
    out
}

/// Filtering the same reading twice in a row changes nothing beyond the
/// first application: the step function is idempotent in its reading.
pub proof fn lemma_filter_step_idempotent(cached: int, t: int)
    ensures
        spec_filter_step(spec_filter_step(cached, t), t) == spec_filter_step(cached, t),
{
}

pub proof fn lemma_filter_run_len(c0: int, ts: Seq<int>)
    ensures
        spec_filter_run(c0, ts).len() == ts.len(),
    decreases ts.len(),
{
    if ts.len() > 0 {
        lemma_filter_run_len(c0, ts.drop_last());
    }
}

/// The spike filter is the identity on any reading sequence whose run never
/// meets the fault pattern (cache above five, reading exactly zero): the
/// filtered outputs equal the inputs, so filtering them again is a no-op.
pub proof fn lemma_filter_run_identity(c0: int, ts: Seq<int>)
    requires
        forall|i: int|
            0 <= i < ts.len() ==> !({
                let cache = if i == 0 {
                    c0
                } else {
                    spec_filter_run(c0, ts).index(i - 1)
                };
                cache > 5 && #[trigger] ts.index(i) == 0
            }),
    ensures
        spec_filter_run(c0, ts) =~= ts,
    decreases ts.len(),
{
    lemma_filter_run_len(c0, ts);
    if ts.len() > 0 {
        let prefix = ts.drop_last();
        lemma_filter_run_len(c0, prefix);
        assert forall|i: int|
            0 <= i < prefix.len() implies !({
                let cache = if i == 0 {
                    c0
                } else {
                    spec_filter_run(c0, prefix).index(i - 1)
                };
                cache > 5 && #[trigger] prefix.index(i) == 0
            }) by {
            assert(ts.index(i) == prefix.index(i));
            assert(!({
                let cache = if i == 0 {
                    c0
                } else {
                    spec_filter_run(c0, ts).index(i - 1)
                };
                cache > 5 && ts.index(i) == 0
            }));
            if i > 0 {
                assert(spec_filter_run(c0, ts).index(i - 1) == spec_filter_run(c0, prefix).index(
                    i - 1,
                ));
            }
        }
        lemma_filter_run_identity(c0, prefix);
        let cache = if ts.len() == 1 {
            c0
        } else {
            spec_filter_run(c0, prefix).last()
        };
        let last = ts.last();
        if ts.len() > 1 {
            assert(spec_filter_run(c0, prefix) == prefix);
            assert(cache == spec_filter_run(c0, ts).index(ts.len() - 2));
        }
        assert(!(cache > 5 && ts.index(ts.len() - 1) == 0));
        assert(spec_filter_step(cache, last) == last);
    }
}

} // verus!
