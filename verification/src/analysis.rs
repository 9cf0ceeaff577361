//! Drivers that tie the engines to an hourly wind-power series.
//!
//! All power values are fixed-point integers in thousandths of a gigawatt,
//! and one sample spans one hour, so the same number read as energy is in
//! thousandths of a gigawatt-hour. The overbuild factor is likewise a
//! fixed-point multiplier in thousandths: `FACTOR_SCALE` stands for 1.0.
use vstd::prelude::*;
use vstd::pervasive::unreached;
use crate::ConfigError;
use crate::bisect::{MonotonePredicate, find_using_bisection};
use crate::reservoir::{Storage, run_meets_demand, worst_shortfall,
    lemma_worst_shortfall_take, lemma_feasibility_monotone};
use crate::sums::{sum64, lemma_sum64_first, lemma_sum64_nonneg};
use crate::window::Window;

verus! {

/// The fixed-point unit of the overbuild factor: this many thousandths
/// make a factor of one.
pub const FACTOR_SCALE: i64 = 1000;

/// The largest overbuild factor the search considers (a thousandfold).
pub const FACTOR_MAX: i64 = 1_000_000;

/// The largest power value a series sample may carry (a million
/// gigawatts in thousandths: far above any national fleet).
pub const OUTPUT_MAX: i64 = 1_000_000_000;

/// The largest demand value, on the same scale as the samples.
pub const DEMAND_MAX: i64 = 1_000_000_000;

/// Every sample of the series lies in the supported fixed-point range.
pub open spec fn series_in_range(outputs: Seq<i64>) -> bool {
    forall|i: int| 0 <= i < outputs.len() ==> 0 <= #[trigger] outputs[i] <= OUTPUT_MAX
}

/// The net energy delta of one hour: the output scaled by the overbuild
/// factor, less the demand drawn over the hour.
pub open spec fn scaled_delta(output: int, demand: int, overbuild: int) -> int {
    (output * overbuild) / (FACTOR_SCALE as int) - demand
}

/// The hour-by-hour energy deltas of a whole series.
pub open spec fn spec_deltas(outputs: Seq<i64>, demand: int, overbuild: int) -> Seq<int> {
    Seq::new(outputs.len(), |i: int| scaled_delta(outputs[i] as int, demand, overbuild))
}

/// One hour's net delta, computed in the fixed-point unit.
fn hour_delta(output: i64, demand: i64, overbuild: i64) -> (r: i64)
    requires
        0 <= output <= OUTPUT_MAX,
        0 <= demand <= DEMAND_MAX,
        0 <= overbuild <= FACTOR_MAX,
    ensures
        r == scaled_delta(output as int, demand as int, overbuild as int),
        -DEMAND_MAX <= r <= OUTPUT_MAX as int * FACTOR_MAX as int / FACTOR_SCALE as int,
{
    proof {
        vstd::arithmetic::mul::lemma_mul_upper_bound(
            output as int,
            OUTPUT_MAX as int,
            overbuild as int,
            FACTOR_MAX as int,
        );
        vstd::arithmetic::mul::lemma_mul_nonnegative(output as int, overbuild as int);
    }
    let scaled: u64 = (output as u64) * (overbuild as u64) / (FACTOR_SCALE as u64);
    proof {
        vstd::arithmetic::div_mod::lemma_div_is_ordered(
            output as int * overbuild as int,
            OUTPUT_MAX as int * FACTOR_MAX as int,
            FACTOR_SCALE as int,
        );
        vstd::arithmetic::div_mod::lemma_div_pos_is_pos(
            output as int * overbuild as int,
            FACTOR_SCALE as int,
        );
    }
    scaled as i64 - demand
}

/// Runs one full pass of the reservoir over the series and reports
/// whether every hour's demand was met, stopping at the first hour that
/// was not. The series is read only: each candidate parameter gets a
/// fresh pass over the same data.
pub fn always_meets_demand(
    storage_gwh: i64,
    outputs: &Vec<i64>,
    demand: i64,
    overbuild: i64,
) -> (r: bool)
    requires
        storage_gwh >= 0,
        series_in_range(outputs@),
        0 <= demand <= DEMAND_MAX,
        0 <= overbuild <= FACTOR_MAX,
    ensures
        r == run_meets_demand(
            storage_gwh as int,
            spec_deltas(outputs@, demand as int, overbuild as int),
        ),
{
    let ghost all = spec_deltas(outputs@, demand as int, overbuild as int);
    let mut storage = match Storage::new(storage_gwh) {
        Ok(s) => s,
        Err(_) => unreached(),
    };
    let n = outputs.len();
    let mut i: usize = 0;
    proof {
        assert(all.take(0) =~= Seq::<int>::empty());
    }
    while i < n
        invariant
            storage.wf(),
            storage.cap() == storage_gwh,
            storage_gwh >= 0,
            series_in_range(outputs@),
            0 <= demand <= DEMAND_MAX,
            0 <= overbuild <= FACTOR_MAX,
            n == outputs@.len(),
            i <= n,
            all == spec_deltas(outputs@, demand as int, overbuild as int),
            storage.deltas() == all.take(i as int),
            worst_shortfall(storage.cap(), storage.cap(), all.take(i as int)) == 0,
        decreases n - i,
    {
        let delta = hour_delta(outputs[i], demand, overbuild);
        let met = storage.add(delta, "");
        proof {
            assert(all.take(i as int + 1).drop_last() =~= all.take(i as int));
            assert(all.take(i as int + 1) =~= all.take(i as int).push(all[i as int]));
        }
        if !met {
            proof {
                lemma_worst_shortfall_take(
                    storage_gwh as int,
                    storage_gwh as int,
                    all,
                    i as int + 1,
                );
            }
            return false;
        }
        i = i + 1;
    }
    proof {
        assert(all.take(n as int) =~= all);
    }
    true
}

/// Runs one full pass of the reservoir over the series and reports the
/// worst shortfall any hour saw: the dispatchable backup power that would
/// have been needed to cover every hour.
pub fn find_required_backup(
    storage_gwh: i64,
    outputs: &Vec<i64>,
    dates: &Vec<String>,
    demand: i64,
    overbuild: i64,
) -> (r: i64)
    requires
        storage_gwh >= 0,
        series_in_range(outputs@),
        dates@.len() == outputs@.len(),
        0 <= demand <= DEMAND_MAX,
        0 <= overbuild <= FACTOR_MAX,
    ensures
        r == worst_shortfall(
            storage_gwh as int,
            storage_gwh as int,
            spec_deltas(outputs@, demand as int, overbuild as int),
        ),
{
    let ghost all = spec_deltas(outputs@, demand as int, overbuild as int);
    let mut storage = match Storage::new(storage_gwh) {
        Ok(s) => s,
        Err(_) => unreached(),
    };
    let n = outputs.len();
    let mut i: usize = 0;
    proof {
        assert(all.take(0) =~= Seq::<int>::empty());
    }
    while i < n
        invariant
            storage.wf(),
            storage.cap() == storage_gwh,
            storage_gwh >= 0,
            series_in_range(outputs@),
            0 <= demand <= DEMAND_MAX,
            0 <= overbuild <= FACTOR_MAX,
            n == outputs@.len(),
            dates@.len() == outputs@.len(),
            i <= n,
            all == spec_deltas(outputs@, demand as int, overbuild as int),
            storage.deltas() == all.take(i as int),
        decreases n - i,
    {
        let delta = hour_delta(outputs[i], demand, overbuild);
        storage.add(delta, dates[i].as_str());
        proof {
            assert(all.take(i as int + 1).drop_last() =~= all.take(i as int));
            assert(all.take(i as int + 1) =~= all.take(i as int).push(all[i as int]));
        }
        i = i + 1;
    }
    proof {
        assert(all.take(n as int) =~= all);
    }
    storage.max_shortfall()
}

/// Feasibility of one overbuild factor for a fixed series, demand and
/// storage capacity: does scaling generation by the factor let the
/// reservoir meet every hour?
pub struct OverbuildFeasibility<'a> {
    /// The reservoir capacity simulated.
    pub capacity: i64,
    /// The hourly series the simulation replays.
    pub outputs: &'a Vec<i64>,
    /// The constant demand drawn every hour.
    pub demand: i64,
}

impl<'a> MonotonePredicate for OverbuildFeasibility<'a> {
    open spec fn in_domain(&self, x: int) -> bool {
        &&& self.capacity >= 0
        &&& series_in_range(self.outputs@)
        &&& 0 <= self.demand <= DEMAND_MAX
        &&& 0 <= x <= FACTOR_MAX
    }

    open spec fn holds_at(&self, x: int) -> bool {
        run_meets_demand(self.capacity as int, spec_deltas(self.outputs@, self.demand as int, x))
    }

    proof fn lemma_monotone(&self, x: int, y: int) {
        let dx = spec_deltas(self.outputs@, self.demand as int, x);
        let dy = spec_deltas(self.outputs@, self.demand as int, y);
        assert forall|i: int| 0 <= i < dx.len() implies dx[i] <= dy[i] by {
            vstd::arithmetic::mul::lemma_mul_inequality(x, y, self.outputs@[i] as int);
            vstd::arithmetic::div_mod::lemma_div_is_ordered(
                self.outputs@[i] as int * x,
                self.outputs@[i] as int * y,
                FACTOR_SCALE as int,
            );
        }
        lemma_feasibility_monotone(self.capacity as int, self.capacity as int, dx, dy);
    }

    fn eval(&self, x: i64) -> (r: bool) {
        always_meets_demand(self.capacity, self.outputs, self.demand, x)
    }
}

/// Feasibility of one storage capacity for a fixed series, demand and
/// overbuild factor: does this much storage let the reservoir meet every
/// hour?
pub struct StorageFeasibility<'a> {
    /// The hourly series the simulation replays.
    pub outputs: &'a Vec<i64>,
    /// The constant demand drawn every hour.
    pub demand: i64,
    /// The fixed overbuild factor applied to every sample.
    pub overbuild: i64,
}

impl<'a> MonotonePredicate for StorageFeasibility<'a> {
    open spec fn in_domain(&self, x: int) -> bool {
        &&& series_in_range(self.outputs@)
        &&& 0 <= self.demand <= DEMAND_MAX
        &&& 0 <= self.overbuild <= FACTOR_MAX
        &&& 0 <= x
    }

    open spec fn holds_at(&self, x: int) -> bool {
        run_meets_demand(x, spec_deltas(self.outputs@, self.demand as int, self.overbuild as int))
    }

    proof fn lemma_monotone(&self, x: int, y: int) {
        let d = spec_deltas(self.outputs@, self.demand as int, self.overbuild as int);
        lemma_feasibility_monotone(x, y, d, d);
    }

    fn eval(&self, x: i64) -> (r: bool) {
        always_meets_demand(x, self.outputs, self.demand, self.overbuild)
    }
}

/// Bisects for the overbuild factor that just lets the reservoir meet
/// every hour. The bracket must straddle the boundary: no overbuild at
/// all must fall short, and the largest supported factor must succeed.
pub fn find_required_overbuild(
    storage_gwh: i64,
    outputs: &Vec<i64>,
    demand: i64,
    tolerance: i64,
) -> (r: i64)
    requires
        storage_gwh >= 0,
        series_in_range(outputs@),
        0 <= demand <= DEMAND_MAX,
        1 <= tolerance,
        !run_meets_demand(storage_gwh as int, spec_deltas(outputs@, demand as int, 0)),
        run_meets_demand(
            storage_gwh as int,
            spec_deltas(outputs@, demand as int, FACTOR_MAX as int),
        ),
    ensures
        0 <= r <= FACTOR_MAX,
        forall|x: int| r + tolerance <= x <= FACTOR_MAX
            ==> run_meets_demand(storage_gwh as int, spec_deltas(outputs@, demand as int, x)),
        forall|x: int| 0 <= x <= r - tolerance
            ==> !run_meets_demand(storage_gwh as int, spec_deltas(outputs@, demand as int, x)),
{
    let pred = OverbuildFeasibility { capacity: storage_gwh, outputs, demand };
    match find_using_bisection(0, FACTOR_MAX, &pred, tolerance) {
        Ok(v) => {
            proof {
                assert forall|x: int| v + tolerance <= x <= FACTOR_MAX implies
                    run_meets_demand(
                        storage_gwh as int,
                        spec_deltas(outputs@, demand as int, x),
                    ) by {
                    assert(pred.holds_at(x));
                }
                assert forall|x: int| 0 <= x <= v - tolerance implies
                    !run_meets_demand(
                        storage_gwh as int,
                        spec_deltas(outputs@, demand as int, x),
                    ) by {
                    assert(!pred.holds_at(x));
                }
            }
            v
        },
        Err(_) => unreached(),
    }
}

/// Bisects for the storage capacity that just lets the reservoir meet
/// every hour at a fixed overbuild factor. The bracket must straddle the
/// boundary: no storage must fall short and `high` must succeed.
pub fn find_required_storage(
    outputs: &Vec<i64>,
    demand: i64,
    overbuild: i64,
    high: i64,
    tolerance: i64,
) -> (r: i64)
    requires
        series_in_range(outputs@),
        0 <= demand <= DEMAND_MAX,
        0 <= overbuild <= FACTOR_MAX,
        1 <= tolerance,
        0 < high,
        !run_meets_demand(0, spec_deltas(outputs@, demand as int, overbuild as int)),
        run_meets_demand(
            high as int,
            spec_deltas(outputs@, demand as int, overbuild as int),
        ),
    ensures
        0 <= r <= high,
        forall|x: int| r + tolerance <= x <= high
            ==> run_meets_demand(x, spec_deltas(outputs@, demand as int, overbuild as int)),
        forall|x: int| 0 <= x <= r - tolerance
            ==> !run_meets_demand(x, spec_deltas(outputs@, demand as int, overbuild as int)),
{
    let pred = StorageFeasibility { outputs, demand, overbuild };
    match find_using_bisection(0, high, &pred, tolerance) {
        Ok(v) => {
            proof {
                assert forall|x: int| v + tolerance <= x <= high implies
                    run_meets_demand(
                        x,
                        spec_deltas(outputs@, demand as int, overbuild as int),
                    ) by {
                    assert(pred.holds_at(x));
                }
                assert forall|x: int| 0 <= x <= v - tolerance implies
                    !run_meets_demand(
                        x,
                        spec_deltas(outputs@, demand as int, overbuild as int),
                    ) by {
                    assert(!pred.holds_at(x));
                }
            }
            v
        },
        Err(_) => unreached(),
    }
}

/// Scales every sample so the series' average output matches `demand`:
/// each sample is multiplied by `demand` and divided by the overall
/// average. An empty series, a series whose average rounds to nothing,
/// and a scaled sample beyond the supported range are all rejected.
pub fn scale_to_demand(outputs: &Vec<i64>, demand: i64) -> (r: Result<Vec<i64>, ConfigError>)
    requires
        series_in_range(outputs@),
        0 <= demand <= DEMAND_MAX,
        sum64(outputs@) <= i64::MAX,
    ensures
        outputs@.len() == 0 ==> r == Err::<Vec<i64>, ConfigError>(ConfigError::EmptySeries),
        outputs@.len() > 0 ==> {
            let avg = sum64(outputs@) / outputs@.len() as int;
            &&& (avg == 0 ==> r == Err::<Vec<i64>, ConfigError>(ConfigError::ValueOutOfRange))
            &&& (avg > 0 ==> {
                let scaled = Seq::new(
                    outputs@.len(),
                    |i: int| outputs@[i] as int * demand as int / avg,
                );
                if forall|i: int| 0 <= i < scaled.len() ==> #[trigger] scaled[i] <= OUTPUT_MAX {
                    r matches Ok(v) && v@.len() == outputs@.len()
                        && (forall|i: int| 0 <= i < v@.len() ==> v@[i] == scaled[i])
                } else {
                    r == Err::<Vec<i64>, ConfigError>(ConfigError::ValueOutOfRange)
                }
            })
        },
{
    let n = outputs.len();
    if n == 0 {
        return Err(ConfigError::EmptySeries);
    }
    // overall average of the raw series
    let mut total: i64 = 0;
    let mut i: usize = 0;
    proof {
        assert(outputs@.skip(0) =~= outputs@);
    }
    while i < n
        invariant
            series_in_range(outputs@),
            n == outputs@.len(),
            i <= n,
            sum64(outputs@) <= i64::MAX,
            total == sum64(outputs@.take(i as int)),
            total + sum64(outputs@.skip(i as int)) == sum64(outputs@),
            total >= 0,
        decreases n - i,
    {
        proof {
            lemma_sum64_first(outputs@.skip(i as int));
            assert(outputs@.skip(i as int)[0] == outputs@[i as int]);
            assert(outputs@.skip(i as int).skip(1) =~= outputs@.skip(i as int + 1));
            assert(forall|k: int| 0 <= k < outputs@.skip(i as int + 1).len()
                ==> #[trigger] outputs@.skip(i as int + 1)[k] >= 0);
            lemma_sum64_nonneg(outputs@.skip(i as int + 1));
            assert(outputs@.take(i as int + 1).drop_last() =~= outputs@.take(i as int));
        }
        total = total + outputs[i];
        i = i + 1;
    }
    proof {
        assert(outputs@.take(n as int) =~= outputs@);
    }
    let avg: i64 = ((total as u64) / (n as u64)) as i64;
    proof {
        assert(avg as int == sum64(outputs@) / outputs@.len() as int);
    }
    if avg == 0 {
        return Err(ConfigError::ValueOutOfRange);
    }
    let ghost scaled = Seq::new(
        outputs@.len(),
        |i: int| outputs@[i] as int * demand as int / (sum64(outputs@) / outputs@.len() as int),
    );
    let mut v: Vec<i64> = Vec::new();
    let mut j: usize = 0;
    while j < n
        invariant
            series_in_range(outputs@),
            n == outputs@.len(),
            j <= n,
            0 <= demand <= DEMAND_MAX,
            avg >= 1,
            avg as int == sum64(outputs@) / outputs@.len() as int,
            scaled == Seq::new(
                outputs@.len(),
                |i: int| outputs@[i] as int * demand as int
                    / (sum64(outputs@) / outputs@.len() as int),
            ),
            v@.len() == j,
            forall|k: int| 0 <= k < j ==> v@[k] == scaled[k],
            forall|k: int| 0 <= k < j ==> #[trigger] scaled[k] <= OUTPUT_MAX,
        decreases n - j,
    {
        proof {
            vstd::arithmetic::mul::lemma_mul_upper_bound(
                outputs@[j as int] as int,
                OUTPUT_MAX as int,
                demand as int,
                DEMAND_MAX as int,
            );
            vstd::arithmetic::mul::lemma_mul_nonnegative(
                outputs@[j as int] as int,
                demand as int,
            );
        }
        let s: u64 = (outputs[j] as u64) * (demand as u64) / (avg as u64);
        proof {
            vstd::arithmetic::div_mod::lemma_div_pos_is_pos(
                outputs@[j as int] as int * demand as int,
                avg as int,
            );
            assert(s == scaled[j as int]);
        }
        if s > OUTPUT_MAX as u64 {
            proof {
                assert(scaled[j as int] > OUTPUT_MAX);
            }
            return Err(ConfigError::ValueOutOfRange);
        }
        v.push(s as i64);
        j = j + 1;
    }
    Ok(v)
}

/// A ratio in hundredths of a percent: how large `part` is relative to
/// `whole`, as the volatility table prints the minimum against the
/// overall average.
pub fn percent_of(part: i64, whole: i64) -> (r: i64)
    requires
        0 <= part,
        part as int <= i64::MAX as int / 10_000,
        0 < whole,
    ensures
        r == part as int * 10_000 / whole as int,
{
    ((part as u64) * 10_000 / (whole as u64)) as i64
}

/// Creates one window per requested horizon and feeds the whole series
/// through each, producing the volatility statistics for every horizon.
/// Any horizon of zero hours rejects the whole request.
pub fn analyze_windows(
    values: &Vec<i64>,
    dates: &Vec<String>,
    lengths: &Vec<usize>,
) -> (r: Result<Vec<Window>, ConfigError>)
    requires
        values@.len() == dates@.len(),
        forall|i: int| 0 <= i < values@.len() ==> values@[i] >= 0,
        sum64(values@) <= i64::MAX,
    ensures
        (forall|j: int| 0 <= j < lengths@.len() ==> lengths@[j] >= 1) <==> r is Ok,
        !(forall|j: int| 0 <= j < lengths@.len() ==> lengths@[j] >= 1)
            ==> r == Err::<Vec<Window>, ConfigError>(ConfigError::ZeroWindowLength),
        r matches Ok(ws) ==> {
            &&& ws@.len() == lengths@.len()
            &&& forall|j: int| 0 <= j < ws@.len() ==> {
                &&& (#[trigger] ws@[j]).wf()
                &&& ws@[j].len_hours() == lengths@[j]
                &&& ws@[j].values() == values@
                &&& ws@[j].labels() == dates@.map_values(|d: String| d@)
            }
        },
{
    let mut ws: Vec<Window> = Vec::new();
    let series_len = values.len();
    proof {
        // the series length is a machine word, so every window can take it
        assert(values@.len() == series_len);
    }
    let mut j: usize = 0;
    let m = lengths.len();
    while j < m
        invariant
            values@.len() == dates@.len(),
            forall|i: int| 0 <= i < values@.len() ==> values@[i] >= 0,
            sum64(values@) <= i64::MAX,
            m == lengths@.len(),
            j <= m,
            values@.len() <= u64::MAX,
            ws@.len() == j,
            forall|k: int| 0 <= k < j ==> lengths@[k] >= 1,
            forall|k: int| 0 <= k < j ==> {
                &&& (#[trigger] ws@[k]).wf()
                &&& ws@[k].len_hours() == lengths@[k]
                &&& ws@[k].values() == values@
                &&& ws@[k].labels() == dates@.map_values(|d: String| d@)
            },
        decreases m - j,
    {
        let mut w = match Window::new(lengths[j]) {
            Ok(w) => w,
            Err(e) => {
                return Err(e);
            },
        };
        proof {
            assert(w.values().len() == 0);
        }
        w.feed(values, dates);
        proof {
            assert(w.values() =~= values@);
            assert(w.labels() =~= dates@.map_values(|d: String| d@));
        }
        ws.push(w);
        j = j + 1;
    }
    Ok(ws)
}

} // verus!
