//! Bisection root-finder over a monotone feasibility predicate.
//!
//! The solver is decoupled from the energy-domain semantics: any type that
//! proves its predicate monotone can be searched, which also lets the
//! solver be exercised against a synthetic threshold predicate.
use vstd::prelude::*;
use vstd::pervasive::unreached;
use crate::ConfigError;

verus! {

/// A feasibility predicate over a scalar search parameter that, once it
/// holds, keeps holding as the parameter grows.
pub trait MonotonePredicate {
    /// The parameter values at which the predicate may be evaluated.
    spec fn in_domain(&self, x: int) -> bool;

    /// What the predicate decides at `x`.
    spec fn holds_at(&self, x: int) -> bool;

    /// Feasibility cannot be lost by growing the parameter.
    proof fn lemma_monotone(&self, x: int, y: int)
        requires
            x <= y,
            self.in_domain(x),
            self.in_domain(y),
            self.holds_at(x),
        ensures
            self.holds_at(y),
    ;

    /// Decides the predicate at `x`.
    fn eval(&self, x: i64) -> (r: bool)
        requires
            self.in_domain(x as int),
        ensures
            r == self.holds_at(x as int),
    ;
}

/// Narrows a bracket `[low, high]` around the boundary of a monotone
/// predicate until it is no wider than `tolerance`, and returns the final
/// bracket's midpoint. The predicate must fail at `low` and hold at
/// `high`; a bracket that is not even an interval is rejected.
pub fn find_using_bisection<P: MonotonePredicate>(
    low: i64,
    high: i64,
    test: &P,
    tolerance: i64,
) -> (r: Result<i64, ConfigError>)
    requires
        tolerance >= 1,
        high as int - low as int <= i64::MAX,
        forall|x: int| low <= x <= high ==> test.in_domain(x),
        low < high ==> !test.holds_at(low as int),
        low < high ==> test.holds_at(high as int),
    ensures
        low >= high ==> r == Err::<i64, ConfigError>(ConfigError::InvalidBracket),
        low < high ==> (r matches Ok(v) && {
            &&& low <= v <= high
            &&& forall|x: int| v + tolerance <= x <= high ==> test.holds_at(x)
            &&& forall|x: int| low <= x <= v - tolerance ==> !test.holds_at(x)
        }),
{
    if low >= high {
        return Err(ConfigError::InvalidBracket);
    }
    let mut lower: i64 = low;
    let mut upper: i64 = high;
    while upper - lower > tolerance
        invariant
            low <= lower < upper <= high,
            tolerance >= 1,
            high as int - low as int <= i64::MAX,
            forall|x: int| low <= x <= high ==> test.in_domain(x),
            !test.holds_at(lower as int),
            test.holds_at(upper as int),
        decreases upper as int - lower as int,
    {
        let mid: i64 = lower + ((upper - lower) as u64 / 2) as i64;
        assert(lower < mid < upper);
        if test.eval(mid) {
            upper = mid;
        } else {
            lower = mid;
        }
    }
    let r: i64 = lower + ((upper - lower) as u64 / 2) as i64;
    proof {
        assert forall|x: int| r + tolerance <= x <= high implies test.holds_at(x) by {
            assert(upper as int <= r + tolerance);
            test.lemma_monotone(upper as int, x);
        }
        assert forall|x: int| low <= x <= r - tolerance implies !test.holds_at(x) by {
            assert(r - tolerance <= lower as int);
            if test.holds_at(x) {
                test.lemma_monotone(x, lower as int);
            }
        }
    }
    Ok(r)
}

/// The synthetic reference predicate for the solver: feasibility is lying
/// at or above a fixed threshold.
pub struct ThresholdPredicate {
    /// The least feasible parameter value.
    pub threshold: i64,
}

impl MonotonePredicate for ThresholdPredicate {
    open spec fn in_domain(&self, x: int) -> bool {
        true
    }

    open spec fn holds_at(&self, x: int) -> bool {
        x >= self.threshold
    }

    proof fn lemma_monotone(&self, x: int, y: int) {
    }

    fn eval(&self, x: i64) -> (r: bool) {
        x >= self.threshold
    }
}

/// The solver pinned against the reference predicate: over a bracket that
/// straddles the threshold, bisection lands within `tolerance` of the
/// threshold itself.
pub fn find_threshold(threshold: i64, low: i64, high: i64, tolerance: i64) -> (r: i64)
    requires
        low < threshold <= high,
        tolerance >= 1,
        high as int - low as int <= i64::MAX,
    ensures
        threshold - tolerance <= r <= threshold + tolerance,
{
    let pred = ThresholdPredicate { threshold };
    let found = find_using_bisection(low, high, &pred, tolerance);
    match found {
        Ok(v) => {
            proof {
                if v + tolerance <= high as int {
                    assert(pred.holds_at(v + tolerance));
                }
                if low as int <= v - tolerance {
                    assert(!pred.holds_at(v - tolerance));
                }
            }
            v
        },
        Err(_) => unreached(),
    }
}

} // verus!
