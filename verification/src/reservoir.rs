//! Bounded energy-reservoir simulator.
//!
//! A `Storage` holds up to `capacity` energy units and starts full, which
//! avoids transient start-up shortfalls. Each step charges or draws a net
//! `delta`; the level is clamped to `[0, capacity]` and the energy a draw
//! could not supply is the step's shortfall, the worst of which is recorded
//! together with its date label.
use vstd::prelude::*;
use crate::ConfigError;

verus! {

/// The reservoir level after one step: charge or draw `delta`, clamped so
/// the level never leaves `[0, capacity]`.
pub open spec fn clamped_level(capacity: int, current: int, delta: int) -> int {
    vstd::math::max(vstd::math::min(current + delta, capacity), 0)
}

/// The energy that one step could not supply: zero when the draw was met,
/// positive when the reservoir ran dry.
pub open spec fn step_shortfall(capacity: int, current: int, delta: int) -> int {
    clamped_level(capacity, current, delta) - vstd::math::min(current + delta, capacity)
}

/// The reservoir level after a whole run of steps from level `init`.
pub open spec fn level_after(capacity: int, init: int, deltas: Seq<int>) -> int
    decreases deltas.len(),
{
    if deltas.len() == 0 {
        init
    } else {
        clamped_level(capacity, level_after(capacity, init, deltas.drop_last()), deltas.last())
    }
}

/// The worst single-step shortfall over a whole run from level `init`.
pub open spec fn worst_shortfall(capacity: int, init: int, deltas: Seq<int>) -> int
    decreases deltas.len(),
{
    if deltas.len() == 0 {
        0
    } else {
        vstd::math::max(
            worst_shortfall(capacity, init, deltas.drop_last()),
            step_shortfall(
                capacity,
                level_after(capacity, init, deltas.drop_last()),
                deltas.last(),
            ),
        )
    }
}

/// The label of the step that first reached the worst shortfall: a later
/// step displaces the recorded label only by a strictly worse shortfall,
/// and no label is recorded while every step has been met.
pub open spec fn worst_shortfall_label(
    capacity: int,
    init: int,
    deltas: Seq<int>,
    labels: Seq<Seq<char>>,
) -> Option<Seq<char>>
    decreases deltas.len(),
{
    if deltas.len() == 0 {
        None
    } else if step_shortfall(capacity, level_after(capacity, init, deltas.drop_last()), deltas.last())
        > worst_shortfall(capacity, init, deltas.drop_last()) {
        Some(labels.last())
    } else {
        worst_shortfall_label(capacity, init, deltas.drop_last(), labels.drop_last())
    }
}

/// Whether a run from a full reservoir meets every step without shortfall.
pub open spec fn run_meets_demand(capacity: int, deltas: Seq<int>) -> bool {
    worst_shortfall(capacity, capacity, deltas) == 0
}

/// The reservoir level never leaves `[0, capacity]`, whatever the deltas.
pub proof fn lemma_level_bounds(capacity: int, init: int, deltas: Seq<int>)
    requires
        0 <= init <= capacity,
    ensures
        0 <= level_after(capacity, init, deltas) <= capacity,
    decreases deltas.len(),
{
    if deltas.len() > 0 {
        lemma_level_bounds(capacity, init, deltas.drop_last());
    }
}

/// A step's shortfall is never negative, so neither is the worst one.
pub proof fn lemma_worst_shortfall_nonneg(capacity: int, init: int, deltas: Seq<int>)
    ensures
        worst_shortfall(capacity, init, deltas) >= 0,
    decreases deltas.len(),
{
    if deltas.len() > 0 {
        lemma_worst_shortfall_nonneg(capacity, init, deltas.drop_last());
    }
}

/// Extending a run cannot shrink its worst shortfall: once an hour has
/// fallen short, the run as a whole has.
pub proof fn lemma_worst_shortfall_take(capacity: int, init: int, deltas: Seq<int>, m: int)
    requires
        0 <= m <= deltas.len(),
    ensures
        worst_shortfall(capacity, init, deltas.take(m)) <= worst_shortfall(capacity, init, deltas),
    decreases deltas.len(),
{
    if m == deltas.len() {
        assert(deltas.take(m) =~= deltas);
    } else {
        assert(deltas.drop_last().take(m) =~= deltas.take(m));
        lemma_worst_shortfall_take(capacity, init, deltas.drop_last(), m);
    }
}

/// A reservoir that is no smaller, starts no lower and is fed no-smaller
/// deltas is never worse off: its level stays at least as high and its
/// worst shortfall is no larger.
pub proof fn lemma_reservoir_monotone(
    cap1: int,
    cap2: int,
    init1: int,
    init2: int,
    d1: Seq<int>,
    d2: Seq<int>,
)
    requires
        cap1 <= cap2,
        init1 <= init2,
        d1.len() == d2.len(),
        forall|i: int| 0 <= i < d1.len() ==> d1[i] <= d2[i],
    ensures
        level_after(cap1, init1, d1) <= level_after(cap2, init2, d2),
        worst_shortfall(cap2, init2, d2) <= worst_shortfall(cap1, init1, d1),
    decreases d1.len(),
{
    if d1.len() > 0 {
        assert(forall|i: int| 0 <= i < d1.drop_last().len()
            ==> #[trigger] d1.drop_last()[i] <= d2.drop_last()[i]);
        lemma_reservoir_monotone(cap1, cap2, init1, init2, d1.drop_last(), d2.drop_last());
        assert(d1.last() <= d2.last());
    }
}

/// A feasible run stays feasible with more storage and no-smaller deltas.
pub proof fn lemma_feasibility_monotone(cap1: int, cap2: int, d1: Seq<int>, d2: Seq<int>)
    requires
        cap1 <= cap2,
        d1.len() == d2.len(),
        forall|i: int| 0 <= i < d1.len() ==> d1[i] <= d2[i],
        run_meets_demand(cap1, d1),
    ensures
        run_meets_demand(cap2, d2),
{
    lemma_reservoir_monotone(cap1, cap2, cap1, cap2, d1, d2);
    lemma_worst_shortfall_nonneg(cap2, cap2, d2);
}

/// With no storage at all, the level is pinned to zero: a charging step
/// never causes shortfall and a drawing step falls short by exactly the
/// energy drawn.
pub proof fn lemma_zero_capacity_level(deltas: Seq<int>)
    ensures
        level_after(0, 0, deltas) == 0,
    decreases deltas.len(),
{
    if deltas.len() > 0 {
        lemma_zero_capacity_level(deltas.drop_last());
    }
}

/// The step-by-step reading of `lemma_zero_capacity_level`: at zero
/// capacity, step `i` records no shortfall when its delta charges, and a
/// shortfall of exactly the magnitude of its delta when it draws.
pub proof fn lemma_zero_capacity_shortfall(deltas: Seq<int>, i: int)
    requires
        0 <= i < deltas.len(),
    ensures
        deltas[i] >= 0 ==> step_shortfall(0, level_after(0, 0, deltas.take(i)), deltas[i]) == 0,
        deltas[i] < 0 ==> step_shortfall(0, level_after(0, 0, deltas.take(i)), deltas[i])
            == -deltas[i],
{
    lemma_zero_capacity_level(deltas.take(i));
}

/// A bounded energy store, tracking the worst shortfall seen.
pub struct Storage {
    /// Total capacity of the storage.
    capacity: i64,
    /// The amount of energy currently stored.
    current: i64,
    /// The worst shortfall seen when trying to draw from the storage.
    max_shortfall: i64,
    /// The date label at which that shortfall occurred.
    max_shortfall_date: Option<String>,
    /// Every delta ever applied, in order.
    deltas: Ghost<Seq<int>>,
    /// The date label of each applied delta, in order.
    delta_labels: Ghost<Seq<Seq<char>>>,
}

impl Storage {
    /// The configured capacity.
    pub closed spec fn cap(&self) -> int {
        self.capacity as int
    }

    /// Every delta ever applied to this store, in order.
    pub closed spec fn deltas(&self) -> Seq<int> {
        self.deltas@
    }

    /// The date label of each applied delta, in order.
    pub closed spec fn labels(&self) -> Seq<Seq<char>> {
        self.delta_labels@
    }

    /// The current level, as the run of all deltas determines it.
    pub open spec fn level(&self) -> int {
        level_after(self.cap(), self.cap(), self.deltas())
    }

    /// The store's fields agree with the run of its recorded deltas.
    pub closed spec fn wf(&self) -> bool {
        &&& self.capacity >= 0
        &&& self.delta_labels@.len() == self.deltas@.len()
        &&& self.current == level_after(self.cap(), self.cap(), self.deltas@)
        &&& self.max_shortfall == worst_shortfall(self.cap(), self.cap(), self.deltas@)
        &&& match worst_shortfall_label(self.cap(), self.cap(), self.deltas@, self.delta_labels@) {
            None => self.max_shortfall_date is None,
            Some(lbl) => self.max_shortfall_date matches Some(d) && d@ == lbl,
        }
    }

    /// Creates a store of the given capacity, starting full. A negative
    /// capacity is rejected.
    pub fn new(capacity_gwh: i64) -> (r: Result<Storage, ConfigError>)
        ensures
            capacity_gwh < 0 ==> r == Err::<Storage, ConfigError>(ConfigError::NegativeCapacity),
            capacity_gwh >= 0 ==> (r matches Ok(s) && {
                &&& s.wf()
                &&& s.cap() == capacity_gwh
                &&& s.deltas() == Seq::<int>::empty()
                &&& s.labels() == Seq::<Seq<char>>::empty()
            }),
    {
        if capacity_gwh < 0 {
            return Err(ConfigError::NegativeCapacity);
        }
        Ok(Storage {
            capacity: capacity_gwh,
            current: capacity_gwh,
            max_shortfall: 0,
            max_shortfall_date: None,
            deltas: Ghost(Seq::empty()),
            delta_labels: Ghost(Seq::empty()),
        })
    }

    /// Adds `delta` energy units to the store; a negative delta draws it
    /// down. The level is clamped to the store's bounds, and a draw the
    /// store could not fully supply is recorded when it is the worst seen.
    /// Returns whether the step was met without shortfall.
    pub fn add(&mut self, delta: i64, date: &str) -> (met: bool)
        requires
            old(self).wf(),
            delta > i64::MIN,
        ensures
            final(self).wf(),
            final(self).cap() == old(self).cap(),
            final(self).deltas() == old(self).deltas().push(delta as int),
            final(self).labels() == old(self).labels().push(date@),
            met == (step_shortfall(old(self).cap(), old(self).level(), delta as int) == 0),
    {
        proof {
            lemma_level_bounds(self.cap(), self.cap(), self.deltas@);
        }
        // the level after charging or drawing, capped at the capacity
        let tentative: i64 = if delta >= 0 {
            if delta >= self.capacity - self.current {
                self.capacity
            } else {
                self.current + delta
            }
        } else {
            // a draw can only lower the level, so the cap stays respected
            self.current + delta
        };
        // never let the level go negative: what would be missing is the
        // shortfall of this step
        let new_current: i64 = if tentative < 0 { 0 } else { tentative };
        let shortfall: i64 = new_current - tentative;
        self.current = new_current;
        if shortfall > self.max_shortfall {
            self.max_shortfall = shortfall;
            self.max_shortfall_date = Some(String::from_str(date));
        }
        self.deltas = Ghost(self.deltas@.push(delta as int));
        self.delta_labels = Ghost(self.delta_labels@.push(date@));
        proof {
            assert(self.deltas@.drop_last() =~= old(self).deltas());
            assert(self.delta_labels@.drop_last() =~= old(self).labels());
        }
        shortfall == 0
    }

    /// The amount of energy currently stored: always within the store's
    /// bounds, whatever steps were taken.
    pub fn current_level(&self) -> (r: i64)
        requires
            self.wf(),
        ensures
            r == self.level(),
            0 <= r <= self.cap(),
    {
        proof {
            lemma_level_bounds(self.cap(), self.cap(), self.deltas@);
        }
        self.current
    }

    /// The worst shortfall seen across every step so far; zero while every
    /// step has been met.
    pub fn max_shortfall(&self) -> (r: i64)
        requires
            self.wf(),
        ensures
            r == worst_shortfall(self.cap(), self.cap(), self.deltas()),
            r >= 0,
    {
        proof {
            lemma_worst_shortfall_nonneg(self.cap(), self.cap(), self.deltas@);
        }
        self.max_shortfall
    }

    /// The date label at which the worst shortfall occurred, if any step
    /// has fallen short.
    pub fn max_shortfall_date(&self) -> (r: &Option<String>)
        requires
            self.wf(),
        ensures
            match worst_shortfall_label(self.cap(), self.cap(), self.deltas(), self.labels()) {
                None => *r is None,
                Some(lbl) => *r matches Some(d) && d@ == lbl,
            },
    {
        &self.max_shortfall_date
    }
}

} // verus!
