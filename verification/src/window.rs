//! Sliding-window tracker for moving-average statistics.
//!
//! A `Window` retains the most recent `length` samples in a ring, keeps the
//! running sum of that ring up to date in constant time per push, and tracks
//! the minimum and maximum window sum ever seen once the ring has filled,
//! together with the date label of the minimum. It also accumulates the
//! grand total and count of all samples for the overall average.
//!
//! All values are integers: callers work in a fixed-point unit of their
//! choice (the driver uses thousandths of a gigawatt).
use vstd::prelude::*;
use circular_queue::CircularQueue;
use crate::ring::{ring_new, ring_push, ring_items, ring_capacity};
use crate::sums::{sum64, lemma_sum64_push, lemma_sum64_take_skip, lemma_sum64_nonneg,
    lemma_sum64_first};
use crate::ConfigError;

verus! {

/// The sum of the most recent window of `len` samples of `values`.
/// Meaningful once `values` holds at least `len` samples.
pub open spec fn last_window_sum(values: Seq<i64>, len: nat) -> int {
    sum64(values.skip(values.len() - len))
}

/// The least window sum over every full window of `len` consecutive
/// samples of `values`.
pub open spec fn min_window_sum(values: Seq<i64>, len: nat) -> int
    decreases values.len(),
{
    if values.len() <= len {
        last_window_sum(values, len)
    } else {
        vstd::math::min(
            min_window_sum(values.drop_last(), len),
            last_window_sum(values, len),
        )
    }
}

/// The greatest window sum over every full window of `len` consecutive
/// samples of `values`.
pub open spec fn max_window_sum(values: Seq<i64>, len: nat) -> int
    decreases values.len(),
{
    if values.len() <= len {
        last_window_sum(values, len)
    } else {
        vstd::math::max(
            max_window_sum(values.drop_last(), len),
            last_window_sum(values, len),
        )
    }
}

/// The label under which the minimum window sum was first reached: a later
/// window displaces the recorded label only by a strictly smaller sum.
pub open spec fn min_window_label(values: Seq<i64>, labels: Seq<Seq<char>>, len: nat) -> Seq<char>
    decreases values.len(),
{
    if values.len() <= len {
        labels[len - 1]
    } else if last_window_sum(values, len) < min_window_sum(values.drop_last(), len) {
        labels[values.len() - 1]
    } else {
        min_window_label(values.drop_last(), labels.drop_last(), len)
    }
}

/// A sliding window over the series, with its running statistics.
pub struct Window {
    /// Number of most recent samples the window retains.
    length: usize,
    /// Ring of the most recent samples, oldest evicted first once full.
    queue: CircularQueue<i64>,
    /// Sum of the samples currently in the ring.
    window_sum: i64,
    /// Sum of every sample ever pushed.
    total_of_all_samples: i64,
    /// Count of every sample ever pushed.
    sample_count: u64,
    /// Least window sum seen since the ring first filled.
    min_window_sum_seen: i64,
    /// Greatest window sum seen since the ring first filled.
    max_window_sum_seen: i64,
    /// Date label at which the minimum was first reached.
    min_moving_date: Option<String>,
    /// Every sample ever pushed, in order.
    history: Ghost<Seq<i64>>,
    /// The date label of each pushed sample, in order.
    history_labels: Ghost<Seq<Seq<char>>>,
}

impl Window {
    /// Every sample ever pushed into this window, in push order.
    pub closed spec fn values(&self) -> Seq<i64> {
        self.history@
    }

    /// The date label of each pushed sample, in push order.
    pub closed spec fn labels(&self) -> Seq<Seq<char>> {
        self.history_labels@
    }

    /// The configured window length, in hours.
    pub closed spec fn len_hours(&self) -> int {
        self.length as int
    }

    /// The window's internal state agrees with its pushed history.
    pub closed spec fn wf(&self) -> bool {
        let n = self.history@.len() as int;
        let l = self.length as int;
        &&& self.length >= 1
        &&& self.history_labels@.len() == n
        &&& forall|i: int| 0 <= i < n ==> self.history@[i] >= 0
        &&& sum64(self.history@) <= i64::MAX
        &&& ring_capacity(self.queue) == self.length as nat
        &&& ring_items(self.queue) =~= self.history@.skip(vstd::math::max(n - l, 0))
        &&& self.sample_count == n
        &&& self.total_of_all_samples == sum64(self.history@)
        &&& self.window_sum == sum64(ring_items(self.queue))
        &&& self.window_sum >= 0
        &&& self.min_window_sum_seen >= 0
        &&& self.max_window_sum_seen >= 0
        &&& n >= l ==> {
            &&& self.min_window_sum_seen == min_window_sum(self.history@, l as nat)
            &&& self.max_window_sum_seen == max_window_sum(self.history@, l as nat)
            &&& self.min_moving_date matches Some(d)
                && d@ == min_window_label(self.history@, self.history_labels@, l as nat)
        }
        &&& n < l ==> self.min_moving_date is None
    }

    /// Creates a window that averages over the `num_hours` most recent
    /// samples. A window of zero length is rejected.
    pub fn new(num_hours: usize) -> (r: Result<Window, ConfigError>)
        ensures
            num_hours == 0 ==> r == Err::<Window, ConfigError>(ConfigError::ZeroWindowLength),
            num_hours >= 1 ==> (r matches Ok(w) && {
                &&& w.wf()
                &&& w.values() == Seq::<i64>::empty()
                &&& w.labels() == Seq::<Seq<char>>::empty()
                &&& w.len_hours() == num_hours
            }),
    {
        if num_hours == 0 {
            return Err(ConfigError::ZeroWindowLength);
        }
        let w = Window {
            length: num_hours,
            queue: ring_new(num_hours),
            window_sum: 0,
            total_of_all_samples: 0,
            sample_count: 0,
            min_window_sum_seen: 0,
            max_window_sum_seen: 0,
            min_moving_date: None,
            history: Ghost(Seq::empty()),
            history_labels: Ghost(Seq::empty()),
        };
        proof {
            assert(w.history@.skip(vstd::math::max(0 - w.length as int, 0))
                =~= Seq::<i64>::empty());
        }
        Ok(w)
    }

    /// Appends one sample, evicting the oldest if the ring is already full.
    /// Once the ring is full, the window sum is folded into the running
    /// maximum, and into the running minimum (recording `date`) when it is
    /// strictly smaller than every window sum seen before.
    pub fn push(&mut self, value: i64, date: &str)
        requires
            old(self).wf(),
            value >= 0,
            sum64(old(self).values()) + value <= i64::MAX,
            old(self).values().len() < u64::MAX,
        ensures
            final(self).wf(),
            final(self).values() == old(self).values().push(value),
            final(self).labels() == old(self).labels().push(date@),
            final(self).len_hours() == old(self).len_hours(),
    {
        let ghost old_vals = self.history@;
        let ghost old_labels = self.history_labels@;
        let ghost old_ring = ring_items(self.queue);
        let ghost n = old_vals.len() as int;
        let ghost l = self.length as int;

        proof {
            // the ring is a suffix of the history, so its elements are
            // non-negative and its sum is at most the grand total
            assert(forall|i: int| 0 <= i < old_ring.len() ==> old_ring[i] >= 0);
            lemma_sum64_take_skip(old_vals, vstd::math::max(n - l, 0));
            lemma_sum64_nonneg(old_vals.take(vstd::math::max(n - l, 0)));
        }

        // write the sample into the ring and keep the window sum current
        let evicted = ring_push(&mut self.queue, value);
        match evicted {
            None => {
                proof {
                    lemma_sum64_push(old_ring, value);
                }
                self.window_sum = self.window_sum + value;
            },
            Some(oldest) => {
                proof {
                    lemma_sum64_first(old_ring);
                    lemma_sum64_nonneg(old_ring.skip(1));
                }
                self.window_sum = self.window_sum - oldest + value;
                proof {
                    lemma_sum64_push(old_ring.skip(1), value);
                }
            },
        }

        // record the sample in the history and the running totals
        self.history = Ghost(old_vals.push(value));
        self.history_labels = Ghost(old_labels.push(date@));
        self.total_of_all_samples = self.total_of_all_samples + value;
        self.sample_count = self.sample_count + 1;

        proof {
            assert(self.history@.drop_last() =~= old_vals);
            assert(self.history_labels@.drop_last() =~= old_labels);
            if n + 1 <= l {
                assert(ring_items(self.queue) =~= self.history@.skip(0));
            } else {
                assert(old_ring =~= old_vals.skip(n - l));
                assert(ring_items(self.queue) =~= self.history@.skip(n + 1 - l));
            }
            lemma_sum64_push(old_vals, value);
        }

        // once the ring is full, fold the window sum into the extremes
        if self.sample_count >= self.length as u64 {
            proof {
                assert(last_window_sum(self.history@, l as nat)
                    == sum64(self.history@.skip(n + 1 - l)));
            }
            if self.sample_count == self.length as u64 {
                // the window has just filled: the first fair sample at this
                // horizon seeds both extremes
                self.min_window_sum_seen = self.window_sum;
                self.max_window_sum_seen = self.window_sum;
                self.min_moving_date = Some(String::from_str(date));
            } else {
                if self.window_sum > self.max_window_sum_seen {
                    self.max_window_sum_seen = self.window_sum;
                }
                if self.window_sum < self.min_window_sum_seen {
                    self.min_window_sum_seen = self.window_sum;
                    self.min_moving_date = Some(String::from_str(date));
                }
            }
        }
    }

    /// Pushes every sample of `values`, labelled by the matching entry of
    /// `dates`, in order.
    pub fn feed(&mut self, values: &Vec<i64>, dates: &Vec<String>)
        requires
            old(self).wf(),
            values@.len() == dates@.len(),
            forall|k: int| 0 <= k < values@.len() ==> values@[k] >= 0,
            sum64(old(self).values()) + sum64(values@) <= i64::MAX,
            old(self).values().len() + values@.len() <= u64::MAX,
        ensures
            final(self).wf(),
            final(self).values() == old(self).values() + values@,
            final(self).labels() == old(self).labels() + dates@.map_values(|d: String| d@),
            final(self).len_hours() == old(self).len_hours(),
    {
        let n = values.len();
        let mut i: usize = 0;
        proof {
            assert(self.values() =~= old(self).values() + values@.take(0));
            assert(self.labels()
                =~= old(self).labels() + dates@.take(0).map_values(|d: String| d@));
            assert(values@.skip(0) =~= values@);
        }
        while i < n
            invariant
                self.wf(),
                n == values@.len(),
                values@.len() == dates@.len(),
                i <= n,
                forall|k: int| 0 <= k < values@.len() ==> values@[k] >= 0,
                self.values() == old(self).values() + values@.take(i as int),
                self.labels() == old(self).labels()
                    + dates@.take(i as int).map_values(|d: String| d@),
                self.len_hours() == old(self).len_hours(),
                sum64(self.values()) + sum64(values@.skip(i as int)) <= i64::MAX,
                self.values().len() + (values@.len() - i) <= u64::MAX,
            decreases n - i,
        {
            let ghost prev_vals = self.values();
            let ghost prev_labels = self.labels();
            proof {
                lemma_sum64_first(values@.skip(i as int));
                assert(values@.skip(i as int)[0] == values@[i as int]);
                assert(values@.skip(i as int).skip(1) =~= values@.skip(i as int + 1));
                assert(forall|k: int| 0 <= k < values@.skip(i as int + 1).len()
                    ==> #[trigger] values@.skip(i as int + 1)[k] >= 0);
                lemma_sum64_nonneg(values@.skip(i as int + 1));
            }
            self.push(values[i], dates[i].as_str());
            proof {
                lemma_sum64_push(prev_vals, values@[i as int]);
                assert(self.values() =~= old(self).values() + values@.take(i as int + 1));
                assert(dates@.take(i as int + 1).map_values(|d: String| d@)
                    =~= dates@.take(i as int).map_values(|d: String| d@).push(dates@[i as int]@));
                assert(self.labels()
                    =~= old(self).labels() + dates@.take(i as int + 1).map_values(|d: String| d@));
            }
            i = i + 1;
        }
        proof {
            assert(values@.take(n as int) =~= values@);
            assert(dates@.take(n as int) =~= dates@);
        }
    }

    /// The window length in hours.
    pub fn window_size_hours(&self) -> (r: usize)
        ensures
            r == self.len_hours(),
    {
        self.length
    }

    /// The mean of the samples currently in the ring, rounded toward zero.
    /// Valid only once the ring has filled.
    pub fn current_moving_average(&self) -> (r: i64)
        requires
            self.wf(),
            self.values().len() >= self.len_hours(),
        ensures
            r == last_window_sum(self.values(), self.len_hours() as nat) / self.len_hours(),
    {
        (self.window_sum as u64 / self.length as u64) as i64
    }

    /// The mean of every sample ever pushed, rounded toward zero. Callers
    /// must have pushed at least one sample.
    pub fn average_of_all_values(&self) -> (r: i64)
        requires
            self.wf(),
            self.values().len() >= 1,
        ensures
            r == sum64(self.values()) / self.values().len() as int,
    {
        proof {
            lemma_sum64_nonneg(self.history@);
        }
        (self.total_of_all_samples as u64 / self.sample_count) as i64
    }

    /// The least moving average seen since the ring first filled, rounded
    /// toward zero.
    pub fn min_moving_average(&self) -> (r: i64)
        requires
            self.wf(),
            self.values().len() >= self.len_hours(),
        ensures
            r == min_window_sum(self.values(), self.len_hours() as nat) / self.len_hours(),
    {
        (self.min_window_sum_seen as u64 / self.length as u64) as i64
    }

    /// The greatest moving average seen since the ring first filled,
    /// rounded toward zero.
    pub fn max_moving_average(&self) -> (r: i64)
        requires
            self.wf(),
            self.values().len() >= self.len_hours(),
        ensures
            r == max_window_sum(self.values(), self.len_hours() as nat) / self.len_hours(),
    {
        (self.max_window_sum_seen as u64 / self.length as u64) as i64
    }

    /// The date label under which the least moving average was first seen.
    /// Valid only once the ring has filled.
    pub fn min_moving_date(&self) -> (r: &Option<String>)
        requires
            self.wf(),
            self.values().len() >= self.len_hours(),
        ensures
            *r matches Some(d)
                && d@ == min_window_label(self.values(), self.labels(), self.len_hours() as nat),
    {
        &self.min_moving_date
    }
}

/// Shortening a series cannot lower its least window sum: the prefix's
/// windows are a subset of the full series' windows.
proof fn lemma_min_window_sum_take(values: Seq<i64>, len: nat, m: int)
    requires
        len >= 1,
        len <= m <= values.len(),
    ensures
        min_window_sum(values.take(m), len) >= min_window_sum(values, len),
    decreases values.len(),
{
    if m == values.len() {
        assert(values.take(m) =~= values);
    } else {
        assert(values.take(m) =~= values.drop_last().take(m));
        lemma_min_window_sum_take(values.drop_last(), len, m);
    }
}

/// Shortening a series cannot raise its greatest window sum.
proof fn lemma_max_window_sum_take(values: Seq<i64>, len: nat, m: int)
    requires
        len >= 1,
        len <= m <= values.len(),
    ensures
        max_window_sum(values.take(m), len) <= max_window_sum(values, len),
    decreases values.len(),
{
    if m == values.len() {
        assert(values.take(m) =~= values);
    } else {
        assert(values.take(m) =~= values.drop_last().take(m));
        lemma_max_window_sum_take(values.drop_last(), len, m);
    }
}

/// A series made of whole windows sums to at least that many copies of the
/// least window sum, and at most that many copies of the greatest.
proof fn lemma_window_sum_chunks(values: Seq<i64>, len: nat)
    requires
        len >= 1,
        values.len() >= len,
        values.len() as int % (len as int) == 0,
    ensures
        (values.len() as int / len as int) * min_window_sum(values, len) <= sum64(values),
        sum64(values) <= (values.len() as int / len as int) * max_window_sum(values, len),
    decreases values.len(),
{
    let n = values.len() as int;
    let l = len as int;
    let k = n / l;
    vstd::arithmetic::div_mod::lemma_fundamental_div_mod(n, l);
    assert(n == k * l);
    if n == l {
        vstd::arithmetic::div_mod::lemma_div_by_self(l);
        assert(values.skip(0) =~= values);
        assert(min_window_sum(values, len) == sum64(values));
        assert(max_window_sum(values, len) == sum64(values));
    } else {
        assert(k >= 2) by (nonlinear_arith)
            requires
                n == k * l,
                n > l,
                l >= 1,
        ;
        assert(n - l == (k - 1) * l) by (nonlinear_arith)
            requires
                n == k * l,
        ;
        vstd::arithmetic::div_mod::lemma_fundamental_div_mod_converse(n - l, l, k - 1, 0);
        let prefix = values.take(n - l);
        assert((k - 1) * l >= l) by (nonlinear_arith)
            requires
                k >= 2,
                l >= 1,
        ;
        assert(prefix.len() >= len);
        lemma_window_sum_chunks(prefix, len);
        lemma_min_window_sum_take(values, len, n - l);
        lemma_max_window_sum_take(values, len, n - l);
        lemma_sum64_take_skip(values, n - l);
        // the tail of the split is exactly the newest window
        assert(sum64(values) == sum64(prefix) + last_window_sum(values, len));
        let mn = min_window_sum(values, len);
        let mx = max_window_sum(values, len);
        vstd::arithmetic::mul::lemma_mul_inequality(mn, min_window_sum(prefix, len), k - 1);
        vstd::arithmetic::mul::lemma_mul_inequality(max_window_sum(prefix, len), mx, k - 1);
        assert(last_window_sum(values, len) >= mn);
        assert(last_window_sum(values, len) <= mx);
        assert(mn * (k - 1) + mn == k * mn) by (nonlinear_arith);
        assert(mx * (k - 1) + mx == k * mx) by (nonlinear_arith);
    }
}

/// Once a series consists of whole windows, the least moving average is at
/// most the overall average, which is at most the greatest moving average.
/// (With a partial window left over this can fail: over `[0, 10, 0]` with
/// windows of two samples, every full window averages five while the
/// overall average is ten thirds.)
pub proof fn lemma_min_max_bound_overall(values: Seq<i64>, len: nat)
    requires
        len >= 1,
        values.len() >= len,
        values.len() as int % (len as int) == 0,
    ensures
        min_window_sum(values, len) / (len as int) <= sum64(values) / (values.len() as int),
        sum64(values) / (values.len() as int) <= max_window_sum(values, len) / (len as int),
{
    let n = values.len() as int;
    let l = len as int;
    let k = n / l;
    lemma_window_sum_chunks(values, len);
    vstd::arithmetic::div_mod::lemma_fundamental_div_mod(n, l);
    assert(n == k * l);
    assert(k >= 1) by (nonlinear_arith)
        requires
            n == k * l,
            n >= l,
            l >= 1,
    ;
    let mn = min_window_sum(values, len);
    let mx = max_window_sum(values, len);
    let qn = mn / l;
    let rn = mn % l;
    vstd::arithmetic::div_mod::lemma_fundamental_div_mod(mn, l);
    assert(k * mn >= qn * n) by (nonlinear_arith)
        requires
            mn == qn * l + rn,
            rn >= 0,
            n == k * l,
            k >= 1,
    ;
    vstd::arithmetic::div_mod::lemma_div_is_ordered(qn * n, sum64(values), n);
    vstd::arithmetic::div_mod::lemma_fundamental_div_mod_converse(qn * n, n, qn, 0);
    let qx = mx / l;
    let rx = mx % l;
    vstd::arithmetic::div_mod::lemma_fundamental_div_mod(mx, l);
    assert(k * mx <= (qx + 1) * n - 1) by (nonlinear_arith)
        requires
            mx == qx * l + rx,
            rx < l,
            n == k * l,
            k >= 1,
            l >= 1,
    ;
    vstd::arithmetic::div_mod::lemma_div_is_ordered(sum64(values), (qx + 1) * n - 1, n);
    assert((qx + 1) * n - 1 == qx * n + (n - 1)) by (nonlinear_arith);
    vstd::arithmetic::div_mod::lemma_fundamental_div_mod_converse((qx + 1) * n - 1, n, qx, n - 1);
}

} // verus!
