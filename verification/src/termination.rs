//! Termination criteria: maximum generations, maximum time, minimal
//! coefficient of variation, and their short-circuit-free disjunction.

use vstd::prelude::*;

use crate::common::Cost;

verus! {

/// What a termination criterion observes on one tick.
#[derive(Clone, Copy, PartialEq, Eq, Structural, Debug)]
pub struct TerminationInput {
    /// Generation number of the tick.
    pub generation: u64,
    /// Seconds elapsed since the evolution started.
    pub elapsed_secs: u64,
    /// Timestamp of the tick in seconds.
    pub now_secs: u64,
    /// Fitness of the best individual.
    pub best_fitness: Cost,
    /// Solution value referenced by a criterion's key, when one is kept.
    pub keyed_value: Option<Cost>,
}

/// How a variation criterion collects its observations.
#[derive(Clone, Copy, PartialEq, Eq, Structural, Debug)]
pub enum VariationInterval {
    /// Keep the last `n` observations.
    Sample(usize),
    /// Keep the observations of the last `n` seconds.
    Period(u64),
}

/// Terminates when the coefficient of variation of the observed fitness
/// drops below `threshold_num / threshold_den`.
#[derive(Clone, Debug)]
pub struct MinVariation {
    /// How observations are collected.
    pub interval: VariationInterval,
    /// Threshold numerator.
    pub threshold_num: i64,
    /// Threshold denominator.
    pub threshold_den: i64,
    /// Whether the population-wide best fitness is observed, rather than
    /// the keyed solution value.
    pub is_global: bool,
    /// The state key of the observed solution value.
    pub key: i32,
    /// Collected observations: `(timestamp, value)`.
    pub observations: Vec<(u64, Cost)>,
}

impl MinVariation {
    /// A variation criterion over the last `sample` observations.
    pub fn new_with_sample(
        sample: usize,
        threshold_num: i64,
        threshold_den: i64,
        is_global: bool,
        key: i32,
    ) -> (r: MinVariation)
        ensures
            r.interval == VariationInterval::Sample(sample),
            r.threshold_num == threshold_num,
            r.threshold_den == threshold_den,
            r.is_global == is_global,
            r.key == key,
            r.observations@.len() == 0,
    {
        MinVariation {
            interval: VariationInterval::Sample(sample),
            threshold_num,
            threshold_den,
            is_global,
            key,
            observations: Vec::new(),
        }
    }

    /// A variation criterion over the observations of the last `period`
    /// seconds.
    pub fn new_with_period(
        period: u64,
        threshold_num: i64,
        threshold_den: i64,
        is_global: bool,
        key: i32,
    ) -> (r: MinVariation)
        ensures
            r.interval == VariationInterval::Period(period),
            r.threshold_num == threshold_num,
            r.threshold_den == threshold_den,
            r.is_global == is_global,
            r.key == key,
            r.observations@.len() == 0,
    {
        MinVariation {
            interval: VariationInterval::Period(period),
            threshold_num,
            threshold_den,
            is_global,
            key,
            observations: Vec::new(),
        }
    }

    /// The value this criterion observes on a tick.
    pub open spec fn spec_observed(&self, input: TerminationInput) -> Cost {
        if self.is_global {
            input.best_fitness
        } else {
            match input.keyed_value {
                Some(v) => v,
                None => input.best_fitness,
            }
        }
    }
}

/// The stored state of a variation criterion is small enough that the
/// exact variation comparison stays inside `i128`; ticking a criterion
/// preserves this.
pub open spec fn variation_state_ok(t: MinVariation) -> bool {
    &&& 0 < t.threshold_den <= 1000000
    &&& 0 <= t.threshold_num <= 1000000
    &&& forall|i: int|
        0 <= i < t.observations@.len() ==> -16777216 <= (#[trigger] t.observations@[i]).1
            <= 16777216
    &&& match t.interval {
        VariationInterval::Sample(n) => 0 < n <= 1024 && t.observations@.len() <= n,
        VariationInterval::Period(_) => t.observations@.len() <= 1023,
    }
}

/// A variation criterion's state and the tick's observation are small
/// enough to evaluate exactly.
pub open spec fn variation_input_wf(t: MinVariation, input: TerminationInput) -> bool {
    &&& variation_state_ok(t)
    &&& -16777216 <= t.spec_observed(input) <= 16777216
}

/// Sum of the observed values of a window.
pub open spec fn obs_sum(s: Seq<(u64, Cost)>) -> int
    decreases s.len(),
{
    if s.len() == 0 {
        0
    } else {
        obs_sum(s.drop_last()) + s.last().1
    }
}

/// Sum of the squared observed values of a window.
pub open spec fn obs_sum_sq(s: Seq<(u64, Cost)>) -> int
    decreases s.len(),
{
    if s.len() == 0 {
        0
    } else {
        obs_sum_sq(s.drop_last()) + s.last().1 * s.last().1
    }
}

/// The exact termination condition on a full window: with `k` values of
/// sum `S` and square sum `Q`, the coefficient of variation is below the
/// threshold `n/d` exactly when `(k*Q - S*S) * d*d < n*n * S*S`, and a
/// window of identical values (variance zero) always terminates when the
/// sum is non-zero.
pub open spec fn spec_variation_below(window: Seq<(u64, Cost)>, num: int, den: int) -> bool {
    let k = window.len() as int;
    let s = obs_sum(window);
    let q = obs_sum_sq(window);
    if s == 0 {
        k * q == 0
    } else {
        (k * q - s * s) * den * den < num * num * (s * s)
    }
}

/// One termination criterion.
#[derive(Clone, Debug)]
pub enum Termination {
    /// True when the tick's generation reaches the limit.
    MaxGeneration(u64),
    /// True when the elapsed seconds exceed the limit.
    MaxTime(u64),
    /// True when the observed variation drops below the threshold.
    MinVariation(MinVariation),
}

/// Whether an observation falls in the period window ending now.
pub open spec fn in_period(o: (u64, Cost), p: u64, now: u64) -> bool {
    o.0 + p >= now && o.0 <= now
}

/// The observations of a sequence that fall in the period window, in
/// order.
pub open spec fn period_filter(s: Seq<(u64, Cost)>, p: u64, now: u64) -> Seq<(u64, Cost)>
    decreases s.len(),
{
    if s.len() == 0 {
        Seq::empty()
    } else {
        let rest = period_filter(s.drop_last(), p, now);
        if in_period(s.last(), p, now) {
            rest.push(s.last())
        } else {
            rest
        }
    }
}

/// The window a variation criterion evaluates after recording a tick.
pub open spec fn spec_window(t: MinVariation, input: TerminationInput) -> Seq<(u64, Cost)> {
    let all = t.observations@.push((input.now_secs, t.spec_observed(input)));
    match t.interval {
        VariationInterval::Sample(n) => if all.len() >= n {
            all.subrange(all.len() - n, all.len() as int)
        } else {
            all
        },
        VariationInterval::Period(p) => {
            let f = period_filter(all, p, input.now_secs);
            if f.len() > 1023 {
                f.subrange(f.len() - 1023, f.len() as int)
            } else {
                f
            }
        },
    }
}

/// Whether one criterion terminates on a tick (after it recorded the
/// tick's observation).
pub open spec fn spec_terminated(t: Termination, input: TerminationInput) -> bool {
    match t {
        Termination::MaxGeneration(n) => input.generation >= n,
        Termination::MaxTime(secs) => input.elapsed_secs > secs,
        Termination::MinVariation(v) => {
            let w = spec_window(v, input);
            match v.interval {
                VariationInterval::Sample(n) => w.len() >= n && spec_variation_below(
                    w,
                    v.threshold_num as int,
                    v.threshold_den as int,
                ),
                VariationInterval::Period(_) => w.len() >= 2 && spec_variation_below(
                    w,
                    v.threshold_num as int,
                    v.threshold_den as int,
                ),
            }
        },
    }
}

impl Termination {
    /// Whether the criterion's stored state is small enough to evaluate.
    pub open spec fn wf_for(&self, input: TerminationInput) -> bool {
        match self {
            Termination::MinVariation(v) => variation_input_wf(*v, input),
            _ => true,
        }
    }

    /// One criterion's stored state stays small across ticks.
    pub open spec fn state_ok(&self) -> bool {
        match self {
            Termination::MinVariation(v) => variation_state_ok(*v),
            _ => true,
        }
    }

    /// Ticks the criterion: records the observation (for a stateful
    /// criterion) and reports whether it terminates the search.
    pub fn is_termination(&mut self, input: &TerminationInput) -> (r: bool)
        requires
            old(self).wf_for(*input),
        ensures
            final(self).state_ok(),
            r == spec_terminated(*old(self), *input),
            match (*old(self), *final(self)) {
                (Termination::MinVariation(v0), Termination::MinVariation(v1)) => {
                    &&& v1.interval == v0.interval
                    &&& v1.threshold_num == v0.threshold_num
                    &&& v1.threshold_den == v0.threshold_den
                    &&& v1.is_global == v0.is_global
                    &&& v1.key == v0.key
                    &&& v1.observations@ == spec_window(v0, *input)
                },
                (t0, t1) => t0 == t1,
            },
    {
        match self {
            Termination::MaxGeneration(n) => input.generation >= *n,
            Termination::MaxTime(secs) => input.elapsed_secs > *secs,
            Termination::MinVariation(v) => v.check_variation(input),
        }
    }
}

impl MinVariation {
    /// Records the tick's observation, trims the window, and decides.
    fn check_variation(&mut self, input: &TerminationInput) -> (r: bool)
        requires
            variation_input_wf(*old(self), *input),
        ensures
            final(self).interval == old(self).interval,
            final(self).threshold_num == old(self).threshold_num,
            final(self).threshold_den == old(self).threshold_den,
            final(self).is_global == old(self).is_global,
            final(self).key == old(self).key,
            final(self).observations@ == spec_window(*old(self), *input),
            variation_state_ok(*final(self)),
            r == spec_terminated(Termination::MinVariation(*old(self)), *input),
    {
        let observed: Cost = if self.is_global {
            input.best_fitness
        } else {
            match input.keyed_value {
                Some(v) => v,
                None => input.best_fitness,
            }
        };
        self.observations.push((input.now_secs, observed));
        let ghost all = self.observations@;
        let enough: bool;
        match &self.interval {
            VariationInterval::Sample(n) => {
                let n = *n;
                if self.observations.len() >= n {
                    let mut trimmed: Vec<(u64, Cost)> = Vec::new();
                    let start = self.observations.len() - n;
                    let mut i: usize = start;
                    while i < self.observations.len()
                        invariant
                            all == self.observations@,
                            start + n == self.observations@.len(),
                            start <= i <= self.observations@.len(),
                            forall|j: int|
                                0 <= j < all.len() ==> -16777216 <= (#[trigger] all[j]).1
                                    <= 16777216,
                            trimmed@ =~= self.observations@.subrange(start as int, i as int),
                        decreases self.observations@.len() - i,
                    {
                        trimmed.push(self.observations[i]);
                        proof {
                            assert(trimmed@ =~= self.observations@.subrange(start as int, i + 1));
                        }
                        i = i + 1;
                    }
                    self.observations = trimmed;
                    enough = true;
                } else {
                    enough = false;
                }
            },
            VariationInterval::Period(p) => {
                let p = *p;
                let mut trimmed: Vec<(u64, Cost)> = Vec::new();
                let mut i: usize = 0;
                while i < self.observations.len()
                    invariant
                        all == self.observations@,
                        0 <= i <= all.len(),
                        forall|j: int|
                            0 <= j < all.len() ==> -16777216 <= (#[trigger] all[j]).1 <= 16777216,
                        trimmed@ == period_filter(
                            all.subrange(0, i as int),
                            p,
                            input.now_secs,
                        ),
                        trimmed@.len() <= i,
                        forall|j: int|
                            0 <= j < trimmed@.len() ==> -16777216 <= (#[trigger] trimmed@[j]).1
                                <= 16777216,
                    decreases all.len() - i,
                {
                    let o = self.observations[i];
                    proof {
                        assert(all.subrange(0, i + 1).drop_last() =~= all.subrange(0, i as int));
                        assert(all.subrange(0, i + 1).last() == all[i as int]);
                    }
                    if (o.0 as u128) + (p as u128) >= (input.now_secs as u128) && o.0
                        <= input.now_secs {
                        trimmed.push(o);
                    }
                    i = i + 1;
                }
                proof {
                    assert(all.subrange(0, all.len() as int) =~= all);
                }
                if trimmed.len() > 1023 {
                    let ghost full = trimmed@;
                    let start = trimmed.len() - 1023;
                    let mut capped: Vec<(u64, Cost)> = Vec::new();
                    let mut j: usize = start;
                    while j < trimmed.len()
                        invariant
                            full == trimmed@,
                            start + 1023 == full.len(),
                            start <= j <= full.len(),
                            capped@ =~= full.subrange(start as int, j as int),
                            forall|t: int|
                                0 <= t < full.len() ==> -16777216 <= (#[trigger] full[t]).1
                                    <= 16777216,
                        decreases full.len() - j,
                    {
                        capped.push(trimmed[j]);
                        proof {
                            assert(capped@ =~= full.subrange(start as int, j + 1));
                        }
                        j = j + 1;
                    }
                    trimmed = capped;
                }
                enough = trimmed.len() >= 2;
                self.observations = trimmed;
            },
        }
        if !enough {
            return false;
        }
        self.variation_below()
    }

    /// Decides the exact variation comparison on the kept window.
    fn variation_below(&self) -> (r: bool)
        requires
            self.observations@.len() <= 2048,
            0 < self.threshold_den <= 1000000,
            0 <= self.threshold_num <= 1000000,
            forall|i: int|
                0 <= i < self.observations@.len() ==> -16777216 <= (
                #[trigger] self.observations@[i]).1 <= 16777216,
        ensures
            r == spec_variation_below(
                self.observations@,
                self.threshold_num as int,
                self.threshold_den as int,
            ),
    {
        let ghost w = self.observations@;
        let mut s: i64 = 0;
        let mut q: i64 = 0;
        let mut i: usize = 0;
        while i < self.observations.len()
            invariant
                w == self.observations@,
                0 <= i <= w.len(),
                w.len() <= 2048,
                forall|j: int| 0 <= j < w.len() ==> -16777216 <= (#[trigger] w[j]).1 <= 16777216,
                s as int == obs_sum(w.subrange(0, i as int)),
                q as int == obs_sum_sq(w.subrange(0, i as int)),
                -16777216 * (i as int) <= s <= 16777216 * (i as int),
                0 <= q <= 281474976710656 * (i as int),
            decreases w.len() - i,
        {
            let x = self.observations[i].1;
            proof {
                assert(w.subrange(0, i + 1).drop_last() =~= w.subrange(0, i as int));
                assert(w.subrange(0, i + 1).last() == w[i as int]);
                assert(x * x <= 281474976710656 && 0 <= x * x) by (nonlinear_arith)
                    requires
                        -16777216 <= x <= 16777216,
                ;
            }
            s = s + x;
            q = q + x * x;
            i = i + 1;
        }
        proof {
            assert(w.subrange(0, w.len() as int) =~= w);
        }
        let k: i64 = self.observations.len() as i64;
        let sw: i128 = s as i128;
        let qw: i128 = q as i128;
        let kw: i128 = k as i128;
        let den: i128 = self.threshold_den as i128;
        let num: i128 = self.threshold_num as i128;
        proof {
            assert(0 <= kw * qw <= 0x40000000000000000000int && 0 <= sw * sw
                <= 0x40000000000000000000int) by (nonlinear_arith)
                requires
                    0 <= kw <= 2048,
                    0 <= qw <= 576460752303423488,
                    -34359738368 <= sw <= 34359738368,
            ;
        }
        if sw == 0 {
            kw * qw == 0
        } else {
            let var_term: i128 = kw * qw - sw * sw;
            proof {
                assert({
                    let l = var_term * den * den;
                    let rr = num * num * (sw * sw);
                    -0x100000000000000000000000000000000int / 4 < l
                        < 0x100000000000000000000000000000000int / 4
                        && -0x100000000000000000000000000000000int / 4 < rr
                        < 0x100000000000000000000000000000000int / 4
                        && -0x100000000000000000000000000000000int / 4 < var_term * den
                        < 0x100000000000000000000000000000000int / 4 && 0 <= num * num
                        <= 1000000000000
                }) by (nonlinear_arith)
                    requires
                        -0x80000000000000000000int <= var_term <= 0x80000000000000000000int,
                        0 < den <= 1000000,
                        0 <= num <= 1000000,
                        0 <= sw * sw <= 0x40000000000000000000int,
                ;
            }
            let lhs: i128 = var_term * den * den;
            let rhs: i128 = num * num * (sw * sw);
            lhs < rhs
        }
    }
}

/// One child was ticked: a stateless criterion is unchanged, and a
/// variation criterion keeps its parameters and now holds the evaluated
/// window as its observations — the tick's sample was received.
pub open spec fn spec_child_ticked(t0: Termination, t1: Termination, input: TerminationInput) -> bool {
    match (t0, t1) {
        (Termination::MinVariation(v0), Termination::MinVariation(v1)) => {
            &&& v1.interval == v0.interval
            &&& v1.threshold_num == v0.threshold_num
            &&& v1.threshold_den == v0.threshold_den
            &&& v1.is_global == v0.is_global
            &&& v1.key == v0.key
            &&& v1.observations@ == spec_window(v0, input)
        },
        (a, b) => a == b,
    }
}

/// A composite of termination criteria: it ticks every child (so stateful
/// ones receive their samples) and terminates exactly when some child
/// does.
#[derive(Clone, Debug)]
pub struct CompositeTermination {
    /// The child criteria.
    pub terminations: Vec<Termination>,
}

impl CompositeTermination {
    /// A composite over the given children.
    pub fn new(terminations: Vec<Termination>) -> (r: CompositeTermination)
        ensures
            r.terminations == terminations,
    {
        CompositeTermination { terminations }
    }

    /// Ticks every child and reports whether any of them terminates the
    /// search: the composite is the exact disjunction of its children at
    /// the moment of the call.
    pub fn is_termination(&mut self, input: &TerminationInput) -> (r: bool)
        requires
            forall|i: int|
                0 <= i < old(self).terminations@.len() ==> (
                #[trigger] old(self).terminations@[i]).wf_for(*input),
        ensures
            r == exists|i: int|
                0 <= i < old(self).terminations@.len() && spec_terminated(
                    #[trigger] old(self).terminations@[i],
                    *input,
                ),
            final(self).terminations@.len() == old(self).terminations@.len(),
            forall|i: int|
                0 <= i < final(self).terminations@.len() ==> (
                #[trigger] final(self).terminations@[i]).state_ok(),
            forall|i: int|
                0 <= i < old(self).terminations@.len() ==> spec_child_ticked(
                    old(self).terminations@[i],
                    #[trigger] final(self).terminations@[i],
                    *input,
                ),
    {
        let ghost t0 = self.terminations@;
        let mut result = false;
        let mut i: usize = 0;
        while i < self.terminations.len()
            invariant
                t0.len() == self.terminations@.len(),
                0 <= i <= t0.len(),
                forall|j: int|
                    i <= j < t0.len() ==> #[trigger] self.terminations@[j] == t0[j],
                forall|j: int| i <= j < t0.len() ==> (#[trigger] t0[j]).wf_for(*input),
                forall|j: int|
                    0 <= j < i ==> (#[trigger] self.terminations@[j]).state_ok(),
                forall|j: int|
                    0 <= j < i ==> spec_child_ticked(
                        t0[j],
                        #[trigger] self.terminations@[j],
                        *input,
                    ),
                result == exists|j: int| 0 <= j < i && spec_terminated(#[trigger] t0[j], *input),
            decreases t0.len() - i,
        {
            let mut t = self.terminations.remove(i);
            let ghost tpre = t;
            let one = t.is_termination(input);
            self.terminations.insert(i, t);
            proof {
                assert(tpre == t0[i as int]);
            }
            if one {
                result = true;
            }
            proof {
                assert(forall|j: int|
                    i + 1 <= j < t0.len() ==> #[trigger] self.terminations@[j] == t0[j]);
            }
            i = i + 1;
        }
        result
    }
}

} // verus!
