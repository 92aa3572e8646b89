//! Objectives: a generic value-based constraint/objective pair, work
//! balancing built on it, and the total transport cost of a solution.

use vstd::prelude::*;

use crate::common::Cost;
use crate::contexts::{RouteContext, SolutionContext};
use crate::problem::{Job, TransportCost, TransportPayload};
use crate::state::{
    BALANCE_ACTIVITY_KEY, BALANCE_DISTANCE_KEY, BALANCE_DURATION_KEY, BALANCE_MAX_LOAD_KEY,
};

verus! {

/// Where a generic value objective reads its per-route value from.
#[derive(Clone, Copy, PartialEq, Eq, Structural, Debug)]
pub enum ValueSource {
    /// Number of job activities of the route.
    ActivityCount,
    /// The route's total distance state value.
    TransportDistance,
    /// The route's total duration state value.
    TransportDuration,
    /// The route's max load in parts per thousand of the capacity. The
    /// stored max-load ratio equals the largest per-interval max-future
    /// load over the capacity: by the capacity recalculation's contract,
    /// the ratio's numerator is the maximum of the current load over all
    /// activities, which the max-future value at each interval start
    /// attains interval by interval.
    MaxLoadShare,
}

/// The per-route value a source reads, zero when the state does not hold
/// it yet.
pub open spec fn spec_route_value(source: ValueSource, rc: RouteContext) -> int {
    match source {
        ValueSource::ActivityCount => rc.route.tour.spec_job_activity_count(),
        ValueSource::TransportDistance => match rc.state.total_distance {
            Some(d) => d as int,
            None => 0,
        },
        ValueSource::TransportDuration => match rc.state.total_duration {
            Some(d) => d as int,
            None => 0,
        },
        ValueSource::MaxLoadShare => match rc.state.max_load {
            Some(r) => if r.den > 0 && r.num >= 0 {
                r.num * 1000 / r.den as int
            } else {
                0
            },
            None => 0,
        },
    }
}

/// A constraint module that keeps one solution-wide value up to date under
/// a well-known state key.
#[derive(Clone, Copy, PartialEq, Eq, Structural, Debug)]
pub struct GenericValueConstraint {
    /// The state key the value is kept under.
    pub state_key: i32,
    /// Where the per-route value comes from.
    pub source: ValueSource,
    /// Values at or below this threshold cost nothing.
    pub threshold: Option<Cost>,
}

/// The objective half of a generic value pair.
#[derive(Clone, Copy, PartialEq, Eq, Structural, Debug)]
pub struct GenericValueObjective {
    /// The state key the value is read from.
    pub state_key: i32,
    /// Where the per-route value comes from.
    pub source: ValueSource,
    /// Fitness pairs at or below this threshold compare equal.
    pub threshold: Option<Cost>,
}

/// A helper for building value-based objective functions.
pub struct GenericValue {}

impl GenericValue {
    /// Creates a constraint and the objective tied to the same state key,
    /// value source and threshold.
    pub fn new_constrained_objective(
        threshold: Option<Cost>,
        source: ValueSource,
        state_key: i32,
    ) -> (r: (GenericValueConstraint, GenericValueObjective))
        ensures
            r.0 == (GenericValueConstraint { state_key, source, threshold }),
            r.1 == (GenericValueObjective { state_key, source, threshold }),
    {
        (
            GenericValueConstraint { state_key, source, threshold },
            GenericValueObjective { state_key, source, threshold },
        )
    }
}

impl GenericValueConstraint {
    /// The single state key this module owns.
    pub fn state_keys(&self) -> (r: Vec<i32>)
        ensures
            r@ == seq![self.state_key],
    {
        let mut v: Vec<i32> = Vec::new();
        v.push(self.state_key);
        proof {
            assert(v@ =~= seq![self.state_key]);
        }
        v
    }

    /// Job merging imposes no value constraint: the source job is kept.
    pub fn merge(&self, source: Job, _candidate: Job) -> (r: Result<Job, i32>)
        ensures
            r == Result::<Job, i32>::Ok(source),
    {
        Ok(source)
    }

    /// Recomputes the route value this module owns and stores it under its
    /// key; everything else is unchanged.
    pub fn accept_route_state(&self, ctx: &mut RouteContext)
        requires
            -1000000000000 <= spec_route_value(self.source, *old(ctx)) <= 1000000000000,
        ensures
            final(ctx).route == old(ctx).route,
            final(ctx).stale == old(ctx).stale,
            final(ctx).state.generic_values@ == old(ctx).state.generic_values@.insert(
                self.state_key,
                spec_route_value(self.source, *old(ctx)) as i64,
            ),
            final(ctx).state.current_capacities == old(ctx).state.current_capacities,
            final(ctx).state.max_past_capacities == old(ctx).state.max_past_capacities,
            final(ctx).state.max_future_capacities == old(ctx).state.max_future_capacities,
            final(ctx).state.max_load == old(ctx).state.max_load,
            final(ctx).state.reload_intervals == old(ctx).state.reload_intervals,
            final(ctx).state.reload_resources == old(ctx).state.reload_resources,
            final(ctx).state.recharge_distances == old(ctx).state.recharge_distances,
            final(ctx).state.recharge_intervals == old(ctx).state.recharge_intervals,
            final(ctx).state.total_distance == old(ctx).state.total_distance,
            final(ctx).state.total_duration == old(ctx).state.total_duration,
    {
        let value = route_value(self.source, ctx);
        ctx.state.generic_values.insert(self.state_key, value);
    }

    /// Stores the solution-wide balance value: the squared coefficient of
    /// variation of the route values, in parts per million, clamped into
    /// the cost range.
    #[verifier::rlimit(50)]
    pub fn accept_solution_state(&self, ctx: &mut SolutionContext)
        requires
            old(ctx).routes@.len() <= 4096,
            forall|i: int|
                0 <= i < old(ctx).routes@.len() ==> -1000000000 <= spec_route_value(
                    self.source,
                    #[trigger] old(ctx).routes@[i],
                ) <= 1000000000,
        ensures
            final(ctx).state@ == old(ctx).state@.insert(
                self.state_key,
                clamp_cost(spec_solution_variation(self.source, old(ctx).routes@)) as i64,
            ),
            final(ctx).routes == old(ctx).routes,
            final(ctx).unassigned == old(ctx).unassigned,
            final(ctx).required == old(ctx).required,
            final(ctx).ignored == old(ctx).ignored,
            final(ctx).locked == old(ctx).locked,
    {
        let value = solution_variation(self.source, ctx);
        ctx.state.insert(self.state_key, value);
    }
}

/// Computes the solution-wide balance value of a context, clamped into
/// the cost range.
#[verifier::rlimit(50)]
pub fn solution_variation(source: ValueSource, ctx: &SolutionContext) -> (r: Cost)
    requires
        ctx.routes@.len() <= 4096,
        forall|i: int|
            0 <= i < ctx.routes@.len() ==> -1000000000 <= spec_route_value(
                source,
                #[trigger] ctx.routes@[i],
            ) <= 1000000000,
    ensures
        r as int == clamp_cost(spec_solution_variation(source, ctx.routes@)),
{
    let ghost routes = ctx.routes@;
    let mut sum: i128 = 0;
    let mut sum_sq: i128 = 0;
    let mut i: usize = 0;
    while i < ctx.routes.len()
        invariant
            routes == ctx.routes@,
            0 <= i <= routes.len(),
            routes.len() <= 4096,
            forall|j: int|
                0 <= j < routes.len() ==> -1000000000 <= spec_route_value(
                    source,
                    #[trigger] routes[j],
                ) <= 1000000000,
            sum == spec_route_values_sum(source, routes, i as int),
            sum_sq == spec_route_values_sum_sq(source, routes, i as int),
            -1000000000 * (i as int) <= sum <= 1000000000 * (i as int),
            0 <= sum_sq <= 1000000000000000000 * (i as int),
        decreases routes.len() - i,
    {
        let v = route_value(source, &ctx.routes[i]);
        let vw = v as i128;
        proof {
            assert(0 <= vw * vw <= 1000000000000000000int) by (nonlinear_arith)
                requires
                    -1000000000 <= vw <= 1000000000,
            ;
        }
        sum = sum + vw;
        sum_sq = sum_sq + vw * vw;
        i = i + 1;
    }
    let k: i128 = ctx.routes.len() as i128;
    proof {
        assert({
            &&& -20000000000000000000000000int <= k * sum_sq <= 20000000000000000000000000int
            &&& 0 <= sum * sum <= 20000000000000000000000000int
            &&& (sum != 0 ==> sum * sum >= 1)
        }) by (nonlinear_arith)
            requires
                0 <= k <= 4096,
                0 <= sum_sq <= 4096000000000000000000,
                -4096000000000 <= sum <= 4096000000000,
        ;
    }
    let d: i128 = k * sum_sq - sum * sum;
    if sum == 0 || d <= 0 {
        0
    } else {
        let scaled: i128 = d * 1000000;
        let value: i128 = scaled / (sum * sum);
        proof {
            vstd::arithmetic::div_mod::lemma_div_pos_is_pos(scaled as int, (sum * sum) as int);
        }
        if value > i64::MAX as i128 {
            i64::MAX
        } else {
            value as i64
        }
    }
}

/// Sum of the route values of the first `n` routes.
pub open spec fn spec_route_values_sum(
    source: ValueSource,
    routes: Seq<RouteContext>,
    n: int,
) -> int
    decreases n,
{
    if n <= 0 {
        0
    } else {
        spec_route_values_sum(source, routes, n - 1) + spec_route_value(source, routes[n - 1])
    }
}

/// Sum of the squared route values of the first `n` routes.
pub open spec fn spec_route_values_sum_sq(
    source: ValueSource,
    routes: Seq<RouteContext>,
    n: int,
) -> int
    decreases n,
{
    if n <= 0 {
        0
    } else {
        spec_route_values_sum_sq(source, routes, n - 1) + spec_route_value(source, routes[n - 1])
            * spec_route_value(source, routes[n - 1])
    }
}

/// The solution-wide balance value: the squared coefficient of variation
/// of the route values, in parts per million. With `k` routes of value
/// sum `S` and square sum `Q`, the squared coefficient of variation is
/// `(k*Q - S*S) / (S*S)`; a zero sum or zero variance yields zero. The
/// square keeps the comparison exact in integers; a threshold on this
/// value therefore lives in squared units: a coefficient of variation of
/// one tenth corresponds to ten thousand parts per million.
pub open spec fn spec_solution_variation(source: ValueSource, routes: Seq<RouteContext>) -> int {
    let k = routes.len() as int;
    let s = spec_route_values_sum(source, routes, k);
    let q = spec_route_values_sum_sq(source, routes, k);
    let d = k * q - s * s;
    if s == 0 || d <= 0 {
        0
    } else {
        d * 1000000 / (s * s)
    }
}

/// Reads the per-route value of a source.
pub fn route_value(source: ValueSource, rc: &RouteContext) -> (r: i64)
    requires
        -1000000000000 <= spec_route_value(source, *rc) <= 1000000000000,
    ensures
        r as int == spec_route_value(source, *rc),
{
    match source {
        ValueSource::ActivityCount => {
            let c = rc.route.tour.job_activity_count();
            c as i64
        },
        ValueSource::TransportDistance => match &rc.state.total_distance {
            Some(d) => *d,
            None => 0,
        },
        ValueSource::TransportDuration => match &rc.state.total_duration {
            Some(d) => *d,
            None => 0,
        },
        ValueSource::MaxLoadShare => match &rc.state.max_load {
            Some(r) => {
                if r.den > 0 && r.num >= 0 {
                    let wide = (r.num as i128) * 1000;
                    let share = wide / (r.den as i128);
                    proof {
                        assert(share == r.num * 1000 / r.den as int);
                    }
                    share as i64
                } else {
                    0
                }
            },
            None => 0,
        },
    }
}

impl GenericValueObjective {
    /// The fitness of a solution: the stored solution value when present,
    /// else the balance value computed from the context itself.
    pub fn fitness(&self, ctx: &SolutionContext) -> (r: Cost)
        requires
            ctx.routes@.len() <= 4096,
            forall|i: int|
                0 <= i < ctx.routes@.len() ==> -1000000000 <= spec_route_value(
                    self.source,
                    #[trigger] ctx.routes@[i],
                ) <= 1000000000,
        ensures
            r == self.spec_fitness(*ctx),
    {
        match ctx.state.get(self.state_key) {
            Some(v) => v,
            None => solution_variation(self.source, ctx),
        }
    }

    /// The fitness of a solution as a spec value: the stored value, or the
    /// clamped balance value of the context when none was stored.
    pub open spec fn spec_fitness(&self, ctx: SolutionContext) -> Cost {
        if ctx.state@.dom().contains(self.state_key) {
            ctx.state@[self.state_key]
        } else {
            clamp_cost(spec_solution_variation(self.source, ctx.routes@)) as i64
        }
    }

    /// Total order of two solutions under this objective: below the
    /// threshold both compare equal; otherwise by fitness.
    pub fn total_order(&self, a: &SolutionContext, b: &SolutionContext) -> (r: core::cmp::Ordering)
        requires
            a.routes@.len() <= 4096,
            b.routes@.len() <= 4096,
            forall|i: int|
                0 <= i < a.routes@.len() ==> -1000000000 <= spec_route_value(
                    self.source,
                    #[trigger] a.routes@[i],
                ) <= 1000000000,
            forall|i: int|
                0 <= i < b.routes@.len() ==> -1000000000 <= spec_route_value(
                    self.source,
                    #[trigger] b.routes@[i],
                ) <= 1000000000,
        ensures
            r == self.spec_total_order(*a, *b),
    {
        let fa = self.fitness(a);
        let fb = self.fitness(b);
        match self.threshold {
            Some(t) => {
                if fa < t && fb < t {
                    core::cmp::Ordering::Equal
                } else if fa < t {
                    core::cmp::Ordering::Less
                } else if fb < t {
                    core::cmp::Ordering::Greater
                } else if fa < fb {
                    core::cmp::Ordering::Less
                } else if fa == fb {
                    core::cmp::Ordering::Equal
                } else {
                    core::cmp::Ordering::Greater
                }
            },
            None => {
                if fa < fb {
                    core::cmp::Ordering::Less
                } else if fa == fb {
                    core::cmp::Ordering::Equal
                } else {
                    core::cmp::Ordering::Greater
                }
            },
        }
    }

    /// The total order as a spec value.
    pub open spec fn spec_total_order(&self, a: SolutionContext, b: SolutionContext) -> core::cmp::Ordering {
        let fa = self.spec_fitness(a);
        let fb = self.spec_fitness(b);
        match self.threshold {
            Some(t) => if fa < t && fb < t {
                core::cmp::Ordering::Equal
            } else if fa < t {
                core::cmp::Ordering::Less
            } else if fb < t {
                core::cmp::Ordering::Greater
            } else if fa < fb {
                core::cmp::Ordering::Less
            } else if fa == fb {
                core::cmp::Ordering::Equal
            } else {
                core::cmp::Ordering::Greater
            },
            None => if fa < fb {
                core::cmp::Ordering::Less
            } else if fa == fb {
                core::cmp::Ordering::Equal
            } else {
                core::cmp::Ordering::Greater
            },
        }
    }

    /// Soft route cost of an insertion: the route value when it exceeds
    /// the threshold, zero otherwise. The value is charged raw: scaling
    /// it by the solution's maximum cost would need the cost model's
    /// maximum-cost oracle, which is no part of this crate, so thresholds
    /// and estimates are compared in the route value's own unit.
    pub fn estimate_job(&self, rc: &RouteContext) -> (r: Cost)
        requires
            -1000000000000 <= spec_route_value(self.source, *rc) <= 1000000000000,
        ensures
            r as int == if (match self.threshold {
                Some(t) => spec_route_value(self.source, *rc) > t,
                None => true,
            }) {
                spec_route_value(self.source, *rc)
            } else {
                0
            },
    {
        let value = route_value(self.source, rc);
        let above = match self.threshold {
            Some(t) => value > t,
            None => true,
        };
        if above {
            value
        } else {
            0
        }
    }
}

/// A type which provides the functionality needed to balance work across
/// all routes.
pub struct WorkBalance {}

impl WorkBalance {
    /// A pair which balances max load across all tours.
    pub fn new_load_balanced(threshold: Option<Cost>) -> (r: (
        GenericValueConstraint,
        GenericValueObjective,
    ))
        ensures
            r.0 == (GenericValueConstraint {
                state_key: BALANCE_MAX_LOAD_KEY,
                source: ValueSource::MaxLoadShare,
                threshold,
            }),
            r.1 == (GenericValueObjective {
                state_key: BALANCE_MAX_LOAD_KEY,
                source: ValueSource::MaxLoadShare,
                threshold,
            }),
    {
        GenericValue::new_constrained_objective(
            threshold,
            ValueSource::MaxLoadShare,
            BALANCE_MAX_LOAD_KEY,
        )
    }

    /// A pair which balances job activity counts across all tours.
    pub fn new_activity_balanced(threshold: Option<Cost>) -> (r: (
        GenericValueConstraint,
        GenericValueObjective,
    ))
        ensures
            r.0 == (GenericValueConstraint {
                state_key: BALANCE_ACTIVITY_KEY,
                source: ValueSource::ActivityCount,
                threshold,
            }),
            r.1 == (GenericValueObjective {
                state_key: BALANCE_ACTIVITY_KEY,
                source: ValueSource::ActivityCount,
                threshold,
            }),
    {
        GenericValue::new_constrained_objective(
            threshold,
            ValueSource::ActivityCount,
            BALANCE_ACTIVITY_KEY,
        )
    }

    /// A pair which balances travelled distances across all tours.
    pub fn new_distance_balanced(threshold: Option<Cost>) -> (r: (
        GenericValueConstraint,
        GenericValueObjective,
    ))
        ensures
            r.0 == (GenericValueConstraint {
                state_key: BALANCE_DISTANCE_KEY,
                source: ValueSource::TransportDistance,
                threshold,
            }),
            r.1 == (GenericValueObjective {
                state_key: BALANCE_DISTANCE_KEY,
                source: ValueSource::TransportDistance,
                threshold,
            }),
    {
        Self::new_transport_balanced(threshold, ValueSource::TransportDistance, BALANCE_DISTANCE_KEY)
    }

    /// A pair which balances travelled durations across all tours.
    pub fn new_duration_balanced(threshold: Option<Cost>) -> (r: (
        GenericValueConstraint,
        GenericValueObjective,
    ))
        ensures
            r.0 == (GenericValueConstraint {
                state_key: BALANCE_DURATION_KEY,
                source: ValueSource::TransportDuration,
                threshold,
            }),
            r.1 == (GenericValueObjective {
                state_key: BALANCE_DURATION_KEY,
                source: ValueSource::TransportDuration,
                threshold,
            }),
    {
        Self::new_transport_balanced(threshold, ValueSource::TransportDuration, BALANCE_DURATION_KEY)
    }

    /// A pair balancing one of the transport state values.
    fn new_transport_balanced(
        threshold: Option<Cost>,
        source: ValueSource,
        memory_state_key: i32,
    ) -> (r: (GenericValueConstraint, GenericValueObjective))
        ensures
            r.0 == (GenericValueConstraint { state_key: memory_state_key, source, threshold }),
            r.1 == (GenericValueObjective { state_key: memory_state_key, source, threshold }),
    {
        GenericValue::new_constrained_objective(threshold, source, memory_state_key)
    }
}


/// Clamp of a mathematical integer into the cost range.
pub open spec fn clamp_cost(x: int) -> int {
    if x > i64::MAX {
        i64::MAX as int
    } else if x < i64::MIN {
        i64::MIN as int
    } else {
        x
    }
}

/// The duration of the leg between two consecutive activities of a tour.
pub open spec fn spec_leg_duration(
    s: Seq<crate::solution::Activity>,
    tp: TransportPayload,
    profile: usize,
    j: int,
) -> int {
    tp.spec_duration(profile, s[j - 1].place.location, s[j].place.location) as int
}

/// The driving time accumulated over the legs up to activity `j`.
pub open spec fn spec_acc_duration(
    s: Seq<crate::solution::Activity>,
    tp: TransportPayload,
    profile: usize,
    j: int,
) -> int
    decreases j,
{
    if j <= 0 {
        0
    } else {
        spec_acc_duration(s, tp, profile, j - 1) + spec_leg_duration(s, tp, profile, j)
    }
}

/// The serving time of the first `j` activities.
pub open spec fn spec_acc_serving(s: Seq<crate::solution::Activity>, j: int) -> int
    decreases j,
{
    if j <= 0 {
        0
    } else {
        spec_acc_serving(s, j - 1) + s[j - 1].place.duration
    }
}

/// The cost one party (vehicle or driver) charges for a route: the fixed
/// cost, plus the distance at its distance rate, plus the driving, serving
/// and waiting times at their rates.
pub open spec fn spec_party_cost(
    costs: crate::problem::Costs,
    distance: int,
    driving: int,
    serving: int,
    waiting: int,
) -> int {
    costs.fixed + costs.per_distance * distance + costs.per_driving_time * driving
        + costs.per_service_time * serving + costs.per_waiting_time * waiting
}

/// The transport cost of one route: both parties' charges over the
/// route's distance, driving, serving and waiting times, where the
/// waiting time is the schedule span not spent driving or serving.
pub open spec fn spec_route_transport_cost(rc: RouteContext, tp: TransportPayload) -> int {
    let s = rc.route.tour.activities@;
    if s.len() < 2 {
        0
    } else {
        let profile = rc.route.actor.vehicle.profile;
        let distance = crate::recharge::spec_acc_distance(s, tp, profile, 0, s.len() - 1);
        let driving = spec_acc_duration(s, tp, profile, s.len() - 1);
        let serving = spec_acc_serving(s, s.len() as int);
        let span = s.last().schedule.arrival - s.first().schedule.departure;
        let waiting = if span - driving - serving > 0 {
            span - driving - serving
        } else {
            0
        };
        spec_party_cost(rc.route.actor.vehicle.costs, distance, driving, serving, waiting)
            + spec_party_cost(rc.route.actor.driver.costs, distance, driving, serving, waiting)
    }
}

/// The total transport cost of the first `n` routes.
pub open spec fn spec_total_transport_cost(
    routes: Seq<RouteContext>,
    tp: TransportPayload,
    n: int,
) -> int
    decreases n,
{
    if n <= 0 {
        0
    } else {
        spec_total_transport_cost(routes, tp, n - 1) + spec_route_transport_cost(
            routes[n - 1],
            tp,
        )
    }
}

/// Both parties of a route charge small, non-negative rates.
pub open spec fn route_costs_small(rc: RouteContext) -> bool {
    &&& costs_small(rc.route.actor.vehicle.costs)
    &&& costs_small(rc.route.actor.driver.costs)
}

/// All rates of a cost table are non-negative and at most a million, and
/// the fixed cost is non-negative and at most a trillion.
pub open spec fn costs_small(c: crate::problem::Costs) -> bool {
    &&& 0 <= c.fixed <= 1000000000000
    &&& 0 <= c.per_distance <= 1000000
    &&& 0 <= c.per_driving_time <= 1000000
    &&& 0 <= c.per_waiting_time <= 1000000
    &&& 0 <= c.per_service_time <= 1000000
}

/// A route's quantities are small enough for the exact aggregation.
pub open spec fn route_quantities_small(rc: RouteContext, tp: TransportPayload) -> bool {
    let s = rc.route.tour.activities@;
    &&& s.len() <= 1048576
    &&& forall|j: int| 0 <= j < s.len() ==> 0 <= (#[trigger] s[j]).place.duration <= 1000000000
    &&& -1000000000 <= s.first().schedule.departure <= 1000000000
    &&& -1000000000 <= s.last().schedule.arrival <= 1000000000
    &&& tp.wf()
}

/// Sums both parties' transport cost over every route of the solution:
/// distance and driving time come from the transport oracle leg by leg,
/// serving time from the activity durations, waiting time from the
/// schedule span; the result is clamped into the cost range.
pub fn total_transport_cost(ctx: &SolutionContext, transport: &TransportPayload) -> (r: Cost)
    requires
        ctx.routes@.len() <= 1000000,
        forall|i: int|
            0 <= i < ctx.routes@.len() ==> route_costs_small(#[trigger] ctx.routes@[i])
                && route_quantities_small(ctx.routes@[i], *transport),
    ensures
        r as int == clamp_cost(
            spec_total_transport_cost(ctx.routes@, *transport, ctx.routes@.len() as int),
        ),
{
    let ghost routes = ctx.routes@;
    let mut total: i128 = 0;
    let mut i: usize = 0;
    while i < ctx.routes.len()
        invariant
            routes == ctx.routes@,
            0 <= i <= routes.len(),
            routes.len() <= 1000000,
            forall|j: int|
                0 <= j < routes.len() ==> route_costs_small(#[trigger] routes[j])
                    && route_quantities_small(routes[j], *transport),
            total == spec_total_transport_cost(routes, *transport, i as int),
            -30000000000000000000000000 * (i as int) <= total
                <= 30000000000000000000000000 * (i as int),
        decreases routes.len() - i,
    {
        let rc = &ctx.routes[i];
        let cost = route_transport_cost(rc, transport);
        proof {
            assert(spec_total_transport_cost(routes, *transport, i + 1)
                == spec_total_transport_cost(routes, *transport, i as int)
                + spec_route_transport_cost(routes[i as int], *transport));
        }
        total = total + cost;
        i = i + 1;
    }
    if total > i64::MAX as i128 {
        i64::MAX
    } else if total < i64::MIN as i128 {
        i64::MIN
    } else {
        total as i64
    }
}

/// The transport cost of one route, exactly.
fn route_transport_cost(rc: &RouteContext, transport: &TransportPayload) -> (r: i128)
    requires
        route_costs_small(*rc),
        route_quantities_small(*rc, *transport),
    ensures
        r == spec_route_transport_cost(*rc, *transport),
        -30000000000000000000000000 <= r <= 30000000000000000000000000,
{
    let ghost s = rc.route.tour.activities@;
    let total = rc.route.tour.total();
    if total < 2 {
        return 0;
    }
    let profile = rc.route.actor.vehicle.profile;
    let mut distance: i64 = 0;
    let mut driving: i64 = 0;
    let mut serving: i64 = 0;
    let mut j: usize = 1;
    proof {
        lemma_quantity_bounds(s, *transport, profile, 0);
    }
    while j < total
        invariant
            s == rc.route.tour.activities@,
            transport.wf(),
            route_quantities_small(*rc, *transport),
            profile == rc.route.actor.vehicle.profile,
            total == s.len(),
            2 <= total <= 1048576,
            1 <= j <= total,
            distance == crate::recharge::spec_acc_distance(s, *transport, profile, 0, j - 1),
            driving == spec_acc_duration(s, *transport, profile, j - 1),
            serving == spec_acc_serving(s, j - 1),
            0 <= distance <= 1099511627776 * (j - 1),
            0 <= driving <= 1099511627776 * (j - 1),
            0 <= serving <= 1000000000 * (j - 1),
        decreases total - j,
    {
        let prev_loc = rc.route.tour.activities[j - 1].place.location;
        let next_loc = rc.route.tour.activities[j].place.location;
        let departure = rc.route.tour.activities[j - 1].schedule.departure;
        let d = transport.distance(profile, prev_loc, next_loc, departure);
        let t = transport.duration(profile, prev_loc, next_loc, departure);
        let sv = rc.route.tour.activities[j - 1].place.duration;
        proof {
            assert(0 <= (#[trigger] s[j - 1]).place.duration <= 1000000000);
        }
        distance = distance + d;
        driving = driving + t;
        serving = serving + sv;
        j = j + 1;
    }
    let last_serving = rc.route.tour.activities[total - 1].place.duration;
    proof {
        assert(0 <= (#[trigger] s[total - 1]).place.duration <= 1000000000);
    }
    let serving_all = serving + last_serving;
    proof {
        assert(spec_acc_serving(s, total as int) == spec_acc_serving(s, total - 1) + s[total
            - 1].place.duration);
    }
    let span = rc.route.tour.activities[total - 1].schedule.arrival - rc.route.tour.activities[0]
        .schedule.departure;
    let waiting: i64 = if span - (driving as i64) - serving_all > 0 {
        span - driving - serving_all
    } else {
        0
    };
    let vc = party_cost(&rc.route.actor.vehicle.costs, distance, driving, serving_all, waiting);
    let dc = party_cost(&rc.route.actor.driver.costs, distance, driving, serving_all, waiting);
    vc + dc
}

/// One party's charge, exactly, in wide arithmetic.
fn party_cost(
    costs: &crate::problem::Costs,
    distance: i64,
    driving: i64,
    serving: i64,
    waiting: i64,
) -> (r: i128)
    requires
        costs_small(*costs),
        0 <= distance <= 2000000000000000000,
        0 <= driving <= 2000000000000000000,
        0 <= serving <= 2000000000000000000,
        0 <= waiting <= 2000000000000000000,
    ensures
        r == spec_party_cost(*costs, distance as int, driving as int, serving as int, waiting as int),
        -15000000000000000000000000 <= r <= 15000000000000000000000000,
{
    proof {
        assert({
            &&& 0 <= costs.per_distance * distance <= 3000000000000000000000000
            &&& 0 <= costs.per_driving_time * driving <= 3000000000000000000000000
            &&& 0 <= costs.per_service_time * serving <= 3000000000000000000000000
            &&& 0 <= costs.per_waiting_time * waiting <= 3000000000000000000000000
        }) by (nonlinear_arith)
            requires
                costs_small(*costs),
                0 <= distance <= 2000000000000000000,
                0 <= driving <= 2000000000000000000,
                0 <= serving <= 2000000000000000000,
                0 <= waiting <= 2000000000000000000,
        ;
    }
    (costs.fixed as i128) + (costs.per_distance as i128) * (distance as i128) + (
    costs.per_driving_time as i128) * (driving as i128) + (costs.per_service_time as i128) * (
    serving as i128) + (costs.per_waiting_time as i128) * (waiting as i128)
}

/// Bounds of the aggregated quantities, by induction.
proof fn lemma_quantity_bounds(
    s: Seq<crate::solution::Activity>,
    tp: TransportPayload,
    profile: usize,
    j: int,
)
    requires
        tp.wf(),
        j >= 0,
    ensures
        0 <= spec_acc_duration(s, tp, profile, j) <= 1099511627776 * j,
    decreases j,
{
    if j > 0 {
        lemma_quantity_bounds(s, tp, profile, j - 1);
    }
}

} // verus!
