//! Constraint pipeline: violation signals and the candidate position of an
//! insertion.

use vstd::prelude::*;

use crate::capacity::{
    spec_evaluate_activity, spec_evaluate_job, CapacityConstraintModule,
};
use crate::common::{sat_add, spec_sat_add, Cost};
use crate::contexts::RouteContext;
use crate::objectives::{spec_route_value, GenericValueConstraint, GenericValueObjective};
use crate::problem::{Dimensions, Driver, Job, Vehicle, VehicleDetail};
use crate::solution::Activity;
use crate::state::{
    CURRENT_CAPACITY_KEY, MAX_FUTURE_CAPACITY_KEY, MAX_LOAD_KEY, MAX_PAST_CAPACITY_KEY,
    BALANCE_MAX_LOAD_KEY, TOUR_ORDER_KEY,
};

verus! {

/// A hard route constraint violation.
#[derive(Clone, Copy, PartialEq, Eq, Structural, Debug)]
pub struct RouteConstraintViolation {
    /// Module-specific violation code.
    pub code: i32,
}

/// A hard activity constraint violation. `stopped` signals that no later
/// position in the route can succeed either.
#[derive(Clone, Copy, PartialEq, Eq, Structural, Debug)]
pub struct ActivityConstraintViolation {
    /// Module-specific violation code.
    pub code: i32,
    /// Whether all later positions in this route are hopeless too.
    pub stopped: bool,
}

/// The candidate position of an insertion: the activity would be placed
/// between `prev` and `next`, at activity index `index`.
#[derive(Clone, Debug)]
pub struct ActivityContext {
    /// Index the target would take in the tour.
    pub index: usize,
    /// Activity before the candidate position.
    pub prev: Activity,
    /// The activity to insert.
    pub target: Activity,
    /// Activity after the candidate position, if any.
    pub next: Option<Activity>,
}


/// One constraint module of the pipeline.
#[derive(Clone, Debug)]
pub enum ConstraintModuleVariant {
    /// The vehicle capacity module.
    Capacity(CapacityConstraintModule),
    /// A generic value module.
    Generic(GenericValueConstraint),
}

/// An ordered list of constraint modules evaluated together.
#[derive(Clone, Debug)]
pub struct ConstraintPipeline {
    /// The modules, in evaluation order.
    pub modules: Vec<ConstraintModuleVariant>,
}

/// The hard route decision of one module.
pub open spec fn spec_module_hard_route(
    m: ConstraintModuleVariant,
    ctx: RouteContext,
    job: Job,
) -> Option<RouteConstraintViolation> {
    match m {
        ConstraintModuleVariant::Capacity(c) => spec_evaluate_job(c, ctx, job),
        ConstraintModuleVariant::Generic(_) => None,
    }
}

/// The hard activity decision of one module.
pub open spec fn spec_module_hard_activity(
    m: ConstraintModuleVariant,
    ctx: RouteContext,
    actx: ActivityContext,
) -> Option<ActivityConstraintViolation> {
    match m {
        ConstraintModuleVariant::Capacity(c) => spec_evaluate_activity(c, ctx, actx),
        ConstraintModuleVariant::Generic(_) => None,
    }
}

/// The soft route estimate of one module.
pub open spec fn spec_module_soft_route(
    m: ConstraintModuleVariant,
    ctx: RouteContext,
    job: Job,
) -> int {
    match m {
        ConstraintModuleVariant::Capacity(c) => if c.multi_trip.spec_is_marker_job(job) {
            0 - crate::capacity::max2(ctx.route.actor.vehicle.costs.fixed as int, 1000)
        } else {
            0
        },
        ConstraintModuleVariant::Generic(g) => {
            if (match g.threshold {
                Some(t) => spec_route_value(g.source, ctx) > t,
                None => true,
            }) {
                spec_route_value(g.source, ctx)
            } else {
                0
            }
        },
    }
}

/// The first hard route violation among the first `k` modules.
pub open spec fn spec_hard_route_upto(
    mods: Seq<ConstraintModuleVariant>,
    ctx: RouteContext,
    job: Job,
    k: int,
) -> Option<RouteConstraintViolation>
    decreases k,
{
    if k <= 0 {
        None
    } else {
        match spec_hard_route_upto(mods, ctx, job, k - 1) {
            Some(v) => Some(v),
            None => spec_module_hard_route(mods[k - 1], ctx, job),
        }
    }
}

/// The first hard route violation of the pipeline.
pub open spec fn spec_evaluate_hard_route(
    p: ConstraintPipeline,
    ctx: RouteContext,
    job: Job,
) -> Option<RouteConstraintViolation> {
    spec_hard_route_upto(p.modules@, ctx, job, p.modules@.len() as int)
}

/// The first hard activity violation among the first `k` modules.
pub open spec fn spec_hard_activity_upto(
    mods: Seq<ConstraintModuleVariant>,
    ctx: RouteContext,
    actx: ActivityContext,
    k: int,
) -> Option<ActivityConstraintViolation>
    decreases k,
{
    if k <= 0 {
        None
    } else {
        match spec_hard_activity_upto(mods, ctx, actx, k - 1) {
            Some(v) => Some(v),
            None => spec_module_hard_activity(mods[k - 1], ctx, actx),
        }
    }
}

/// The first hard activity violation of the pipeline.
pub open spec fn spec_evaluate_hard_activity(
    p: ConstraintPipeline,
    ctx: RouteContext,
    actx: ActivityContext,
) -> Option<ActivityConstraintViolation> {
    spec_hard_activity_upto(p.modules@, ctx, actx, p.modules@.len() as int)
}

/// The saturating sum of the soft route estimates of the first `k`
/// modules.
pub open spec fn spec_soft_route_upto(
    mods: Seq<ConstraintModuleVariant>,
    ctx: RouteContext,
    job: Job,
    k: int,
) -> int
    decreases k,
{
    if k <= 0 {
        0
    } else {
        spec_sat_add(
            spec_soft_route_upto(mods, ctx, job, k - 1),
            spec_sat_add(0, spec_module_soft_route(mods[k - 1], ctx, job)),
        )
    }
}

/// The soft activity estimate of one module; no present module estimates
/// an activity-level cost.
pub open spec fn spec_module_soft_activity(
    m: ConstraintModuleVariant,
    ctx: RouteContext,
    actx: ActivityContext,
) -> int {
    match m {
        ConstraintModuleVariant::Capacity(_) => 0,
        ConstraintModuleVariant::Generic(_) => 0,
    }
}

/// The saturating sum of the soft activity estimates of the first `k`
/// modules.
pub open spec fn spec_soft_activity_upto(
    mods: Seq<ConstraintModuleVariant>,
    ctx: RouteContext,
    actx: ActivityContext,
    k: int,
) -> int
    decreases k,
{
    if k <= 0 {
        0
    } else {
        spec_sat_add(
            spec_soft_activity_upto(mods, ctx, actx, k - 1),
            spec_module_soft_activity(mods[k - 1], ctx, actx),
        )
    }
}

/// The saturating sum of the soft activity estimates of the pipeline.
pub open spec fn spec_evaluate_soft_activity(
    p: ConstraintPipeline,
    ctx: RouteContext,
    actx: ActivityContext,
) -> int {
    spec_soft_activity_upto(p.modules@, ctx, actx, p.modules@.len() as int)
}

/// The saturating sum of the soft route estimates of the pipeline.
pub open spec fn spec_evaluate_soft_route(p: ConstraintPipeline, ctx: RouteContext, job: Job) -> int {
    spec_soft_route_upto(p.modules@, ctx, job, p.modules@.len() as int)
}

/// The state keys one module owns: the capacity module's declared keys,
/// or a generic module's single key.
pub open spec fn spec_module_state_keys(m: ConstraintModuleVariant) -> Seq<i32> {
    match m {
        ConstraintModuleVariant::Capacity(c) => c.state_keys@,
        ConstraintModuleVariant::Generic(g) => seq![g.state_key],
    }
}

/// The state keys of the first `k` modules, concatenated in module order.
pub open spec fn spec_pipeline_state_keys(mods: Seq<ConstraintModuleVariant>, k: int) -> Seq<i32>
    decreases k,
{
    if k <= 0 {
        Seq::empty()
    } else {
        spec_pipeline_state_keys(mods, k - 1) + spec_module_state_keys(mods[k - 1])
    }
}

/// A generic module's route value is small enough to estimate.
pub open spec fn generic_value_bounded(m: ConstraintModuleVariant, ctx: RouteContext) -> bool {
    match m {
        ConstraintModuleVariant::Generic(g) => -1000000000000 <= spec_route_value(g.source, ctx)
            <= 1000000000000,
        ConstraintModuleVariant::Capacity(_) => true,
    }
}

impl ConstraintPipeline {
    /// An empty pipeline.
    pub fn new() -> (r: ConstraintPipeline)
        ensures
            r.modules@.len() == 0,
    {
        ConstraintPipeline { modules: Vec::new() }
    }

    /// Appends a module to the pipeline.
    pub fn add_module(&mut self, module: ConstraintModuleVariant)
        ensures
            final(self).modules@ == old(self).modules@.push(module),
    {
        self.modules.push(module);
    }

    /// Evaluates the hard route constraints of all modules in order and
    /// returns the first violation.
    pub fn evaluate_hard_route(&self, ctx: &RouteContext, job: &Job) -> (r: Option<
        RouteConstraintViolation,
    >)
        ensures
            r == spec_evaluate_hard_route(*self, *ctx, *job),
    {
        let ghost mods = self.modules@;
        let mut k: usize = 0;
        while k < self.modules.len()
            invariant
                mods == self.modules@,
                0 <= k <= mods.len(),
                spec_hard_route_upto(mods, *ctx, *job, k as int) is None,
            decreases mods.len() - k,
        {
            let verdict: Option<RouteConstraintViolation> = match &self.modules[k] {
                ConstraintModuleVariant::Capacity(c) => c.evaluate_job(ctx, job),
                ConstraintModuleVariant::Generic(_) => None,
            };
            if let Some(v) = verdict {
                proof {
                    lemma_hard_route_extends(mods, *ctx, *job, k as int, mods.len() as int);
                }
                return Some(v);
            }
            k = k + 1;
        }
        None
    }

    /// Evaluates the hard activity constraints of all modules in order and
    /// returns the first violation.
    pub fn evaluate_hard_activity(&self, ctx: &RouteContext, actx: &ActivityContext) -> (r: Option<
        ActivityConstraintViolation,
    >)
        requires
            actx.index >= 1,
        ensures
            r == spec_evaluate_hard_activity(*self, *ctx, *actx),
    {
        let ghost mods = self.modules@;
        let mut k: usize = 0;
        while k < self.modules.len()
            invariant
                mods == self.modules@,
                actx.index >= 1,
                0 <= k <= mods.len(),
                spec_hard_activity_upto(mods, *ctx, *actx, k as int) is None,
            decreases mods.len() - k,
        {
            let verdict: Option<ActivityConstraintViolation> = match &self.modules[k] {
                ConstraintModuleVariant::Capacity(c) => c.evaluate_activity(ctx, actx),
                ConstraintModuleVariant::Generic(_) => None,
            };
            if let Some(v) = verdict {
                proof {
                    lemma_hard_activity_extends(mods, *ctx, *actx, k as int, mods.len() as int);
                }
                return Some(v);
            }
            k = k + 1;
        }
        None
    }

    /// Sums the soft route estimates of all modules, saturating.
    pub fn evaluate_soft_route(&self, ctx: &RouteContext, job: &Job) -> (r: Cost)
        requires
            forall|i: int|
                0 <= i < self.modules@.len() ==> generic_value_bounded(
                    #[trigger] self.modules@[i],
                    *ctx,
                ),
        ensures
            r as int == spec_evaluate_soft_route(*self, *ctx, *job),
    {
        let ghost mods = self.modules@;
        let mut total: Cost = 0;
        let mut k: usize = 0;
        while k < self.modules.len()
            invariant
                mods == self.modules@,
                0 <= k <= mods.len(),
                forall|i: int|
                    0 <= i < mods.len() ==> generic_value_bounded(#[trigger] mods[i], *ctx),
                total as int == spec_soft_route_upto(mods, *ctx, *job, k as int),
            decreases mods.len() - k,
        {
            let estimate: Cost = match &self.modules[k] {
                ConstraintModuleVariant::Capacity(c) => c.estimate_job(ctx, job),
                ConstraintModuleVariant::Generic(g) => {
                    let obj = GenericValueObjective {
                        state_key: g.state_key,
                        source: g.source,
                        threshold: g.threshold,
                    };
                    obj.estimate_job(ctx)
                },
            };
            total = sat_add(total, sat_add(0, estimate));
            k = k + 1;
        }
        total
    }

    /// Sums the soft activity estimates of all modules, saturating. The
    /// present modules estimate no activity-level cost, so the sum is the
    /// saturated fold of their zero estimates.
    pub fn evaluate_soft_activity(&self, ctx: &RouteContext, actx: &ActivityContext) -> (r: Cost)
        ensures
            r as int == spec_evaluate_soft_activity(*self, *ctx, *actx),
    {
        let ghost mods = self.modules@;
        let mut total: Cost = 0;
        let mut k: usize = 0;
        while k < self.modules.len()
            invariant
                mods == self.modules@,
                0 <= k <= mods.len(),
                total as int == spec_soft_activity_upto(mods, *ctx, *actx, k as int),
            decreases mods.len() - k,
        {
            let estimate: Cost = match &self.modules[k] {
                ConstraintModuleVariant::Capacity(_) => 0,
                ConstraintModuleVariant::Generic(_) => 0,
            };
            total = sat_add(total, estimate);
            k = k + 1;
        }
        total
    }

    /// The state keys of all modules: the concatenation, in module order,
    /// of each module's own keys.
    pub fn state_keys(&self) -> (r: Vec<i32>)
        ensures
            r@ == spec_pipeline_state_keys(self.modules@, self.modules@.len() as int),
    {
        let ghost mods = self.modules@;
        let mut keys: Vec<i32> = Vec::new();
        let mut k: usize = 0;
        while k < self.modules.len()
            invariant
                mods == self.modules@,
                0 <= k <= mods.len(),
                keys@ == spec_pipeline_state_keys(mods, k as int),
            decreases mods.len() - k,
        {
            match &self.modules[k] {
                ConstraintModuleVariant::Capacity(c) => {
                    let own = c.state_keys();
                    let ghost keys0 = keys@;
                    let mut i: usize = 0;
                    while i < own.len()
                        invariant
                            0 <= i <= own@.len(),
                            keys@ =~= keys0 + own@.subrange(0, i as int),
                        decreases own@.len() - i,
                    {
                        keys.push(own[i]);
                        proof {
                            assert(keys@ =~= keys0 + own@.subrange(0, i + 1));
                        }
                        i = i + 1;
                    }
                    proof {
                        assert(own@.subrange(0, own@.len() as int) =~= own@);
                        assert(keys@ =~= spec_pipeline_state_keys(mods, k + 1));
                    }
                },
                ConstraintModuleVariant::Generic(g) => {
                    keys.push(g.state_key);
                    proof {
                        assert(keys@ =~= spec_pipeline_state_keys(mods, k + 1));
                    }
                },
            }
            k = k + 1;
        }
        keys
    }

    /// Evaluates the hard activity constraints at a candidate insertion
    /// index of the tour, without materializing the position context.
    pub fn evaluate_hard_activity_at(&self, ctx: &RouteContext, target: &Activity, i: usize) -> (r:
        Option<ActivityConstraintViolation>)
        requires
            1 <= i < ctx.route.tour.activities@.len(),
        ensures
            r == spec_evaluate_hard_activity(*self, *ctx, spec_position_ctx(*ctx, *target, i as int)),
    {
        let ghost mods = self.modules@;
        let ghost actx = spec_position_ctx(*ctx, *target, i as int);
        let mut k: usize = 0;
        while k < self.modules.len()
            invariant
                mods == self.modules@,
                actx == spec_position_ctx(*ctx, *target, i as int),
                1 <= i < ctx.route.tour.activities@.len(),
                0 <= k <= mods.len(),
                spec_hard_activity_upto(mods, *ctx, actx, k as int) is None,
            decreases mods.len() - k,
        {
            let verdict: Option<ActivityConstraintViolation> = match &self.modules[k] {
                ConstraintModuleVariant::Capacity(c) => c.evaluate_activity_at(ctx, target, i),
                ConstraintModuleVariant::Generic(_) => None,
            };
            if let Some(v) = verdict {
                proof {
                    lemma_hard_activity_extends(mods, *ctx, actx, k as int, mods.len() as int);
                }
                return Some(v);
            }
            k = k + 1;
        }
        None
    }

    /// Scans candidate insertion positions `1..=total-1` for the target
    /// activity, left to right. The scan stops at the first feasible
    /// position, and a violation with the stopped flag prunes every later
    /// position, so the number of evaluations returned never exceeds the
    /// first stopped position.
    pub fn evaluate_job_positions(&self, ctx: &RouteContext, target: &Activity) -> (r: (
        Option<usize>,
        usize,
    ))
        requires
            ctx.route.tour.activities@.len() >= 1,
        ensures
            r.1 <= ctx.route.tour.activities@.len() - 1,
            match r.0 {
                Some(i) => {
                    &&& 1 <= i <= ctx.route.tour.activities@.len() - 1
                    &&& i == r.1
                    &&& spec_evaluate_hard_activity(
                        *self,
                        *ctx,
                        spec_position_ctx(*ctx, *target, i as int),
                    ) is None
                    &&& forall|j: int|
                        1 <= j < i ==> ((#[trigger] spec_evaluate_hard_activity(
                            *self,
                            *ctx,
                            spec_position_ctx(*ctx, *target, j),
                        )) matches Some(v) && !v.stopped)
                },
                None => {
                    &&& forall|j: int|
                        1 <= j <= r.1 && j < ctx.route.tour.activities@.len() - 1 + 1 ==> (
                        #[trigger] spec_evaluate_hard_activity(
                            *self,
                            *ctx,
                            spec_position_ctx(*ctx, *target, j),
                        )) is Some
                    &&& forall|j: int|
                        1 <= j < r.1 ==> ((#[trigger] spec_evaluate_hard_activity(
                            *self,
                            *ctx,
                            spec_position_ctx(*ctx, *target, j),
                        )) matches Some(v) && !v.stopped)
                    &&& r.1 < ctx.route.tour.activities@.len() - 1 ==> (
                    spec_evaluate_hard_activity(
                        *self,
                        *ctx,
                        spec_position_ctx(*ctx, *target, r.1 as int),
                    ) matches Some(v) && v.stopped)
                },
            },
    {
        let total = ctx.route.tour.total();
        let mut count: usize = 0;
        let mut i: usize = 1;
        while i < total
            invariant
                total == ctx.route.tour.activities@.len(),
                total >= 1,
                1 <= i <= total,
                count == i - 1,
                forall|j: int|
                    1 <= j < i ==> ((#[trigger] spec_evaluate_hard_activity(
                        *self,
                        *ctx,
                        spec_position_ctx(*ctx, *target, j),
                    )) matches Some(v) && !v.stopped),
            decreases total - i,
        {
            let verdict = self.evaluate_hard_activity_at(ctx, target, i);
            count = count + 1;
            match verdict {
                None => {
                    return (Some(i), count);
                },
                Some(v) => {
                    if v.stopped {
                        return (None, count);
                    }
                },
            }
            i = i + 1;
        }
        (None, count)
    }
}

/// The candidate position context for inserting a target at index `i` of
/// the tour: `prev` is the activity before it, `next` the one at `i`.
pub open spec fn spec_position_ctx(ctx: RouteContext, target: Activity, i: int) -> ActivityContext {
    ActivityContext {
        index: i as usize,
        prev: ctx.route.tour.activities@[i - 1],
        target,
        next: Some(ctx.route.tour.activities@[i]),
    }
}

/// The first-violation scan only extends with the found violation: once
/// the prefix decision is made, later modules do not change it.
proof fn lemma_hard_route_extends(
    mods: Seq<ConstraintModuleVariant>,
    ctx: RouteContext,
    job: Job,
    k: int,
    n: int,
)
    requires
        0 <= k < n <= mods.len(),
        spec_hard_route_upto(mods, ctx, job, k) is None,
        spec_module_hard_route(mods[k], ctx, job) is Some,
    ensures
        spec_hard_route_upto(mods, ctx, job, n) == spec_module_hard_route(mods[k], ctx, job),
    decreases n,
{
    if n > k + 1 {
        lemma_hard_route_extends(mods, ctx, job, k, n - 1);
    }
}

/// The first-violation scan only extends with the found violation.
proof fn lemma_hard_activity_extends(
    mods: Seq<ConstraintModuleVariant>,
    ctx: RouteContext,
    actx: ActivityContext,
    k: int,
    n: int,
)
    requires
        0 <= k < n <= mods.len(),
        spec_hard_activity_upto(mods, ctx, actx, k) is None,
        spec_module_hard_activity(mods[k], ctx, actx) is Some,
    ensures
        spec_hard_activity_upto(mods, ctx, actx, n) == spec_module_hard_activity(mods[k], ctx, actx),
    decreases n,
{
    if n > k + 1 {
        lemma_hard_activity_extends(mods, ctx, actx, k, n - 1);
    }
}

/// Each module writes exactly the state keys it declares: the capacity
/// module defines its four capacity slots and leaves every other slot
/// unchanged.
pub proof fn lemma_capacity_writes_own_keys(
    m: CapacityConstraintModule,
    pre: RouteContext,
    post: RouteContext,
)
    requires
        crate::capacity::capacity_recalc_post(m, pre, post),
        pre.route.actor.vehicle.dimens.capacity is Some,
    ensures
        post.state.current_capacities is Some,
        post.state.max_past_capacities is Some,
        post.state.max_future_capacities is Some,
        post.state.max_load is Some,
        post.state.reload_intervals == pre.state.reload_intervals,
        post.state.reload_resources == pre.state.reload_resources,
        post.state.recharge_distances == pre.state.recharge_distances,
        post.state.recharge_intervals == pre.state.recharge_intervals,
        post.state.total_distance == pre.state.total_distance,
        post.state.total_duration == pre.state.total_duration,
        post.state.generic_values == pre.state.generic_values,
{
}

/// A generic value module and the capacity module never write the same
/// key: the generic keys are disjoint from the capacity keys.
pub proof fn lemma_module_keys_disjoint(g: GenericValueConstraint)
    requires
        BALANCE_MAX_LOAD_KEY <= g.state_key <= TOUR_ORDER_KEY,
    ensures
        g.state_key != CURRENT_CAPACITY_KEY,
        g.state_key != MAX_PAST_CAPACITY_KEY,
        g.state_key != MAX_FUTURE_CAPACITY_KEY,
        g.state_key != MAX_LOAD_KEY,
{
}


/// An exact copy of a dimensions bag, except that the strings are fresh
/// allocations with the same characters.
pub fn copy_dimens(d: &Dimensions) -> (r: Dimensions)
    ensures
        dimens_like(r, *d),
{
    Dimensions {
        job_id: copy_opt_string(&d.job_id),
        vehicle_id: copy_opt_string(&d.vehicle_id),
        job_type: copy_opt_string(&d.job_type),
        shift_index: d.shift_index,
        demand: d.demand,
        capacity: d.capacity,
        recharge_distance_limit: d.recharge_distance_limit,
        multi_owner: d.multi_owner,
    }
}

/// A fresh string with the same characters, when one is present.
fn copy_opt_string(s: &Option<String>) -> (r: Option<String>)
    ensures
        match (r, s) {
            (Some(a), Some(b)) => a@ == b@,
            (None, None) => true,
            _ => false,
        },
{
    match s {
        Some(v) => Some(v.as_str().to_owned()),
        None => None,
    }
}

/// A copy of a vehicle: every field equal, the dimension strings fresh
/// with the same characters, the details with the same view.
pub fn copy_vehicle(v: &Vehicle) -> (r: Vehicle)
    ensures
        r.profile == v.profile,
        r.costs == v.costs,
        dimens_like(r.dimens, v.dimens),
        r.details@ == v.details@,
{
    Vehicle {
        profile: v.profile,
        costs: v.costs,
        dimens: copy_dimens(&v.dimens),
        details: copy_details(&v.details),
    }
}

/// A copy of a driver: costs equal, the dimension strings fresh with the
/// same characters.
pub fn copy_driver(d: &Driver) -> (r: Driver)
    ensures
        r.costs == d.costs,
        dimens_like(r.dimens, d.dimens),
{
    Driver { costs: d.costs, dimens: copy_dimens(&d.dimens) }
}

/// Two dimension bags agree: plain fields equal and string fields with
/// the same characters.
pub open spec fn dimens_like(a: Dimensions, b: Dimensions) -> bool {
    &&& (match (a.job_id, b.job_id) {
        (Some(x), Some(y)) => x@ == y@,
        (None, None) => true,
        _ => false,
    })
    &&& (match (a.vehicle_id, b.vehicle_id) {
        (Some(x), Some(y)) => x@ == y@,
        (None, None) => true,
        _ => false,
    })
    &&& (match (a.job_type, b.job_type) {
        (Some(x), Some(y)) => x@ == y@,
        (None, None) => true,
        _ => false,
    })
    &&& a.shift_index == b.shift_index
    &&& a.demand == b.demand
    &&& a.capacity == b.capacity
    &&& a.recharge_distance_limit == b.recharge_distance_limit
    &&& a.multi_owner == b.multi_owner
}

/// A copy of the shift details with the same view.
fn copy_details(v: &Vec<VehicleDetail>) -> (r: Vec<VehicleDetail>)
    ensures
        r@ == v@,
{
    let mut out: Vec<VehicleDetail> = Vec::new();
    let mut i: usize = 0;
    while i < v.len()
        invariant
            0 <= i <= v@.len(),
            out@ =~= v@.subrange(0, i as int),
        decreases v@.len() - i,
    {
        out.push(v[i]);
        proof {
            assert(out@ =~= v@.subrange(0, i + 1));
        }
        i = i + 1;
    }
    proof {
        assert(out@ =~= v@);
    }
    out
}




} // verus!
