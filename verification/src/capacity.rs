//! Vehicle capacity constraint module.
//!
//! The tour is partitioned into marker intervals (one interval when no
//! multi trip is active). Over each interval the module recomputes, in two
//! sweeps, the current load at every activity, the maximal load seen up to
//! it, and the maximal load seen from it on; the end-of-interval load minus
//! the pickups brought to the end is carried into the next interval.

use vstd::prelude::*;

use crate::common::{spec_can_fit, Cost, Demand, Load, Ratio, MAX_ACTIVITIES, MAX_DEMAND};
use crate::contexts::{RouteContext, SolutionContext};
use crate::problem::{Dimensions, Job, Single};
use crate::pipeline::{ActivityConstraintViolation, ActivityContext, RouteConstraintViolation};
use crate::solution::Activity;
use crate::state::{
    RouteState, CURRENT_CAPACITY_KEY, MAX_FUTURE_CAPACITY_KEY, MAX_LOAD_KEY,
    MAX_PAST_CAPACITY_KEY,
};

verus! {

/// Maximum of two mathematical integers.
pub open spec fn max2(a: int, b: int) -> int {
    if a >= b {
        a
    } else {
        b
    }
}

/// A demand component read from one activity.
#[derive(Clone, Copy, PartialEq, Eq, Structural, Debug)]
pub enum DemandComp {
    /// Fixed delivery, loaded at the interval start.
    Delivery,
    /// Fixed pickup, carried to the interval end.
    Pickup,
    /// Net change of the load at the activity.
    Change,
}

/// The chosen demand component of one activity; zero when the activity
/// serves no job or its job carries no demand.
pub open spec fn act_comp(a: Activity, c: DemandComp) -> int {
    match a.spec_demand() {
        Some(d) => match c {
            DemandComp::Delivery => d.delivery_fixed as int,
            DemandComp::Pickup => d.pickup_fixed as int,
            DemandComp::Change => d.spec_change(),
        },
        None => 0,
    }
}

/// Sum of one demand component over the activity index range `[from, to)`.
pub open spec fn sum_comp(s: Seq<Activity>, c: DemandComp, from: int, to: int) -> int
    decreases to - from,
{
    if from >= to {
        0
    } else {
        act_comp(s[from], c) + sum_comp(s, c, from + 1, to)
    }
}

/// Every demand in the tour is bounded by `MAX_DEMAND`.
pub open spec fn demands_bounded(s: Seq<Activity>) -> bool {
    forall|i: int|
        0 <= i < s.len() ==> match #[trigger] s[i].spec_demand() {
            Some(d) => d.bounded(),
            None => true,
        }
}

/// Marker intervals are well formed for a tour of `total` activities: they
/// are non-empty, contiguous, and cover `[0, total - 1]` with inclusive
/// bounds.
pub open spec fn intervals_wf(iv: Seq<(usize, usize)>, total: int) -> bool {
    &&& iv.len() > 0
    &&& iv[0].0 == 0
    &&& iv[iv.len() - 1].1 == total - 1
    &&& forall|k: int| 0 <= k < iv.len() ==> (#[trigger] iv[k]).0 <= iv[k].1 < total
    &&& forall|k: int| 1 <= k < iv.len() ==> (#[trigger] iv[k]).0 == iv[k - 1].1 + 1
}

/// First activity index of interval `k`; for `k == iv.len()` the index one
/// past the last interval.
pub open spec fn ivstart(iv: Seq<(usize, usize)>, k: int) -> int {
    if k <= 0 {
        0
    } else {
        iv[k - 1].1 + 1
    }
}

/// Load carried into interval `k` from the intervals before it.
pub open spec fn spec_carry(s: Seq<Activity>, iv: Seq<(usize, usize)>, k: int) -> int
    decreases k, 0int,
{
    if k <= 0 {
        0
    } else {
        spec_interval_end_load(s, iv, k - 1) - sum_comp(
            s,
            DemandComp::Pickup,
            iv[k - 1].0 as int,
            iv[k - 1].1 + 1,
        )
    }
}

/// Load at the start of interval `k`: the carry plus all fixed deliveries
/// of the interval.
pub open spec fn spec_start_delivery(s: Seq<Activity>, iv: Seq<(usize, usize)>, k: int) -> int
    decreases k, 1int,
{
    spec_carry(s, iv, k) + sum_comp(s, DemandComp::Delivery, iv[k].0 as int, iv[k].1 + 1)
}

/// Current load right after activity `i` of interval `k`.
pub open spec fn spec_current_at(s: Seq<Activity>, iv: Seq<(usize, usize)>, k: int, i: int) -> int
    decreases k, 2int,
{
    spec_start_delivery(s, iv, k) + sum_comp(s, DemandComp::Change, iv[k].0 as int, i + 1)
}

/// Current load at the end of interval `k`.
pub open spec fn spec_interval_end_load(s: Seq<Activity>, iv: Seq<(usize, usize)>, k: int) -> int
    decreases k, 3int,
{
    spec_current_at(s, iv, k, iv[k].1 as int)
}

/// Maximum of the current load over activities `[from, to]` of interval `k`.
pub open spec fn spec_max_current(
    s: Seq<Activity>,
    iv: Seq<(usize, usize)>,
    k: int,
    from: int,
    to: int,
) -> int
    decreases to - from,
{
    if to <= from {
        spec_current_at(s, iv, k, from)
    } else {
        max2(spec_max_current(s, iv, k, from, to - 1), spec_current_at(s, iv, k, to))
    }
}

/// The maximal load observed over the first `k` intervals, seeded with zero.
pub open spec fn spec_global_max(s: Seq<Activity>, iv: Seq<(usize, usize)>, k: int) -> int
    decreases k,
{
    if k <= 0 {
        0
    } else {
        max2(
            spec_global_max(s, iv, k - 1),
            spec_max_current(s, iv, k - 1, iv[k - 1].0 as int, iv[k - 1].1 as int),
        )
    }
}

/// The three per-activity capacity vectors hold exactly the values of the
/// two-sweep recalculation over the first `klim` intervals.
pub open spec fn capacity_vectors_correct_upto(
    cur: Seq<Load>,
    past: Seq<Load>,
    fut: Seq<Load>,
    s: Seq<Activity>,
    iv: Seq<(usize, usize)>,
    klim: int,
) -> bool {
    &&& cur.len() == s.len()
    &&& past.len() == s.len()
    &&& fut.len() == s.len()
    &&& forall|k: int, i: int|
        #![trigger iv[k], cur[i]]
        0 <= k < klim && iv[k].0 <= i <= iv[k].1 ==> {
            &&& cur[i] == spec_current_at(s, iv, k, i)
            &&& past[i] == max2(0, spec_max_current(s, iv, k, iv[k].0 as int, i))
            &&& fut[i] == spec_max_current(s, iv, k, i, iv[k].1 as int)
        }
}

/// The three per-activity capacity vectors hold exactly the values of the
/// two-sweep recalculation over the given intervals.
pub open spec fn capacity_vectors_correct(
    cur: Seq<Load>,
    past: Seq<Load>,
    fut: Seq<Load>,
    s: Seq<Activity>,
    iv: Seq<(usize, usize)>,
) -> bool {
    capacity_vectors_correct_upto(cur, past, fut, s, iv, iv.len() as int)
}

/// One step of a component sum: extending the range by one activity on the
/// right adds that activity's component.
pub proof fn lemma_sum_comp_snoc(s: Seq<Activity>, c: DemandComp, from: int, to: int)
    requires
        from <= to,
    ensures
        sum_comp(s, c, from, to + 1) == sum_comp(s, c, from, to) + act_comp(s[to], c),
    decreases to - from,
{
    if from < to {
        lemma_sum_comp_snoc(s, c, from + 1, to);
        assert(sum_comp(s, c, from, to + 1) == act_comp(s[from], c) + sum_comp(
            s,
            c,
            from + 1,
            to + 1,
        ));
        assert(sum_comp(s, c, from, to) == act_comp(s[from], c) + sum_comp(s, c, from + 1, to));
    } else {
        assert(sum_comp(s, c, from + 1, to + 1) == 0);
        assert(sum_comp(s, c, from, to) == 0);
    }
}

/// A component sum splits at any midpoint.
pub proof fn lemma_sum_comp_split(s: Seq<Activity>, c: DemandComp, from: int, mid: int, to: int)
    requires
        from <= mid <= to,
    ensures
        sum_comp(s, c, from, to) == sum_comp(s, c, from, mid) + sum_comp(s, c, mid, to),
    decreases mid - from,
{
    if from < mid {
        lemma_sum_comp_split(s, c, from + 1, mid, to);
    }
}

/// Bounds of a component sum over a range of bounded demands.
pub proof fn lemma_sum_comp_bounds(s: Seq<Activity>, c: DemandComp, from: int, to: int)
    requires
        0 <= from <= to <= s.len(),
        demands_bounded(s),
    ensures
        -2097152 * (to - from) <= sum_comp(s, c, from, to) <= 2097152 * (to - from),
        c != DemandComp::Change ==> 0 <= sum_comp(s, c, from, to) <= 1048576 * (to - from),
    decreases to - from,
{
    if from < to {
        lemma_sum_comp_bounds(s, c, from + 1, to);
        assert(match s[from].spec_demand() {
            Some(d) => d.bounded(),
            None => true,
        });
        assert(sum_comp(s, c, from, to) == act_comp(s[from], c) + sum_comp(s, c, from + 1, to));
    } else {
        assert(sum_comp(s, c, from, to) == 0);
    }
}

/// Bound of the carry entering interval `k`.
pub proof fn lemma_carry_bound(s: Seq<Activity>, iv: Seq<(usize, usize)>, k: int)
    requires
        intervals_wf(iv, s.len() as int),
        demands_bounded(s),
        0 <= k <= iv.len(),
    ensures
        -4194304 * ivstart(iv, k) <= spec_carry(s, iv, k) <= 4194304 * ivstart(iv, k),
    decreases k,
{
    if k > 0 {
        lemma_carry_bound(s, iv, k - 1);
        let b = iv[k - 1].0 as int;
        let e = iv[k - 1].1 as int;
        assert(ivstart(iv, k - 1) == b);
        lemma_sum_comp_bounds(s, DemandComp::Delivery, b, e + 1);
        lemma_sum_comp_bounds(s, DemandComp::Pickup, b, e + 1);
        lemma_sum_comp_bounds(s, DemandComp::Change, b, e + 1);
        assert(spec_carry(s, iv, k) == spec_carry(s, iv, k - 1) + sum_comp(
            s,
            DemandComp::Delivery,
            b,
            e + 1,
        ) + sum_comp(s, DemandComp::Change, b, e + 1) - sum_comp(s, DemandComp::Pickup, b, e + 1));
    }
}

/// Bound of the current load at any activity of interval `k`.
pub proof fn lemma_current_bound(s: Seq<Activity>, iv: Seq<(usize, usize)>, k: int, i: int)
    requires
        intervals_wf(iv, s.len() as int),
        demands_bounded(s),
        0 <= k < iv.len(),
        iv[k].0 <= i + 1,
        i <= iv[k].1,
    ensures
        -4194304 * (iv[k].1 + 2) <= spec_current_at(s, iv, k, i) <= 4194304 * (iv[k].1 + 2),
{
    let b = iv[k].0 as int;
    let e = iv[k].1 as int;
    lemma_carry_bound(s, iv, k);
    assert(ivstart(iv, k) == b);
    lemma_sum_comp_bounds(s, DemandComp::Delivery, b, e + 1);
    lemma_sum_comp_bounds(s, DemandComp::Change, b, i + 1);
    assert(spec_current_at(s, iv, k, i) == spec_carry(s, iv, k) + sum_comp(
        s,
        DemandComp::Delivery,
        b,
        e + 1,
    ) + sum_comp(s, DemandComp::Change, b, i + 1));
}

/// Distinct intervals of a well-formed list do not overlap: the earlier one
/// ends before the later one starts.
pub proof fn lemma_intervals_ordered(iv: Seq<(usize, usize)>, total: int, k1: int, k2: int)
    requires
        intervals_wf(iv, total),
        0 <= k1 < k2 < iv.len(),
    ensures
        iv[k1].1 < iv[k2].0,
    decreases k2 - k1,
{
    if k1 + 1 < k2 {
        lemma_intervals_ordered(iv, total, k1 + 1, k2);
    }
}

/// A multi-trip collaborator of the capacity module: no multi trip, or
/// reload markers that split the tour into intervals.
#[derive(Clone, Debug)]
pub enum MultiTrip {
    /// No multi trip: the whole tour is one interval.
    Disabled,
    /// Reload markers segment the tour; the intervals are kept in the
    /// route state under `RELOAD_INTERVALS_KEY`.
    Reload(ReloadMultiTrip),
}

/// The reload multi-trip collaborator.
#[derive(Clone, Debug)]
pub struct ReloadMultiTrip {
    /// Violation code the collaborator reports.
    pub code: i32,
}

impl MultiTrip {
    /// Whether a job is a marker job of this collaborator.
    pub open spec fn spec_is_marker_job(&self, job: Job) -> bool {
        match self {
            MultiTrip::Disabled => false,
            MultiTrip::Reload(_) => match job {
                Job::Single(s) => match s.dimens.job_type {
                    Some(t) => t@ == "reload"@,
                    None => false,
                },
                Job::Multi(_) => false,
            },
        }
    }

    /// Whether a job is a marker job of this collaborator.
    pub fn is_marker_job(&self, job: &Job) -> (r: bool)
        ensures
            r == self.spec_is_marker_job(*job),
    {
        match self {
            MultiTrip::Disabled => false,
            MultiTrip::Reload(_) => match job {
                Job::Single(s) => match &s.dimens.job_type {
                    Some(t) => t.eq(&("reload".to_owned())),
                    None => false,
                },
                Job::Multi(_) => false,
            },
        }
    }

    /// Whether a marker job may be assigned to the route: its vehicle id
    /// and shift index must match the route's actor.
    pub open spec fn spec_is_assignable(&self, route_ctx: RouteContext, job: Job) -> bool {
        match job {
            Job::Single(s) => {
                &&& match (s.dimens.vehicle_id, route_ctx.route.actor.vehicle.dimens.vehicle_id) {
                    (Some(a), Some(b)) => a@ == b@,
                    _ => false,
                }
                &&& s.dimens.shift_index == route_ctx.route.actor.vehicle.dimens.shift_index
                &&& s.dimens.shift_index is Some
            },
            Job::Multi(_) => false,
        }
    }

    /// Checks whether a marker job may be assigned to the route.
    pub fn is_assignable(&self, route_ctx: &RouteContext, job: &Job) -> (r: bool)
        ensures
            r == self.spec_is_assignable(*route_ctx, *job),
    {
        match job {
            Job::Single(s) => {
                let ids_match = match (
                    &s.dimens.vehicle_id,
                    &route_ctx.route.actor.vehicle.dimens.vehicle_id,
                ) {
                    (Some(a), Some(b)) => a.eq(b),
                    _ => false,
                };
                let shifts_match = match (
                    &s.dimens.shift_index,
                    &route_ctx.route.actor.vehicle.dimens.shift_index,
                ) {
                    (Some(a), Some(b)) => *a == *b,
                    (None, None) => false,
                    _ => false,
                };
                ids_match && shifts_match
            },
            Job::Multi(_) => false,
        }
    }

    /// The marker intervals this collaborator exposes for a route, if any.
    pub open spec fn spec_marker_intervals(&self, route_ctx: RouteContext) -> Option<
        Seq<(usize, usize)>,
    > {
        match self {
            MultiTrip::Disabled => None,
            MultiTrip::Reload(_) => match route_ctx.state.reload_intervals {
                Some(v) => Some(v@),
                None => None,
            },
        }
    }

    /// Whether the route currently has more than one marker interval.
    pub fn has_markers(&self, route_ctx: &RouteContext) -> (r: bool)
        ensures
            r == match self.spec_marker_intervals(*route_ctx) {
                Some(iv) => iv.len() > 1,
                None => false,
            },
    {
        match self {
            MultiTrip::Disabled => false,
            MultiTrip::Reload(_) => match &route_ctx.state.reload_intervals {
                Some(v) => v.len() > 1,
                None => false,
            },
        }
    }
}

/// The intervals the capacity recalculation effectively sweeps: the marker
/// intervals when the collaborator exposes some, else the whole tour.
pub open spec fn spec_effective_intervals(mt: MultiTrip, route_ctx: RouteContext) -> Seq<
    (usize, usize),
> {
    match mt.spec_marker_intervals(route_ctx) {
        Some(iv) => iv,
        None => seq![(0usize, (route_ctx.route.tour.activities@.len() - 1) as usize)],
    }
}


/// Everything `recalculate_states` promises: the route is untouched, the
/// context is fresh, the three capacity vectors hold the two-sweep values,
/// the max load ratio is stored when the vehicle has a capacity, and every
/// other state slot is unchanged.
pub open spec fn capacity_recalc_post(
    m: CapacityConstraintModule,
    pre: RouteContext,
    post: RouteContext,
) -> bool {
    let s = pre.route.tour.activities@;
    let iv = spec_effective_intervals(m.multi_trip, pre);
    let st = post.state;
    &&& post.route == pre.route
    &&& post.stale == false
    &&& match (st.current_capacities, st.max_past_capacities, st.max_future_capacities) {
        (Some(cur), Some(past), Some(fut)) => capacity_vectors_correct(cur@, past@, fut@, s, iv),
        _ => false,
    }
    &&& match pre.route.actor.vehicle.dimens.capacity {
        Some(c) => st.max_load == Some(
            Ratio { num: spec_global_max(s, iv, iv.len() as int) as i64, den: c },
        ),
        None => st.max_load == pre.state.max_load,
    }
    &&& st.reload_intervals == pre.state.reload_intervals
    &&& st.reload_resources == pre.state.reload_resources
    &&& st.recharge_distances == pre.state.recharge_distances
    &&& st.recharge_intervals == pre.state.recharge_intervals
    &&& st.total_distance == pre.state.total_distance
    &&& st.total_duration == pre.state.total_duration
    &&& st.generic_values == pre.state.generic_values
}

/// A module which keeps vehicle load within capacity while serving the
/// customers' demand.
#[derive(Clone, Debug)]
pub struct CapacityConstraintModule {
    /// Violation code the module reports.
    pub code: i32,
    /// The state keys the module owns.
    pub state_keys: Vec<i32>,
    /// The multi-trip collaborator.
    pub multi_trip: MultiTrip,
}

/// The state keys owned by the capacity module: the three per-activity
/// load keys and the per-route max load key.
pub open spec fn capacity_state_keys() -> Seq<i32> {
    seq![CURRENT_CAPACITY_KEY, MAX_FUTURE_CAPACITY_KEY, MAX_PAST_CAPACITY_KEY, MAX_LOAD_KEY]
}

impl CapacityConstraintModule {
    /// Creates the module without multi trip (reload) functionality.
    pub fn new(code: i32) -> (r: CapacityConstraintModule)
        ensures
            r.code == code,
            r.multi_trip is Disabled,
            r.state_keys@ == capacity_state_keys(),
    {
        Self::new_with_multi_trip(code, MultiTrip::Disabled)
    }

    /// Creates the module with the given multi-trip collaborator.
    pub fn new_with_multi_trip(code: i32, multi_trip: MultiTrip) -> (r: CapacityConstraintModule)
        ensures
            r.code == code,
            r.multi_trip == multi_trip,
            r.state_keys@ == capacity_state_keys(),
    {
        let mut keys: Vec<i32> = Vec::new();
        keys.push(CURRENT_CAPACITY_KEY);
        keys.push(MAX_FUTURE_CAPACITY_KEY);
        keys.push(MAX_PAST_CAPACITY_KEY);
        keys.push(MAX_LOAD_KEY);
        proof {
            assert(keys@ =~= capacity_state_keys());
        }
        CapacityConstraintModule { code, state_keys: keys, multi_trip }
    }

    /// The state keys this module owns.
    pub fn state_keys(&self) -> (r: &Vec<i32>)
        ensures
            r@ == self.state_keys@,
    {
        &self.state_keys
    }

    /// The demand of the single visit served at an activity.
    pub fn get_demand(activity: &Activity) -> (r: Option<&Demand>)
        ensures
            match r {
                Some(d) => activity.spec_demand() == Some(*d),
                None => activity.spec_demand() is None,
            },
    {
        activity.demand()
    }

    /// Recomputes all capacity state of one route: the current load, max
    /// past load and max future load per activity, and the max load over
    /// capacity per route. Sets the context fresh. Everything else is left
    /// unchanged, so the recalculation is idempotent.
    #[verifier::rlimit(100)]
    pub fn recalculate_states(&self, route_ctx: &mut RouteContext)
        requires
            old(route_ctx).route.tour.activities@.len() >= 1,
            old(route_ctx).route.tour.activities@.len() <= MAX_ACTIVITIES,
            demands_bounded(old(route_ctx).route.tour.activities@),
            intervals_wf(
                spec_effective_intervals(self.multi_trip, *old(route_ctx)),
                old(route_ctx).route.tour.activities@.len() as int,
            ),
        ensures
            capacity_recalc_post(*self, *old(route_ctx), *final(route_ctx)),
    {
        let ghost s = route_ctx.route.tour.activities@;
        let total = route_ctx.route.tour.total();
        let intervals: Vec<(usize, usize)> = match &self.multi_trip {
            MultiTrip::Disabled => {
                let mut v: Vec<(usize, usize)> = Vec::new();
                v.push((0, total - 1));
                v
            },
            MultiTrip::Reload(_) => match &route_ctx.state.reload_intervals {
                Some(stored) => copy_intervals(stored),
                None => {
                    let mut v: Vec<(usize, usize)> = Vec::new();
                    v.push((0, total - 1));
                    v
                },
            },
        };
        let ghost iv = intervals@;
        proof {
            assert(iv =~= spec_effective_intervals(self.multi_trip, *old(route_ctx)));
        }
        let mut cur: Vec<Load> = zero_vec(total);
        let mut past: Vec<Load> = zero_vec(total);
        let mut fut: Vec<Load> = zero_vec(total);
        let mut carry: i64 = 0;
        let mut global_max: i64 = 0;
        let mut k: usize = 0;
        while k < intervals.len()
            invariant
                s == route_ctx.route.tour.activities@,
                iv == intervals@,
                intervals_wf(iv, s.len() as int),
                1 <= s.len() <= MAX_ACTIVITIES,
                demands_bounded(s),
                total == s.len(),
                0 <= k <= iv.len(),
                carry as int == spec_carry(s, iv, k as int),
                global_max as int == spec_global_max(s, iv, k as int),
                0 <= global_max <= 10000000000000000,
                capacity_vectors_correct_upto(cur@, past@, fut@, s, iv, k as int),
            decreases iv.len() - k,
        {
            let (b, e) = intervals[k];
            let ghost cur0 = cur@;
            let ghost past0 = past@;
            let ghost fut0 = fut@;
            let (new_carry, interval_max) = sweep_interval(
                &route_ctx.route.tour.activities,
                b,
                e,
                carry,
                &mut cur,
                &mut past,
                &mut fut,
                Ghost(iv),
                Ghost(k as int),
            );
            proof {
                assert(cur0.len() == s.len() && past0.len() == s.len() && fut0.len() == s.len());
                assert forall|k2: int, i: int|
                    #![trigger iv[k2], cur@[i]]
                    0 <= k2 < k + 1 && iv[k2].0 <= i <= iv[k2].1 implies {
                    &&& cur@[i] as int == spec_current_at(s, iv, k2, i)
                    &&& past@[i] as int == max2(0, spec_max_current(s, iv, k2, iv[k2].0 as int, i))
                    &&& fut@[i] as int == spec_max_current(s, iv, k2, i, iv[k2].1 as int)
                } by {
                    if k2 < k {
                        lemma_intervals_ordered(iv, s.len() as int, k2, k as int);
                        assert(i <= iv[k2].1 < iv[k as int].0);
                        assert(cur@[i] == cur0[i]);
                        assert(past@[i] == past0[i]);
                        assert(fut@[i] == fut0[i]);
                        assert(cur0[i] as int == spec_current_at(s, iv, k2, i));
                        assert(past0[i] as int == max2(
                            0,
                            spec_max_current(s, iv, k2, iv[k2].0 as int, i),
                        ));
                        assert(fut0[i] as int == spec_max_current(s, iv, k2, i, iv[k2].1 as int));
                    } else {
                        assert(b <= i <= e);
                    }
                }
                assert(capacity_vectors_correct_upto(cur@, past@, fut@, s, iv, k + 1));
            }
            if interval_max > global_max {
                global_max = interval_max;
            }
            carry = new_carry;
            k = k + 1;
        }
        let max_load = match &route_ctx.route.actor.vehicle.dimens.capacity {
            Some(c) => Some(Ratio { num: global_max, den: *c }),
            None => route_ctx.state.max_load,
        };
        proof {
            assert(capacity_vectors_correct_upto(cur@, past@, fut@, s, iv, iv.len() as int));
            assert(capacity_vectors_correct(cur@, past@, fut@, s, iv));
        }
        route_ctx.state.current_capacities = Some(cur);
        route_ctx.state.max_past_capacities = Some(past);
        route_ctx.state.max_future_capacities = Some(fut);
        route_ctx.state.max_load = max_load;
        route_ctx.stale = false;
        proof {
            assert(capacity_recalc_post(*self, *old(route_ctx), *final(route_ctx)));
        }
    }
}


/// Sweeps one marker interval `[b, e]`: records the current load, max past
/// load and max future load of each of its activities, and returns the
/// carry into the next interval together with the interval's maximal load.
#[verifier::rlimit(100)]
fn sweep_interval(
    activities: &Vec<Activity>,
    b: usize,
    e: usize,
    carry: i64,
    cur: &mut Vec<Load>,
    past: &mut Vec<Load>,
    fut: &mut Vec<Load>,
    Ghost(iv): Ghost<Seq<(usize, usize)>>,
    Ghost(k): Ghost<int>,
) -> (r: (i64, i64))
    requires
        demands_bounded(activities@),
        activities@.len() <= MAX_ACTIVITIES,
        intervals_wf(iv, activities@.len() as int),
        0 <= k < iv.len(),
        iv[k] == (b, e),
        carry as int == spec_carry(activities@, iv, k),
        old(cur)@.len() == activities@.len(),
        old(past)@.len() == activities@.len(),
        old(fut)@.len() == activities@.len(),
    ensures
        final(cur)@.len() == old(cur)@.len(),
        final(past)@.len() == old(past)@.len(),
        final(fut)@.len() == old(fut)@.len(),
        forall|i: int|
            b <= i <= e ==> #[trigger] final(cur)@[i] as int == spec_current_at(activities@, iv, k, i),
        forall|i: int|
            b <= i <= e ==> #[trigger] final(past)@[i] as int == max2(
                0,
                spec_max_current(activities@, iv, k, b as int, i),
            ),
        forall|i: int|
            b <= i <= e ==> #[trigger] final(fut)@[i] as int == spec_max_current(
                activities@,
                iv,
                k,
                i,
                e as int,
            ),
        forall|i: int|
            0 <= i < final(cur)@.len() && !(b <= i <= e) ==> #[trigger] final(cur)@[i] == old(cur)@[i],
        forall|i: int|
            0 <= i < final(past)@.len() && !(b <= i <= e) ==> #[trigger] final(past)@[i] == old(past)@[i],
        forall|i: int|
            0 <= i < final(fut)@.len() && !(b <= i <= e) ==> #[trigger] final(fut)@[i] == old(fut)@[i],
        r.0 as int == spec_carry(activities@, iv, k + 1),
        r.1 as int == spec_max_current(activities@, iv, k, b as int, e as int),
        -10000000000000000 <= r.1 <= 10000000000000000,
{
    let ghost s = activities@;
    // First pass: fixed deliveries loaded at the interval start and fixed
    // pickups brought to the interval end.
    let mut del: i64 = carry;
    let mut pick: i64 = 0;
    let mut j: usize = b;
    while j <= e
        invariant
            s == activities@,
            demands_bounded(s),
            s.len() <= MAX_ACTIVITIES,
            intervals_wf(iv, s.len() as int),
            0 <= k < iv.len(),
            iv[k] == (b, e),
            b <= j <= e + 1,
            e < s.len(),
            carry as int == spec_carry(s, iv, k),
            del as int == carry + sum_comp(s, DemandComp::Delivery, b as int, j as int),
            pick as int == sum_comp(s, DemandComp::Pickup, b as int, j as int),
        decreases e + 1 - j,
    {
        proof {
            lemma_carry_bound(s, iv, k);
            assert(ivstart(iv, k) == b);
            lemma_sum_comp_bounds(s, DemandComp::Delivery, b as int, j as int);
            lemma_sum_comp_bounds(s, DemandComp::Pickup, b as int, j as int);
            lemma_sum_comp_snoc(s, DemandComp::Delivery, b as int, j as int);
            lemma_sum_comp_snoc(s, DemandComp::Pickup, b as int, j as int);
        }
        match activities[j].demand() {
            Some(d) => {
                del = del + d.delivery_fixed;
                pick = pick + d.pickup_fixed;
            },
            None => (),
        }
        j = j + 1;
    }
    // Second pass, left to right: actual load at each activity and the
    // maximal load discovered in the past.
    let mut current: i64 = del;
    let mut maxp: i64 = 0;
    j = b;
    while j <= e
        invariant
            s == activities@,
            demands_bounded(s),
            s.len() <= MAX_ACTIVITIES,
            intervals_wf(iv, s.len() as int),
            0 <= k < iv.len(),
            iv[k] == (b, e),
            b <= j <= e + 1,
            e < s.len(),
            cur@.len() == s.len() && past@.len() == old(past)@.len() && fut@ == old(fut)@,
            cur@.len() == old(cur)@.len() && past@.len() == s.len(),
            current as int == spec_start_delivery(s, iv, k) + sum_comp(
                s,
                DemandComp::Change,
                b as int,
                j as int,
            ),
            j == b ==> maxp == 0,
            j > b ==> maxp as int == max2(0, spec_max_current(s, iv, k, b as int, j - 1)),
            maxp >= 0,
            forall|i: int|
                b <= i < j ==> #[trigger] cur@[i] as int == spec_current_at(s, iv, k, i),
            forall|i: int|
                b <= i < j ==> #[trigger] past@[i] as int == max2(
                    0,
                    spec_max_current(s, iv, k, b as int, i),
                ),
            forall|i: int|
                0 <= i < cur@.len() && !(b <= i < j) ==> #[trigger] cur@[i] == old(cur)@[i],
            forall|i: int|
                0 <= i < past@.len() && !(b <= i < j) ==> #[trigger] past@[i] == old(past)@[i],
        decreases e + 1 - j,
    {
        proof {
            lemma_carry_bound(s, iv, k);
            assert(ivstart(iv, k) == b);
            lemma_sum_comp_bounds(s, DemandComp::Delivery, b as int, e + 1);
            lemma_sum_comp_bounds(s, DemandComp::Change, b as int, j as int);
            lemma_sum_comp_snoc(s, DemandComp::Change, b as int, j as int);
        }
        let change: i64 = match activities[j].demand() {
            Some(d) => d.change(),
            None => 0,
        };
        current = current + change;
        if current > maxp {
            maxp = current;
        }
        cur[j] = current;
        past[j] = maxp;
        j = j + 1;
    }
    // Third pass, right to left: the maximal load discovered in the future
    // of each activity.
    let mut maxf: i64 = current;
    let mut t: usize = e + 1 - b;
    while t > 0
        invariant
            s == activities@,
            intervals_wf(iv, s.len() as int),
            0 <= k < iv.len(),
            iv[k] == (b, e),
            0 <= t <= e + 1 - b,
            e < s.len(),
            demands_bounded(s),
            s.len() <= MAX_ACTIVITIES,
            cur@.len() == s.len() && fut@.len() == s.len(),
            fut@.len() == old(fut)@.len(),
            t == e + 1 - b ==> maxf as int == spec_current_at(s, iv, k, e as int),
            t < e + 1 - b ==> maxf as int == spec_max_current(s, iv, k, b + t, e as int),
            forall|i: int|
                b <= i <= e ==> #[trigger] cur@[i] as int == spec_current_at(s, iv, k, i),
            forall|i: int|
                b + t <= i <= e ==> #[trigger] fut@[i] as int == spec_max_current(
                    s,
                    iv,
                    k,
                    i,
                    e as int,
                ),
            forall|i: int|
                0 <= i < fut@.len() && !(b + t <= i <= e) ==> #[trigger] fut@[i] == old(fut)@[i],
        decreases t,
    {
        let j2 = b + t - 1;
        proof {
            if (t as int) < e + 1 - b {
                lemma_max_current_unfold_left(s, iv, k, j2 as int, e as int);
            }
        }
        let cj = cur[j2];
        if cj > maxf {
            maxf = cj;
        }
        fut[j2] = maxf;
        t = t - 1;
    }
    proof {
        lemma_max_current_bounds(s, iv, k, b as int, e as int);
        lemma_current_bound(s, iv, k, e as int);
        lemma_sum_comp_bounds(s, DemandComp::Pickup, b as int, e + 1);
        assert(spec_carry(s, iv, k + 1) == spec_interval_end_load(s, iv, k) - sum_comp(
            s,
            DemandComp::Pickup,
            iv[k].0 as int,
            iv[k].1 + 1,
        ));
    }
    (current - pick, maxf)
}


/// The per-activity load stored under a capacity key, read as the
/// recalculation left it; zero when absent, as the sweeps start from zero.
pub open spec fn state_load_at(st: RouteState, key: i32, i: int) -> int {
    match st.spec_capacity_slot(key) {
        Some(v) => if 0 <= i < v.len() {
            v[i] as int
        } else {
            0
        },
        None => 0,
    }
}

/// The demand-violation decision at a pivot activity: `None` when the
/// demand fits; `Some(stopped)` when a fixed component or the change can
/// never fit from here on; `Some(false)` when only the current load
/// overflows, so a later interval may still admit the demand.
pub open spec fn spec_has_demand_violation(
    st: RouteState,
    pivot: int,
    capacity: Option<Load>,
    demand: Option<Demand>,
    stopped: bool,
) -> Option<bool> {
    match demand {
        None => None,
        Some(d) => match capacity {
            None => Some(stopped),
            Some(cap) => {
                let past = state_load_at(st, MAX_PAST_CAPACITY_KEY, pivot);
                let fut = state_load_at(st, MAX_FUTURE_CAPACITY_KEY, pivot);
                let curr = state_load_at(st, CURRENT_CAPACITY_KEY, pivot);
                if d.delivery_fixed != 0 && !spec_can_fit(cap, past + d.delivery_fixed) {
                    Some(stopped)
                } else if d.pickup_fixed != 0 && !spec_can_fit(cap, fut + d.pickup_fixed) {
                    Some(stopped)
                } else if d.spec_change() != 0 && !spec_can_fit(cap, fut + d.spec_change()) {
                    Some(stopped)
                } else if d.spec_change() != 0 && !spec_can_fit(cap, curr + d.spec_change()) {
                    Some(false)
                } else {
                    None
                }
            },
        },
    }
}

/// Whether a demand can be served on some or all marker intervals of the
/// route, depending on whether an insertion index is fixed.
pub open spec fn spec_can_handle_on(
    ctx: RouteContext,
    iv: Seq<(usize, usize)>,
    demand: Option<Demand>,
    insert_idx: Option<usize>,
) -> bool {
    match insert_idx {
        Some(idx) => forall|k: int|
            0 <= k < iv.len() && idx <= iv[k].1 ==> (#[trigger] spec_has_demand_violation(
                ctx.state,
                max2(idx as int, iv[k].0 as int),
                ctx.route.actor.vehicle.dimens.capacity,
                demand,
                true,
            )) is None,
        None => exists|k: int|
            0 <= k < iv.len() && (#[trigger] spec_has_demand_violation(
                ctx.state,
                iv[k].0 as int,
                ctx.route.actor.vehicle.dimens.capacity,
                demand,
                true,
            )) is None,
    }
}

pub open spec fn spec_can_handle_demand_on_intervals(
    ctx: RouteContext,
    mt: MultiTrip,
    demand: Option<Demand>,
    insert_idx: Option<usize>,
) -> bool {
    match mt.spec_marker_intervals(ctx) {
        Some(iv) => spec_can_handle_on(ctx, iv, demand, insert_idx),
        None => spec_has_demand_violation(
            ctx.state,
            match insert_idx {
                Some(idx) => idx as int,
                None => 0,
            },
            ctx.route.actor.vehicle.dimens.capacity,
            demand,
            true,
        ) is None,
    }
}

/// Checks whether a load fits a capacity, on a widened load so that no
/// sum can overflow.
fn can_fit_wide(capacity: Load, load: i128) -> (r: bool)
    ensures
        r == spec_can_fit(capacity, load as int),
{
    load <= capacity as i128
}

impl CapacityConstraintModule {
    /// Decides whether a demand violates the capacity at a pivot activity.
    pub fn has_demand_violation(
        state: &RouteState,
        pivot: usize,
        capacity: Option<Load>,
        demand: Option<Demand>,
        stopped: bool,
    ) -> (r: Option<bool>)
        ensures
            r == spec_has_demand_violation(*state, pivot as int, capacity, demand, stopped),
    {
        let d = match demand {
            Some(d) => d,
            None => {
                return None;
            },
        };
        let cap: Load = match capacity {
            Some(c) => c,
            None => {
                return Some(stopped);
            },
        };
        let past = match state.get_activity_load(MAX_PAST_CAPACITY_KEY, pivot) {
            Some(v) => v,
            None => 0,
        };
        let fut = match state.get_activity_load(MAX_FUTURE_CAPACITY_KEY, pivot) {
            Some(v) => v,
            None => 0,
        };
        let curr = match state.get_activity_load(CURRENT_CAPACITY_KEY, pivot) {
            Some(v) => v,
            None => 0,
        };
        let change: i128 = (d.pickup_fixed as i128) + (d.pickup_dynamic as i128) - (
        d.delivery_fixed as i128) - (d.delivery_dynamic as i128);
        if d.delivery_fixed != 0 && !can_fit_wide(cap, (past as i128) + (d.delivery_fixed as i128))
        {
            return Some(stopped);
        }
        if d.pickup_fixed != 0 && !can_fit_wide(cap, (fut as i128) + (d.pickup_fixed as i128)) {
            return Some(stopped);
        }
        if change != 0 {
            if !can_fit_wide(cap, (fut as i128) + change) {
                return Some(stopped);
            }
            if !can_fit_wide(cap, (curr as i128) + change) {
                return Some(false);
            }
        }
        None
    }

    /// Checks whether a demand can be served on the route's intervals,
    /// either at a fixed insertion index (all intervals from there on must
    /// admit it) or anywhere (some interval must admit it).
    pub fn can_handle_demand_on_intervals(
        ctx: &RouteContext,
        multi_trip: &MultiTrip,
        demand: Option<&Demand>,
        insert_idx: Option<usize>,
    ) -> (r: bool)
        ensures
            r == spec_can_handle_demand_on_intervals(
                *ctx,
                *multi_trip,
                match demand {
                    Some(d) => Some(*d),
                    None => None,
                },
                insert_idx,
            ),
    {
        let dm: Option<Demand> = match demand {
            Some(d) => Some(*d),
            None => None,
        };
        let cap: Option<Load> = match &ctx.route.actor.vehicle.dimens.capacity {
            Some(c) => Some(*c),
            None => None,
        };
        proof {
            assert(cap == ctx.route.actor.vehicle.dimens.capacity);
        }
        let intervals: Option<&Vec<(usize, usize)>> = match multi_trip {
            MultiTrip::Disabled => None,
            MultiTrip::Reload(_) => ctx.state.reload_intervals.as_ref(),
        };
        match intervals {
            Some(iv) => {
                let ghost ivs = iv@;
                proof {
                    assert(multi_trip.spec_marker_intervals(*ctx) == Some(ivs));
                }
                match insert_idx {
                    Some(idx) => {
                        let mut k: usize = 0;
                        while k < iv.len()
                            invariant
                                ivs == iv@,
                                0 <= k <= ivs.len(),
                                cap == ctx.route.actor.vehicle.dimens.capacity,
                                dm == (match demand {
                                    Some(d) => Some(*d),
                                    None => None,
                                }),
                                insert_idx == Some(idx),
                                multi_trip.spec_marker_intervals(*ctx) == Some(ivs),
                                forall|k2: int|
                                    0 <= k2 < k && idx <= ivs[k2].1 ==> (
                                    #[trigger] spec_has_demand_violation(
                                        ctx.state,
                                        max2(idx as int, ivs[k2].0 as int),
                                        cap,
                                        dm,
                                        true,
                                    )) is None,
                            decreases ivs.len() - k,
                        {
                            let (b, e) = iv[k];
                            if idx <= e {
                                let pivot = if idx >= b {
                                    idx
                                } else {
                                    b
                                };
                                if Self::has_demand_violation(&ctx.state, pivot, cap, dm, true)
                                    .is_some() {
                                    proof {
                                        assert(spec_has_demand_violation(
                                            ctx.state,
                                            max2(idx as int, ivs[k as int].0 as int),
                                            cap,
                                            dm,
                                            true,
                                        ) is Some);
                                        assert(!spec_can_handle_on(*ctx, ivs, dm, insert_idx));
                                    }
                                    return false;
                                }
                            }
                            k = k + 1;
                        }
                        true
                    },
                    None => {
                        let mut k: usize = 0;
                        while k < iv.len()
                            invariant
                                ivs == iv@,
                                0 <= k <= ivs.len(),
                                cap == ctx.route.actor.vehicle.dimens.capacity,
                                dm == (match demand {
                                    Some(d) => Some(*d),
                                    None => None,
                                }),
                                insert_idx is None,
                                multi_trip.spec_marker_intervals(*ctx) == Some(ivs),
                                forall|k2: int|
                                    0 <= k2 < k ==> (#[trigger] spec_has_demand_violation(
                                        ctx.state,
                                        ivs[k2].0 as int,
                                        cap,
                                        dm,
                                        true,
                                    )) is Some,
                            decreases ivs.len() - k,
                        {
                            let (b, _e) = iv[k];
                            if Self::has_demand_violation(&ctx.state, b, cap, dm, true).is_none() {
                                proof {
                                    assert(spec_has_demand_violation(
                                        ctx.state,
                                        ivs[k as int].0 as int,
                                        cap,
                                        dm,
                                        true,
                                    ) is None);
                                    assert(spec_can_handle_on(*ctx, ivs, dm, insert_idx));
                                }
                                return true;
                            }
                            k = k + 1;
                        }
                        false
                    },
                }
            },
            None => {
                let pivot = match insert_idx {
                    Some(idx) => idx,
                    None => 0,
                };
                Self::has_demand_violation(&ctx.state, pivot, cap, dm, true).is_none()
            },
        }
    }

    /// Attempts to fuse two jobs: both must be non-marker singles whose
    /// demands, when present, sum without overflow.
    pub fn merge(&self, source: Job, candidate: Job) -> (r: Result<Job, i32>)
        requires
            match source.spec_dimens().demand {
                Some(d) => d.wf(),
                None => true,
            },
            match candidate.spec_dimens().demand {
                Some(d) => d.wf(),
                None => true,
            },
        ensures
            self.multi_trip.spec_is_marker_job(source) || self.multi_trip.spec_is_marker_job(
                candidate,
            ) ==> r == Result::<Job, i32>::Err(self.code),
            r is Ok ==> source is Single && candidate is Single,
            match (source, candidate) {
                (Job::Single(ss), Job::Single(cs)) => {
                    if self.multi_trip.spec_is_marker_job(source)
                        || self.multi_trip.spec_is_marker_job(candidate) {
                        r == Result::<Job, i32>::Err(self.code)
                    } else {
                        match (ss.dimens.demand, cs.dimens.demand) {
                            (Some(sd), Some(cd)) => {
                                if sd.spec_sum_fits(cd) {
                                    r matches Ok(j) && j matches Job::Single(ns)
                                        && ns.places == ss.places && ns.dimens == (Dimensions {
                                        demand: Some(sd.spec_sum(cd)),
                                        ..ss.dimens
                                    })
                                } else {
                                    r == Result::<Job, i32>::Err(self.code)
                                }
                            },
                            (None, Some(cd)) => r matches Ok(j) && j matches Job::Single(ns)
                                && ns.places == ss.places && ns.dimens == (Dimensions {
                                demand: Some(cd),
                                ..ss.dimens
                            }),
                            _ => r == Result::<Job, i32>::Ok(source),
                        }
                    }
                },
                _ => r == Result::<Job, i32>::Err(self.code),
            },
    {
        if self.multi_trip.is_marker_job(&source) || self.multi_trip.is_marker_job(&candidate) {
            return Err(self.code);
        }
        match (source, candidate) {
            (Job::Single(s_source), Job::Single(s_candidate)) => {
                let source_demand: Option<Demand> = s_source.dimens.demand;
                let candidate_demand: Option<Demand> = s_candidate.dimens.demand;
                match (source_demand, candidate_demand) {
                    (None, None) => Ok(Job::Single(s_source)),
                    (Some(_), None) => Ok(Job::Single(s_source)),
                    (source_demand, candidate_demand) => {
                        let sd: Demand = match source_demand {
                            Some(d) => d,
                            None => Demand::empty(),
                        };
                        let cd: Demand = match candidate_demand {
                            Some(d) => d,
                            None => Demand::empty(),
                        };
                        match sd.checked_add(&cd) {
                            Some(new_demand) => {
                                let mut single = s_source;
                                single.dimens.set_demand(new_demand);
                                Ok(Job::Single(single))
                            },
                            None => Err(self.code),
                        }
                    },
                }
            },
            _ => Err(self.code),
        }
    }

    /// Recomputes this module's route state: same promise as
    /// `recalculate_states`.
    pub fn accept_route_state(&self, ctx: &mut RouteContext)
        requires
            old(ctx).route.tour.activities@.len() >= 1,
            old(ctx).route.tour.activities@.len() <= MAX_ACTIVITIES,
            demands_bounded(old(ctx).route.tour.activities@),
            intervals_wf(
                spec_effective_intervals(self.multi_trip, *old(ctx)),
                old(ctx).route.tour.activities@.len() as int,
            ),
        ensures
            capacity_recalc_post(*self, *old(ctx), *final(ctx)),
    {
        self.recalculate_states(ctx);
    }
}


/// The hard-route decision of the capacity module: a marker job must be
/// assignable to the route's actor; a single job must have some interval
/// that can serve its demand, and a multi job is admissible only when
/// each of its pieces is admitted by some interval independently.
pub open spec fn spec_evaluate_job(
    m: CapacityConstraintModule,
    ctx: RouteContext,
    job: Job,
) -> Option<RouteConstraintViolation> {
    if m.multi_trip.spec_is_marker_job(job) {
        if m.multi_trip.spec_is_assignable(ctx, job) {
            None
        } else {
            Some(RouteConstraintViolation { code: m.code })
        }
    } else {
        let can = match job {
            Job::Single(single) => spec_can_handle_demand_on_intervals(
                ctx,
                m.multi_trip,
                single.dimens.demand,
                None,
            ),
            Job::Multi(multi) => forall|j: int|
                0 <= j < multi.jobs@.len() ==> spec_can_handle_demand_on_intervals(
                    ctx,
                    m.multi_trip,
                    (#[trigger] multi.jobs@[j]).dimens.demand,
                    None,
                ),
        };
        if can {
            None
        } else {
            Some(RouteConstraintViolation { code: m.code })
        }
    }
}

/// The hard-activity decision of the capacity module. A marker activity is
/// admitted only as the last activity of the tour, never first; any other
/// activity is admitted when its demand fits, with the stopped flag raised
/// unless reload markers may still reset the load.
pub open spec fn spec_evaluate_activity(
    m: CapacityConstraintModule,
    ctx: RouteContext,
    actx: ActivityContext,
) -> Option<ActivityConstraintViolation> {
    if (match actx.target.job {
        Some(single) => m.multi_trip.spec_is_marker_job(Job::Single(single)),
        None => false,
    }) {
        let is_first = actx.prev.job is None;
        let is_not_last = match actx.next {
            Some(n) => n.job is Some,
            None => false,
        };
        if is_first || is_not_last {
            Some(ActivityConstraintViolation { code: m.code, stopped: false })
        } else {
            None
        }
    } else {
        let demand = actx.target.spec_demand();
        if (match actx.target.job {
            Some(single) => single.dimens.multi_owner is Some,
            None => false,
        }) {
            if spec_can_handle_demand_on_intervals(ctx, m.multi_trip, demand, Some(actx.index)) {
                None
            } else {
                Some(ActivityConstraintViolation { code: m.code, stopped: false })
            }
        } else {
            match spec_has_demand_violation(
                ctx.state,
                actx.index - 1,
                ctx.route.actor.vehicle.dimens.capacity,
                demand,
                !(match m.multi_trip.spec_marker_intervals(ctx) {
                    Some(iv) => iv.len() > 1,
                    None => false,
                }),
            ) {
                Some(stopped) => Some(ActivityConstraintViolation { code: m.code, stopped }),
                None => None,
            }
        }
    }
}

/// Jobs of a sequence whose marker status matches `markers`, in order.
pub open spec fn filter_jobs(mt: MultiTrip, s: Seq<Job>, markers: bool) -> Seq<Job>
    decreases s.len(),
{
    if s.len() == 0 {
        Seq::empty()
    } else {
        let rest = filter_jobs(mt, s.drop_last(), markers);
        if mt.spec_is_marker_job(s.last()) == markers {
            rest.push(s.last())
        } else {
            rest
        }
    }
}

/// A route context the capacity recalculation can run on.
pub open spec fn route_ctx_recalc_ready(m: CapacityConstraintModule, rc: RouteContext) -> bool {
    &&& rc.route.tour.activities@.len() >= 1
    &&& rc.route.tour.activities@.len() <= MAX_ACTIVITIES
    &&& demands_bounded(rc.route.tour.activities@)
    &&& intervals_wf(
        spec_effective_intervals(m.multi_trip, rc),
        rc.route.tour.activities@.len() as int,
    )
}

impl CapacityConstraintModule {
    /// Soft cost of inserting a job into the route: a marker job is
    /// rewarded so that reload stations are preferred over new tours.
    pub fn estimate_job(&self, ctx: &RouteContext, job: &Job) -> (r: Cost)
        ensures
            r == if self.multi_trip.spec_is_marker_job(*job) {
                0 - max2(ctx.route.actor.vehicle.costs.fixed as int, 1000)
            } else {
                0
            },
    {
        if self.multi_trip.is_marker_job(job) {
            let fixed = ctx.route.actor.vehicle.costs.fixed;
            if fixed >= 1000 {
                0 - fixed
            } else {
                -1000
            }
        } else {
            0
        }
    }

    /// Evaluates the hard route constraint for a candidate job.
    pub fn evaluate_job(&self, ctx: &RouteContext, job: &Job) -> (r: Option<
        RouteConstraintViolation,
    >)
        ensures
            r == spec_evaluate_job(*self, *ctx, *job),
    {
        if self.multi_trip.is_marker_job(job) {
            if self.multi_trip.is_assignable(ctx, job) {
                return None;
            } else {
                return Some(RouteConstraintViolation { code: self.code });
            }
        }
        let can_handle: bool = match job {
            Job::Single(single) => Self::can_handle_demand_on_intervals(
                ctx,
                &self.multi_trip,
                single.dimens.demand.as_ref(),
                None,
            ),
            Job::Multi(multi) => {
                let mut all_pieces_fit: bool = true;
                let mut j: usize = 0;
                while j < multi.jobs.len()
                    invariant
                        0 <= j <= multi.jobs@.len(),
                        all_pieces_fit == forall|j2: int|
                            0 <= j2 < j ==> spec_can_handle_demand_on_intervals(
                                *ctx,
                                self.multi_trip,
                                (#[trigger] multi.jobs@[j2]).dimens.demand,
                                None,
                            ),
                    decreases multi.jobs@.len() - j,
                {
                    if !Self::can_handle_demand_on_intervals(
                        ctx,
                        &self.multi_trip,
                        multi.jobs[j].dimens.demand.as_ref(),
                        None,
                    ) {
                        all_pieces_fit = false;
                    }
                    j = j + 1;
                }
                all_pieces_fit
            },
        };
        if can_handle {
            None
        } else {
            Some(RouteConstraintViolation { code: self.code })
        }
    }

    /// Evaluates the hard activity constraint for a candidate position.
    pub fn evaluate_activity(&self, route_ctx: &RouteContext, activity_ctx: &ActivityContext) -> (r:
        Option<ActivityConstraintViolation>)
        requires
            activity_ctx.index >= 1,
        ensures
            r == spec_evaluate_activity(*self, *route_ctx, *activity_ctx),
    {
        let is_marker_target: bool = match &activity_ctx.target.job {
            Some(single) => self.is_marker_single(single),
            None => false,
        };
        if is_marker_target {
            let is_first = activity_ctx.prev.job.is_none();
            let is_not_last = match &activity_ctx.next {
                Some(n) => n.job.is_some(),
                None => false,
            };
            if is_first || is_not_last {
                return Some(ActivityConstraintViolation { code: self.code, stopped: false });
            } else {
                return None;
            }
        }
        let demand: Option<&Demand> = activity_ctx.target.demand();
        let is_multi_part: bool = match &activity_ctx.target.job {
            Some(single) => single.dimens.multi_owner.is_some(),
            None => false,
        };
        if is_multi_part {
            if Self::can_handle_demand_on_intervals(
                route_ctx,
                &self.multi_trip,
                demand,
                Some(activity_ctx.index),
            ) {
                None
            } else {
                Some(ActivityConstraintViolation { code: self.code, stopped: false })
            }
        } else {
            let dm: Option<Demand> = match demand {
                Some(d) => Some(*d),
                None => None,
            };
            let cap: Option<Load> = match &route_ctx.route.actor.vehicle.dimens.capacity {
                Some(c) => Some(*c),
                None => None,
            };
            let stopped_flag = !self.multi_trip.has_markers(route_ctx);
            match Self::has_demand_violation(
                &route_ctx.state,
                activity_ctx.index - 1,
                cap,
                dm,
                stopped_flag,
            ) {
                Some(stopped) => Some(ActivityConstraintViolation { code: self.code, stopped }),
                None => None,
            }
        }
    }

    /// Evaluates the hard activity constraint at a candidate insertion
    /// index of the tour: the position whose previous activity sits at
    /// `i - 1` and whose next activity sits at `i`.
    pub fn evaluate_activity_at(&self, route_ctx: &RouteContext, target: &Activity, i: usize) -> (r:
        Option<ActivityConstraintViolation>)
        requires
            1 <= i < route_ctx.route.tour.activities@.len(),
        ensures
            r == spec_evaluate_activity(
                *self,
                *route_ctx,
                crate::pipeline::spec_position_ctx(*route_ctx, *target, i as int),
            ),
    {
        let is_marker_target: bool = match &target.job {
            Some(single) => self.is_marker_single(single),
            None => false,
        };
        if is_marker_target {
            let is_first = route_ctx.route.tour.activities[i - 1].job.is_none();
            let is_not_last = route_ctx.route.tour.activities[i].job.is_some();
            if is_first || is_not_last {
                return Some(ActivityConstraintViolation { code: self.code, stopped: false });
            } else {
                return None;
            }
        }
        let demand: Option<&Demand> = target.demand();
        let is_multi_part: bool = match &target.job {
            Some(single) => single.dimens.multi_owner.is_some(),
            None => false,
        };
        if is_multi_part {
            if Self::can_handle_demand_on_intervals(route_ctx, &self.multi_trip, demand, Some(i)) {
                None
            } else {
                Some(ActivityConstraintViolation { code: self.code, stopped: false })
            }
        } else {
            let dm: Option<Demand> = match demand {
                Some(d) => Some(*d),
                None => None,
            };
            let cap: Option<Load> = match &route_ctx.route.actor.vehicle.dimens.capacity {
                Some(c) => Some(*c),
                None => None,
            };
            let stopped_flag = !self.multi_trip.has_markers(route_ctx);
            match Self::has_demand_violation(&route_ctx.state, i - 1, cap, dm, stopped_flag) {
                Some(stopped) => Some(ActivityConstraintViolation { code: self.code, stopped }),
                None => None,
            }
        }
    }

    /// Whether a single visit is a marker of this module's collaborator.
    fn is_marker_single(&self, single: &Single) -> (r: bool)
        ensures
            r == self.multi_trip.spec_is_marker_job(Job::Single(*single)),
    {
        match &self.multi_trip {
            MultiTrip::Disabled => false,
            MultiTrip::Reload(_) => match &single.dimens.job_type {
                Some(t) => t.eq(&("reload".to_owned())),
                None => false,
            },
        }
    }

    /// Accepts a committed insertion: recalculates the mutated route's
    /// capacity state and leaves every other route unchanged.
    pub fn accept_insertion(&self, solution_ctx: &mut SolutionContext, route_index: usize)
        requires
            route_index < old(solution_ctx).routes@.len(),
            route_ctx_recalc_ready(*self, old(solution_ctx).routes@[route_index as int]),
        ensures
            final(solution_ctx).routes@.len() == old(solution_ctx).routes@.len(),
            capacity_recalc_post(
                *self,
                old(solution_ctx).routes@[route_index as int],
                final(solution_ctx).routes@[route_index as int],
            ),
            forall|i: int|
                0 <= i < old(solution_ctx).routes@.len() && i != route_index
                    ==> final(solution_ctx).routes@[i] == old(solution_ctx).routes@[i],
            final(solution_ctx).unassigned == old(solution_ctx).unassigned,
            final(solution_ctx).required == old(solution_ctx).required,
            final(solution_ctx).ignored == old(solution_ctx).ignored,
            final(solution_ctx).locked == old(solution_ctx).locked,
            final(solution_ctx).state == old(solution_ctx).state,
    {
        let mut rc = solution_ctx.routes.remove(route_index);
        self.accept_route_state(&mut rc);
        solution_ctx.routes.insert(route_index, rc);
    }

    /// Accepts the solution state: marker jobs leave the required set and
    /// join the locked set, and every stale route is recalculated.
    pub fn accept_solution_state(&self, ctx: &mut SolutionContext)
        requires
            forall|i: int|
                0 <= i < old(ctx).routes@.len() && (#[trigger] old(ctx).routes@[i]).stale
                    ==> route_ctx_recalc_ready(*self, old(ctx).routes@[i]),
        ensures
            final(ctx).required@ == filter_jobs(self.multi_trip, old(ctx).required@, false),
            final(ctx).locked@ == old(ctx).locked@ + filter_jobs(
                self.multi_trip,
                old(ctx).required@,
                true,
            ),
            final(ctx).routes@.len() == old(ctx).routes@.len(),
            forall|i: int|
                0 <= i < old(ctx).routes@.len() ==> if (#[trigger] old(ctx).routes@[i]).stale {
                    capacity_recalc_post(*self, old(ctx).routes@[i], final(ctx).routes@[i])
                } else {
                    final(ctx).routes@[i] == old(ctx).routes@[i]
                },
            final(ctx).unassigned == old(ctx).unassigned,
            final(ctx).ignored == old(ctx).ignored,
            final(ctx).state == old(ctx).state,
    {
        let ghost orig = ctx.required@;
        let ghost locked0 = ctx.locked@;
        let mut kept: Vec<Job> = Vec::new();
        let total_req: usize = ctx.required.len();
        let ghost n = orig.len();
        let mut processed: usize = 0;
        while ctx.required.len() > 0
            invariant
                processed + ctx.required@.len() == total_req,
                n == total_req,
                ctx.required@ =~= orig.subrange(processed as int, n as int),
                kept@ == filter_jobs(self.multi_trip, orig.subrange(0, processed as int), false),
                ctx.locked@ == locked0 + filter_jobs(
                    self.multi_trip,
                    orig.subrange(0, processed as int),
                    true,
                ),
                orig == old(ctx).required@,
                locked0 == old(ctx).locked@,
                n == orig.len(),
                ctx.routes == old(ctx).routes,
                ctx.unassigned == old(ctx).unassigned,
                ctx.ignored == old(ctx).ignored,
                ctx.state == old(ctx).state,
            decreases ctx.required@.len(),
        {
            let job = ctx.required.remove(0);
            proof {
                assert(job == orig[processed as int]);
                assert(orig.subrange(0, processed + 1).drop_last() =~= orig.subrange(
                    0,
                    processed as int,
                ));
                assert(orig.subrange(0, processed + 1).last() == orig[processed as int]);
            }
            if self.multi_trip.is_marker_job(&job) {
                ctx.locked.push(job);
            } else {
                kept.push(job);
            }
            processed = processed + 1;
            proof {
                assert(ctx.required@ =~= orig.subrange(processed as int, n as int));
            }
        }
        proof {
            assert(orig.subrange(0, processed as int) =~= orig);
        }
        ctx.required = kept;
        let mut i: usize = 0;
        let ghost routes0 = ctx.routes@;
        while i < ctx.routes.len()
            invariant
                routes0.len() == ctx.routes@.len(),
                routes0 == old(ctx).routes@,
                orig == old(ctx).required@,
                locked0 == old(ctx).locked@,
                0 <= i <= routes0.len(),
                forall|j: int|
                    0 <= j < routes0.len() && (#[trigger] routes0[j]).stale
                        ==> route_ctx_recalc_ready(*self, routes0[j]),
                forall|j: int|
                    0 <= j < i ==> if (#[trigger] routes0[j]).stale {
                        capacity_recalc_post(*self, routes0[j], ctx.routes@[j])
                    } else {
                        ctx.routes@[j] == routes0[j]
                    },
                forall|j: int| i <= j < routes0.len() ==> #[trigger] ctx.routes@[j] == routes0[j],
                ctx.required@ == filter_jobs(self.multi_trip, orig, false),
                ctx.locked@ == locked0 + filter_jobs(self.multi_trip, orig, true),
                ctx.unassigned == old(ctx).unassigned,
                ctx.ignored == old(ctx).ignored,
                ctx.state == old(ctx).state,
            decreases routes0.len() - i,
        {
            if ctx.routes[i].is_stale() {
                let mut rc = ctx.routes.remove(i);
                self.recalculate_states(&mut rc);
                ctx.routes.insert(i, rc);
            }
            i = i + 1;
        }
    }
}

/// Demands whose dynamic components are all zero: every load change is a
/// fixed pickup or a fixed delivery.
pub open spec fn static_demands(s: Seq<Activity>) -> bool {
    forall|i: int|
        0 <= i < s.len() ==> match #[trigger] s[i].spec_demand() {
            Some(d) => d.pickup_dynamic == 0 && d.delivery_dynamic == 0,
            None => true,
        }
}

/// Under static demands the change sum is the pickup sum minus the
/// delivery sum.
proof fn lemma_static_change(s: Seq<Activity>, from: int, to: int)
    requires
        0 <= from <= to <= s.len(),
        static_demands(s),
    ensures
        sum_comp(s, DemandComp::Change, from, to) == sum_comp(s, DemandComp::Pickup, from, to)
            - sum_comp(s, DemandComp::Delivery, from, to),
    decreases to - from,
{
    if from < to {
        lemma_static_change(s, from + 1, to);
        assert(match s[from].spec_demand() {
            Some(d) => d.pickup_dynamic == 0 && d.delivery_dynamic == 0,
            None => true,
        });
    }
}

/// Under static demands no load is carried across interval boundaries.
proof fn lemma_static_carry_zero(s: Seq<Activity>, iv: Seq<(usize, usize)>, k: int)
    requires
        intervals_wf(iv, s.len() as int),
        demands_bounded(s),
        static_demands(s),
        0 <= k <= iv.len(),
    ensures
        spec_carry(s, iv, k) == 0,
    decreases k,
{
    if k > 0 {
        lemma_static_carry_zero(s, iv, k - 1);
        let b = iv[k - 1].0 as int;
        let e = iv[k - 1].1 as int;
        lemma_static_change(s, b, e + 1);
    }
}

/// The law of non-negative loads: under static, bounded demands, the
/// current load recorded at every activity is non-negative. (A dynamic
/// delivery at the first activity of a route drives the current load
/// negative, so dynamic components are excluded here.)
pub proof fn lemma_current_nonnegative(
    s: Seq<Activity>,
    iv: Seq<(usize, usize)>,
    k: int,
    i: int,
)
    requires
        intervals_wf(iv, s.len() as int),
        demands_bounded(s),
        static_demands(s),
        0 <= k < iv.len(),
        iv[k].0 <= i <= iv[k].1,
    ensures
        spec_current_at(s, iv, k, i) >= 0,
{
    let b = iv[k].0 as int;
    let e = iv[k].1 as int;
    lemma_static_carry_zero(s, iv, k);
    lemma_static_change(s, b, i + 1);
    lemma_sum_comp_split(s, DemandComp::Delivery, b, i + 1, e + 1);
    lemma_sum_comp_bounds(s, DemandComp::Delivery, i + 1, e + 1);
    lemma_sum_comp_bounds(s, DemandComp::Pickup, b, i + 1);
}

/// The range maximum of the current load dominates the load at every
/// index of the range.
pub proof fn lemma_max_current_dominates(
    s: Seq<Activity>,
    iv: Seq<(usize, usize)>,
    k: int,
    from: int,
    to: int,
    i: int,
)
    requires
        from <= i <= to,
    ensures
        spec_current_at(s, iv, k, i) <= spec_max_current(s, iv, k, from, to),
    decreases to - from,
{
    if i < to {
        lemma_max_current_dominates(s, iv, k, from, to - 1, i);
    }
}

/// The capacity invariant: wherever the recalculation ran, the recorded
/// current load never exceeds the recorded max past load nor the recorded
/// max future load, and under static demands it is non-negative.
pub proof fn lemma_capacity_invariant(
    cur: Seq<Load>,
    past: Seq<Load>,
    fut: Seq<Load>,
    s: Seq<Activity>,
    iv: Seq<(usize, usize)>,
    k: int,
    i: int,
)
    requires
        intervals_wf(iv, s.len() as int),
        demands_bounded(s),
        capacity_vectors_correct(cur, past, fut, s, iv),
        0 <= k < iv.len(),
        iv[k].0 <= i <= iv[k].1,
    ensures
        cur[i] <= past[i],
        cur[i] <= fut[i],
        static_demands(s) ==> 0 <= cur[i],
{
    lemma_max_current_dominates(s, iv, k, iv[k].0 as int, i, i);
    lemma_max_current_dominates(s, iv, k, i, iv[k].1 as int, i);
    if static_demands(s) {
        lemma_current_nonnegative(s, iv, k, i);
    }
}

/// Recalculating the capacity state twice yields the same state as doing
/// it once: the recalculation is idempotent, value for value.
pub proof fn lemma_recalculate_idempotent(
    m: CapacityConstraintModule,
    pre: RouteContext,
    mid: RouteContext,
    post: RouteContext,
)
    requires
        pre.route.tour.activities@.len() >= 1,
        demands_bounded(pre.route.tour.activities@),
        intervals_wf(
            spec_effective_intervals(m.multi_trip, pre),
            pre.route.tour.activities@.len() as int,
        ),
        capacity_recalc_post(m, pre, mid),
        capacity_recalc_post(m, mid, post),
    ensures
        match (mid.state.current_capacities, post.state.current_capacities) {
            (Some(a), Some(b)) => a@ == b@,
            _ => false,
        },
        match (mid.state.max_past_capacities, post.state.max_past_capacities) {
            (Some(a), Some(b)) => a@ == b@,
            _ => false,
        },
        match (mid.state.max_future_capacities, post.state.max_future_capacities) {
            (Some(a), Some(b)) => a@ == b@,
            _ => false,
        },
        post.state.max_load == mid.state.max_load,
        post.state.reload_intervals == mid.state.reload_intervals,
        post.state.total_distance == mid.state.total_distance,
        post.state.generic_values == mid.state.generic_values,
{
    let s = pre.route.tour.activities@;
    let iv = spec_effective_intervals(m.multi_trip, pre);
    assert(mid.route == pre.route);
    assert(mid.state.reload_intervals == pre.state.reload_intervals);
    assert(spec_effective_intervals(m.multi_trip, mid) == iv);
    let cur1 = mid.state.current_capacities.unwrap()@;
    let cur2 = post.state.current_capacities.unwrap()@;
    let past1 = mid.state.max_past_capacities.unwrap()@;
    let past2 = post.state.max_past_capacities.unwrap()@;
    let fut1 = mid.state.max_future_capacities.unwrap()@;
    let fut2 = post.state.max_future_capacities.unwrap()@;
    assert forall|i: int| 0 <= i < s.len() implies cur1[i] == cur2[i] && past1[i] == past2[i]
        && fut1[i] == fut2[i] by {
        lemma_intervals_cover(iv, s.len() as int, i);
        let k = choose|k: int| 0 <= k < iv.len() && (#[trigger] iv[k]).0 <= i <= iv[k].1;
        assert(cur1[i] == spec_current_at(s, iv, k, i));
        assert(cur2[i] == spec_current_at(s, iv, k, i));
        assert(past1[i] == max2(0, spec_max_current(s, iv, k, iv[k].0 as int, i)));
        assert(past2[i] == max2(0, spec_max_current(s, iv, k, iv[k].0 as int, i)));
        assert(fut1[i] == spec_max_current(s, iv, k, i, iv[k].1 as int));
        assert(fut2[i] == spec_max_current(s, iv, k, i, iv[k].1 as int));
    }
    assert(cur1 =~= cur2);
    assert(past1 =~= past2);
    assert(fut1 =~= fut2);
}

/// Every activity index of the tour lies in some well-formed interval.
pub proof fn lemma_intervals_cover(iv: Seq<(usize, usize)>, total: int, i: int)
    requires
        intervals_wf(iv, total),
        0 <= i < total,
    ensures
        exists|k: int| 0 <= k < iv.len() && (#[trigger] iv[k]).0 <= i <= iv[k].1,
{
    lemma_intervals_cover_upto(iv, total, iv.len() as int - 1, i);
}

/// Every index up to the end of interval `j` lies in one of the intervals
/// `0..=j`.
proof fn lemma_intervals_cover_upto(iv: Seq<(usize, usize)>, total: int, j: int, i: int)
    requires
        intervals_wf(iv, total),
        0 <= j < iv.len(),
        0 <= i <= iv[j].1,
    ensures
        exists|k: int| 0 <= k <= j && (#[trigger] iv[k]).0 <= i <= iv[k].1,
    decreases j,
{
    if j > 0 && i < iv[j].0 {
        lemma_intervals_cover_upto(iv, total, j - 1, i);
    }
}

/// The maximal load the recalculation reports dominates the current load
/// at every activity and, when positive, is attained at one of them: the
/// stored max-load ratio is exactly the maximal current load over the
/// vehicle capacity.
pub proof fn lemma_max_load_exact(
    cur: Seq<Load>,
    past: Seq<Load>,
    fut: Seq<Load>,
    s: Seq<Activity>,
    iv: Seq<(usize, usize)>,
)
    requires
        intervals_wf(iv, s.len() as int),
        capacity_vectors_correct(cur, past, fut, s, iv),
    ensures
        forall|i: int|
            0 <= i < s.len() ==> #[trigger] cur[i] <= spec_global_max(s, iv, iv.len() as int),
        spec_global_max(s, iv, iv.len() as int) == 0 || exists|i: int|
            0 <= i < s.len() && #[trigger] cur[i] == spec_global_max(s, iv, iv.len() as int),
{
    let g = spec_global_max(s, iv, iv.len() as int);
    assert forall|i: int| 0 <= i < s.len() implies #[trigger] cur[i] <= g by {
        lemma_intervals_cover(iv, s.len() as int, i);
        let k = choose|k: int| 0 <= k < iv.len() && (#[trigger] iv[k]).0 <= i <= iv[k].1;
        lemma_max_current_dominates(s, iv, k, iv[k].0 as int, iv[k].1 as int, i);
        lemma_global_max_dominates(s, iv, iv.len() as int, k);
    }
    lemma_global_max_attained(cur, past, fut, s, iv, iv.len() as int);
}

/// The global maximum dominates every interval's maximum.
proof fn lemma_global_max_dominates(s: Seq<Activity>, iv: Seq<(usize, usize)>, klim: int, k: int)
    requires
        0 <= k < klim <= iv.len(),
    ensures
        spec_max_current(s, iv, k, iv[k].0 as int, iv[k].1 as int) <= spec_global_max(s, iv, klim),
    decreases klim,
{
    if k < klim - 1 {
        lemma_global_max_dominates(s, iv, klim - 1, k);
    }
}

/// A positive global maximum is attained by a recorded current load.
proof fn lemma_global_max_attained(
    cur: Seq<Load>,
    past: Seq<Load>,
    fut: Seq<Load>,
    s: Seq<Activity>,
    iv: Seq<(usize, usize)>,
    klim: int,
)
    requires
        intervals_wf(iv, s.len() as int),
        capacity_vectors_correct(cur, past, fut, s, iv),
        0 <= klim <= iv.len(),
    ensures
        spec_global_max(s, iv, klim) == 0 || exists|i: int|
            0 <= i < s.len() && #[trigger] cur[i] == spec_global_max(s, iv, klim),
    decreases klim,
{
    if klim > 0 {
        let k = klim - 1;
        let b = iv[k].0 as int;
        let e = iv[k].1 as int;
        if spec_global_max(s, iv, klim) == spec_global_max(s, iv, k) {
            lemma_global_max_attained(cur, past, fut, s, iv, k);
        } else {
            let j = lemma_max_current_attained(s, iv, k, b, e);
            assert(iv[k].0 <= j <= iv[k].1);
            assert(cur[j] == spec_current_at(s, iv, k, j));
            assert(cur[j] == spec_global_max(s, iv, klim));
        }
    }
}

/// The range maximum of the current load is attained at some index of the
/// range; returns one such index.
proof fn lemma_max_current_attained(
    s: Seq<Activity>,
    iv: Seq<(usize, usize)>,
    k: int,
    from: int,
    to: int,
) -> (j: int)
    requires
        from <= to,
    ensures
        from <= j <= to,
        spec_current_at(s, iv, k, j) == spec_max_current(s, iv, k, from, to),
    decreases to - from,
{
    if to <= from {
        from
    } else {
        let j0 = lemma_max_current_attained(s, iv, k, from, to - 1);
        if spec_max_current(s, iv, k, from, to - 1) >= spec_current_at(s, iv, k, to) {
            j0
        } else {
            to
        }
    }
}

/// Left unfolding of the range maximum: the maximum over `[from, to]` is
/// the maximum of the value at `from` and the maximum over `[from+1, to]`.
pub proof fn lemma_max_current_unfold_left(
    s: Seq<Activity>,
    iv: Seq<(usize, usize)>,
    k: int,
    from: int,
    to: int,
)
    requires
        from < to,
    ensures
        spec_max_current(s, iv, k, from, to) == max2(
            spec_current_at(s, iv, k, from),
            spec_max_current(s, iv, k, from + 1, to),
        ),
    decreases to - from,
{
    if from + 1 < to {
        lemma_max_current_unfold_left(s, iv, k, from, to - 1);
        assert(spec_max_current(s, iv, k, from, to) == max2(
            spec_max_current(s, iv, k, from, to - 1),
            spec_current_at(s, iv, k, to),
        ));
        assert(spec_max_current(s, iv, k, from + 1, to) == max2(
            spec_max_current(s, iv, k, from + 1, to - 1),
            spec_current_at(s, iv, k, to),
        ));
    } else {
        assert(spec_max_current(s, iv, k, from, to - 1) == spec_current_at(s, iv, k, from));
        assert(spec_max_current(s, iv, k, from + 1, to) == spec_current_at(s, iv, k, to));
    }
}

/// The range maximum of the current load is bounded like the loads.
pub proof fn lemma_max_current_bounds(
    s: Seq<Activity>,
    iv: Seq<(usize, usize)>,
    k: int,
    from: int,
    to: int,
)
    requires
        intervals_wf(iv, s.len() as int),
        demands_bounded(s),
        0 <= k < iv.len(),
        iv[k].0 <= from <= to,
        to <= iv[k].1,
    ensures
        -4194304 * (iv[k].1 + 2) <= spec_max_current(s, iv, k, from, to) <= 4194304 * (iv[k].1
            + 2),
    decreases to - from,
{
    lemma_current_bound(s, iv, k, to);
    if from < to {
        lemma_max_current_bounds(s, iv, k, from, to - 1);
    }
}

/// All intervals before `k` end before interval `k` starts.
pub proof fn lemma_intervals_ordered_all(iv: Seq<(usize, usize)>, total: int, k: int)
    requires
        intervals_wf(iv, total),
        0 <= k < iv.len(),
    ensures
        forall|k2: int| 0 <= k2 < k ==> (#[trigger] iv[k2]).1 < iv[k].0,
{
    assert forall|k2: int| 0 <= k2 < k implies (#[trigger] iv[k2]).1 < iv[k].0 by {
        lemma_intervals_ordered(iv, total, k2, k);
    }
}

/// A vector of `n` zero loads.
fn zero_vec(n: usize) -> (r: Vec<Load>)
    ensures
        r@.len() == n,
        forall|i: int| 0 <= i < n ==> r@[i] == 0,
{
    let mut v: Vec<Load> = Vec::new();
    let mut i: usize = 0;
    while i < n
        invariant
            0 <= i <= n,
            v@.len() == i,
            forall|j: int| 0 <= j < i ==> v@[j] == 0,
        decreases n - i,
    {
        v.push(0);
        i = i + 1;
    }
    v
}

/// An owned copy of an interval list.
fn copy_intervals(v: &Vec<(usize, usize)>) -> (r: Vec<(usize, usize)>)
    ensures
        r@ == v@,
{
    let mut r: Vec<(usize, usize)> = Vec::new();
    let mut i: usize = 0;
    while i < v.len()
        invariant
            0 <= i <= v@.len(),
            r@ == v@.subrange(0, i as int),
        decreases v@.len() - i,
    {
        r.push(v[i]);
        proof {
            assert(r@ =~= v@.subrange(0, i + 1));
        }
        i = i + 1;
    }
    proof {
        assert(r@ =~= v@);
    }
    r
}

} // verus!

