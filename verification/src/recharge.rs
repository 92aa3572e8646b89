//! Recharge stations: a multi-trip feature which tracks the distance
//! accumulated along the tour and admits a candidate position only while
//! the actor's distance limit is respected.

use vstd::prelude::*;

use crate::common::{Distance, MAX_ACTIVITIES};
use crate::contexts::RouteContext;
use crate::pipeline::{ActivityConstraintViolation, ActivityContext};
use crate::problem::{Job, TransportCost, TransportPayload, MAX_LEG};
use crate::solution::Activity;
use crate::state::RouteState;

verus! {

/// The distance of the leg between two consecutive activities of a tour.
pub open spec fn spec_leg_distance(
    s: Seq<Activity>,
    tp: TransportPayload,
    profile: usize,
    j: int,
) -> int {
    tp.spec_distance(profile, s[j - 1].place.location, s[j].place.location) as int
}

/// The distance accumulated from activity `from` to activity `j` along
/// consecutive legs.
pub open spec fn spec_acc_distance(
    s: Seq<Activity>,
    tp: TransportPayload,
    profile: usize,
    from: int,
    j: int,
) -> int
    decreases j - from,
{
    if j <= from {
        0
    } else {
        spec_acc_distance(s, tp, profile, from, j - 1) + spec_leg_distance(s, tp, profile, j)
    }
}

/// Bounds of the accumulated distance under a well-formed oracle.
proof fn lemma_acc_distance_bounds(
    s: Seq<Activity>,
    tp: TransportPayload,
    profile: usize,
    from: int,
    j: int,
)
    requires
        tp.wf(),
        from <= j,
    ensures
        0 <= spec_acc_distance(s, tp, profile, from, j) <= 1099511627776 * (j - from),
    decreases j - from,
{
    if from < j {
        lemma_acc_distance_bounds(s, tp, profile, from, j - 1);
        assert(0 <= spec_leg_distance(s, tp, profile, j) <= MAX_LEG) by {
            assert(tp.wf());
        }
    }
}

/// The marker intervals the recharge recalculation sweeps: the stored
/// recharge intervals, or the whole tour as one interval.
pub open spec fn spec_effective_recharge_intervals(ctx: RouteContext) -> Seq<(usize, usize)> {
    match ctx.state.recharge_intervals {
        Some(v) => v@,
        None => seq![(0usize, (ctx.route.tour.activities@.len() - 1) as usize)],
    }
}

/// The per-activity recharge distances are correct for the given marker
/// intervals: within each interval the accumulator restarts at zero, so
/// each activity after the interval start carries the distance of the
/// legs since that start.
pub open spec fn recharge_distances_correct(
    rd: Seq<Distance>,
    s: Seq<Activity>,
    tp: TransportPayload,
    profile: usize,
    iv: Seq<(usize, usize)>,
) -> bool {
    forall|k: int, j: int|
        #![trigger iv[k], rd[j]]
        0 <= k < iv.len() && iv[k].0 < j <= iv[k].1 ==> rd[j] == spec_acc_distance(
            s,
            tp,
            profile,
            iv[k].0 as int,
            j,
        )
}

/// Each interval's first activity keeps the value it had before the
/// recalculation (zero when none was stored).
pub open spec fn recharge_interval_starts_kept(
    rd: Seq<Distance>,
    pre: RouteState,
    iv: Seq<(usize, usize)>,
) -> bool {
    forall|k: int|
        0 <= k < iv.len() ==> rd[(#[trigger] iv[k]).0 as int] == spec_recharge_distance_at(
            pre,
            iv[k].0 as int,
        )
}

/// The accumulated recharge distance stored for an activity; zero when
/// none is stored.
pub open spec fn spec_recharge_distance_at(st: RouteState, i: int) -> int {
    match st.recharge_distances {
        Some(v) => if 0 <= i < v@.len() {
            v@[i] as int
        } else {
            0
        },
        None => 0,
    }
}

/// A multi-trip feature which lets a vehicle recharge along the route:
/// recharge markers split the tour, and within one interval the travelled
/// distance must stay within the actor's limit.
#[derive(Clone, Debug)]
pub struct RechargeableMultiTrip {
    /// Violation code the feature reports.
    pub code: i32,
}

impl RechargeableMultiTrip {
    /// A job never violates the feature at route level.
    pub fn evaluate_job(&self, _ctx: &RouteContext, _job: &Job) -> (r: Option<
        ActivityConstraintViolation,
    >)
        ensures
            r is None,
    {
        None
    }

    /// Recomputes the accumulated distance per activity, sweeping each
    /// marker interval on its own: the accumulator restarts at zero at
    /// each interval start, and the interval's first activity keeps its
    /// previously stored value. An actor without a distance limit keeps
    /// its state untouched.
    #[verifier::rlimit(100)]
    pub fn recalculate_states(&self, route_ctx: &mut RouteContext, transport: &TransportPayload)
        requires
            transport.wf(),
            old(route_ctx).route.tour.activities@.len() >= 1,
            old(route_ctx).route.tour.activities@.len() <= MAX_ACTIVITIES,
            crate::capacity::intervals_wf(
                spec_effective_recharge_intervals(*old(route_ctx)),
                old(route_ctx).route.tour.activities@.len() as int,
            ),
        ensures
            final(route_ctx).route == old(route_ctx).route,
            final(route_ctx).stale == old(route_ctx).stale,
            old(route_ctx).route.actor.vehicle.dimens.recharge_distance_limit is None
                ==> *final(route_ctx) == *old(route_ctx),
            old(route_ctx).route.actor.vehicle.dimens.recharge_distance_limit is Some ==> {
                let s = old(route_ctx).route.tour.activities@;
                let profile = old(route_ctx).route.actor.vehicle.profile;
                let iv = spec_effective_recharge_intervals(*old(route_ctx));
                &&& final(route_ctx).state.recharge_distances matches Some(rd) && rd@.len()
                    == s.len() && recharge_distances_correct(rd@, s, *transport, profile, iv)
                    && recharge_interval_starts_kept(rd@, old(route_ctx).state, iv)
                &&& final(route_ctx).state.current_capacities == old(
                    route_ctx,
                ).state.current_capacities
                &&& final(route_ctx).state.max_past_capacities == old(
                    route_ctx,
                ).state.max_past_capacities
                &&& final(route_ctx).state.max_future_capacities == old(
                    route_ctx,
                ).state.max_future_capacities
                &&& final(route_ctx).state.max_load == old(route_ctx).state.max_load
                &&& final(route_ctx).state.reload_intervals == old(
                    route_ctx,
                ).state.reload_intervals
                &&& final(route_ctx).state.reload_resources == old(
                    route_ctx,
                ).state.reload_resources
                &&& final(route_ctx).state.recharge_intervals == old(
                    route_ctx,
                ).state.recharge_intervals
                &&& final(route_ctx).state.total_distance == old(route_ctx).state.total_distance
                &&& final(route_ctx).state.total_duration == old(route_ctx).state.total_duration
                &&& final(route_ctx).state.generic_values == old(route_ctx).state.generic_values
            },
    {
        if route_ctx.route.actor.vehicle.dimens.recharge_distance_limit.is_none() {
            return ;
        }
        let ghost s = route_ctx.route.tour.activities@;
        let ghost pre = route_ctx.state;
        let profile = route_ctx.route.actor.vehicle.profile;
        let total = route_ctx.route.tour.total();
        let intervals: Vec<(usize, usize)> = match &route_ctx.state.recharge_intervals {
            Some(stored) => copy_interval_list(stored),
            None => {
                let mut v: Vec<(usize, usize)> = Vec::new();
                v.push((0, total - 1));
                v
            },
        };
        let ghost iv = intervals@;
        proof {
            assert(iv =~= spec_effective_recharge_intervals(*old(route_ctx)));
        }
        // Start from the previously stored values (zero where none was
        // stored), so interval starts keep their value.
        let mut rd: Vec<Distance> = Vec::new();
        let mut i: usize = 0;
        while i < total
            invariant
                s == route_ctx.route.tour.activities@,
                pre == route_ctx.state,
                total == s.len(),
                0 <= i <= total,
                rd@.len() == i,
                forall|i2: int|
                    0 <= i2 < i ==> #[trigger] rd@[i2] == spec_recharge_distance_at(pre, i2),
            decreases total - i,
        {
            let kept: Distance = match &route_ctx.state.recharge_distances {
                Some(old_rd) => {
                    if i < old_rd.len() {
                        old_rd[i]
                    } else {
                        0
                    }
                },
                None => 0,
            };
            rd.push(kept);
            i = i + 1;
        }
        let ghost rd0 = rd@;
        let mut k: usize = 0;
        while k < intervals.len()
            invariant
                s == route_ctx.route.tour.activities@,
                pre == route_ctx.state,
                transport.wf(),
                profile == route_ctx.route.actor.vehicle.profile,
                iv == intervals@,
                crate::capacity::intervals_wf(iv, s.len() as int),
                total == s.len(),
                1 <= s.len() <= MAX_ACTIVITIES,
                0 <= k <= iv.len(),
                rd@.len() == total,
                rd0.len() == total,
                forall|i2: int| 0 <= i2 < total ==> #[trigger] rd0[i2]
                    == spec_recharge_distance_at(pre, i2),
                forall|k2: int, j: int|
                    #![trigger iv[k2], rd@[j]]
                    0 <= k2 < k && iv[k2].0 < j <= iv[k2].1 ==> rd@[j] == spec_acc_distance(
                        s,
                        *transport,
                        profile,
                        iv[k2].0 as int,
                        j,
                    ),
                forall|j: int|
                    0 <= j < total && (k == 0 || j > iv[k - 1].1) ==> #[trigger] rd@[j]
                        == rd0[j],
                forall|k2: int|
                    0 <= k2 < iv.len() ==> rd@[(#[trigger] iv[k2]).0 as int] == rd0[iv[k2].0 as int],
            decreases iv.len() - k,
        {
            let (b, e) = intervals[k];
            let mut counter: i64 = 0;
            let mut j: usize = b + 1;
            while j <= e
                invariant
                    s == route_ctx.route.tour.activities@,
                    transport.wf(),
                    profile == route_ctx.route.actor.vehicle.profile,
                    crate::capacity::intervals_wf(iv, s.len() as int),
                    total == s.len(),
                    1 <= s.len() <= MAX_ACTIVITIES,
                    0 <= k < iv.len(),
                    (b, e) == iv[k as int],
                    b + 1 <= j <= e + 1,
                    e < total,
                    rd@.len() == total,
                    rd0.len() == total,
                    counter as int == spec_acc_distance(s, *transport, profile, b as int, j - 1),
                    forall|j2: int|
                        b < j2 < j ==> #[trigger] rd@[j2] == spec_acc_distance(
                            s,
                            *transport,
                            profile,
                            b as int,
                            j2,
                        ),
                    forall|k2: int, j2: int|
                        #![trigger iv[k2], rd@[j2]]
                        0 <= k2 < k && iv[k2].0 < j2 <= iv[k2].1 ==> rd@[j2] == spec_acc_distance(
                            s,
                            *transport,
                            profile,
                            iv[k2].0 as int,
                            j2,
                        ),
                    forall|j2: int|
                        0 <= j2 < total && j2 >= j && (k == 0 || j2 > iv[k - 1].1) ==> (
                        #[trigger] rd@[j2]) == rd0[j2],
                    forall|j2: int| 0 <= j2 <= b && j2 < total && (k == 0 || j2 > iv[k - 1].1)
                        ==> #[trigger] rd@[j2] == rd0[j2],
                    forall|k2: int|
                        0 <= k2 < iv.len() ==> rd@[(#[trigger] iv[k2]).0 as int]
                            == rd0[iv[k2].0 as int],
                decreases e + 1 - j,
            {
                proof {
                    lemma_acc_distance_bounds(s, *transport, profile, b as int, j - 1);
                    crate::capacity::lemma_intervals_ordered_all(iv, s.len() as int, k as int);
                    assert forall|k2: int|
                        0 <= k2 < iv.len() implies iv[k2].0 != j by {
                        if k2 < k as int {
                            assert(iv[k2].1 < iv[k as int].0);
                        } else if k2 > k as int {
                            crate::capacity::lemma_intervals_ordered(
                                iv,
                                s.len() as int,
                                k as int,
                                k2,
                            );
                        }
                    }
                }
                let prev_location = route_ctx.route.tour.activities[j - 1].place.location;
                let next_location = route_ctx.route.tour.activities[j].place.location;
                let departure = route_ctx.route.tour.activities[j - 1].schedule.departure;
                let distance = transport.distance(profile, prev_location, next_location, departure);
                counter = counter + distance;
                rd[j] = counter;
                j = j + 1;
            }
            proof {
                crate::capacity::lemma_intervals_ordered_all(iv, s.len() as int, k as int);
            }
            k = k + 1;
        }
        route_ctx.state.recharge_distances = Some(rd);
    }

    /// Evaluates a candidate position: the distance accumulated up to the
    /// previous activity (reset to zero when the previous activity is a
    /// recharge marker), plus the detour through the target, must stay
    /// within the actor's limit. An actor without a limit admits
    /// everything.
    pub fn evaluate_activity(
        &self,
        route_ctx: &RouteContext,
        activity_ctx: &ActivityContext,
        transport: &TransportPayload,
    ) -> (r: Option<ActivityConstraintViolation>)
        requires
            activity_ctx.index >= 1,
        ensures
            r == spec_recharge_verdict(
                *self,
                *route_ctx,
                *activity_ctx,
                *transport,
                activity_ctx.index as int,
            ),
    {
        let threshold: Distance = match &route_ctx.route.actor.vehicle.dimens
            .recharge_distance_limit {
            Some(t) => *t,
            None => {
                return None;
            },
        };
        let is_prev_recharge: bool = match &activity_ctx.prev.job {
            Some(single) => crate::pragmatic::is_recharge_single(single),
            None => false,
        };
        let current_distance: i64 = if is_prev_recharge {
            0
        } else {
            match &route_ctx.state.recharge_distances {
                Some(rd) => {
                    if activity_ctx.index - 1 < rd.len() {
                        rd[activity_ctx.index - 1]
                    } else {
                        0
                    }
                },
                None => 0,
            }
        };
        let profile = route_ctx.route.actor.vehicle.profile;
        let prev_loc = activity_ctx.prev.place.location;
        let target_loc = activity_ctx.target.place.location;
        let departure = activity_ctx.prev.schedule.departure;
        let d1 = transport.distance(profile, prev_loc, target_loc, departure);
        let detour: i128 = match &activity_ctx.next {
            Some(next) => {
                let d2 = transport.distance(profile, target_loc, next.place.location, departure);
                let d3 = transport.distance(profile, prev_loc, next.place.location, departure);
                (d1 as i128) + (d2 as i128) - (d3 as i128)
            },
            None => d1 as i128,
        };
        if (current_distance as i128) + detour > threshold as i128 {
            Some(ActivityConstraintViolation { code: self.code, stopped: false })
        } else {
            None
        }
    }

    /// Whether a new interval is needed: the distance accumulated at the
    /// tour's end exceeds the actor's limit.
    pub fn is_new_interval_needed(&self, route_ctx: &RouteContext) -> (r: bool)
        ensures
            r == match route_ctx.route.actor.vehicle.dimens.recharge_distance_limit {
                Some(threshold) => route_ctx.route.tour.activities@.len() > 0
                    && spec_recharge_distance_at(
                    route_ctx.state,
                    route_ctx.route.tour.activities@.len() - 1,
                ) > threshold,
                None => false,
            },
    {
        let threshold: Distance = match &route_ctx.route.actor.vehicle.dimens
            .recharge_distance_limit {
            Some(t) => *t,
            None => {
                return false;
            },
        };
        let total = route_ctx.route.tour.total();
        if total == 0 {
            return false;
        }
        let current: Distance = match &route_ctx.state.recharge_distances {
            Some(rd) => {
                if total - 1 < rd.len() {
                    rd[total - 1]
                } else {
                    0
                }
            },
            None => 0,
        };
        current > threshold
    }

    /// Whether two adjacent intervals are obsolete and may be merged: the
    /// resources recorded at their end activities stay below the actor's
    /// limit.
    pub fn is_obsolete_interval(
        &self,
        route_ctx: &RouteContext,
        left_end: usize,
        right_end: usize,
    ) -> (r: bool)
        ensures
            r == match route_ctx.route.actor.vehicle.dimens.recharge_distance_limit {
                Some(threshold) => spec_reload_resource_at(route_ctx.state, left_end as int)
                    + spec_reload_resource_at(route_ctx.state, right_end as int) < threshold,
                None => false,
            },
    {
        let threshold: Distance = match &route_ctx.route.actor.vehicle.dimens
            .recharge_distance_limit {
            Some(t) => *t,
            None => {
                return false;
            },
        };
        let left = reload_resource_at(&route_ctx.state, left_end);
        let right = reload_resource_at(&route_ctx.state, right_end);
        (left as i128) + (right as i128) < threshold as i128
    }

    /// Job merging imposes no recharge constraint: the source job is kept.
    pub fn merge(&self, source: Job, _candidate: Job) -> (r: Result<Job, i32>)
        ensures
            r == Result::<Job, i32>::Ok(source),
    {
        Ok(source)
    }
}

/// The verdict the recharge feature gives a candidate position: with no
/// limit every position is admitted; otherwise the accumulated distance
/// before the position (zero after a recharge marker) plus the detour
/// through the target must not exceed the limit.
pub open spec fn spec_recharge_verdict(
    f: RechargeableMultiTrip,
    ctx: RouteContext,
    actx: ActivityContext,
    tp: TransportPayload,
    index: int,
) -> Option<ActivityConstraintViolation> {
    match ctx.route.actor.vehicle.dimens.recharge_distance_limit {
        None => None,
        Some(threshold) => {
            let profile = ctx.route.actor.vehicle.profile;
            let is_prev_recharge = match actx.prev.job {
                Some(single) => match single.dimens.job_type {
                    Some(t) => t@ == "recharge"@,
                    None => false,
                },
                None => false,
            };
            let current = if is_prev_recharge {
                0int
            } else {
                spec_recharge_distance_at(ctx.state, index - 1)
            };
            let d1 = tp.spec_distance(profile, actx.prev.place.location, actx.target.place.location)
                as int;
            let detour = match actx.next {
                Some(next) => d1 + tp.spec_distance(
                    profile,
                    actx.target.place.location,
                    next.place.location,
                ) - tp.spec_distance(profile, actx.prev.place.location, next.place.location),
                None => d1,
            };
            if current + detour > threshold {
                Some(ActivityConstraintViolation { code: f.code, stopped: false })
            } else {
                None
            }
        },
    }
}

/// The reload resource recorded for an activity; zero when none is.
pub open spec fn spec_reload_resource_at(st: RouteState, i: int) -> int {
    match st.reload_resources {
        Some(v) => if 0 <= i < v@.len() {
            v@[i] as int
        } else {
            0
        },
        None => 0,
    }
}

/// Reads the reload resource recorded for an activity.
fn reload_resource_at(st: &RouteState, i: usize) -> (r: i64)
    ensures
        r as int == spec_reload_resource_at(*st, i as int),
{
    match &st.reload_resources {
        Some(v) => {
            if i < v.len() {
                v[i]
            } else {
                0
            }
        },
        None => 0,
    }
}

/// An owned copy of an interval list.
fn copy_interval_list(v: &Vec<(usize, usize)>) -> (r: Vec<(usize, usize)>)
    ensures
        r@ == v@,
{
    let mut r: Vec<(usize, usize)> = Vec::new();
    let mut i: usize = 0;
    while i < v.len()
        invariant
            0 <= i <= v@.len(),
            r@ =~= v@.subrange(0, i as int),
        decreases v@.len() - i,
    {
        r.push(v[i]);
        proof {
            assert(r@ =~= v@.subrange(0, i + 1));
        }
        i = i + 1;
    }
    proof {
        assert(r@ =~= v@);
    }
    r
}

/// A multi-trip feature of the constraint system.
#[derive(Clone, Debug)]
pub struct Feature {
    /// Feature name.
    pub name: String,
    /// The recharge constraint of the feature.
    pub constraint: RechargeableMultiTrip,
    /// The state keys the feature owns.
    pub state_keys: Vec<i32>,
}

/// Creates a feature that inserts charge stations along the route: it owns
/// the recharge distance and interval keys. An empty name is a
/// configuration error.
pub fn create_recharge_feature(name: &str, code: i32) -> (r: Result<Feature, String>)
    ensures
        match r {
            Ok(f) => {
                &&& name@.len() > 0
                &&& f.name@ == name@
                &&& f.constraint.code == code
                &&& f.state_keys@ == seq![
                    crate::state::RECHARGE_DISTANCE_KEY,
                    crate::state::RECHARGE_INTERVALS_KEY,
                ]
            },
            Err(e) => name@.len() == 0 && e@ == "feature name must not be empty"@,
        },
{
    if name.is_empty() {
        return Err("feature name must not be empty".to_owned());
    }
    let mut keys: Vec<i32> = Vec::new();
    keys.push(crate::state::RECHARGE_DISTANCE_KEY);
    keys.push(crate::state::RECHARGE_INTERVALS_KEY);
    proof {
        assert(keys@ =~= seq![
            crate::state::RECHARGE_DISTANCE_KEY,
            crate::state::RECHARGE_INTERVALS_KEY,
        ]);
    }
    Ok(Feature { name: name.to_owned(), constraint: RechargeableMultiTrip { code }, state_keys: keys })
}

} // verus!
