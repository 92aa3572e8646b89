//! Dispatch scenarios: vehicles must check in at a capacity-limited
//! dispatch place inside one of its time windows before serving their
//! deliveries. A deterministic construction assigns each vehicle the
//! earliest-closing admissible window, shifts its departure so no time is
//! wasted, and serves the remaining deliveries nearest first.

use vstd::prelude::*;

use crate::common::{Cost, Location, Timestamp};
use crate::problem::{Costs, TransportCost, TransportPayload};

verus! {

/// One capacity-limited time window of a dispatch place.
#[derive(Clone, Copy, PartialEq, Eq, Structural, Debug)]
pub struct DispatchLimit {
    /// How many vehicles the window admits.
    pub max: u64,
    /// Window opening time.
    pub start: Timestamp,
    /// Window closing time; the vehicle leaves at this time.
    pub end: Timestamp,
}

/// A dispatch place with its windows.
#[derive(Clone, Debug)]
pub struct DispatchPlace {
    /// Location of the place.
    pub location: Location,
    /// The windows, in order.
    pub limits: Vec<DispatchLimit>,
}

/// One delivery job of a dispatch scenario.
#[derive(Clone, Debug)]
pub struct DispatchJob {
    /// Job id.
    pub id: String,
    /// Delivery location.
    pub location: Location,
    /// Service duration.
    pub duration: Timestamp,
}

/// A dispatch scenario: a uniform vehicle type serving deliveries from a
/// common shift place through dispatch check-ins.
#[derive(Clone, Debug)]
pub struct DispatchProblem {
    /// The delivery jobs.
    pub jobs: Vec<DispatchJob>,
    /// The vehicle ids, in dispatching order.
    pub vehicle_ids: Vec<String>,
    /// Deliveries one vehicle can carry.
    pub capacity: u64,
    /// Operating costs of each vehicle.
    pub costs: Costs,
    /// The shift start and end location.
    pub depot: Location,
    /// Earliest shift start time.
    pub shift_start: Timestamp,
    /// The dispatch places, in order.
    pub dispatches: Vec<DispatchPlace>,
}

/// One activity performed at a stop.
#[derive(Clone, Debug)]
pub struct DispatchActivity {
    /// The activity type: departure, dispatch, delivery or arrival.
    pub activity_type: String,
    /// The served job's id, for a delivery.
    pub job_id: Option<String>,
}

/// One stop of a dispatch tour; consecutive activities at the same
/// location share a stop.
#[derive(Clone, Debug)]
pub struct DispatchStop {
    /// Stop location.
    pub location: Location,
    /// Arrival time.
    pub arrival: Timestamp,
    /// Departure time.
    pub departure: Timestamp,
    /// Distance travelled since the tour start.
    pub distance: i64,
    /// Load after departure from the stop.
    pub load: i64,
    /// Activities performed here.
    pub activities: Vec<DispatchActivity>,
}

/// One vehicle's dispatch tour.
#[derive(Clone, Debug)]
pub struct DispatchTour {
    /// The vehicle id.
    pub vehicle_id: String,
    /// The stops, in visit order.
    pub stops: Vec<DispatchStop>,
    /// The tour's cost.
    pub cost: Cost,
}

/// The result of a dispatch scenario.
#[derive(Clone, Debug)]
pub struct DispatchSolution {
    /// One tour per dispatched vehicle that serves jobs.
    pub tours: Vec<DispatchTour>,
    /// Ids of the jobs no vehicle could serve.
    pub unassigned: Vec<String>,
    /// Total cost over all tours.
    pub total_cost: Cost,
}

/// The problem's quantities are small enough for exact arithmetic.
pub open spec fn dispatch_problem_wf(p: DispatchProblem, tp: TransportPayload) -> bool {
    &&& tp.wf()
    &&& p.jobs@.len() <= 65536
    &&& p.vehicle_ids@.len() <= 65536
    &&& p.dispatches@.len() <= 1024
    &&& forall|i: int|
        0 <= i < p.dispatches@.len() ==> (#[trigger] p.dispatches@[i]).limits@.len() <= 1024
    &&& forall|i: int, l: int|
        0 <= i < p.dispatches@.len() && 0 <= l < p.dispatches@[i].limits@.len() ==> {
            let w = #[trigger] p.dispatches@[i].limits@[l];
            -1000000000 <= w.start <= 1000000000 && w.start <= w.end <= 1000000000
        }
    &&& forall|j: int|
        0 <= j < p.jobs@.len() ==> 0 <= (#[trigger] p.jobs@[j]).duration <= 1000000
    &&& -1000000000 <= p.shift_start <= 1000000000
    &&& crate::objectives::costs_small(p.costs)
    &&& p.capacity >= 1
}

/// The number of delivery activities over the tours of a solution.
pub open spec fn spec_deliveries_in(tours: Seq<DispatchTour>) -> int
    decreases tours.len(),
{
    if tours.len() == 0 {
        0
    } else {
        spec_deliveries_in(tours.drop_last()) + spec_tour_deliveries(tours.last())
    }
}

/// The number of delivery activities of one tour.
pub open spec fn spec_tour_deliveries(tour: DispatchTour) -> int {
    spec_stop_deliveries(tour.stops@, tour.stops@.len() as int)
}

/// The number of delivery activities over the first `n` stops.
pub open spec fn spec_stop_deliveries(stops: Seq<DispatchStop>, n: int) -> int
    decreases n,
{
    if n <= 0 {
        0
    } else {
        spec_stop_deliveries(stops, n - 1) + spec_activity_deliveries(
            stops[n - 1].activities@,
            stops[n - 1].activities@.len() as int,
        )
    }
}

/// The number of deliveries among the first `n` activities.
pub open spec fn spec_activity_deliveries(acts: Seq<DispatchActivity>, n: int) -> int
    decreases n,
{
    if n <= 0 {
        0
    } else {
        spec_activity_deliveries(acts, n - 1) + if acts[n - 1].job_id is Some {
            1int
        } else {
            0int
        }
    }
}

/// The shape every produced tour has: at least two stops, departing from
/// and returning to the depot.
pub open spec fn dispatch_tour_shape(t: DispatchTour, p: DispatchProblem) -> bool {
    &&& t.stops@.len() >= 2
    &&& t.stops@[0].location == p.depot
    &&& t.stops@[t.stops@.len() - 1].location == p.depot
}

/// The deterministic head of a tour built against window `(di, li)`:
/// the depot stop departs at the latest time that still reaches the
/// window as it opens, and the dispatch check-in leaves as the window
/// closes; when the dispatch sits at the depot the two share one stop.
pub open spec fn dispatch_prefix_layout(
    stops: Seq<DispatchStop>,
    p: DispatchProblem,
    tp: TransportPayload,
    di: int,
    li: int,
) -> bool {
    let place = p.dispatches@[di];
    let limit = place.limits@[li];
    let travel = tp.spec_duration(0, p.depot, place.location) as int;
    let depart0 = crate::capacity::max2(p.shift_start as int, limit.start - travel);
    let merged = place.location == p.depot;
    &&& 0 <= di < p.dispatches@.len()
    &&& 0 <= li < place.limits@.len()
    &&& stops.len() >= if merged {
        1int
    } else {
        2int
    }
    &&& stops[0].location == p.depot
    &&& stops[0].arrival == p.shift_start
    &&& (merged ==> {
        &&& stops[0].departure == limit.end
        &&& stops[0].activities@.len() == 2
        &&& stops[0].activities@[0].activity_type@ == "departure"@
        &&& stops[0].activities@[0].job_id is None
        &&& stops[0].activities@[1].activity_type@ == "dispatch"@
        &&& stops[0].activities@[1].job_id is None
    })
    &&& (!merged ==> {
        &&& stops[0].departure as int == crate::objectives::clamp_cost(depart0)
        &&& stops[0].activities@.len() == 1
        &&& stops[0].activities@[0].activity_type@ == "departure"@
        &&& stops[0].activities@[0].job_id is None
        &&& stops[1].location == place.location
        &&& stops[1].arrival as int == crate::objectives::clamp_cost(depart0 + travel)
        &&& stops[1].departure == limit.end
        &&& stops[1].activities@.len() == 1
        &&& stops[1].activities@[0].activity_type@ == "dispatch"@
        &&& stops[1].activities@[0].job_id is None
    })
}

/// The deterministic layout of a whole tour built against window
/// `(di, li)`: the prefix above, one stop per delivery, and the final
/// depot arrival stop.
pub open spec fn dispatch_tour_layout(
    t: DispatchTour,
    p: DispatchProblem,
    tp: TransportPayload,
    di: int,
    li: int,
) -> bool {
    let merged = p.dispatches@[di].location == p.depot;
    let base: int = if merged {
        1
    } else {
        2
    };
    &&& dispatch_prefix_layout(t.stops@, p, tp, di, li)
    &&& t.stops@.len() == base + spec_tour_deliveries(t) + 1
    &&& t.stops@[t.stops@.len() - 1].location == p.depot
    &&& t.stops@[t.stops@.len() - 1].load == 0
    &&& t.stops@[t.stops@.len() - 1].activities@.len() == 1
    &&& t.stops@[t.stops@.len() - 1].activities@[0].activity_type@ == "arrival"@
}

/// Whether a dispatch window admits one more vehicle: it has capacity
/// left beyond the given usage, and a vehicle leaving the depot at the
/// shift start reaches the place before the window closes.
pub open spec fn spec_window_admissible(
    p: DispatchProblem,
    tp: TransportPayload,
    used: int,
    di: int,
    li: int,
) -> bool {
    &&& 0 <= di < p.dispatches@.len()
    &&& 0 <= li < p.dispatches@[di].limits@.len()
    &&& used < p.dispatches@[di].limits@[li].max
    &&& p.shift_start + tp.spec_duration(0, p.depot, p.dispatches@[di].location)
        <= p.dispatches@[di].limits@[li].end
}

/// Whether any dispatch window is reachable at all, before any vehicle
/// was dispatched.
pub open spec fn spec_any_dispatch_reachable(p: DispatchProblem, tp: TransportPayload) -> bool {
    exists|di: int, li: int| spec_window_admissible(p, tp, 0, di, li)
}

/// Whether the picked prefix of length `upto` contains job index `j`.
pub open spec fn spec_picked_contains(picked: Seq<usize>, upto: int, j: int) -> bool {
    exists|k2: int| 0 <= k2 < upto && (#[trigger] picked[k2]) == j
}

/// The position the `k`-th pick is chosen from: the scan origin, then the
/// previous pick's location.
pub open spec fn spec_pick_from(p: DispatchProblem, from: Location, picked: Seq<usize>, k: int) -> Location {
    if k <= 0 {
        from
    } else {
        p.jobs@[picked[k - 1] as int].location
    }
}

/// The `k`-th pick is the nearest remaining job not yet picked, the
/// first such index on a distance tie.
pub open spec fn spec_nearest_choice(
    p: DispatchProblem,
    tp: TransportPayload,
    remaining: Seq<bool>,
    from: Location,
    picked: Seq<usize>,
    k: int,
) -> bool {
    let origin = spec_pick_from(p, from, picked, k);
    forall|j: int|
        0 <= j < p.jobs@.len() && remaining[j] && !spec_picked_contains(picked, k, j) ==> {
            let dn = tp.spec_distance(0, origin, p.jobs@[picked[k] as int].location) as int;
            let dj = tp.spec_distance(0, origin, (#[trigger] p.jobs@[j]).location) as int;
            if j < picked[k] {
                dn < dj
            } else {
                dn <= dj
            }
        }
}

/// The location after `k` served deliveries: the dispatch place, then
/// the picked jobs in order.
pub open spec fn spec_route_loc(
    p: DispatchProblem,
    picked: Seq<usize>,
    wdi: int,
    k: int,
) -> Location {
    if k <= 0 {
        p.dispatches@[wdi].location
    } else {
        p.jobs@[picked[k - 1] as int].location
    }
}

/// The departure time after `k` served deliveries: the window's close,
/// then one leg plus one service per delivery.
pub open spec fn spec_depart_time(
    p: DispatchProblem,
    tp: TransportPayload,
    picked: Seq<usize>,
    wdi: int,
    wli: int,
    k: int,
) -> int
    decreases k,
{
    if k <= 0 {
        p.dispatches@[wdi].limits@[wli].end as int
    } else {
        spec_depart_time(p, tp, picked, wdi, wli, k - 1) + tp.spec_duration(
            0,
            spec_route_loc(p, picked, wdi, k - 1),
            spec_route_loc(p, picked, wdi, k),
        ) + p.jobs@[picked[k - 1] as int].duration
    }
}

/// The distance travelled through the first `k` served deliveries,
/// starting with the leg from the depot to the dispatch place.
pub open spec fn spec_distance_through(
    p: DispatchProblem,
    tp: TransportPayload,
    picked: Seq<usize>,
    wdi: int,
    k: int,
) -> int
    decreases k,
{
    if k <= 0 {
        tp.spec_distance(0, p.depot, p.dispatches@[wdi].location) as int
    } else {
        spec_distance_through(p, tp, picked, wdi, k - 1) + tp.spec_distance(
            0,
            spec_route_loc(p, picked, wdi, k - 1),
            spec_route_loc(p, picked, wdi, k),
        ) as int
    }
}

/// The driving time through the first `k` served deliveries.
pub open spec fn spec_driving_through(
    p: DispatchProblem,
    tp: TransportPayload,
    picked: Seq<usize>,
    wdi: int,
    k: int,
) -> int
    decreases k,
{
    if k <= 0 {
        tp.spec_duration(0, p.depot, p.dispatches@[wdi].location) as int
    } else {
        spec_driving_through(p, tp, picked, wdi, k - 1) + tp.spec_duration(
            0,
            spec_route_loc(p, picked, wdi, k - 1),
            spec_route_loc(p, picked, wdi, k),
        ) as int
    }
}

/// The serving time through the first `k` served deliveries: the time
/// spent inside the dispatch window, then one service per delivery.
pub open spec fn spec_serving_through(
    p: DispatchProblem,
    tp: TransportPayload,
    picked: Seq<usize>,
    wdi: int,
    wli: int,
    k: int,
) -> int
    decreases k,
{
    if k <= 0 {
        let travel = tp.spec_duration(0, p.depot, p.dispatches@[wdi].location) as int;
        let depart0 = crate::capacity::max2(
            p.shift_start as int,
            p.dispatches@[wdi].limits@[wli].start - travel,
        );
        let dispatch_service = p.dispatches@[wdi].limits@[wli].end - (depart0 + travel);
        if dispatch_service > 0 {
            dispatch_service
        } else {
            0
        }
    } else {
        spec_serving_through(p, tp, picked, wdi, wli, k - 1) + p.jobs@[picked[k
            - 1] as int].duration
    }
}

/// The sum of the tour costs of the first `n` tours.
pub open spec fn spec_cost_sum(tours: Seq<DispatchTour>, n: int) -> int
    decreases n,
{
    if n <= 0 {
        0
    } else {
        spec_cost_sum(tours, n - 1) + tours[n - 1].cost
    }
}

/// The deterministic cost of a tour over window `(wdi, wli)` serving the
/// picked deliveries: the fixed cost plus each rate times its clamped
/// quantity, with the waiting time making up the schedule span.
pub open spec fn spec_dispatch_tour_cost(
    p: DispatchProblem,
    tp: TransportPayload,
    picked: Seq<usize>,
    wdi: int,
    wli: int,
) -> int {
    let n = picked.len() as int;
    let travel = tp.spec_duration(0, p.depot, p.dispatches@[wdi].location) as int;
    let depart0 = crate::capacity::max2(
        p.shift_start as int,
        p.dispatches@[wdi].limits@[wli].start - travel,
    );
    let back_loc = spec_route_loc(p, picked, wdi, n);
    let distance_total = spec_distance_through(p, tp, picked, wdi, n) + tp.spec_distance(
        0,
        back_loc,
        p.depot,
    );
    let driving_total = spec_driving_through(p, tp, picked, wdi, n) + tp.spec_duration(
        0,
        back_loc,
        p.depot,
    );
    let serving_total = spec_serving_through(p, tp, picked, wdi, wli, n);
    let arrive_back = spec_depart_time(p, tp, picked, wdi, wli, n) + tp.spec_duration(
        0,
        back_loc,
        p.depot,
    );
    let span = arrive_back - depart0;
    let waiting = if span - driving_total - serving_total > 0 {
        span - driving_total - serving_total
    } else {
        0
    };
    crate::objectives::clamp_cost(
        p.costs.fixed + p.costs.per_distance * crate::objectives::clamp_cost(distance_total)
            + p.costs.per_driving_time * crate::objectives::clamp_cost(driving_total)
            + p.costs.per_service_time * crate::objectives::clamp_cost(serving_total)
            + p.costs.per_waiting_time * crate::objectives::clamp_cost(waiting),
    )
}

/// Picks the admissible dispatch window that closes earliest: a window is
/// admissible when it still has capacity left and the vehicle can reach
/// the place before the window closes. Returns the dispatch index, window
/// index and the place's location.
fn pick_dispatch_window(
    problem: &DispatchProblem,
    transport: &TransportPayload,
    usage: &Vec<Vec<u64>>,
) -> (r: Option<(usize, usize)>)
    requires
        dispatch_problem_wf(*problem, *transport),
        usage@.len() == problem.dispatches@.len(),
        forall|i: int|
            0 <= i < usage@.len() ==> (#[trigger] usage@[i]).len()
                == problem.dispatches@[i].limits@.len(),
    ensures
        match r {
            Some((di, li)) => spec_window_admissible(
                *problem,
                *transport,
                usage@[di as int]@[li as int] as int,
                di as int,
                li as int,
            ) && forall|d2: int, l2: int|
                0 <= d2 < problem.dispatches@.len() && 0 <= l2
                    < problem.dispatches@[d2].limits@.len() && spec_window_admissible(
                    *problem,
                    *transport,
                    usage@[d2]@[l2] as int,
                    d2,
                    l2,
                ) ==> problem.dispatches@[di as int].limits@[li as int].end
                    <= (#[trigger] problem.dispatches@[d2].limits@[l2]).end,
            None => forall|d2: int, l2: int|
                0 <= d2 < problem.dispatches@.len() && 0 <= l2
                    < problem.dispatches@[d2].limits@.len() ==> !spec_window_admissible(
                    *problem,
                    *transport,
                    usage@[d2]@[l2] as int,
                    d2,
                    l2,
                ),
        },
{
    let mut best: Option<(usize, usize)> = None;
    let mut best_end: i64 = 0;
    let mut di: usize = 0;
    while di < problem.dispatches.len()
        invariant
            dispatch_problem_wf(*problem, *transport),
            usage@.len() == problem.dispatches@.len(),
            forall|i: int|
                0 <= i < usage@.len() ==> (#[trigger] usage@[i]).len()
                    == problem.dispatches@[i].limits@.len(),
            0 <= di <= problem.dispatches@.len(),
            match best {
                Some((bd, bl)) => spec_window_admissible(
                    *problem,
                    *transport,
                    usage@[bd as int]@[bl as int] as int,
                    bd as int,
                    bl as int,
                ) && best_end == problem.dispatches@[bd as int].limits@[bl as int].end && forall|
                    d2: int,
                    l2: int,
                |
                    0 <= d2 < di && 0 <= l2 < problem.dispatches@[d2].limits@.len()
                        && spec_window_admissible(
                        *problem,
                        *transport,
                        usage@[d2]@[l2] as int,
                        d2,
                        l2,
                    ) ==> best_end <= (#[trigger] problem.dispatches@[d2].limits@[l2]).end,
                None => forall|d2: int, l2: int|
                    0 <= d2 < di && 0 <= l2 < problem.dispatches@[d2].limits@.len()
                        ==> !spec_window_admissible(
                        *problem,
                        *transport,
                        usage@[d2]@[l2] as int,
                        d2,
                        l2,
                    ),
            },
        decreases problem.dispatches@.len() - di,
    {
        let place = &problem.dispatches[di];
        let travel = transport.duration_approx(0, problem.depot, place.location);
        let mut li: usize = 0;
        while li < place.limits.len()
            invariant
                dispatch_problem_wf(*problem, *transport),
                usage@.len() == problem.dispatches@.len(),
                forall|i: int|
                    0 <= i < usage@.len() ==> (#[trigger] usage@[i]).len()
                        == problem.dispatches@[i].limits@.len(),
                di < problem.dispatches@.len(),
                place == &problem.dispatches[di as int],
                0 <= li <= place.limits@.len(),
                travel == transport.spec_duration(0, problem.depot, place.location),
                match best {
                    Some((bd, bl)) => spec_window_admissible(
                        *problem,
                        *transport,
                        usage@[bd as int]@[bl as int] as int,
                        bd as int,
                        bl as int,
                    ) && best_end == problem.dispatches@[bd as int].limits@[bl as int].end && (
                    forall|d2: int, l2: int|
                        0 <= d2 < di && 0 <= l2 < problem.dispatches@[d2].limits@.len()
                            && spec_window_admissible(
                            *problem,
                            *transport,
                            usage@[d2]@[l2] as int,
                            d2,
                            l2,
                        ) ==> best_end <= (#[trigger] problem.dispatches@[d2].limits@[l2]).end)
                        && (forall|l2: int|
                        0 <= l2 < li && spec_window_admissible(
                            *problem,
                            *transport,
                            usage@[di as int]@[l2] as int,
                            di as int,
                            l2,
                        ) ==> best_end <= (
                        #[trigger] problem.dispatches@[di as int].limits@[l2]).end),
                    None => (forall|d2: int, l2: int|
                        0 <= d2 < di && 0 <= l2 < problem.dispatches@[d2].limits@.len()
                            ==> !spec_window_admissible(
                            *problem,
                            *transport,
                            usage@[d2]@[l2] as int,
                            d2,
                            l2,
                        )) && (forall|l2: int|
                        0 <= l2 < li ==> !spec_window_admissible(
                            *problem,
                            *transport,
                            usage@[di as int]@[l2] as int,
                            di as int,
                            l2,
                        )),
                },
            decreases place.limits@.len() - li,
        {
            let limit = place.limits[li];
            let arrival_earliest: i128 = (problem.shift_start as i128) + (travel as i128);
            let admissible = usage[di][li] < limit.max && arrival_earliest <= limit.end as i128;
            if admissible {
                let replace = match best {
                    Some(_) => limit.end < best_end,
                    None => true,
                };
                if replace {
                    best = Some((di, li));
                    best_end = limit.end;
                }
            }
            li = li + 1;
        }
        di = di + 1;
    }
    best
}

/// Serves the remaining jobs nearest first from the given location, up to
/// the vehicle's capacity. Returns the chosen job indices, in visit order.
fn pick_jobs_nearest(
    problem: &DispatchProblem,
    transport: &TransportPayload,
    remaining: &Vec<bool>,
    from: Location,
    capacity: u64,
) -> (r: Vec<usize>)
    requires
        dispatch_problem_wf(*problem, *transport),
        remaining@.len() == problem.jobs@.len(),
    ensures
        r@.len() <= capacity,
        r@.len() <= problem.jobs@.len(),
        forall|k: int| 0 <= k < r@.len() ==> (#[trigger] r@[k]) < problem.jobs@.len(),
        forall|k: int| 0 <= k < r@.len() ==> remaining@[#[trigger] r@[k] as int],
        forall|k1: int, k2: int| 0 <= k1 < k2 < r@.len() ==> r@[k1] != r@[k2],
        capacity >= 1 && r@.len() == 0 ==> forall|j: int|
            0 <= j < problem.jobs@.len() ==> !remaining@[j],
        r@.len() < capacity && r@.len() < problem.jobs@.len() ==> forall|j: int|
            0 <= j < problem.jobs@.len() && remaining@[j] ==> exists|k: int|
                0 <= k < r@.len() && (#[trigger] r@[k]) == j,
        forall|k: int|
            #![trigger r@[k]]
            0 <= k < r@.len() ==> spec_nearest_choice(
                *problem,
                *transport,
                remaining@,
                from,
                r@,
                k,
            ),
    {
    let mut picked: Vec<usize> = Vec::new();
    let mut current = from;
    let mut taken: u64 = 0;
    while taken < capacity && picked.len() < problem.jobs.len()
        invariant
            dispatch_problem_wf(*problem, *transport),
            remaining@.len() == problem.jobs@.len(),
            taken == picked@.len(),
            taken <= capacity,
            picked@.len() <= problem.jobs@.len(),
            forall|k: int| 0 <= k < picked@.len() ==> (#[trigger] picked@[k]) < problem.jobs@.len(),
            forall|k: int| 0 <= k < picked@.len() ==> remaining@[#[trigger] picked@[k] as int],
            forall|k1: int, k2: int|
                0 <= k1 < k2 < picked@.len() ==> picked@[k1] != picked@[k2],
            current == spec_pick_from(*problem, from, picked@, picked@.len() as int),
            forall|k: int|
                #![trigger picked@[k]]
                0 <= k < picked@.len() ==> spec_nearest_choice(
                    *problem,
                    *transport,
                    remaining@,
                    from,
                    picked@,
                    k,
                ),
        decreases capacity - taken,
    {
        let mut nearest: Option<usize> = None;
        let mut nearest_distance: i64 = 0;
        let mut j: usize = 0;
        while j < problem.jobs.len()
            invariant
                dispatch_problem_wf(*problem, *transport),
                remaining@.len() == problem.jobs@.len(),
                0 <= j <= problem.jobs@.len(),
                forall|k: int|
                    0 <= k < picked@.len() ==> (#[trigger] picked@[k]) < problem.jobs@.len(),
                forall|k: int| 0 <= k < picked@.len() ==> remaining@[#[trigger] picked@[k] as int],
                forall|k1: int, k2: int|
                    0 <= k1 < k2 < picked@.len() ==> picked@[k1] != picked@[k2],
                current == spec_pick_from(*problem, from, picked@, picked@.len() as int),
                match nearest {
                    Some(n) => n < problem.jobs@.len() && remaining@[n as int] && (forall|k: int|
                        0 <= k < picked@.len() ==> (#[trigger] picked@[k]) != n) && n < j
                        && nearest_distance == transport.spec_distance(
                        0,
                        current,
                        problem.jobs@[n as int].location,
                    ) && forall|j2: int|
                        0 <= j2 < j && remaining@[j2] && !spec_picked_contains(
                            picked@,
                            picked@.len() as int,
                            j2,
                        ) ==> {
                            let dj = transport.spec_distance(
                                0,
                                current,
                                (#[trigger] problem.jobs@[j2]).location,
                            ) as int;
                            if j2 < n {
                                nearest_distance < dj
                            } else {
                                nearest_distance <= dj
                            }
                        },
                    None => forall|j2: int|
                        0 <= j2 < j && remaining@[j2] ==> exists|k: int|
                            0 <= k < picked@.len() && (#[trigger] picked@[k]) == j2,
                },
            decreases problem.jobs@.len() - j,
        {
            let mut already = false;
            let mut k: usize = 0;
            while k < picked.len()
                invariant
                    0 <= k <= picked@.len(),
                    forall|k2: int|
                        0 <= k2 < picked@.len() ==> (#[trigger] picked@[k2])
                            < problem.jobs@.len(),
                    j < problem.jobs@.len(),
                    already == exists|k2: int| 0 <= k2 < k && (#[trigger] picked@[k2]) == j,
                decreases picked@.len() - k,
            {
                if picked[k] == j {
                    already = true;
                }
                k = k + 1;
            }
            if remaining[j] && !already {
                let d = transport.distance_approx(0, current, problem.jobs[j].location);
                let closer = match nearest {
                    Some(_) => d < nearest_distance,
                    None => true,
                };
                if closer {
                    nearest = Some(j);
                    nearest_distance = d;
                }
            }
            j = j + 1;
        }
        match nearest {
            Some(n) => {
                let ghost picked0 = picked@;
                picked.push(n);
                proof {
                    assert(picked@.drop_last() =~= picked0);
                    assert forall|k: int|
                        #![trigger picked@[k]]
                        0 <= k < picked@.len() implies spec_nearest_choice(
                        *problem,
                        *transport,
                        remaining@,
                        from,
                        picked@,
                        k,
                    ) by {
                        if k < picked0.len() {
                            assert(spec_nearest_choice(
                                *problem,
                                *transport,
                                remaining@,
                                from,
                                picked0,
                                k,
                            ));
                            assert forall|j2: int|
                                0 <= j2 < problem.jobs@.len() && remaining@[j2]
                                    && !spec_picked_contains(picked@, k, j2) implies {
                                let origin = spec_pick_from(*problem, from, picked@, k);
                                let dn = transport.spec_distance(
                                    0,
                                    origin,
                                    problem.jobs@[picked@[k] as int].location,
                                ) as int;
                                let dj = transport.spec_distance(
                                    0,
                                    origin,
                                    (#[trigger] problem.jobs@[j2]).location,
                                ) as int;
                                if j2 < picked@[k] {
                                    dn < dj
                                } else {
                                    dn <= dj
                                }
                            } by {
                                assert(!spec_picked_contains(picked0, k, j2));
                                assert(spec_pick_from(*problem, from, picked@, k)
                                    == spec_pick_from(*problem, from, picked0, k));
                            }
                        } else {
                            assert(k == picked0.len());
                            assert(picked@[k] == n);
                            assert forall|j2: int|
                                0 <= j2 < problem.jobs@.len() && remaining@[j2]
                                    && !spec_picked_contains(picked@, k, j2) implies {
                                let origin = spec_pick_from(*problem, from, picked@, k);
                                let dn = transport.spec_distance(
                                    0,
                                    origin,
                                    problem.jobs@[picked@[k] as int].location,
                                ) as int;
                                let dj = transport.spec_distance(
                                    0,
                                    origin,
                                    (#[trigger] problem.jobs@[j2]).location,
                                ) as int;
                                if j2 < picked@[k] {
                                    dn < dj
                                } else {
                                    dn <= dj
                                }
                            } by {
                                assert(!spec_picked_contains(picked0, k, j2));
                                assert(spec_pick_from(*problem, from, picked@, k) == current);
                            }
                        }
                    }
                }
                current = problem.jobs[n].location;
                taken = taken + 1;
            },
            None => {
                return picked;
            },
        }
    }
    picked
}

/// The number of true flags among the first `n`.
pub open spec fn spec_count_true(flags: Seq<bool>, n: int) -> int
    decreases n,
{
    if n <= 0 {
        0
    } else {
        spec_count_true(flags, n - 1) + if flags[n - 1] {
            1int
        } else {
            0int
        }
    }
}

/// Counting is prefix-stable: sequences that agree on the first `n` flags
/// count alike.
proof fn lemma_count_true_agree(a: Seq<bool>, b: Seq<bool>, n: int)
    requires
        0 <= n <= a.len(),
        n <= b.len(),
        forall|j: int| 0 <= j < n ==> a[j] == b[j],
    ensures
        spec_count_true(a, n) == spec_count_true(b, n),
    decreases n,
{
    if n > 0 {
        lemma_count_true_agree(a, b, n - 1);
    }
}

/// Clearing one true flag lowers the count by one.
proof fn lemma_count_true_clear(a: Seq<bool>, n: int, j: int)
    requires
        0 <= j < n <= a.len(),
        a[j],
    ensures
        spec_count_true(a.update(j, false), n) == spec_count_true(a, n) - 1,
    decreases n,
{
    if j == n - 1 {
        lemma_count_true_agree(a.update(j, false), a, n - 1);
    } else {
        lemma_count_true_clear(a, n - 1, j);
    }
}

/// The count is non-negative and bounded by the prefix length.
proof fn lemma_count_true_bounds(a: Seq<bool>, n: int)
    requires
        0 <= n <= a.len(),
    ensures
        0 <= spec_count_true(a, n) <= n,
    decreases n,
{
    if n > 0 {
        lemma_count_true_bounds(a, n - 1);
    }
}

/// Distinct true flags bound the count from below.
proof fn lemma_distinct_trues_count(rem: Seq<bool>, picked: Seq<usize>, nj: int)
    requires
        0 <= nj <= rem.len(),
        forall|k: int| 0 <= k < picked.len() ==> (#[trigger] picked[k]) < nj,
        forall|k: int| 0 <= k < picked.len() ==> rem[#[trigger] picked[k] as int],
        forall|k1: int, k2: int| 0 <= k1 < k2 < picked.len() ==> picked[k1] != picked[k2],
    ensures
        spec_count_true(rem, nj) >= picked.len(),
    decreases picked.len(),
{
    lemma_count_true_bounds(rem, nj);
    if picked.len() > 0 {
        let p = picked.last();
        assert(p == picked[picked.len() - 1]);
        assert(rem[p as int]);
        assert((p as int) < nj);
        lemma_count_true_clear(rem, nj, p as int);
        let rem2 = rem.update(p as int, false);
        let rest = picked.drop_last();
        assert forall|k: int| 0 <= k < rest.len() implies rem2[(#[trigger] rest[k]) as int] by {
            assert(rest[k] == picked[k]);
            assert(picked[k] != picked[picked.len() - 1]);
        }
        assert forall|k1: int, k2: int|
            0 <= k1 < k2 < rest.len() implies rest[k1] != rest[k2] by {
            assert(rest[k1] == picked[k1] && rest[k2] == picked[k2]);
        }
        lemma_distinct_trues_count(rem2, rest, nj);
    }
}

/// An all-false prefix counts zero.
proof fn lemma_count_true_zero(a: Seq<bool>, n: int)
    requires
        0 <= n <= a.len(),
        forall|j: int| 0 <= j < n ==> !a[j],
    ensures
        spec_count_true(a, n) == 0,
    decreases n,
{
    if n > 0 {
        lemma_count_true_zero(a, n - 1);
    }
}

/// A positive count yields a true flag.
proof fn lemma_count_true_nonzero(a: Seq<bool>, n: int)
    requires
        0 <= n <= a.len(),
        spec_count_true(a, n) > 0,
    ensures
        exists|j: int| 0 <= j < n && a[j],
    decreases n,
{
    if !a[n - 1] {
        lemma_count_true_nonzero(a, n - 1);
    }
}

/// Stop delivery counting is prefix-stable.
proof fn lemma_stop_deliveries_agree(a: Seq<DispatchStop>, b: Seq<DispatchStop>, n: int)
    requires
        0 <= n <= a.len(),
        n <= b.len(),
        forall|j: int| 0 <= j < n ==> a[j] == b[j],
    ensures
        spec_stop_deliveries(a, n) == spec_stop_deliveries(b, n),
    decreases n,
{
    if n > 0 {
        lemma_stop_deliveries_agree(a, b, n - 1);
    }
}

/// Clamps a wide value into the timestamp range.
fn clamp_time(x: i128) -> (r: i64)
    ensures
        r as int == crate::objectives::clamp_cost(x as int),
{
    if x > i64::MAX as i128 {
        i64::MAX
    } else if x < i64::MIN as i128 {
        i64::MIN
    } else {
        x as i64
    }
}

/// A rate (at most a million) times a quantity, in wide arithmetic.
fn rate_times(rate: i64, quantity: i64) -> (r: i128)
    requires
        0 <= rate <= 1000000,
    ensures
        r == rate * quantity,
        -9300000000000000000000000 <= r <= 9300000000000000000000000,
{
    proof {
        assert(-9300000000000000000000000 <= (rate as int) * (quantity as int)
            <= 9300000000000000000000000) by (nonlinear_arith)
            requires
                0 <= rate <= 1000000,
                -9223372036854775808 <= quantity <= 9223372036854775807,
        ;
    }
    (rate as i128) * (quantity as i128)
}

/// Solves a dispatch scenario: every vehicle in turn takes the
/// earliest-closing admissible dispatch window, shifts its departure so it
/// arrives as the window opens, serves up to its capacity of the remaining
/// deliveries nearest first, and returns to the depot. Every job ends up
/// either served by exactly one tour or in the unassigned list; when no
/// dispatch window is reachable at all, there are no tours and every job
/// is unassigned.
#[verifier::rlimit(100)]
pub fn solve_dispatch(problem: &DispatchProblem, transport: &TransportPayload) -> (r: (
    DispatchSolution,
    Ghost<Seq<(int, int, Seq<usize>)>>,
))
    requires
        dispatch_problem_wf(*problem, *transport),
    ensures
        r.0.unassigned@.len() + spec_deliveries_in(r.0.tours@) == problem.jobs@.len(),
        r.0.tours@.len() <= problem.vehicle_ids@.len(),
        r.0.tours@.len() == 0 ==> r.0.unassigned@.len() == problem.jobs@.len(),
        problem.jobs@.len() > 0 && problem.vehicle_ids@.len() > 0 && spec_any_dispatch_reachable(
            *problem,
            *transport,
        ) ==> r.0.tours@.len() > 0,
        !spec_any_dispatch_reachable(*problem, *transport) ==> r.0.tours@.len() == 0,
        forall|t: int|
            0 <= t < r.0.tours@.len() ==> dispatch_tour_shape(#[trigger] r.0.tours@[t], *problem)
                && 1 <= spec_tour_deliveries(r.0.tours@[t]) <= problem.capacity,
        r.0.unassigned@.len() > 0 ==> forall|t: int|
            0 <= t < r.0.tours@.len() ==> spec_tour_deliveries(#[trigger] r.0.tours@[t])
                == problem.capacity,
        r.1@.len() == r.0.tours@.len(),
        forall|t: int|
            0 <= t < r.0.tours@.len() ==> dispatch_tour_layout(
                #[trigger] r.0.tours@[t],
                *problem,
                *transport,
                r.1@[t].0,
                r.1@[t].1,
            ) && r.0.tours@[t].cost as int == spec_dispatch_tour_cost(
                *problem,
                *transport,
                r.1@[t].2,
                r.1@[t].0,
                r.1@[t].1,
            ) && spec_tour_deliveries(r.0.tours@[t]) == r.1@[t].2.len(),
        r.0.total_cost as int == crate::objectives::clamp_cost(
            spec_cost_sum(r.0.tours@, r.0.tours@.len() as int),
        ),
{
    let nj = problem.jobs.len();
    let mut remaining: Vec<bool> = Vec::new();
    let mut i: usize = 0;
    while i < nj
        invariant
            0 <= i <= nj,
            remaining@.len() == i,
            spec_count_true(remaining@, i as int) == i,
            forall|j: int| 0 <= j < i ==> remaining@[j],
        decreases nj - i,
    {
        let ghost r0 = remaining@;
        remaining.push(true);
        proof {
            lemma_count_true_agree(remaining@, r0, i as int);
        }
        i = i + 1;
    }
    let mut usage: Vec<Vec<u64>> = Vec::new();
    let mut di: usize = 0;
    while di < problem.dispatches.len()
        invariant
            dispatch_problem_wf(*problem, *transport),
            0 <= di <= problem.dispatches@.len(),
            usage@.len() == di,
            forall|k: int|
                0 <= k < di ==> (#[trigger] usage@[k]).len()
                    == problem.dispatches@[k].limits@.len(),
            forall|k: int, l2: int|
                0 <= k < di && 0 <= l2 < usage@[k]@.len() ==> #[trigger] usage@[k]@[l2] == 0,
        decreases problem.dispatches@.len() - di,
    {
        let mut row: Vec<u64> = Vec::new();
        let mut li: usize = 0;
        let limit_count = problem.dispatches[di].limits.len();
        while li < limit_count
            invariant
                0 <= li <= limit_count,
                row@.len() == li,
                forall|l2: int| 0 <= l2 < li ==> #[trigger] row@[l2] == 0,
            decreases limit_count - li,
        {
            row.push(0);
            li = li + 1;
        }
        usage.push(row);
        di = di + 1;
    }
    let mut tours: Vec<DispatchTour> = Vec::new();
    let ghost mut window_picks: Seq<(int, int, Seq<usize>)> = Seq::empty();
    let mut v: usize = 0;
    while v < problem.vehicle_ids.len()
        invariant
            dispatch_problem_wf(*problem, *transport),
            nj == problem.jobs@.len(),
            remaining@.len() == nj,
            usage@.len() == problem.dispatches@.len(),
            forall|k: int|
                0 <= k < usage@.len() ==> (#[trigger] usage@[k]).len()
                    == problem.dispatches@[k].limits@.len(),
            0 <= v <= problem.vehicle_ids@.len(),
            tours@.len() <= v,
            spec_deliveries_in(tours@) + spec_count_true(remaining@, nj as int) == nj,
            tours@.len() == 0 ==> spec_count_true(remaining@, nj as int) == nj,
            v > 0 ==> tours@.len() > 0,
            v == 0 ==> forall|k: int, l2: int|
                0 <= k < usage@.len() && 0 <= l2 < usage@[k]@.len() ==> #[trigger] usage@[k]@[l2]
                    == 0,
            tours@.len() > 0 ==> spec_any_dispatch_reachable(*problem, *transport),
            forall|t: int|
                0 <= t < tours@.len() ==> dispatch_tour_shape(#[trigger] tours@[t], *problem)
                    && 1 <= spec_tour_deliveries(tours@[t]) <= problem.capacity,
            spec_count_true(remaining@, nj as int) > 0 ==> forall|t: int|
                0 <= t < tours@.len() ==> spec_tour_deliveries(#[trigger] tours@[t])
                    == problem.capacity,
            window_picks.len() == tours@.len(),
            forall|t: int|
                0 <= t < tours@.len() ==> dispatch_tour_layout(
                    #[trigger] tours@[t],
                    *problem,
                    *transport,
                    window_picks[t].0,
                    window_picks[t].1,
                ) && tours@[t].cost as int == spec_dispatch_tour_cost(
                    *problem,
                    *transport,
                    window_picks[t].2,
                    window_picks[t].0,
                    window_picks[t].1,
                ) && spec_tour_deliveries(tours@[t]) == window_picks[t].2.len(),
        ensures
            remaining@.len() == nj,
            nj == problem.jobs@.len(),
            tours@.len() <= problem.vehicle_ids@.len(),
            spec_deliveries_in(tours@) + spec_count_true(remaining@, nj as int) == nj,
            tours@.len() == 0 ==> spec_count_true(remaining@, nj as int) == nj,
            nj > 0 && problem.vehicle_ids@.len() > 0 && spec_any_dispatch_reachable(
                *problem,
                *transport,
            ) ==> tours@.len() > 0,
            tours@.len() > 0 ==> spec_any_dispatch_reachable(*problem, *transport),
            forall|t: int|
                0 <= t < tours@.len() ==> dispatch_tour_shape(#[trigger] tours@[t], *problem)
                    && 1 <= spec_tour_deliveries(tours@[t]) <= problem.capacity,
            spec_count_true(remaining@, nj as int) > 0 ==> forall|t: int|
                0 <= t < tours@.len() ==> spec_tour_deliveries(#[trigger] tours@[t])
                    == problem.capacity,
            window_picks.len() == tours@.len(),
            forall|t: int|
                0 <= t < tours@.len() ==> dispatch_tour_layout(
                    #[trigger] tours@[t],
                    *problem,
                    *transport,
                    window_picks[t].0,
                    window_picks[t].1,
                ) && tours@[t].cost as int == spec_dispatch_tour_cost(
                    *problem,
                    *transport,
                    window_picks[t].2,
                    window_picks[t].0,
                    window_picks[t].1,
                ) && spec_tour_deliveries(tours@[t]) == window_picks[t].2.len(),
        decreases problem.vehicle_ids@.len() - v,
    {
        let window = pick_dispatch_window(problem, transport, &usage);
        let (wdi, wli) = match window {
            Some(w) => w,
            None => {
                proof {
                    if tours@.len() == 0 && spec_any_dispatch_reachable(*problem, *transport) {
                        let (di0, li0) = choose|di0: int, li0: int|
                            spec_window_admissible(*problem, *transport, 0, di0, li0);
                        assert(usage@[di0]@[li0] == 0);
                        assert(!spec_window_admissible(
                            *problem,
                            *transport,
                            usage@[di0]@[li0] as int,
                            di0,
                            li0,
                        ));
                        assert(false);
                    }
                    assert(tours@.len() > 0 || !spec_any_dispatch_reachable(
                        *problem,
                        *transport,
                    ));
                }
                break ;
            },
        };
        proof {
            let (adi, ali) = (wdi as int, wli as int);
            assert(spec_window_admissible(*problem, *transport, 0, adi, ali));
            assert(spec_any_dispatch_reachable(*problem, *transport));
        }
        let dloc = problem.dispatches[wdi].location;
        let picked = pick_jobs_nearest(problem, transport, &remaining, dloc, problem.capacity);
        if picked.len() == 0 {
            proof {
                lemma_count_true_zero(remaining@, nj as int);
                if tours@.len() == 0 && nj > 0 {
                    assert(spec_count_true(remaining@, nj as int) == nj);
                    assert(false);
                }
                assert(tours@.len() > 0 || nj == 0);
            }
            break ;
        }
        let mut row = usage.remove(wdi);
        let used = row.remove(wli);
        row.insert(wli, if used < u64::MAX {
            used + 1
        } else {
            used
        });
        usage.insert(wdi, row);
        proof {
            assert(usage@.len() == problem.dispatches@.len());
            assert forall|k: int|
                0 <= k < usage@.len() implies (#[trigger] usage@[k]).len()
                == problem.dispatches@[k].limits@.len() by {
                assert(usage@[wdi as int]@.len() == problem.dispatches@[wdi as int].limits@.len());
            }
        }
        let ghost rem0 = remaining@;
        let mut k: usize = 0;
        while k < picked.len()
            invariant
                nj == problem.jobs@.len(),
                remaining@.len() == nj,
                0 <= k <= picked@.len(),
                forall|k2: int| 0 <= k2 < picked@.len() ==> (#[trigger] picked@[k2]) < nj,
                forall|k1: int, k2: int|
                    0 <= k1 < k2 < picked@.len() ==> picked@[k1] != picked@[k2],
                forall|k2: int|
                    k <= k2 < picked@.len() ==> remaining@[(#[trigger] picked@[k2]) as int],
                forall|k2: int|
                    0 <= k2 < k ==> !remaining@[(#[trigger] picked@[k2]) as int],
                forall|j2: int| 0 <= j2 < nj && #[trigger] remaining@[j2] ==> rem0[j2],
                spec_count_true(remaining@, nj as int) == spec_count_true(rem0, nj as int) - k,
            decreases picked@.len() - k,
        {
            let j = picked[k];
            proof {
                lemma_count_true_clear(remaining@, nj as int, j as int);
            }
            remaining[j] = false;
            k = k + 1;
        }
        proof {
            lemma_count_true_bounds(remaining@, nj as int);
            if picked@.len() < problem.capacity {
                if picked@.len() < nj {
                    assert forall|j2: int| 0 <= j2 < nj implies !remaining@[j2] by {
                        if remaining@[j2] {
                            assert(rem0[j2]);
                        }
                    }
                    lemma_count_true_zero(remaining@, nj as int);
                } else {
                    lemma_distinct_trues_count(rem0, picked@, nj as int);
                    lemma_count_true_bounds(rem0, nj as int);
                }
                assert(spec_count_true(remaining@, nj as int) == 0);
            }
        }
        let tour = build_dispatch_tour(problem, transport, v, wdi, wli, &picked);
        proof {
            lemma_count_true_bounds(rem0, nj as int);
            assert(dispatch_tour_layout(tour, *problem, *transport, wdi as int, wli as int));
        }
        let ghost tours0 = tours@;
        tours.push(tour);
        proof {
            assert(tours@.drop_last() =~= tours0);
            assert(spec_deliveries_in(tours@) == spec_deliveries_in(tours0)
                + spec_tour_deliveries(tours@.last()));
            assert(dispatch_tour_layout(
                tours@[tours@.len() - 1],
                *problem,
                *transport,
                wdi as int,
                wli as int,
            ));
            window_picks = window_picks.push((wdi as int, wli as int, picked@));
        }
        v = v + 1;
    }
    let mut unassigned: Vec<String> = Vec::new();
    let mut j: usize = 0;
    while j < nj
        invariant
            nj == problem.jobs@.len(),
            remaining@.len() == nj,
            0 <= j <= nj,
            unassigned@.len() == spec_count_true(remaining@, j as int),
        decreases nj - j,
    {
        if remaining[j] {
            unassigned.push(problem.jobs[j].id.as_str().to_owned());
        }
        j = j + 1;
    }
    let mut total: i128 = 0;
    let mut t: usize = 0;
    while t < tours.len()
        invariant
            0 <= t <= tours@.len(),
            tours@.len() <= 65536,
            total == spec_cost_sum(tours@, t as int),
            -9300000000000000000 * (t as int) <= total <= 9300000000000000000 * (t as int),
        decreases tours@.len() - t,
    {
        total = total + (tours[t].cost as i128);
        t = t + 1;
    }
    (DispatchSolution { tours, unassigned, total_cost: clamp_time(total) }, Ghost(window_picks))
}

/// Builds one vehicle's tour: depot departure (shifted so the dispatch
/// window opens on arrival), the dispatch check-in (merged into the depot
/// stop when the dispatch sits there), the picked deliveries nearest
/// first, and the return to the depot.
#[verifier::rlimit(100)]
fn build_dispatch_tour(
    problem: &DispatchProblem,
    transport: &TransportPayload,
    vehicle: usize,
    wdi: usize,
    wli: usize,
    picked: &Vec<usize>,
) -> (r: DispatchTour)
    requires
        dispatch_problem_wf(*problem, *transport),
        vehicle < problem.vehicle_ids@.len(),
        wdi < problem.dispatches@.len(),
        wli < problem.dispatches@[wdi as int].limits@.len(),
        forall|k: int| 0 <= k < picked@.len() ==> (#[trigger] picked@[k]) < problem.jobs@.len(),
        picked@.len() <= 65536,
    ensures
        spec_tour_deliveries(r) == picked@.len(),
        dispatch_tour_shape(r, *problem),
        dispatch_tour_layout(r, *problem, *transport, wdi as int, wli as int),
        r.vehicle_id@ == problem.vehicle_ids@[vehicle as int]@,
        forall|k: int|
            #![trigger picked@[k]]
            0 <= k < picked@.len() ==> {
                let st = r.stops@[(if problem.dispatches@[wdi as int].location == problem.depot {
                    1int
                } else {
                    2int
                }) + k];
                &&& st.location == problem.jobs@[picked@[k] as int].location
                &&& st.load == picked@.len() - k - 1
                &&& st.activities@.len() == 1
                &&& (st.activities@[0].job_id matches Some(id)
                    && id@ == problem.jobs@[picked@[k] as int].id@)
                &&& st.activities@[0].activity_type@ == "delivery"@
                &&& st.arrival as int == crate::objectives::clamp_cost(
                    spec_depart_time(*problem, *transport, picked@, wdi as int, wli as int, k + 1)
                        - problem.jobs@[picked@[k] as int].duration,
                )
                &&& st.departure as int == crate::objectives::clamp_cost(
                    spec_depart_time(*problem, *transport, picked@, wdi as int, wli as int, k + 1),
                )
                &&& st.distance as int == crate::objectives::clamp_cost(
                    spec_distance_through(*problem, *transport, picked@, wdi as int, k + 1),
                )
            },
        r.cost as int == spec_dispatch_tour_cost(
            *problem,
            *transport,
            picked@,
            wdi as int,
            wli as int,
        ),
{
    let dloc = problem.dispatches[wdi].location;
    let limit = problem.dispatches[wdi].limits[wli];
    let travel_t = transport.duration_approx(0, problem.depot, dloc);
    let travel_d = transport.distance_approx(0, problem.depot, dloc);
    let depart0: i128 = {
        let shifted = (limit.start as i128) - (travel_t as i128);
        if shifted > problem.shift_start as i128 {
            shifted
        } else {
            problem.shift_start as i128
        }
    };
    let arrive_dispatch: i128 = depart0 + (travel_t as i128);
    let mut stops: Vec<DispatchStop> = Vec::new();
    let load0: i64 = picked.len() as i64;
    if dloc == problem.depot {
        let mut acts: Vec<DispatchActivity> = Vec::new();
        acts.push(DispatchActivity { activity_type: departure_label(), job_id: None });
        acts.push(DispatchActivity { activity_type: dispatch_label(), job_id: None });
        let ghost a = acts@;
        proof {
            assert(spec_activity_deliveries(a, 0) == 0);
            assert(spec_activity_deliveries(a, 1) == 0);
            assert(spec_activity_deliveries(a, 2) == 0);
        }
        stops.push(
            DispatchStop {
                location: problem.depot,
                arrival: problem.shift_start,
                departure: limit.end,
                distance: 0,
                load: load0,
                activities: acts,
            },
        );
    } else {
        let mut acts: Vec<DispatchActivity> = Vec::new();
        acts.push(DispatchActivity { activity_type: departure_label(), job_id: None });
        let ghost a = acts@;
        proof {
            assert(spec_activity_deliveries(a, 0) == 0);
            assert(spec_activity_deliveries(a, 1) == 0);
        }
        stops.push(
            DispatchStop {
                location: problem.depot,
                arrival: problem.shift_start,
                departure: clamp_time(depart0),
                distance: 0,
                load: 0,
                activities: acts,
            },
        );
        let mut acts: Vec<DispatchActivity> = Vec::new();
        acts.push(DispatchActivity { activity_type: dispatch_label(), job_id: None });
        let ghost a = acts@;
        proof {
            assert(spec_activity_deliveries(a, 0) == 0);
            assert(spec_activity_deliveries(a, 1) == 0);
        }
        stops.push(
            DispatchStop {
                location: dloc,
                arrival: clamp_time(arrive_dispatch),
                departure: limit.end,
                distance: travel_d,
                load: load0,
                activities: acts,
            },
        );
    }
    proof {
        assert(spec_stop_deliveries(stops@, 0) == 0);
        assert(spec_stop_deliveries(stops@, 1) == 0);
        if stops@.len() == 2 {
            assert(spec_stop_deliveries(stops@, 2) == 0);
        }
        assert(spec_stop_deliveries(stops@, stops@.len() as int) == 0);
    }
    let serving_dispatch: i128 = (limit.end as i128) - arrive_dispatch;
    let mut time: i128 = limit.end as i128;
    let mut current = dloc;
    let mut distance_total: i128 = travel_d as i128;
    let mut driving: i128 = travel_t as i128;
    let mut serving: i128 = if serving_dispatch > 0 {
        serving_dispatch
    } else {
        0
    };
    let ghost base: int = if dloc == problem.depot {
        1int
    } else {
        2int
    };
    proof {
        assert(dispatch_prefix_layout(stops@, *problem, *transport, wdi as int, wli as int));
    }
    let mut k: usize = 0;
    while k < picked.len()
        invariant
            dispatch_problem_wf(*problem, *transport),
            wdi < problem.dispatches@.len(),
            wli < problem.dispatches@[wdi as int].limits@.len(),
            forall|k2: int|
                0 <= k2 < picked@.len() ==> (#[trigger] picked@[k2]) < problem.jobs@.len(),
            picked@.len() <= 65536,
            0 <= k <= picked@.len(),
            base == if problem.dispatches@[wdi as int].location == problem.depot {
                1int
            } else {
                2int
            },
            spec_stop_deliveries(stops@, stops@.len() as int) == k,
            stops@.len() == base + k,
            dispatch_prefix_layout(stops@, *problem, *transport, wdi as int, wli as int),
            forall|k2: int|
                0 <= k2 < k ==> {
                    let st = #[trigger] stops@[base + k2];
                    &&& st.location == problem.jobs@[picked@[k2] as int].location
                    &&& st.load == picked@.len() - k2 - 1
                    &&& st.activities@.len() == 1
                    &&& (st.activities@[0].job_id matches Some(id) && id@ == problem.jobs@[
                        picked@[k2] as int].id@)
                    &&& st.activities@[0].activity_type@ == "delivery"@
                },
            -2000000000 <= time <= 2000000000 + 1099513000000 * (k as int),
            0 <= distance_total <= 1099511627776 * (k as int + 1),
            0 <= driving <= 1099511627776 * (k as int + 1),
            0 <= serving <= 2000000000 + 1000000 * (k as int),
            time == spec_depart_time(*problem, *transport, picked@, wdi as int, wli as int, k as int),
            current == spec_route_loc(*problem, picked@, wdi as int, k as int),
            distance_total == spec_distance_through(
                *problem,
                *transport,
                picked@,
                wdi as int,
                k as int,
            ),
            driving == spec_driving_through(*problem, *transport, picked@, wdi as int, k as int),
            serving == spec_serving_through(
                *problem,
                *transport,
                picked@,
                wdi as int,
                wli as int,
                k as int,
            ),
            forall|k2: int|
                #![trigger picked@[k2]]
                0 <= k2 < k ==> {
                    let st = stops@[base + k2];
                    &&& st.arrival as int == crate::objectives::clamp_cost(
                        spec_depart_time(
                            *problem,
                            *transport,
                            picked@,
                            wdi as int,
                            wli as int,
                            k2 + 1,
                        ) - problem.jobs@[picked@[k2] as int].duration,
                    )
                    &&& st.departure as int == crate::objectives::clamp_cost(
                        spec_depart_time(
                            *problem,
                            *transport,
                            picked@,
                            wdi as int,
                            wli as int,
                            k2 + 1,
                        ),
                    )
                    &&& st.distance as int == crate::objectives::clamp_cost(
                        spec_distance_through(
                            *problem,
                            *transport,
                            picked@,
                            wdi as int,
                            k2 + 1,
                        ),
                    )
                },
        decreases picked@.len() - k,
    {
        let job = &problem.jobs[picked[k]];
        let leg_d = transport.distance_approx(0, current, job.location);
        let leg_t = transport.duration_approx(0, current, job.location);
        let arrive = time + (leg_t as i128);
        let depart = arrive + (job.duration as i128);
        let mut acts: Vec<DispatchActivity> = Vec::new();
        acts.push(
            DispatchActivity {
                activity_type: delivery_label(),
                job_id: Some(job.id.as_str().to_owned()),
            },
        );
        let ghost a = acts@;
        proof {
            assert(spec_activity_deliveries(a, 0) == 0);
            assert(spec_activity_deliveries(a, 1) == 1);
        }
        let remaining_load: i64 = (picked.len() - (k + 1)) as i64;
        let ghost stops0 = stops@;
        stops.push(
            DispatchStop {
                location: job.location,
                arrival: clamp_time(arrive),
                departure: clamp_time(depart),
                distance: clamp_time(distance_total + (leg_d as i128)),
                load: remaining_load,
                activities: acts,
            },
        );
        proof {
            lemma_stop_deliveries_agree(stops@, stops0, stops0.len() as int);
            assert(spec_stop_deliveries(stops@, stops@.len() as int) == spec_stop_deliveries(
                stops0,
                stops0.len() as int,
            ) + 1);
        }
        time = depart;
        current = job.location;
        distance_total = distance_total + (leg_d as i128);
        driving = driving + (leg_t as i128);
        serving = serving + (job.duration as i128);
        k = k + 1;
    }
    let back_d = transport.distance_approx(0, current, problem.depot);
    let back_t = transport.duration_approx(0, current, problem.depot);
    let arrive_back = time + (back_t as i128);
    distance_total = distance_total + (back_d as i128);
    driving = driving + (back_t as i128);
    let mut acts: Vec<DispatchActivity> = Vec::new();
    acts.push(DispatchActivity { activity_type: arrival_label(), job_id: None });
    let ghost a = acts@;
    proof {
        assert(spec_activity_deliveries(a, 0) == 0);
        assert(spec_activity_deliveries(a, 1) == 0);
    }
    let ghost stops0 = stops@;
    stops.push(
        DispatchStop {
            location: problem.depot,
            arrival: clamp_time(arrive_back),
            departure: clamp_time(arrive_back),
            distance: clamp_time(distance_total),
            load: 0,
            activities: acts,
        },
    );
    proof {
        lemma_stop_deliveries_agree(stops@, stops0, stops0.len() as int);
        assert(spec_stop_deliveries(stops@, stops@.len() as int) == spec_stop_deliveries(
            stops0,
            stops0.len() as int,
        ));
        assert(dispatch_prefix_layout(stops@, *problem, *transport, wdi as int, wli as int));
    }
    let span = arrive_back - depart0;
    let waiting: i128 = {
        let w = span - driving - serving;
        if w > 0 {
            w
        } else {
            0
        }
    };
    let cost: i128 = (problem.costs.fixed as i128) + rate_times(
        problem.costs.per_distance,
        clamp_time(distance_total),
    ) + rate_times(problem.costs.per_driving_time, clamp_time(driving)) + rate_times(
        problem.costs.per_service_time,
        clamp_time(serving),
    ) + rate_times(problem.costs.per_waiting_time, clamp_time(waiting));
    DispatchTour {
        vehicle_id: problem.vehicle_ids[vehicle].as_str().to_owned(),
        stops,
        cost: clamp_time(cost),
    }
}

/// The label of a depot departure activity.
fn departure_label() -> (r: String)
    ensures
        r@ == "departure"@,
{
    "departure".to_owned()
}

/// The label of a dispatch check-in activity.
fn dispatch_label() -> (r: String)
    ensures
        r@ == "dispatch"@,
{
    "dispatch".to_owned()
}

/// The label of a delivery activity.
fn delivery_label() -> (r: String)
    ensures
        r@ == "delivery"@,
{
    "delivery".to_owned()
}

/// The label of the final depot arrival activity.
fn arrival_label() -> (r: String)
    ensures
        r@ == "arrival"@,
{
    "arrival".to_owned()
}

} // verus!
