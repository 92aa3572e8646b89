//! Defaults of the rich format: unassigned-job estimates, default orders,
//! transport cost aggregation, the example problem and the output model.

use vrp_core::common::{ScheduleTimes, TimeWindow};
use vrp_core::contexts::{RouteContext, SolutionContext};
use vrp_core::examples::create_example_problem;
use vrp_core::format::Solution;
use vrp_core::objectives::total_transport_cost;
use vrp_core::pipeline::ConstraintModuleVariant;
use vrp_core::pragmatic::{
    get_default_order, get_unassigned_job_estimate, JobTypeDimension, OrderResult,
};
use vrp_core::problem::{
    Actor, Costs, Dimensions, Driver, Job, JobIdDimension, Single, TransportMatrix,
    TransportPayload, Vehicle, VehicleDetail, VehicleIdDimension,
};
use vrp_core::solution::{Activity, ActivityPlace, Route, Tour};
use vrp_core::state::RouteState;

fn create_single_with_type(id: &str, activity_type: &str) -> Single {
    let mut dimens = Dimensions::new();
    dimens.set_job_id(id);
    dimens.set_job_type(activity_type);
    Single { places: Vec::new(), dimens }
}

#[test]
fn can_get_default_unassigned_job_estimate() {
    let estimate_for_type = |activity_type: &str| {
        get_unassigned_job_estimate(
            &Job::Single(create_single_with_type("job1", activity_type)),
            100,
            1,
        )
    };

    assert_eq!(estimate_for_type("break"), 100);
    assert_eq!(estimate_for_type("reload"), 0);
    assert_eq!(estimate_for_type("dispatch"), 1);
    assert_eq!(estimate_for_type("pickup"), 1);
    assert_eq!(estimate_for_type("delivery"), 1);
    assert_eq!(estimate_for_type("service"), 1);
}

#[test]
fn can_get_default_order() {
    let compare_for_type = |activity_type: &str, expected: OrderResult| {
        let order_result = get_default_order(&create_single_with_type("job1", activity_type));
        match (order_result, expected) {
            (OrderResult::Ignored, OrderResult::Ignored)
            | (OrderResult::Default, OrderResult::Default) => {}
            _ => unreachable!(),
        };
    };

    compare_for_type("break", OrderResult::Ignored);
    compare_for_type("reload", OrderResult::Ignored);
    compare_for_type("dispatch", OrderResult::Ignored);
    compare_for_type("pickup", OrderResult::Default);
    compare_for_type("delivery", OrderResult::Default);
    compare_for_type("service", OrderResult::Default);
}

fn fixed_costs() -> Costs {
    Costs {
        fixed: 100,
        per_distance: 1,
        per_driving_time: 1,
        per_waiting_time: 1,
        per_service_time: 1,
    }
}

fn driver_costs() -> Costs {
    Costs {
        fixed: 0,
        per_distance: 1,
        per_driving_time: 1,
        per_waiting_time: 1,
        per_service_time: 1,
    }
}

fn activity(location: usize, duration: i64, arrival: i64, departure: i64) -> Activity {
    Activity {
        place: ActivityPlace {
            location,
            duration,
            time: TimeWindow { start: 0, end: 1000 },
        },
        schedule: ScheduleTimes { arrival, departure },
        job: None,
    }
}

fn abs_matrix(size: usize) -> TransportPayload {
    let mut durations = Vec::new();
    let mut distances = Vec::new();
    for from in 0..size {
        for to in 0..size {
            let d = if from > to { from - to } else { to - from } as i64;
            durations.push(d);
            distances.push(d);
        }
    }
    TransportPayload::Matrix(TransportMatrix {
        size,
        durations,
        distances,
    })
}

fn route_ctx(vehicle_id: &str, activities: Vec<Activity>) -> RouteContext {
    let mut dimens = Dimensions::new();
    dimens.set_vehicle_id(vehicle_id);
    let vehicle = Vehicle {
        profile: 0,
        costs: fixed_costs(),
        dimens,
        details: vec![VehicleDetail {
            start: None,
            end: None,
        }],
    };
    let driver = Driver {
        costs: driver_costs(),
        dimens: Dimensions::new(),
    };
    let detail = VehicleDetail {
        start: None,
        end: None,
    };
    let actor = Actor {
        vehicle,
        driver,
        detail,
        idx: 0,
    };
    RouteContext {
        route: Route {
            actor,
            tour: Tour { activities },
        },
        state: RouteState::empty(),
        stale: true,
    }
}

#[test]
fn can_calculate_transport_cost() {
    let route1 = route_ctx(
        "v1",
        vec![
            activity(0, 0, 0, 0),
            activity(10, 5, 10, 15),
            activity(15, 5, 20, 25),
            activity(0, 0, 40, 40),
        ],
    );
    let route2 = route_ctx(
        "v2",
        vec![
            activity(0, 0, 0, 0),
            activity(5, 1, 5, 6),
            activity(0, 0, 11, 11),
        ],
    );
    let transport = abs_matrix(16);
    let mut solution = SolutionContext::empty();
    solution.routes.push(route1);
    solution.routes.push(route2);

    // route 1: locations 0 10 15 0, time 40, driving 30, fixed 100;
    // route 2: locations 0 5 0, time 11, driving 10, fixed 100;
    // total: (70 * 2 + 100) + (21 * 2 + 100) = 382 for vehicle and driver.
    let result = total_transport_cost(&solution, &transport);

    assert_eq!(result, 382);
}

#[test]
fn can_create_example_problem() {
    let problem = create_example_problem();

    assert_eq!(problem.jobs.len(), 1);
    assert_eq!(problem.fleet.vehicles.len(), 1);
    assert_eq!(problem.fleet.actors.len(), 1);
    assert!(matches!(problem.transport, TransportPayload::Uniform(42)));
    assert_eq!(problem.constraint.modules.len(), 1);
    match &problem.constraint.modules[0] {
        ConstraintModuleVariant::Capacity(c) => assert_eq!(c.code, 2),
        _ => unreachable!(),
    }
    assert_eq!(
        problem.fleet.vehicles[0].dimens.get_vehicle_id().map(|s| s.as_str()),
        Some("v1")
    );
}

#[test]
fn can_build_empty_solution_model() {
    let solution = Solution::empty();

    assert_eq!(solution.statistic.cost, 0);
    assert!(solution.tours.is_empty());
    assert!(solution.unassigned.is_none());
    assert!(solution.violations.is_none());
    assert!(solution.extras.is_none());
}

#[test]
fn can_reject_empty_recharge_feature_name() {
    let err = vrp_core::recharge::create_recharge_feature("", 7);
    match err {
        Err(message) => assert_eq!(message, "feature name must not be empty"),
        Ok(_) => unreachable!(),
    }

    let ok = vrp_core::recharge::create_recharge_feature("recharge", 7);
    match ok {
        Ok(feature) => {
            assert_eq!(feature.name, "recharge");
            assert_eq!(feature.constraint.code, 7);
            assert_eq!(feature.state_keys.len(), 2);
        }
        Err(_) => unreachable!(),
    }
}

#[test]
fn can_limit_recharge_distance() {
    let mut ctx = route_ctx(
        "v1",
        vec![
            activity(0, 0, 0, 0),
            activity(5, 1, 5, 6),
            activity(10, 1, 11, 12),
            activity(0, 0, 22, 22),
        ],
    );
    ctx.route.actor.vehicle.dimens.recharge_distance_limit = Some(12);
    let transport = abs_matrix(16);
    let feature = vrp_core::recharge::RechargeableMultiTrip { code: 9 };
    feature.recalculate_states(&mut ctx, &transport);

    let distances = ctx.state.recharge_distances.clone().unwrap();
    assert_eq!(distances, vec![0, 5, 10, 20]);

    // Inserting a visit at location 15 between the second stop and the end
    // pushes the accumulated distance over the limit.
    let target = activity(15, 1, 0, 0);
    let actx = vrp_core::pipeline::ActivityContext {
        index: 3,
        prev: activity(10, 1, 11, 12),
        target: target.clone(),
        next: Some(activity(0, 0, 22, 22)),
    };
    let verdict = feature.evaluate_activity(&ctx, &actx, &transport);
    assert!(matches!(
        verdict,
        Some(v) if v.code == 9 && !v.stopped
    ));

    // A nearby visit stays within the limit.
    let near = activity(11, 1, 0, 0);
    let actx = vrp_core::pipeline::ActivityContext {
        index: 3,
        prev: activity(10, 1, 11, 12),
        target: near,
        next: Some(activity(0, 0, 22, 22)),
    };
    assert!(feature.evaluate_activity(&ctx, &actx, &transport).is_none());
}

#[test]
fn can_reset_recharge_distance_per_interval() {
    let mut ctx = route_ctx(
        "v1",
        vec![
            activity(0, 0, 0, 0),
            activity(1, 0, 1, 1),
            activity(2, 0, 2, 2),
            activity(3, 0, 3, 3),
        ],
    );
    ctx.route.actor.vehicle.dimens.recharge_distance_limit = Some(10);
    ctx.state.recharge_intervals = Some(vec![(0, 1), (2, 3)]);
    let transport = abs_matrix(16);
    let feature = vrp_core::recharge::RechargeableMultiTrip { code: 9 };
    feature.recalculate_states(&mut ctx, &transport);

    // The accumulator restarts at each interval start: with unit legs the
    // last activity carries the distance of its own interval only.
    let distances = ctx.state.recharge_distances.clone().unwrap();
    assert_eq!(distances, vec![0, 1, 0, 1]);
}
