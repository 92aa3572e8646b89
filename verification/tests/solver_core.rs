//! Capacity recalculation, feasibility, merging, position pruning and the
//! insertion cache.

use vrp_core::capacity::{CapacityConstraintModule, MultiTrip, ReloadMultiTrip};
use vrp_core::common::{Demand, ScheduleTimes, TimeWindow};
use vrp_core::contexts::RouteContext;
use vrp_core::pipeline::{ActivityContext, ConstraintModuleVariant, ConstraintPipeline};
use vrp_core::pragmatic::JobTypeDimension;
use vrp_core::problem::{
    Actor, Costs, Dimensions, Driver, Job, Single, Vehicle, VehicleDetail,
};
use vrp_core::cache::{InsertionCache, SolutionCache};
use vrp_core::solution::{Activity, ActivityPlace, Route, Tour};
use vrp_core::state::RouteState;

fn delivery_demand(units: i64) -> Demand {
    Demand {
        pickup_fixed: 0,
        pickup_dynamic: 0,
        delivery_fixed: units,
        delivery_dynamic: 0,
    }
}

fn pickup_demand(units: i64) -> Demand {
    Demand {
        pickup_fixed: units,
        pickup_dynamic: 0,
        delivery_fixed: 0,
        delivery_dynamic: 0,
    }
}

fn job_activity(location: usize, demand: Option<Demand>) -> Activity {
    let mut dimens = Dimensions::new();
    if let Some(d) = demand {
        dimens.set_demand(d);
    }
    Activity {
        place: ActivityPlace {
            location,
            duration: 1,
            time: TimeWindow { start: 0, end: 1000 },
        },
        schedule: ScheduleTimes {
            arrival: 0,
            departure: 0,
        },
        job: Some(Single {
            places: Vec::new(),
            dimens,
        }),
    }
}

fn marker_activity(location: usize) -> Activity {
    let mut dimens = Dimensions::new();
    dimens.set_job_type("reload");
    Activity {
        place: ActivityPlace {
            location,
            duration: 0,
            time: TimeWindow { start: 0, end: 1000 },
        },
        schedule: ScheduleTimes {
            arrival: 0,
            departure: 0,
        },
        job: Some(Single {
            places: Vec::new(),
            dimens,
        }),
    }
}

fn terminal_activity(location: usize) -> Activity {
    Activity {
        place: ActivityPlace {
            location,
            duration: 0,
            time: TimeWindow { start: 0, end: 1000 },
        },
        schedule: ScheduleTimes {
            arrival: 0,
            departure: 0,
        },
        job: None,
    }
}

fn capacity_route(capacity: i64, activities: Vec<Activity>) -> RouteContext {
    let mut dimens = Dimensions::new();
    dimens.set_capacity(capacity);
    let vehicle = Vehicle {
        profile: 0,
        costs: Costs::zero(),
        dimens,
        details: vec![VehicleDetail {
            start: None,
            end: None,
        }],
    };
    let actor = Actor {
        vehicle,
        driver: Driver {
            costs: Costs::zero(),
            dimens: Dimensions::new(),
        },
        detail: VehicleDetail {
            start: None,
            end: None,
        },
        idx: 0,
    };
    RouteContext {
        route: Route {
            actor,
            tour: Tour { activities },
        },
        state: RouteState::empty(),
        stale: true,
    }
}

#[test]
fn can_recalculate_capacity_states() {
    let mut ctx = capacity_route(
        10,
        vec![
            terminal_activity(0),
            job_activity(1, Some(delivery_demand(2))),
            job_activity(2, Some(pickup_demand(3))),
            terminal_activity(0),
        ],
    );
    let module = CapacityConstraintModule::new(2);
    module.recalculate_states(&mut ctx);

    // Deliveries are loaded at the start: current goes 2, 0, 3, 3.
    assert_eq!(ctx.state.current_capacities.clone().unwrap(), vec![2, 0, 3, 3]);
    assert_eq!(ctx.state.max_past_capacities.clone().unwrap(), vec![2, 2, 3, 3]);
    assert_eq!(ctx.state.max_future_capacities.clone().unwrap(), vec![3, 3, 3, 3]);
    let ratio = ctx.state.max_load.unwrap();
    assert_eq!(ratio.num, 3);
    assert_eq!(ratio.den, 10);
    assert!(!ctx.stale);
}

#[test]
fn can_recalculate_capacity_states_twice_identically() {
    let mut ctx = capacity_route(
        5,
        vec![
            terminal_activity(0),
            job_activity(1, Some(delivery_demand(1))),
            job_activity(2, Some(pickup_demand(4))),
            terminal_activity(0),
        ],
    );
    let module = CapacityConstraintModule::new(2);
    module.recalculate_states(&mut ctx);
    let first_current = ctx.state.current_capacities.clone().unwrap();
    let first_past = ctx.state.max_past_capacities.clone().unwrap();
    let first_future = ctx.state.max_future_capacities.clone().unwrap();
    let first_ratio = ctx.state.max_load.unwrap();

    module.recalculate_states(&mut ctx);

    assert_eq!(ctx.state.current_capacities.clone().unwrap(), first_current);
    assert_eq!(ctx.state.max_past_capacities.clone().unwrap(), first_past);
    assert_eq!(ctx.state.max_future_capacities.clone().unwrap(), first_future);
    assert_eq!(ctx.state.max_load.unwrap(), first_ratio);
}

#[test]
fn can_recalculate_over_reload_intervals() {
    let mut ctx = capacity_route(
        10,
        vec![
            terminal_activity(0),
            job_activity(1, Some(delivery_demand(4))),
            marker_activity(3),
            job_activity(2, Some(delivery_demand(5))),
            terminal_activity(0),
        ],
    );
    ctx.state.reload_intervals = Some(vec![(0, 1), (2, 4)]);
    let module =
        CapacityConstraintModule::new_with_multi_trip(2, MultiTrip::Reload(ReloadMultiTrip { code: 2 }));
    module.recalculate_states(&mut ctx);

    // First interval carries the first delivery; the load resets at the
    // marker and the second interval carries the second delivery.
    assert_eq!(ctx.state.current_capacities.clone().unwrap(), vec![4, 0, 5, 0, 0]);
    let ratio = ctx.state.max_load.unwrap();
    assert_eq!(ratio.num, 5);
}

#[test]
fn can_merge_singles_with_summed_demand() {
    let module = CapacityConstraintModule::new(2);
    let a = Job::Single(Single {
        places: Vec::new(),
        dimens: {
            let mut d = Dimensions::new();
            d.set_demand(delivery_demand(3));
            d
        },
    });
    let b = Job::Single(Single {
        places: Vec::new(),
        dimens: {
            let mut d = Dimensions::new();
            d.set_demand(delivery_demand(4));
            d
        },
    });

    match module.merge(a, b) {
        Ok(Job::Single(s)) => {
            let merged = s.dimens.demand.unwrap();
            assert_eq!(merged.delivery_fixed, 7);
        }
        _ => unreachable!(),
    }
}

#[test]
fn can_reject_merge_on_demand_overflow() {
    let module = CapacityConstraintModule::new(2);
    let a = Job::Single(Single {
        places: Vec::new(),
        dimens: {
            let mut d = Dimensions::new();
            d.set_demand(delivery_demand(i64::MAX));
            d
        },
    });
    let b = Job::Single(Single {
        places: Vec::new(),
        dimens: {
            let mut d = Dimensions::new();
            d.set_demand(delivery_demand(1));
            d
        },
    });

    assert!(matches!(module.merge(a, b), Err(2)));
}

#[test]
fn can_reject_merge_of_marker_jobs() {
    let module =
        CapacityConstraintModule::new_with_multi_trip(2, MultiTrip::Reload(ReloadMultiTrip { code: 2 }));
    let marker = Job::Single(Single {
        places: Vec::new(),
        dimens: {
            let mut d = Dimensions::new();
            d.set_job_type("reload");
            d
        },
    });
    let plain = Job::Single(Single {
        places: Vec::new(),
        dimens: Dimensions::new(),
    });
    assert!(matches!(module.merge(marker, plain), Err(2)));

    let multi = Job::Multi(vrp_core::problem::Multi {
        jobs: Vec::new(),
        dimens: Dimensions::new(),
    });
    let plain = Job::Single(Single {
        places: Vec::new(),
        dimens: Dimensions::new(),
    });
    assert!(matches!(module.merge(plain, multi), Err(2)));
}

#[test]
fn can_insert_marker_only_as_last_activity() {
    let module =
        CapacityConstraintModule::new_with_multi_trip(2, MultiTrip::Reload(ReloadMultiTrip { code: 2 }));
    let ctx = capacity_route(
        10,
        vec![
            terminal_activity(0),
            job_activity(1, Some(delivery_demand(1))),
            terminal_activity(0),
        ],
    );
    let marker = marker_activity(3);

    // After a job and before the tour end: accepted.
    let tail = ActivityContext {
        index: 2,
        prev: job_activity(1, Some(delivery_demand(1))),
        target: marker.clone(),
        next: None,
    };
    assert!(module.evaluate_activity(&ctx, &tail).is_none());

    // Directly after the start: rejected.
    let first = ActivityContext {
        index: 1,
        prev: terminal_activity(0),
        target: marker.clone(),
        next: None,
    };
    let verdict = module.evaluate_activity(&ctx, &first).unwrap();
    assert_eq!(verdict.code, 2);
    assert!(!verdict.stopped);

    // Before another job: rejected.
    let middle = ActivityContext {
        index: 1,
        prev: job_activity(1, Some(delivery_demand(1))),
        target: marker,
        next: Some(job_activity(1, Some(delivery_demand(1)))),
    };
    assert!(module.evaluate_activity(&ctx, &middle).is_some());
}

#[test]
fn can_prune_positions_after_stopped_violation() {
    let mut ctx = capacity_route(
        2,
        vec![
            terminal_activity(0),
            job_activity(1, Some(delivery_demand(2))),
            job_activity(2, Some(delivery_demand(0))),
            job_activity(3, Some(delivery_demand(0))),
            terminal_activity(0),
        ],
    );
    let module = CapacityConstraintModule::new(2);
    module.recalculate_states(&mut ctx);

    let mut pipeline = ConstraintPipeline::new();
    pipeline.add_module(ConstraintModuleVariant::Capacity(module));

    // The route is already saturated, so the very first candidate position
    // rejects with the stopped flag and no later position is evaluated:
    // one evaluation instead of one per position.
    let target = job_activity(4, Some(delivery_demand(1)));
    let (feasible, evaluations) = pipeline.evaluate_job_positions(&ctx, &target);

    assert!(feasible.is_none());
    assert_eq!(evaluations, 1);

    // A fitting demand is evaluated at the first position and accepted.
    let target = job_activity(4, Some(delivery_demand(0)));
    let (feasible, evaluations) = pipeline.evaluate_job_positions(&ctx, &target);
    assert_eq!(feasible, Some(1));
    assert_eq!(evaluations, 1);
}

#[test]
fn can_memoize_evaluations_without_changing_results() {
    let mut ctx = capacity_route(
        3,
        vec![
            terminal_activity(0),
            job_activity(1, Some(delivery_demand(1))),
            terminal_activity(0),
        ],
    );
    let module = CapacityConstraintModule::new(2);
    module.recalculate_states(&mut ctx);
    let mut pipeline = ConstraintPipeline::new();
    pipeline.add_module(ConstraintModuleVariant::Capacity(module));

    let job = Job::Single(Single {
        places: Vec::new(),
        dimens: {
            let mut d = Dimensions::new();
            d.set_demand(delivery_demand(2));
            d
        },
    });

    let fresh = pipeline.evaluate_hard_route(&ctx, &job);

    let mut solution_cache = SolutionCache::default();
    let mut cache = InsertionCache::new(&pipeline, &solution_cache);
    let first = cache.evaluate_hard_route(&ctx, &job, 1, 7);
    let second = cache.evaluate_hard_route(&ctx, &job, 1, 7);
    assert_eq!(first, fresh);
    assert_eq!(second, fresh);

    let scratch = cache.job;
    InsertionCache::synchronize(&mut solution_cache, scratch);
    assert!(solution_cache.contains_hard_route(1, 7));

    let mut cache = InsertionCache::new(&pipeline, &solution_cache);
    let cached = cache.evaluate_hard_route(&ctx, &job, 1, 7);
    assert_eq!(cached, fresh);
}

#[test]
fn can_purge_actor_slice_from_cache() {
    let mut ctx = capacity_route(3, vec![terminal_activity(0), terminal_activity(0)]);
    let module = CapacityConstraintModule::new(2);
    module.recalculate_states(&mut ctx);
    let mut pipeline = ConstraintPipeline::new();
    pipeline.add_module(ConstraintModuleVariant::Capacity(module));
    let job = Job::Single(Single {
        places: Vec::new(),
        dimens: Dimensions::new(),
    });

    let mut solution_cache = SolutionCache::default();
    let mut cache = InsertionCache::new(&pipeline, &solution_cache);
    let _ = cache.evaluate_hard_route(&ctx, &job, 1, 7);
    let scratch = cache.job;
    InsertionCache::synchronize(&mut solution_cache, scratch);
    let mut cache = InsertionCache::new(&pipeline, &solution_cache);
    let _ = cache.evaluate_hard_route(&ctx, &job, 2, 7);
    let scratch = cache.job;
    InsertionCache::synchronize(&mut solution_cache, scratch);

    assert!(solution_cache.contains_hard_route(1, 7));
    assert!(solution_cache.contains_hard_route(2, 7));

    solution_cache.remove(1);

    assert!(!solution_cache.contains_hard_route(1, 7));
    assert!(solution_cache.contains_hard_route(2, 7));

    let projected = solution_cache.clone_only_with(&vec![9]);
    assert!(!projected.contains_hard_route(2, 7));
}

#[test]
fn can_move_markers_from_required_to_locked() {
    let module =
        CapacityConstraintModule::new_with_multi_trip(2, MultiTrip::Reload(ReloadMultiTrip { code: 2 }));
    let mut solution = vrp_core::contexts::SolutionContext::empty();
    solution.required.push(Job::Single(Single {
        places: Vec::new(),
        dimens: {
            let mut d = Dimensions::new();
            d.set_job_type("reload");
            d
        },
    }));
    solution.required.push(Job::Single(Single {
        places: Vec::new(),
        dimens: Dimensions::new(),
    }));

    module.accept_solution_state(&mut solution);

    assert_eq!(solution.required.len(), 1);
    assert_eq!(solution.locked.len(), 1);
    assert!(solution.required[0]
        .dimens()
        .get_job_type()
        .is_none());
}

#[test]
fn capacity_module_writes_exactly_its_declared_keys() {
    let module = CapacityConstraintModule::new(2);
    let declared = module.state_keys().clone();
    assert_eq!(
        declared,
        vec![
            vrp_core::state::CURRENT_CAPACITY_KEY,
            vrp_core::state::MAX_FUTURE_CAPACITY_KEY,
            vrp_core::state::MAX_PAST_CAPACITY_KEY,
            vrp_core::state::MAX_LOAD_KEY,
        ]
    );

    let mut ctx = capacity_route(
        10,
        vec![
            terminal_activity(0),
            job_activity(1, Some(delivery_demand(2))),
            terminal_activity(0),
        ],
    );
    ctx.state.total_distance = Some(77);
    ctx.state.recharge_distances = Some(vec![1, 2, 3]);
    module.recalculate_states(&mut ctx);

    // All four declared slots are written, everything else is untouched.
    assert!(ctx.state.current_capacities.is_some());
    assert!(ctx.state.max_past_capacities.is_some());
    assert!(ctx.state.max_future_capacities.is_some());
    assert!(ctx.state.max_load.is_some());
    assert_eq!(ctx.state.total_distance, Some(77));
    assert_eq!(ctx.state.recharge_distances, Some(vec![1, 2, 3]));
}

#[test]
fn can_handle_demand_on_any_reload_interval() {
    let mut ctx = capacity_route(
        3,
        vec![
            terminal_activity(0),
            job_activity(1, Some(delivery_demand(3))),
            marker_activity(3),
            job_activity(2, Some(delivery_demand(1))),
            terminal_activity(0),
        ],
    );
    ctx.state.reload_intervals = Some(vec![(0, 1), (2, 4)]);
    let multi_trip = MultiTrip::Reload(ReloadMultiTrip { code: 2 });
    let module = CapacityConstraintModule::new_with_multi_trip(2, multi_trip.clone());
    module.recalculate_states(&mut ctx);

    // The first interval is saturated, the second still has room: a free
    // insertion point exists, while a fixed position in the full interval
    // does not.
    let demand = delivery_demand(2);
    assert!(CapacityConstraintModule::can_handle_demand_on_intervals(
        &ctx,
        &multi_trip,
        Some(&demand),
        None,
    ));
    let too_big = delivery_demand(4);
    assert!(!CapacityConstraintModule::can_handle_demand_on_intervals(
        &ctx,
        &multi_trip,
        Some(&too_big),
        None,
    ));
}

#[test]
fn can_reject_multi_job_when_any_piece_is_oversized() {
    let mut ctx = capacity_route(
        3,
        vec![
            terminal_activity(0),
            job_activity(1, Some(delivery_demand(1))),
            terminal_activity(0),
        ],
    );
    let module = CapacityConstraintModule::new(2);
    module.recalculate_states(&mut ctx);

    let piece = |units: i64| Single {
        places: Vec::new(),
        dimens: {
            let mut d = Dimensions::new();
            d.set_demand(delivery_demand(units));
            d
        },
    };

    // Every piece must be admitted by some interval independently: one
    // oversized piece rejects the whole multi job even though the other
    // piece fits.
    let mixed = Job::Multi(vrp_core::problem::Multi {
        jobs: vec![piece(1), piece(9)],
        dimens: Dimensions::new(),
    });
    let verdict = module.evaluate_job(&ctx, &mixed).unwrap();
    assert_eq!(verdict.code, 2);

    let fitting = Job::Multi(vrp_core::problem::Multi {
        jobs: vec![piece(1), piece(2)],
        dimens: Dimensions::new(),
    });
    assert!(module.evaluate_job(&ctx, &fitting).is_none());
}

#[test]
fn generic_value_fitness_falls_back_to_computed_balance() {
    let (constraint, objective) =
        vrp_core::objectives::WorkBalance::new_activity_balanced(None);

    let mut solution = vrp_core::contexts::SolutionContext::empty();
    solution.routes.push(capacity_route(
        10,
        vec![
            terminal_activity(0),
            job_activity(1, Some(delivery_demand(0))),
            terminal_activity(0),
        ],
    ));
    solution.routes.push(capacity_route(
        10,
        vec![
            terminal_activity(0),
            job_activity(1, Some(delivery_demand(0))),
            job_activity(2, Some(delivery_demand(0))),
            job_activity(3, Some(delivery_demand(0))),
            terminal_activity(0),
        ],
    ));

    // Route values 1 and 3: squared coefficient of variation in parts per
    // million is (2*10 - 16) * 1000000 / 16 = 250000.
    let computed = objective.fitness(&solution);
    assert_eq!(computed, 250000);

    // Storing the value first yields the same fitness.
    constraint.accept_solution_state(&mut solution);
    assert_eq!(objective.fitness(&solution), 250000);
}
