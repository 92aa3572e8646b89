//! Dispatch scenarios: vehicles check in at capacity-limited dispatch
//! windows before serving their deliveries.

use vrp_core::dispatch::{
    solve_dispatch, DispatchJob, DispatchLimit, DispatchPlace, DispatchProblem,
};
use vrp_core::problem::{Costs, TransportMatrix, TransportPayload};

fn abs_matrix(size: usize) -> TransportPayload {
    let mut durations = Vec::new();
    let mut distances = Vec::new();
    for from in 0..size {
        for to in 0..size {
            let d = if from > to { from - to } else { to - from } as i64;
            durations.push(d);
            distances.push(d);
        }
    }
    TransportPayload::Matrix(TransportMatrix {
        size,
        durations,
        distances,
    })
}

fn delivery(id: &str, location: usize) -> DispatchJob {
    DispatchJob {
        id: id.to_string(),
        location,
        duration: 1,
    }
}

fn dispatch_costs() -> Costs {
    Costs {
        fixed: 10,
        per_distance: 1,
        per_driving_time: 1,
        per_waiting_time: 1,
        per_service_time: 1,
    }
}

fn problem_with_dispatch(dispatches: Vec<DispatchPlace>) -> DispatchProblem {
    DispatchProblem {
        jobs: vec![delivery("job1", 3), delivery("job2", 5)],
        vehicle_ids: vec!["my_vehicle_1".to_string()],
        capacity: 10,
        costs: dispatch_costs(),
        depot: 0,
        shift_start: 0,
        dispatches,
    }
}

#[test]
fn can_assign_dispatch_at_start() {
    let problem = problem_with_dispatch(vec![DispatchPlace {
        location: 0,
        limits: vec![DispatchLimit {
            max: 1,
            start: 0,
            end: 2,
        }],
    }]);
    let (solution, _) = solve_dispatch(&problem, &abs_matrix(1100));

    assert!(solution.unassigned.is_empty());
    assert_eq!(solution.tours.len(), 1);

    let first_stop = &solution.tours[0].stops[0];
    assert_eq!(first_stop.arrival, 0);
    assert_eq!(first_stop.departure, 2);
    assert_eq!(first_stop.activities.len(), 2);
    assert_eq!(first_stop.activities[0].activity_type, "departure");
    assert_eq!(first_stop.activities[1].activity_type, "dispatch");
}

#[test]
fn can_handle_unassignable_dispatch() {
    let problem = problem_with_dispatch(vec![DispatchPlace {
        location: 1001,
        limits: vec![DispatchLimit {
            max: 1,
            start: 10,
            end: 12,
        }],
    }]);
    let (solution, _) = solve_dispatch(&problem, &abs_matrix(1100));

    assert!(solution.tours.is_empty());
    assert_eq!(solution.unassigned.len(), 2);
}

#[test]
fn can_assign_single_dispatch() {
    let problem = problem_with_dispatch(vec![DispatchPlace {
        location: 7,
        limits: vec![DispatchLimit {
            max: 1,
            start: 10,
            end: 12,
        }],
    }]);
    let (solution, _) = solve_dispatch(&problem, &abs_matrix(1100));

    assert!(solution.unassigned.is_empty());
    assert_eq!(solution.tours.len(), 1);
    let stops = &solution.tours[0].stops;
    assert_eq!(stops.len(), 5);

    assert_eq!((stops[0].location, stops[0].arrival, stops[0].departure), (0, 0, 3));
    assert_eq!(stops[0].load, 0);

    assert_eq!((stops[1].location, stops[1].arrival, stops[1].departure), (7, 10, 12));
    assert_eq!(stops[1].load, 2);
    assert_eq!(stops[1].distance, 7);
    assert_eq!(stops[1].activities[0].activity_type, "dispatch");

    assert_eq!((stops[2].location, stops[2].arrival, stops[2].departure), (5, 14, 15));
    assert_eq!(stops[2].load, 1);
    assert_eq!(stops[2].distance, 9);
    assert_eq!(stops[2].activities[0].job_id.as_deref(), Some("job2"));

    assert_eq!((stops[3].location, stops[3].arrival, stops[3].departure), (3, 17, 18));
    assert_eq!(stops[3].load, 0);
    assert_eq!(stops[3].distance, 11);
    assert_eq!(stops[3].activities[0].job_id.as_deref(), Some("job1"));

    assert_eq!((stops[4].location, stops[4].arrival), (0, 21));
    assert_eq!(stops[4].distance, 14);
}

fn two_dispatch_cost(first: (usize, i64), second: (usize, i64)) -> (usize, i64) {
    let problem = problem_with_dispatch(vec![
        DispatchPlace {
            location: first.0,
            limits: vec![DispatchLimit {
                max: 1,
                start: first.1,
                end: first.1,
            }],
        },
        DispatchPlace {
            location: second.0,
            limits: vec![DispatchLimit {
                max: 1,
                start: second.1,
                end: second.1,
            }],
        },
    ]);
    let (solution, _) = solve_dispatch(&problem, &abs_matrix(1100));
    assert!(!solution.tours.is_empty());
    let second_stop = &solution.tours[0].stops[1];
    assert_eq!(second_stop.activities[0].activity_type, "dispatch");
    (second_stop.location, solution.total_cost)
}

#[test]
fn can_handle_two_dispatch_earliest_first() {
    assert_eq!(two_dispatch_cost((7, 7), (8, 8)), (7, 40));
}

#[test]
fn can_handle_two_dispatch_earliest_second() {
    assert_eq!(two_dispatch_cost((8, 8), (7, 7)), (7, 40));
}

#[test]
fn can_handle_two_dispatch_first_unreachable() {
    assert_eq!(two_dispatch_cost((1001, 10), (8, 8)), (8, 44));
}

#[test]
fn can_dispatch_multiple_vehicles_at_single_dispatch() {
    let problem = DispatchProblem {
        jobs: vec![
            delivery("job1", 2),
            delivery("job2", 2),
            delivery("job3", 2),
            delivery("job4", 2),
            delivery("job5", 2),
        ],
        vehicle_ids: vec![
            "v1".to_string(),
            "v2".to_string(),
            "v3".to_string(),
            "v4".to_string(),
            "v5".to_string(),
        ],
        capacity: 1,
        costs: dispatch_costs(),
        depot: 0,
        shift_start: 0,
        dispatches: vec![DispatchPlace {
            location: 1,
            limits: vec![
                DispatchLimit {
                    max: 2,
                    start: 10,
                    end: 12,
                },
                DispatchLimit {
                    max: 3,
                    start: 13,
                    end: 16,
                },
            ],
        }],
    };
    let (solution, _) = solve_dispatch(&problem, &abs_matrix(1100));

    assert!(solution.unassigned.is_empty());
    assert_eq!(solution.tours.len(), 5);

    for tour in &solution.tours[0..2] {
        assert_eq!(tour.stops.len(), 4);
        assert_eq!(tour.stops[0].departure, 9);
        assert_eq!(tour.stops[0].activities.len(), 1);
        assert_eq!(tour.stops[0].activities[0].activity_type, "departure");
        assert_eq!(tour.stops[1].activities.len(), 1);
        assert_eq!(tour.stops[1].activities[0].activity_type, "dispatch");
        assert_eq!(tour.stops[1].arrival, 10);
        assert_eq!(tour.stops[1].departure, 12);
    }
    for tour in &solution.tours[2..5] {
        assert_eq!(tour.stops.len(), 4);
        assert_eq!(tour.stops[0].departure, 12);
        assert_eq!(tour.stops[1].arrival, 13);
        assert_eq!(tour.stops[1].departure, 16);
    }
}
