//! Small example problems used by documentation and tests.

use vstd::prelude::*;

use crate::capacity::CapacityConstraintModule;
use crate::common::TimeWindow;
use crate::pipeline::{ConstraintModuleVariant, ConstraintPipeline};
use crate::problem::{
    Costs, Dimensions, Driver, Fleet, Job, Place, Problem, Single, TransportPayload, Vehicle,
    VehicleDetail, VehicleIdDimension, VehiclePlace,
};

verus! {

/// One example job: a single visit at the second location with a wide
/// time window and no demand.
pub fn create_example_jobs() -> (r: Vec<Job>)
    ensures
        r@.len() == 1,
        r@[0] matches Job::Single(s) && s.places@.len() == 1 && s.places@[0].location == Some(
            1usize,
        ) && s.places@[0].duration == 0 && s.places@[0].times@ == seq![
            TimeWindow { start: 0, end: 100 },
        ],
{
    let mut times: Vec<TimeWindow> = Vec::new();
    times.push(TimeWindow { start: 0, end: 100 });
    proof {
        assert(times@ =~= seq![TimeWindow { start: 0, end: 100 }]);
    }
    let mut places: Vec<Place> = Vec::new();
    places.push(Place { location: Some(1), duration: 0, times });
    let single = Single { places, dimens: Dimensions::new() };
    let mut jobs: Vec<Job> = Vec::new();
    jobs.push(Job::Single(single));
    jobs
}

/// An example fleet: one cost-free driver and one vehicle charged per
/// distance, starting at the first location.
pub fn create_example_fleet() -> (r: Fleet)
    ensures
        r.drivers@.len() == 1,
        r.vehicles@.len() == 1,
        r.actors@.len() == 1,
        r.vehicles@[0].costs.per_distance == 1,
        r.vehicles@[0].costs.fixed == 0,
        match r.vehicles@[0].dimens.vehicle_id {
            Some(id) => id@ == "v1"@,
            None => false,
        },
        match r.actors@[0].vehicle.dimens.vehicle_id {
            Some(id) => id@ == "v1"@,
            None => false,
        },
        r.vehicles@[0].details@.len() == 1,
        r.vehicles@[0].details@[0].start == Some(
            VehiclePlace { location: 0, time: TimeWindow { start: 0, end: 0 } },
        ),
        r.vehicles@[0].details@[0].end is None,
        r.actors@[0].detail == r.vehicles@[0].details@[0],
{
    let driver = Driver { costs: Costs::zero(), dimens: Dimensions::new() };
    let mut vehicle_dimens = Dimensions::new();
    vehicle_dimens.set_vehicle_id("v1");
    let mut details: Vec<VehicleDetail> = Vec::new();
    details.push(
        VehicleDetail {
            start: Some(VehiclePlace { location: 0, time: TimeWindow { start: 0, end: 0 } }),
            end: None,
        },
    );
    let vehicle = Vehicle {
        profile: 0,
        costs: Costs {
            fixed: 0,
            per_distance: 1,
            per_driving_time: 0,
            per_waiting_time: 0,
            per_service_time: 0,
        },
        dimens: vehicle_dimens,
        details,
    };
    let mut drivers: Vec<Driver> = Vec::new();
    drivers.push(driver);
    let mut vehicles: Vec<Vehicle> = Vec::new();
    vehicles.push(vehicle);
    Fleet::new(drivers, vehicles)
}

/// An example problem: the example fleet and jobs, a uniform transport
/// oracle, and a pipeline holding the capacity module. The capacity
/// module stands in for a transport constraint module here: the schedule
/// bookkeeping such a module performs lives with the transport cost
/// aggregation instead.
pub fn create_example_problem() -> (r: Problem)
    ensures
        r.jobs@.len() == 1,
        r.fleet.vehicles@.len() == 1,
        r.transport == TransportPayload::Uniform(42),
        r.constraint.modules@.len() == 1,
        r.constraint.modules@[0] matches ConstraintModuleVariant::Capacity(c) && c.code == 2
            && c.multi_trip is Disabled,
        r.locks@.len() == 0,
{
    let fleet = create_example_fleet();
    let jobs = create_example_jobs();
    let mut constraint = ConstraintPipeline::new();
    constraint.add_module(
        ConstraintModuleVariant::Capacity(CapacityConstraintModule::new(2)),
    );
    Problem {
        fleet,
        jobs,
        locks: Vec::new(),
        constraint,
        transport: TransportPayload::Uniform(42),
    }
}

} // verus!
