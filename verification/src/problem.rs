//! Problem domain model: jobs, fleet, actors and the transport oracle.

use vstd::prelude::*;

use crate::common::{Cost, Demand, Distance, Duration, Load, Location, TimeWindow, Timestamp};

verus! {

/// Upper bound on one leg's distance or duration returned by a well-formed
/// transport oracle, so that sums over a tour stay inside `i64`.
pub const MAX_LEG: i64 = 1099511627776;

/// A typed key-value bag attached to jobs and vehicles. Every dimension the
/// engine reads is a plain field, so contracts can speak of it directly.
#[derive(Clone, Debug)]
pub struct Dimensions {
    /// Job identifier.
    pub job_id: Option<String>,
    /// Vehicle identifier.
    pub vehicle_id: Option<String>,
    /// Job type marker (`break`, `reload`, `dispatch`, `recharge`, ...).
    pub job_type: Option<String>,
    /// Vehicle shift index.
    pub shift_index: Option<usize>,
    /// Demand served by a job visit.
    pub demand: Option<Demand>,
    /// Vehicle capacity.
    pub capacity: Option<Load>,
    /// Distance a vehicle may travel before it must recharge.
    pub recharge_distance_limit: Option<Distance>,
    /// Identity of the multi job this visit belongs to, if any.
    pub multi_owner: Option<u64>,
}

impl Dimensions {
    /// An empty bag.
    pub fn new() -> (r: Dimensions)
        ensures
            r.job_id is None,
            r.vehicle_id is None,
            r.job_type is None,
            r.shift_index is None,
            r.demand is None,
            r.capacity is None,
            r.recharge_distance_limit is None,
            r.multi_owner is None,
    {
        Dimensions {
            job_id: None,
            vehicle_id: None,
            job_type: None,
            shift_index: None,
            demand: None,
            capacity: None,
            recharge_distance_limit: None,
            multi_owner: None,
        }
    }

    /// Sets the demand dimension.
    pub fn set_demand(&mut self, demand: Demand)
        ensures
            *final(self) == (Dimensions { demand: Some(demand), ..*old(self) }),
    {
        self.demand = Some(demand);
    }

    /// Gets the demand dimension.
    pub fn get_demand(&self) -> (r: Option<&Demand>)
        ensures
            match r {
                Some(d) => self.demand == Some(*d),
                None => self.demand is None,
            },
    {
        self.demand.as_ref()
    }

    /// Sets the capacity dimension.
    pub fn set_capacity(&mut self, capacity: Load)
        ensures
            *final(self) == (Dimensions { capacity: Some(capacity), ..*old(self) }),
    {
        self.capacity = Some(capacity);
    }

    /// Gets the capacity dimension.
    pub fn get_capacity(&self) -> (r: Option<&Load>)
        ensures
            match r {
                Some(c) => self.capacity == Some(*c),
                None => self.capacity is None,
            },
    {
        self.capacity.as_ref()
    }

    /// Sets the shift index dimension.
    pub fn set_shift_index(&mut self, index: usize)
        ensures
            *final(self) == (Dimensions { shift_index: Some(index), ..*old(self) }),
    {
        self.shift_index = Some(index);
    }
}

/// A trait to get or set a job id.
pub trait JobIdDimension: Sized {
    /// The job id held, as a sequence of characters.
    spec fn spec_job_id(&self) -> Option<Seq<char>>;

    /// The bag with the job id erased: everything a job-id write must
    /// leave alone.
    spec fn spec_without_job_id(&self) -> Self;

    /// Sets the value as the job id; every other dimension is unchanged.
    fn set_job_id(&mut self, id: &str)
        ensures
            final(self).spec_job_id() == Some(id@),
            final(self).spec_without_job_id() == old(self).spec_without_job_id(),
    ;

    /// Gets the job id value if present.
    fn get_job_id(&self) -> (r: Option<&String>)
        ensures
            match r {
                Some(s) => self.spec_job_id() == Some(s@),
                None => self.spec_job_id() is None,
            },
    ;
}

impl JobIdDimension for Dimensions {
    open spec fn spec_job_id(&self) -> Option<Seq<char>> {
        match self.job_id {
            Some(s) => Some(s@),
            None => None,
        }
    }

    open spec fn spec_without_job_id(&self) -> Dimensions {
        Dimensions { job_id: None, ..*self }
    }

    fn set_job_id(&mut self, id: &str) {
        self.job_id = Some(id.to_string());
    }

    fn get_job_id(&self) -> (r: Option<&String>) {
        self.job_id.as_ref()
    }
}

/// A trait to get or set a vehicle id.
pub trait VehicleIdDimension: Sized {
    /// The vehicle id held, as a sequence of characters.
    spec fn spec_vehicle_id(&self) -> Option<Seq<char>>;

    /// The bag with the vehicle id erased: everything a vehicle-id write
    /// must leave alone.
    spec fn spec_without_vehicle_id(&self) -> Self;

    /// Sets the value as the vehicle id; every other dimension is
    /// unchanged.
    fn set_vehicle_id(&mut self, id: &str)
        ensures
            final(self).spec_vehicle_id() == Some(id@),
            final(self).spec_without_vehicle_id() == old(self).spec_without_vehicle_id(),
    ;

    /// Gets the vehicle id value if present.
    fn get_vehicle_id(&self) -> (r: Option<&String>)
        ensures
            match r {
                Some(s) => self.spec_vehicle_id() == Some(s@),
                None => self.spec_vehicle_id() is None,
            },
    ;
}

impl VehicleIdDimension for Dimensions {
    open spec fn spec_vehicle_id(&self) -> Option<Seq<char>> {
        match self.vehicle_id {
            Some(s) => Some(s@),
            None => None,
        }
    }

    open spec fn spec_without_vehicle_id(&self) -> Dimensions {
        Dimensions { vehicle_id: None, ..*self }
    }

    fn set_vehicle_id(&mut self, id: &str) {
        self.vehicle_id = Some(id.to_string());
    }

    fn get_vehicle_id(&self) -> (r: Option<&String>) {
        self.vehicle_id.as_ref()
    }
}

/// A place a job visit may be served at.
#[derive(Clone, Debug)]
pub struct Place {
    /// Location index, when fixed.
    pub location: Option<Location>,
    /// Service duration.
    pub duration: Duration,
    /// Admissible time windows.
    pub times: Vec<TimeWindow>,
}

/// A single job visit.
#[derive(Clone, Debug)]
pub struct Single {
    /// Places the visit may be served at.
    pub places: Vec<Place>,
    /// Dimensions of the visit.
    pub dimens: Dimensions,
}

/// An ordered bag of single visits that must be served together.
#[derive(Clone, Debug)]
pub struct Multi {
    /// The visits, in service order.
    pub jobs: Vec<Single>,
    /// Dimensions of the whole job.
    pub dimens: Dimensions,
}

/// A job: one visit or an ordered bag of visits.
#[derive(Clone, Debug)]
pub enum Job {
    /// One visit.
    Single(Single),
    /// An ordered bag of visits served together.
    Multi(Multi),
}

impl Job {
    /// The single visit, when this job is one.
    pub fn as_single(&self) -> (r: Option<&Single>)
        ensures
            match r {
                Some(s) => *self matches Job::Single(s0) && s0 == *s,
                None => *self is Multi,
            },
    {
        match self {
            Job::Single(s) => Some(s),
            Job::Multi(_) => None,
        }
    }

    /// The bag of visits, when this job is a multi job.
    pub fn as_multi(&self) -> (r: Option<&Multi>)
        ensures
            match r {
                Some(m) => *self matches Job::Multi(m0) && m0 == *m,
                None => *self is Single,
            },
    {
        match self {
            Job::Single(_) => None,
            Job::Multi(m) => Some(m),
        }
    }

    /// The dimensions of the job.
    pub fn dimens(&self) -> (r: &Dimensions)
        ensures
            *r == self.spec_dimens(),
    {
        match self {
            Job::Single(s) => &s.dimens,
            Job::Multi(m) => &m.dimens,
        }
    }

    /// The dimensions of the job.
    pub open spec fn spec_dimens(&self) -> Dimensions {
        match self {
            Job::Single(s) => s.dimens,
            Job::Multi(m) => m.dimens,
        }
    }
}

/// Operating costs of a vehicle or a driver.
#[derive(Clone, Copy, PartialEq, Eq, Structural, Debug)]
pub struct Costs {
    /// Fixed cost per tour.
    pub fixed: Cost,
    /// Cost per distance unit.
    pub per_distance: Cost,
    /// Cost per driving time unit.
    pub per_driving_time: Cost,
    /// Cost per waiting time unit.
    pub per_waiting_time: Cost,
    /// Cost per service time unit.
    pub per_service_time: Cost,
}

impl Costs {
    /// All-zero costs.
    pub fn zero() -> (r: Costs)
        ensures
            r == (Costs {
                fixed: 0,
                per_distance: 0,
                per_driving_time: 0,
                per_waiting_time: 0,
                per_service_time: 0,
            }),
    {
        Costs { fixed: 0, per_distance: 0, per_driving_time: 0, per_waiting_time: 0, per_service_time: 0 }
    }
}

/// A place a vehicle starts or ends its shift at.
#[derive(Clone, Copy, PartialEq, Eq, Structural, Debug)]
pub struct VehiclePlace {
    /// Location index.
    pub location: Location,
    /// Time bounds of the place.
    pub time: TimeWindow,
}

/// Start and end places of one vehicle shift.
#[derive(Clone, Copy, PartialEq, Eq, Structural, Debug)]
pub struct VehicleDetail {
    /// Start place, if any.
    pub start: Option<VehiclePlace>,
    /// End place, if any.
    pub end: Option<VehiclePlace>,
}

/// A vehicle of the fleet.
#[derive(Clone, Debug)]
pub struct Vehicle {
    /// Routing profile index.
    pub profile: usize,
    /// Operating costs.
    pub costs: Costs,
    /// Dimensions of the vehicle.
    pub dimens: Dimensions,
    /// Shift details.
    pub details: Vec<VehicleDetail>,
}

/// A driver of the fleet.
#[derive(Clone, Debug)]
pub struct Driver {
    /// Operating costs.
    pub costs: Costs,
    /// Dimensions of the driver.
    pub dimens: Dimensions,
}

/// A driver-vehicle-shift binding with a stable identity.
#[derive(Clone, Debug)]
pub struct Actor {
    /// The vehicle.
    pub vehicle: Vehicle,
    /// The driver.
    pub driver: Driver,
    /// The shift detail served by this actor.
    pub detail: VehicleDetail,
    /// Stable identity of the actor, unique within the fleet.
    pub idx: u64,
}

/// The fleet: drivers, vehicles, and the actors derived from them.
#[derive(Clone, Debug)]
pub struct Fleet {
    /// Drivers.
    pub drivers: Vec<Driver>,
    /// Vehicles.
    pub vehicles: Vec<Vehicle>,
    /// Actors: one per vehicle detail, bound to the first driver.
    pub actors: Vec<Actor>,
}

impl Fleet {
    /// Builds the fleet: one actor per vehicle, bound to the first driver,
    /// serving the vehicle's first shift detail.
    pub fn new(drivers: Vec<Driver>, vehicles: Vec<Vehicle>) -> (r: Fleet)
        requires
            drivers@.len() >= 1,
        ensures
            r.drivers == drivers,
            r.vehicles == vehicles,
            r.actors@.len() == vehicles@.len(),
            forall|i: int|
                0 <= i < vehicles@.len() ==> {
                    let a = #[trigger] r.actors@[i];
                    &&& a.idx == i
                    &&& a.vehicle.profile == vehicles@[i].profile
                    &&& a.vehicle.costs == vehicles@[i].costs
                    &&& crate::pipeline::dimens_like(a.vehicle.dimens, vehicles@[i].dimens)
                    &&& a.vehicle.details@ == vehicles@[i].details@
                    &&& a.driver.costs == drivers@[0].costs
                    &&& crate::pipeline::dimens_like(a.driver.dimens, drivers@[0].dimens)
                    &&& a.detail == if vehicles@[i].details@.len() > 0 {
                        vehicles@[i].details@[0]
                    } else {
                        VehicleDetail { start: None, end: None }
                    }
                },
    {
        let mut actors: Vec<Actor> = Vec::new();
        let mut i: usize = 0;
        while i < vehicles.len()
            invariant
                drivers@.len() >= 1,
                0 <= i <= vehicles@.len(),
                actors@.len() == i,
                forall|j: int|
                    0 <= j < i ==> {
                        let a = #[trigger] actors@[j];
                        &&& a.idx == j
                        &&& a.vehicle.profile == vehicles@[j].profile
                        &&& a.vehicle.costs == vehicles@[j].costs
                        &&& crate::pipeline::dimens_like(a.vehicle.dimens, vehicles@[j].dimens)
                        &&& a.vehicle.details@ == vehicles@[j].details@
                        &&& a.driver.costs == drivers@[0].costs
                        &&& crate::pipeline::dimens_like(a.driver.dimens, drivers@[0].dimens)
                        &&& a.detail == if vehicles@[j].details@.len() > 0 {
                            vehicles@[j].details@[0]
                        } else {
                            VehicleDetail { start: None, end: None }
                        }
                    },
            decreases vehicles@.len() - i,
        {
            let vehicle = crate::pipeline::copy_vehicle(&vehicles[i]);
            let driver = crate::pipeline::copy_driver(&drivers[0]);
            let detail = if vehicle.details.len() > 0 {
                vehicle.details[0]
            } else {
                VehicleDetail { start: None, end: None }
            };
            actors.push(Actor { vehicle, driver, detail, idx: i as u64 });
            i = i + 1;
        }
        Fleet { drivers, vehicles, actors }
    }
}

/// The transport oracle: distances and durations between locations.
pub trait TransportCost {
    /// Whether the oracle is well formed: every leg lies in `[0, MAX_LEG]`.
    spec fn wf(&self) -> bool;

    /// The duration the oracle reports between two locations for a profile.
    spec fn spec_duration(&self, profile: usize, from: Location, to: Location) -> Duration;

    /// The distance the oracle reports between two locations for a profile.
    spec fn spec_distance(&self, profile: usize, from: Location, to: Location) -> Distance;

    /// Profile-based duration estimate.
    fn duration_approx(&self, profile: usize, from: Location, to: Location) -> (r: Duration)
        ensures
            r == self.spec_duration(profile, from, to),
            self.wf() ==> 0 <= r <= MAX_LEG,
    ;

    /// Profile-based distance estimate.
    fn distance_approx(&self, profile: usize, from: Location, to: Location) -> (r: Distance)
        ensures
            r == self.spec_distance(profile, from, to),
            self.wf() ==> 0 <= r <= MAX_LEG,
    ;

    /// Duration of one leg departed at the given time.
    fn duration(&self, profile: usize, from: Location, to: Location, departure: Timestamp) -> (r:
        Duration)
        ensures
            r == self.spec_duration(profile, from, to),
            self.wf() ==> 0 <= r <= MAX_LEG,
    ;

    /// Distance of one leg departed at the given time.
    fn distance(&self, profile: usize, from: Location, to: Location, departure: Timestamp) -> (r:
        Distance)
        ensures
            r == self.spec_distance(profile, from, to),
            self.wf() ==> 0 <= r <= MAX_LEG,
    ;
}

/// The transport oracle held by a problem: a square matrix per profile, or a
/// uniform value for every leg.
#[derive(Clone, Debug)]
pub enum TransportPayload {
    /// One square matrix of `(duration, distance)` pairs, row-major, shared
    /// by all profiles.
    Matrix(TransportMatrix),
    /// The same duration and distance for every leg.
    Uniform(i64),
}

/// A square routing matrix: `durations[from * size + to]`.
#[derive(Clone, Debug)]
pub struct TransportMatrix {
    /// Number of locations.
    pub size: usize,
    /// Durations, row-major.
    pub durations: Vec<Duration>,
    /// Distances, row-major.
    pub distances: Vec<Distance>,
}

impl TransportMatrix {
    /// The matrix is square and every entry lies in `[0, MAX_LEG]`.
    pub open spec fn wf(&self) -> bool {
        &&& self.size * self.size == self.durations@.len()
        &&& self.durations@.len() == self.distances@.len()
        &&& self.size < 1048576
        &&& forall|i: int|
            0 <= i < self.durations@.len() ==> 0 <= #[trigger] self.durations@[i] <= MAX_LEG
        &&& forall|i: int|
            0 <= i < self.distances@.len() ==> 0 <= #[trigger] self.distances@[i] <= MAX_LEG
    }

    /// The duration entry for a leg, zero when out of range.
    pub open spec fn spec_duration_at(&self, from: Location, to: Location) -> Duration {
        if from < self.size && to < self.size && from * self.size + to < self.durations@.len() {
            self.durations@[from * self.size + to]
        } else {
            0
        }
    }

    /// The distance entry for a leg, zero when out of range.
    pub open spec fn spec_distance_at(&self, from: Location, to: Location) -> Distance {
        if from < self.size && to < self.size && from * self.size + to < self.distances@.len() {
            self.distances@[from * self.size + to]
        } else {
            0
        }
    }
}

impl TransportPayload {
    /// Looks one leg up in the matrix, or returns the uniform value.
    fn leg(&self, from: Location, to: Location, pick_duration: bool) -> (r: i64)
        ensures
            r == if pick_duration {
                self.spec_duration(0, from, to)
            } else {
                self.spec_distance(0, from, to)
            },
            self.wf() ==> 0 <= r <= MAX_LEG,
    {
        match self {
            TransportPayload::Matrix(m) => {
                if from < m.size && to < m.size {
                    proof {
                        assert((from as u128) * (m.size as u128) <= 0xFFFFFFFFFFFFFFFFu128
                            * 0xFFFFFFFFFFFFFFFFu128) by (nonlinear_arith)
                            requires
                                from as u128 <= 0xFFFFFFFFFFFFFFFFu128,
                                m.size as u128 <= 0xFFFFFFFFFFFFFFFFu128,
                        ;
                    }
                    let wide: u128 = (from as u128) * (m.size as u128) + (to as u128);
                    if pick_duration {
                        if wide < m.durations.len() as u128 {
                            m.durations[wide as usize]
                        } else {
                            0
                        }
                    } else {
                        if wide < m.distances.len() as u128 {
                            m.distances[wide as usize]
                        } else {
                            0
                        }
                    }
                } else {
                    0
                }
            },
            TransportPayload::Uniform(v) => *v,
        }
    }
}

impl TransportCost for TransportPayload {
    open spec fn wf(&self) -> bool {
        match self {
            TransportPayload::Matrix(m) => m.wf(),
            TransportPayload::Uniform(v) => 0 <= *v <= MAX_LEG,
        }
    }

    open spec fn spec_duration(&self, profile: usize, from: Location, to: Location) -> Duration {
        match self {
            TransportPayload::Matrix(m) => m.spec_duration_at(from, to),
            TransportPayload::Uniform(v) => *v,
        }
    }

    open spec fn spec_distance(&self, profile: usize, from: Location, to: Location) -> Distance {
        match self {
            TransportPayload::Matrix(m) => m.spec_distance_at(from, to),
            TransportPayload::Uniform(v) => *v,
        }
    }

    fn duration_approx(&self, profile: usize, from: Location, to: Location) -> (r: Duration) {
        self.leg(from, to, true)
    }

    fn distance_approx(&self, profile: usize, from: Location, to: Location) -> (r: Distance) {
        self.leg(from, to, false)
    }

    fn duration(&self, profile: usize, from: Location, to: Location, departure: Timestamp) -> (r:
        Duration) {
        self.leg(from, to, true)
    }

    fn distance(&self, profile: usize, from: Location, to: Location, departure: Timestamp) -> (r:
        Distance) {
        self.leg(from, to, false)
    }
}


/// The problem definition shared read-only for a whole run.
pub struct Problem {
    /// The fleet.
    pub fleet: Fleet,
    /// The job universe.
    pub jobs: Vec<Job>,
    /// Indices of jobs locked to their routes.
    pub locks: Vec<u64>,
    /// The constraint pipeline.
    pub constraint: crate::pipeline::ConstraintPipeline,
    /// The transport oracle.
    pub transport: TransportPayload,
}

} // verus!
