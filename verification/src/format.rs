//! Solution output model: the document shape a solved problem is rendered
//! into. Times are RFC3339 strings; quantities are integers.

use vstd::prelude::*;

use crate::common::{Cost, Location};

verus! {

/// Timing statistic.
#[derive(Clone, Debug)]
pub struct Timing {
    /// Driving time.
    pub driving: i64,
    /// Serving time.
    pub serving: i64,
    /// Waiting time.
    pub waiting: i64,
    /// Break time.
    pub break_time: i64,
}

/// Statistic of a tour or a whole solution.
#[derive(Clone, Debug)]
pub struct Statistic {
    /// Total cost.
    pub cost: Cost,
    /// Total distance.
    pub distance: i64,
    /// Total duration.
    pub duration: i64,
    /// Timing statistic.
    pub times: Timing,
}

impl Statistic {
    /// An all-zero statistic.
    pub fn zero() -> (r: Statistic)
        ensures
            r.cost == 0,
            r.distance == 0,
            r.duration == 0,
            r.times.driving == 0,
            r.times.serving == 0,
            r.times.waiting == 0,
            r.times.break_time == 0,
    {
        Statistic {
            cost: 0,
            distance: 0,
            duration: 0,
            times: Timing { driving: 0, serving: 0, waiting: 0, break_time: 0 },
        }
    }
}

/// A schedule rendered with RFC3339 timestamps.
#[derive(Clone, Debug)]
pub struct Schedule {
    /// Arrival time.
    pub arrival: String,
    /// Departure time.
    pub departure: String,
}

/// A time interval rendered with RFC3339 timestamps.
#[derive(Clone, Debug)]
pub struct Interval {
    /// Start time.
    pub start: String,
    /// End time.
    pub end: String,
}

/// A unit of work performed at some place.
#[derive(Clone, Debug)]
pub struct Activity {
    /// Job id.
    pub job_id: String,
    /// Activity type.
    pub activity_type: String,
    /// Location, when it differs from the stop's.
    pub location: Option<Location>,
    /// Active time, when it differs from the stop's.
    pub time: Option<Interval>,
    /// Job tag.
    pub job_tag: Option<String>,
}

/// A place where the vehicle is parked while activities are performed.
#[derive(Clone, Debug)]
pub struct Stop {
    /// Stop location.
    pub location: Location,
    /// Stop schedule.
    pub time: Schedule,
    /// Distance travelled since departure from the start.
    pub distance: i64,
    /// Vehicle load after departure from this stop.
    pub load: Vec<i32>,
    /// Activities performed at the stop.
    pub activities: Vec<Activity>,
}

/// One vehicle's list of stops with their activities.
#[derive(Clone, Debug)]
pub struct Tour {
    /// Vehicle id.
    pub vehicle_id: String,
    /// Vehicle type id.
    pub type_id: String,
    /// Shift index.
    pub shift_index: usize,
    /// The stops.
    pub stops: Vec<Stop>,
    /// Tour statistic.
    pub statistic: Statistic,
}

/// Why a job was not assigned.
#[derive(Clone, Debug)]
pub struct UnassignedJobReason {
    /// A reason code.
    pub code: i32,
    /// Description.
    pub description: String,
}

/// An unassigned job with its reasons.
#[derive(Clone, Debug)]
pub struct UnassignedJob {
    /// Job id.
    pub job_id: String,
    /// Possible reasons.
    pub reasons: Vec<UnassignedJobReason>,
}

/// A constraint violation worth reporting in the output.
#[derive(Clone, Debug)]
pub enum Violation {
    /// A break assignment violation.
    Break {
        /// Id of the vehicle the break belongs to.
        vehicle_id: String,
        /// Index of the shift.
        shift_index: usize,
        /// The reason of the violation.
        reason: String,
    },
}

/// Essential information about one individual of a recorded generation.
#[derive(Clone, Debug)]
pub struct Individual {
    /// Total number of tours.
    pub tours: u64,
    /// Total number of unassigned jobs.
    pub unassigned: u64,
    /// Solution cost.
    pub cost: Cost,
    /// Cost difference from the best individual.
    pub improvement: Cost,
    /// Objective fitness values.
    pub fitness: Vec<Cost>,
}

/// Information about one recorded generation.
#[derive(Clone, Debug)]
pub struct Generation {
    /// Generation sequence number.
    pub number: u64,
    /// Seconds since the evolution started.
    pub timestamp_secs: u64,
    /// Population state.
    pub population: Vec<Individual>,
}

/// Measurements of one algorithm run.
#[derive(Clone, Debug)]
pub struct Metrics {
    /// Total algorithm duration in seconds.
    pub duration: u64,
    /// Total number of generations.
    pub generations: u64,
    /// Speed in generations per thousand seconds.
    pub speed_milli: i64,
    /// Evolution progress.
    pub evolution: Vec<Generation>,
}

/// Extra information attached to a solution.
#[derive(Clone, Debug)]
pub struct Extras {
    /// Telemetry metrics.
    pub metrics: Option<Metrics>,
}

/// A rendered solution.
#[derive(Clone, Debug)]
pub struct Solution {
    /// Total statistic.
    pub statistic: Statistic,
    /// The tours.
    pub tours: Vec<Tour>,
    /// Unassigned jobs, when any.
    pub unassigned: Option<Vec<UnassignedJob>>,
    /// Constraint violations, when any.
    pub violations: Option<Vec<Violation>>,
    /// Extra information.
    pub extras: Option<Extras>,
}

impl Solution {
    /// A solution with no tours: every job unassigned.
    pub fn empty() -> (r: Solution)
        ensures
            r.tours@.len() == 0,
            r.unassigned is None,
            r.violations is None,
            r.extras is None,
    {
        Solution {
            statistic: Statistic::zero(),
            tours: Vec::new(),
            unassigned: None,
            violations: None,
            extras: None,
        }
    }
}

} // verus!
