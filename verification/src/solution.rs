//! Solution domain model: activities, tours and routes.

use vstd::prelude::*;

use crate::common::{Demand, Duration, Location, ScheduleTimes, TimeWindow};
use crate::problem::{Actor, Single};

verus! {

/// The place one activity is performed at.
#[derive(Clone, Debug)]
pub struct ActivityPlace {
    /// Location index.
    pub location: Location,
    /// Service duration.
    pub duration: Duration,
    /// Operation time window.
    pub time: TimeWindow,
}

/// A unit of work performed at some place, or a start / end marker of the
/// tour (whose `job` is `None`).
#[derive(Clone, Debug)]
pub struct Activity {
    /// Where the work happens.
    pub place: ActivityPlace,
    /// Arrival and departure.
    pub schedule: ScheduleTimes,
    /// The single visit served here, when this is a job activity.
    pub job: Option<Single>,
}

impl Activity {
    /// The demand served at this activity, when its job carries one.
    pub open spec fn spec_demand(&self) -> Option<Demand> {
        match self.job {
            Some(single) => single.dimens.demand,
            None => None,
        }
    }

    /// The demand served at this activity, when its job carries one.
    pub fn demand(&self) -> (r: Option<&Demand>)
        ensures
            match r {
                Some(d) => self.spec_demand() == Some(*d),
                None => self.spec_demand() is None,
            },
    {
        match &self.job {
            Some(single) => single.dimens.demand.as_ref(),
            None => None,
        }
    }
}

/// An ordered sequence of activities, starting at the vehicle's start place
/// and optionally ending at its end place.
#[derive(Clone, Debug)]
pub struct Tour {
    /// The activities, in visit order.
    pub activities: Vec<Activity>,
}

impl Tour {
    /// An empty tour.
    pub fn new() -> (r: Tour)
        ensures
            r.activities@.len() == 0,
    {
        Tour { activities: Vec::new() }
    }

    /// Total number of activities, start and end included.
    pub fn total(&self) -> (r: usize)
        ensures
            r == self.activities@.len(),
    {
        self.activities.len()
    }

    /// The activity at the given index.
    pub fn get(&self, index: usize) -> (r: Option<&Activity>)
        ensures
            match r {
                Some(a) => index < self.activities@.len() && *a == self.activities@[index as int],
                None => index >= self.activities@.len(),
            },
    {
        if index < self.activities.len() {
            Some(&self.activities[index])
        } else {
            None
        }
    }

    /// The last activity, if any.
    pub fn end(&self) -> (r: Option<&Activity>)
        ensures
            match r {
                Some(a) => self.activities@.len() > 0 && *a == self.activities@[self.activities@.len()
                    - 1],
                None => self.activities@.len() == 0,
            },
    {
        if self.activities.len() > 0 {
            Some(&self.activities[self.activities.len() - 1])
        } else {
            None
        }
    }

    /// Number of job activities in the tour.
    pub open spec fn spec_job_activity_count(&self) -> int {
        Self::count_jobs(self.activities@)
    }

    /// Number of activities of a sequence that serve a job.
    pub open spec fn count_jobs(s: Seq<Activity>) -> int
        decreases s.len(),
    {
        if s.len() == 0 {
            0
        } else {
            Self::count_jobs(s.drop_last()) + if s.last().job is Some {
                1int
            } else {
                0int
            }
        }
    }

    /// Counts the activities that serve a job.
    pub fn job_activity_count(&self) -> (r: usize)
        ensures
            r == self.spec_job_activity_count(),
    {
        let mut count: usize = 0;
        let mut i: usize = 0;
        proof {
            assert(Self::count_jobs(self.activities@.subrange(0, 0)) == 0);
        }
        while i < self.activities.len()
            invariant
                0 <= i <= self.activities@.len(),
                count <= i,
                count == Self::count_jobs(self.activities@.subrange(0, i as int)),
            decreases self.activities@.len() - i,
        {
            proof {
                assert(self.activities@.subrange(0, i + 1).drop_last() == self.activities@.subrange(
                    0,
                    i as int,
                ));
                assert(self.activities@.subrange(0, i + 1).last() == self.activities@[i as int]);
            }
            if self.activities[i].job.is_some() {
                count = count + 1;
            }
            i = i + 1;
        }
        proof {
            assert(self.activities@.subrange(0, self.activities@.len() as int) == self.activities@);
        }
        count
    }
}

/// A vehicle tour bound to an actor.
#[derive(Clone, Debug)]
pub struct Route {
    /// The actor serving the tour.
    pub actor: Actor,
    /// The tour itself.
    pub tour: Tour,
}

} // verus!
