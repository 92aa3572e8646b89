//! Contexts: snapshots of a candidate solution and of one route within it.

use vstd::prelude::*;

use crate::problem::Job;
use crate::solution::Route;
use crate::state::{IntStateMap, RouteState};

verus! {

/// Why a job is unassigned.
#[derive(Clone, Copy, PartialEq, Eq, Structural, Debug)]
pub enum UnassignmentInfo {
    /// A constraint violation code.
    Simple(i32),
    /// No reason recorded.
    Unknown,
}

/// One route together with its accumulated state.
#[derive(Clone, Debug)]
pub struct RouteContext {
    /// The route.
    pub route: Route,
    /// The accumulated state of the route.
    pub state: RouteState,
    /// Whether the route was mutated since the state was last recalculated.
    pub stale: bool,
}

impl RouteContext {
    /// A fresh context over a route, with empty state, marked stale.
    pub fn new(route: Route) -> (r: RouteContext)
        ensures
            r.route == route,
            r.stale,
            r.state.current_capacities is None,
            r.state.max_past_capacities is None,
            r.state.max_future_capacities is None,
            r.state.max_load is None,
            r.state.reload_intervals is None,
            r.state.recharge_distances is None,
            r.state.recharge_intervals is None,
    {
        RouteContext { route, state: RouteState::empty(), stale: true }
    }

    /// Whether the route was mutated since the last recalculation.
    pub fn is_stale(&self) -> (r: bool)
        ensures
            r == self.stale,
    {
        self.stale
    }

    /// Marks the context stale or fresh.
    pub fn mark_stale(&mut self, stale: bool)
        ensures
            *final(self) == (RouteContext { stale, ..*old(self) }),
    {
        self.stale = stale;
    }
}

/// A candidate solution: routes, unassigned jobs with their reason codes,
/// conditional job sets and solution-wide state.
#[derive(Clone, Debug)]
pub struct SolutionContext {
    /// The routes of the candidate.
    pub routes: Vec<RouteContext>,
    /// Unassigned jobs: `(job index, reason)`.
    pub unassigned: Vec<(u64, UnassignmentInfo)>,
    /// Jobs that still must be inserted.
    pub required: Vec<Job>,
    /// Jobs ignored by the insertion search.
    pub ignored: Vec<Job>,
    /// Jobs locked to their routes.
    pub locked: Vec<Job>,
    /// Solution-wide integer state values.
    pub state: IntStateMap,
}

impl SolutionContext {
    /// An empty candidate.
    pub fn empty() -> (r: SolutionContext)
        ensures
            r.routes@.len() == 0,
            r.unassigned@.len() == 0,
            r.required@.len() == 0,
            r.ignored@.len() == 0,
            r.locked@.len() == 0,
            r.state@ == Map::<i32, i64>::empty(),
    {
        SolutionContext {
            routes: Vec::new(),
            unassigned: Vec::new(),
            required: Vec::new(),
            ignored: Vec::new(),
            locked: Vec::new(),
            state: IntStateMap::new(),
        }
    }
}

} // verus!
