//! Common scalar types and the demand model shared by the whole engine.
//!
//! All physical quantities (cost, distance, duration, load) are integers:
//! the engine's arithmetic is exact and proved free of overflow under the
//! stated bounds.

use vstd::prelude::*;

verus! {

/// A cost value (monetary units).
pub type Cost = i64;

/// A travelled distance.
pub type Distance = i64;

/// A travel or service duration.
pub type Duration = i64;

/// A point in time.
pub type Timestamp = i64;

/// An index into the routing matrix.
pub type Location = usize;

/// A single load dimension value.
pub type Load = i64;

/// Upper bound on one demand component admitted on a route, so that sums
/// over a whole tour stay well inside `i64`.
pub const MAX_DEMAND: i64 = 1048576;

/// Upper bound on the number of activities in one tour.
pub const MAX_ACTIVITIES: usize = 1048576;

/// A time window with inclusive bounds.
#[derive(Clone, Copy, PartialEq, Eq, Structural, Debug)]
pub struct TimeWindow {
    /// Earliest admissible time.
    pub start: Timestamp,
    /// Latest admissible time.
    pub end: Timestamp,
}

/// Arrival and departure times of one activity.
#[derive(Clone, Copy, PartialEq, Eq, Structural, Debug)]
pub struct ScheduleTimes {
    /// Arrival time.
    pub arrival: Timestamp,
    /// Departure time.
    pub departure: Timestamp,
}

/// An exact quotient kept as a numerator / denominator pair, used where the
/// engine reports a ratio (for example max load over vehicle capacity).
#[derive(Clone, Copy, PartialEq, Eq, Structural, Debug)]
pub struct Ratio {
    /// Numerator.
    pub num: i64,
    /// Denominator.
    pub den: i64,
}

/// A demand of one job visit: fixed components are loaded at the interval
/// start (deliveries) or carried to the interval end (pickups); dynamic
/// components change the load at the activity itself.
#[derive(Clone, Copy, PartialEq, Eq, Structural, Debug)]
pub struct Demand {
    /// Pickup loaded at the activity and carried to the interval end.
    pub pickup_fixed: Load,
    /// Pickup that only changes the load at the activity itself.
    pub pickup_dynamic: Load,
    /// Delivery loaded at the interval start.
    pub delivery_fixed: Load,
    /// Delivery that only changes the load at the activity itself.
    pub delivery_dynamic: Load,
}

impl Demand {
    /// All components are non-negative.
    pub open spec fn wf(self) -> bool {
        &&& self.pickup_fixed >= 0
        &&& self.pickup_dynamic >= 0
        &&& self.delivery_fixed >= 0
        &&& self.delivery_dynamic >= 0
    }

    /// All components lie in `[0, MAX_DEMAND]`.
    pub open spec fn bounded(self) -> bool {
        &&& self.wf()
        &&& self.pickup_fixed <= MAX_DEMAND
        &&& self.pickup_dynamic <= MAX_DEMAND
        &&& self.delivery_fixed <= MAX_DEMAND
        &&& self.delivery_dynamic <= MAX_DEMAND
    }

    /// Net load change caused by serving this demand.
    pub open spec fn spec_change(self) -> int {
        self.pickup_fixed + self.pickup_dynamic - self.delivery_fixed - self.delivery_dynamic
    }

    /// A demand with all components zero.
    pub fn empty() -> (r: Demand)
        ensures
            r == (Demand { pickup_fixed: 0, pickup_dynamic: 0, delivery_fixed: 0, delivery_dynamic: 0 }),
    {
        Demand { pickup_fixed: 0, pickup_dynamic: 0, delivery_fixed: 0, delivery_dynamic: 0 }
    }

    /// Net load change caused by serving this demand.
    pub fn change(&self) -> (r: Load)
        requires
            self.bounded(),
        ensures
            r == self.spec_change(),
    {
        self.pickup_fixed + self.pickup_dynamic - self.delivery_fixed - self.delivery_dynamic
    }

    /// Whether any component is non-zero.
    pub fn is_not_empty(&self) -> (r: bool)
        ensures
            r == (self.pickup_fixed != 0 || self.pickup_dynamic != 0 || self.delivery_fixed != 0
                || self.delivery_dynamic != 0),
    {
        self.pickup_fixed != 0 || self.pickup_dynamic != 0 || self.delivery_fixed != 0 || self.delivery_dynamic != 0
    }

    /// Whether the component-wise sum of two demands stays within `i64`.
    pub open spec fn spec_sum_fits(self, other: Demand) -> bool {
        &&& self.pickup_fixed + other.pickup_fixed <= i64::MAX
        &&& self.pickup_dynamic + other.pickup_dynamic <= i64::MAX
        &&& self.delivery_fixed + other.delivery_fixed <= i64::MAX
        &&& self.delivery_dynamic + other.delivery_dynamic <= i64::MAX
    }

    /// The component-wise sum of two demands.
    pub open spec fn spec_sum(self, other: Demand) -> Demand {
        Demand {
            pickup_fixed: (self.pickup_fixed + other.pickup_fixed) as i64,
            pickup_dynamic: (self.pickup_dynamic + other.pickup_dynamic) as i64,
            delivery_fixed: (self.delivery_fixed + other.delivery_fixed) as i64,
            delivery_dynamic: (self.delivery_dynamic + other.delivery_dynamic) as i64,
        }
    }

    /// Component-wise sum of two demands; `None` when a component would
    /// overflow `i64`.
    pub fn checked_add(&self, other: &Demand) -> (r: Option<Demand>)
        requires
            self.wf(),
            other.wf(),
        ensures
            match r {
                Some(d) => {
                    &&& d.pickup_fixed == self.pickup_fixed + other.pickup_fixed
                    &&& d.pickup_dynamic == self.pickup_dynamic + other.pickup_dynamic
                    &&& d.delivery_fixed == self.delivery_fixed + other.delivery_fixed
                    &&& d.delivery_dynamic == self.delivery_dynamic + other.delivery_dynamic
                },
                None => {
                    ||| self.pickup_fixed + other.pickup_fixed > i64::MAX
                    ||| self.pickup_dynamic + other.pickup_dynamic > i64::MAX
                    ||| self.delivery_fixed + other.delivery_fixed > i64::MAX
                    ||| self.delivery_dynamic + other.delivery_dynamic > i64::MAX
                },
            },
            r is Some <==> {
                &&& self.pickup_fixed + other.pickup_fixed <= i64::MAX
                &&& self.pickup_dynamic + other.pickup_dynamic <= i64::MAX
                &&& self.delivery_fixed + other.delivery_fixed <= i64::MAX
                &&& self.delivery_dynamic + other.delivery_dynamic <= i64::MAX
            },
    {
        if self.pickup_fixed > i64::MAX - other.pickup_fixed {
            return None;
        }
        if self.pickup_dynamic > i64::MAX - other.pickup_dynamic {
            return None;
        }
        if self.delivery_fixed > i64::MAX - other.delivery_fixed {
            return None;
        }
        if self.delivery_dynamic > i64::MAX - other.delivery_dynamic {
            return None;
        }
        Some(
            Demand {
                pickup_fixed: self.pickup_fixed + other.pickup_fixed,
                pickup_dynamic: self.pickup_dynamic + other.pickup_dynamic,
                delivery_fixed: self.delivery_fixed + other.delivery_fixed,
                delivery_dynamic: self.delivery_dynamic + other.delivery_dynamic,
            },
        )
    }
}

/// Whether a load fits a capacity: a load fits as long as it does not
/// exceed the capacity, so a negative load (a delivery drawn from a later
/// reload) always fits.
pub open spec fn spec_can_fit(capacity: Load, load: int) -> bool {
    load <= capacity
}

/// Executable check of `spec_can_fit`.
pub fn can_fit(capacity: Load, load: Load) -> (r: bool)
    ensures
        r == spec_can_fit(capacity, load as int),
{
    load <= capacity
}

/// Saturating addition of two costs.
pub open spec fn spec_sat_add(a: int, b: int) -> int {
    if a + b > i64::MAX {
        i64::MAX as int
    } else if a + b < i64::MIN {
        i64::MIN as int
    } else {
        a + b
    }
}

/// Adds two costs, saturating at the integer bounds.
pub fn sat_add(a: Cost, b: Cost) -> (r: Cost)
    ensures
        r == spec_sat_add(a as int, b as int),
{
    let wide = (a as i128) + (b as i128);
    if wide > i64::MAX as i128 {
        i64::MAX
    } else if wide < i64::MIN as i128 {
        i64::MIN
    } else {
        wide as i64
    }
}

/// Maximum of two loads.
pub fn max_load(a: Load, b: Load) -> (r: Load)
    ensures
        r == if a >= b {
            a
        } else {
            b
        },
{
    if a >= b {
        a
    } else {
        b
    }
}

} // verus!
